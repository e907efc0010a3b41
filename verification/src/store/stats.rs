//! Session metrics: what the stats bar and the context meter show.
//!
//! Durations are not computed here: the library names the pairs of time stamps whose
//! differences add up to them, and the stamps keep the bit pattern they have on the wire.

use vstd::prelude::*;

use crate::store::event_data::{EventData, EventDataView};
use crate::store::node::{ChatNode, ChatNodeView, NodeData, NodeDataView};
use crate::store::session::{SessionState, SessionView};
use crate::store::stored::{StoredEvent, StoredEventView};

verus! {

/// Aggregate metrics of one session.
#[derive(Debug, Clone, PartialEq, Eq)]
pub struct SessionStats {
    /// Distinct turns with model activity.
    pub turns: u64,
    /// Distinct (turn, step) pairs of assistant and tool nodes.
    pub steps: u64,
    pub input_tokens: i64,
    pub output_tokens: i64,
    pub cache_read_tokens: i64,
    pub cache_write_tokens: i64,
    /// The context window that the newest `request/context` event reports.
    pub context_window: Option<i64>,
    /// Start and end of every turn that lies wholly in the window.
    pub llm_spans: Vec<(u64, u64)>,
    /// Start and first chunk of every such turn that streamed.
    pub first_token_spans: Vec<(u64, u64)>,
    /// Call and result of every settled tool call.
    pub tool_spans: Vec<(u64, u64)>,
}

/// What [`SessionStats`] stand for.
#[verifier::ext_equal]
pub struct StatsView {
    pub turns: nat,
    pub steps: nat,
    pub input_tokens: int,
    pub output_tokens: int,
    pub cache_read_tokens: int,
    pub cache_write_tokens: int,
    pub context_window: Option<i64>,
    pub llm_spans: Seq<(u64, u64)>,
    pub first_token_spans: Seq<(u64, u64)>,
    pub tool_spans: Seq<(u64, u64)>,
}

impl View for SessionStats {
    type V = StatsView;

    open spec fn view(&self) -> StatsView {
        StatsView {
            turns: self.turns as nat,
            steps: self.steps as nat,
            input_tokens: self.input_tokens as int,
            output_tokens: self.output_tokens as int,
            cache_read_tokens: self.cache_read_tokens as int,
            cache_write_tokens: self.cache_write_tokens as int,
            context_window: self.context_window,
            llm_spans: self.llm_spans@,
            first_token_spans: self.first_token_spans@,
            tool_spans: self.tool_spans@,
        }
    }
}

/// The turn that a node shows activity of.
pub open spec fn node_turn(node: ChatNodeView) -> Option<i64> {
    match node.data {
        NodeDataView::Assistant { turn, .. } => Some(turn),
        NodeDataView::TurnError { turn, .. } => Some(turn),
        NodeDataView::TurnMaxTokens { turn } => Some(turn),
        _ => None,
    }
}

/// The (turn, step) that a node belongs to.
pub open spec fn node_step(node: ChatNodeView) -> Option<(i64, i64)> {
    match node.data {
        NodeDataView::Assistant { turn, step, .. } => Some((turn, step)),
        NodeDataView::Tool { call: Some(call), .. } => Some((call.turn, call.step)),
        _ => None,
    }
}

/// The distinct turns of the nodes.
pub open spec fn turns_of(nodes: Seq<ChatNodeView>) -> Set<i64>
    decreases nodes.len(),
{
    if nodes.len() == 0 {
        Set::empty()
    } else {
        let rest = turns_of(nodes.drop_last());
        match node_turn(nodes.last()) {
            Some(t) => rest.insert(t),
            None => rest,
        }
    }
}

/// The distinct steps of the nodes.
pub open spec fn steps_of(nodes: Seq<ChatNodeView>) -> Set<(i64, i64)>
    decreases nodes.len(),
{
    if nodes.len() == 0 {
        Set::empty()
    } else {
        let rest = steps_of(nodes.drop_last());
        match node_step(nodes.last()) {
            Some(s) => rest.insert(s),
            None => rest,
        }
    }
}

/// Token counts, kind by kind.
pub struct TokenTotals {
    pub input: int,
    pub output: int,
    pub cache_read: int,
    pub cache_write: int,
}

/// An optional count: absent counts as zero.
pub open spec fn or_zero(n: Option<i64>) -> int {
    match n {
        Some(n) => n as int,
        None => 0,
    }
}

/// The usage of the assistant nodes, added up.
pub open spec fn token_totals(nodes: Seq<ChatNodeView>) -> TokenTotals
    decreases nodes.len(),
{
    if nodes.len() == 0 {
        TokenTotals { input: 0, output: 0, cache_read: 0, cache_write: 0 }
    } else {
        let rest = token_totals(nodes.drop_last());
        match nodes.last().data {
            NodeDataView::Assistant { usage: Some(u), .. } => TokenTotals {
                input: rest.input + u.input_tokens,
                output: rest.output + u.output_tokens,
                cache_read: rest.cache_read + or_zero(u.cache_read_tokens),
                cache_write: rest.cache_write + or_zero(u.cache_write_tokens),
            },
            _ => rest,
        }
    }
}

/// Whether the totals are `i64` values.
pub open spec fn totals_fit(t: TokenTotals) -> bool {
    &&& i64::MIN <= t.input <= i64::MAX
    &&& i64::MIN <= t.output <= i64::MAX
    &&& i64::MIN <= t.cache_read <= i64::MAX
    &&& i64::MIN <= t.cache_write <= i64::MAX
}

/// The time stamps of the settled calls whose call and result are both known.
pub open spec fn tool_spans_of(nodes: Seq<ChatNodeView>) -> Seq<(u64, u64)>
    decreases nodes.len(),
{
    if nodes.len() == 0 {
        Seq::empty()
    } else {
        let rest = tool_spans_of(nodes.drop_last());
        match nodes.last().data {
            NodeDataView::Tool { result: Some(r), .. } => match (r.call_time, r.result_time) {
                (Some(start), Some(end)) => rest.push((start, end)),
                _ => rest,
            },
            _ => rest,
        }
    }
}

/// The timing of a window, event by event: the turn that is open with its start, its first
/// chunk, and the spans measured so far.
pub struct Timing {
    pub open: Option<(i64, u64)>,
    pub first_chunk: Option<u64>,
    pub llm: Seq<(u64, u64)>,
    pub first_token: Seq<(u64, u64)>,
}

/// The timing after one event. A turn counts only where its start and its end are both in
/// the window; turns do not overlap.
pub open spec fn timing_step(t: Timing, e: StoredEventView) -> Timing {
    match e.data {
        EventDataView::TurnStart { turn } => Timing {
            open: Some((turn, e.event.time)),
            first_chunk: None,
            ..t
        },
        EventDataView::AssistantChunk { turn, .. } => match t.open {
            Some((open, start)) => if open == turn && t.first_chunk is None {
                Timing { first_chunk: Some(e.event.time), ..t }
            } else {
                t
            },
            None => t,
        },
        EventDataView::TurnEnd { turn, .. } => {
            let closed = Timing { open: None, first_chunk: None, ..t };
            match t.open {
                Some((open, start)) => if open == turn {
                    Timing {
                        llm: t.llm.push((start, e.event.time)),
                        first_token: match t.first_chunk {
                            Some(chunk) => t.first_token.push((start, chunk)),
                            None => t.first_token,
                        },
                        ..closed
                    }
                } else {
                    closed
                },
                None => closed,
            }
        },
        _ => t,
    }
}

/// The timing of a window.
pub open spec fn timing(events: Seq<StoredEventView>) -> Timing
    decreases events.len(),
{
    if events.len() == 0 {
        Timing { open: None, first_chunk: None, llm: Seq::empty(), first_token: Seq::empty() }
    } else {
        timing_step(timing(events.drop_last()), events.last())
    }
}

/// The context window that the newest `request/context` event reports.
pub open spec fn newest_context(events: Seq<StoredEventView>) -> Option<i64>
    decreases events.len(),
{
    if events.len() == 0 {
        None
    } else {
        match events.last().data {
            EventDataView::RequestContext { context_window, .. } => context_window,
            _ => newest_context(events.drop_last()),
        }
    }
}

/// Whether a value is among the items.
fn among(items: &Vec<i64>, value: i64) -> (r: bool)
    ensures
        r == items@.contains(value),
{
    let mut i: usize = 0;
    while i < items.len()
        invariant
            i <= items.len(),
            forall|k: int| 0 <= k < i ==> items@[k] != value,
        decreases items.len() - i,
    {
        if items[i] == value {
            return true;
        }
        i = i + 1;
    }
    false
}

/// Whether a pair is among the items.
fn pair_among(items: &Vec<(i64, i64)>, value: (i64, i64)) -> (r: bool)
    ensures
        r == items@.contains(value),
{
    let mut i: usize = 0;
    while i < items.len()
        invariant
            i <= items.len(),
            forall|k: int| 0 <= k < i ==> items@[k] != value,
        decreases items.len() - i,
    {
        if items[i].0 == value.0 && items[i].1 == value.1 {
            return true;
        }
        i = i + 1;
    }
    false
}

proof fn lemma_push_distinct<T>(items: Seq<T>, value: T)
    requires
        items.no_duplicates(),
        !items.contains(value),
    ensures
        items.push(value).no_duplicates(),
        items.push(value).to_set() == items.to_set().insert(value),
{
    let out = items.push(value);
    assert forall|i: int, j: int| 0 <= i < out.len() && 0 <= j < out.len() && i != j implies out[i]
        != out[j] by {
        if i < items.len() && j == items.len() {
            assert(items.contains(items[i]));
        }
        if j < items.len() && i == items.len() {
            assert(items.contains(items[j]));
        }
    }
    assert forall|x: T| #[trigger] out.to_set().contains(x) == items.to_set().insert(
        value,
    ).contains(x) by {
        if items.to_set().contains(x) {
            let k = choose|k: int| 0 <= k < items.len() && items[k] == x;
            assert(out[k] == x);
        }
        if x == value {
            assert(out[items.len() as int] == x);
        }
        if out.contains(x) {
            let k = choose|k: int| 0 <= k < out.len() && out[k] == x;
            if k < items.len() {
                assert(items[k] == x);
            }
        }
    }
    assert(out.to_set() =~= items.to_set().insert(value));
}

/// The number of distinct turns.
fn count_turns(nodes: &Vec<ChatNode>) -> (r: usize)
    ensures
        r == turns_of(crate::text::views(nodes@)).len(),
{
    let mut seen: Vec<i64> = Vec::new();
    let mut i: usize = 0;
    let ghost all = crate::text::views(nodes@);
    proof {
        assert(seen@.to_set() =~= Set::empty());
        assert(all.take(0) =~= Seq::empty());
    }
    while i < nodes.len()
        invariant
            i <= nodes.len(),
            all == crate::text::views(nodes@),
            seen@.no_duplicates(),
            seen@.to_set() == turns_of(all.take(i as int)),
        decreases nodes.len() - i,
    {
        proof {
            assert(all.take(i + 1).drop_last() =~= all.take(i as int));
            assert(all.take(i + 1).last() == nodes@[i as int]@);
        }
        let turn = match &nodes[i].data {
            NodeData::Assistant { turn, .. } => Some(*turn),
            NodeData::TurnError { turn, .. } => Some(*turn),
            NodeData::TurnMaxTokens { turn } => Some(*turn),
            _ => None,
        };
        match turn {
            Some(t) => {
                if among(&seen, t) {
                    proof {
                        assert(seen@.to_set().insert(t) =~= seen@.to_set());
                    }
                } else {
                    proof {
                        lemma_push_distinct(seen@, t);
                    }
                    seen.push(t);
                }
            },
            None => {},
        }
        i = i + 1;
    }
    proof {
        assert(all.take(i as int) =~= all);
        seen@.unique_seq_to_set();
    }
    seen.len()
}

/// The number of distinct steps.
fn count_steps(nodes: &Vec<ChatNode>) -> (r: usize)
    ensures
        r == steps_of(crate::text::views(nodes@)).len(),
{
    let mut seen: Vec<(i64, i64)> = Vec::new();
    let mut i: usize = 0;
    let ghost all = crate::text::views(nodes@);
    proof {
        assert(seen@.to_set() =~= Set::empty());
        assert(all.take(0) =~= Seq::empty());
    }
    while i < nodes.len()
        invariant
            i <= nodes.len(),
            all == crate::text::views(nodes@),
            seen@.no_duplicates(),
            seen@.to_set() == steps_of(all.take(i as int)),
        decreases nodes.len() - i,
    {
        proof {
            assert(all.take(i + 1).drop_last() =~= all.take(i as int));
            assert(all.take(i + 1).last() == nodes@[i as int]@);
        }
        let step = match &nodes[i].data {
            NodeData::Assistant { turn, step, .. } => Some((*turn, *step)),
            NodeData::Tool { call: Some(call), .. } => Some((call.turn, call.step)),
            _ => None,
        };
        match step {
            Some(s) => {
                if pair_among(&seen, s) {
                    proof {
                        assert(seen@.to_set().insert(s) =~= seen@.to_set());
                    }
                } else {
                    proof {
                        lemma_push_distinct(seen@, s);
                    }
                    seen.push(s);
                }
            },
            None => {},
        }
        i = i + 1;
    }
    proof {
        assert(all.take(i as int) =~= all);
        seen@.unique_seq_to_set();
    }
    seen.len()
}

/// The usage of the assistant nodes, added up: input, output, cache reads, cache writes.
fn sum_tokens(nodes: &Vec<ChatNode>) -> (r: (i128, i128, i128, i128))
    ensures
        ({
            let t = token_totals(crate::text::views(nodes@));
            r.0 == t.input && r.1 == t.output && r.2 == t.cache_read && r.3 == t.cache_write
        }),
{
    let mut input: i128 = 0;
    let mut output: i128 = 0;
    let mut cache_read: i128 = 0;
    let mut cache_write: i128 = 0;
    let mut i: usize = 0;
    let ghost all = crate::text::views(nodes@);
    proof {
        assert(all.take(0) =~= Seq::empty());
    }
    while i < nodes.len()
        invariant
            i <= nodes.len(),
            all == crate::text::views(nodes@),
            input == token_totals(all.take(i as int)).input,
            output == token_totals(all.take(i as int)).output,
            cache_read == token_totals(all.take(i as int)).cache_read,
            cache_write == token_totals(all.take(i as int)).cache_write,
            -0x8000_0000_0000_0000 * i <= input <= 0x8000_0000_0000_0000 * i,
            -0x8000_0000_0000_0000 * i <= output <= 0x8000_0000_0000_0000 * i,
            -0x8000_0000_0000_0000 * i <= cache_read <= 0x8000_0000_0000_0000 * i,
            -0x8000_0000_0000_0000 * i <= cache_write <= 0x8000_0000_0000_0000 * i,
        decreases nodes.len() - i,
    {
        proof {
            assert(all.take(i + 1).drop_last() =~= all.take(i as int));
            assert(all.take(i + 1).last() == nodes@[i as int]@);
        }
        match &nodes[i].data {
            NodeData::Assistant { usage: Some(u), .. } => {
                input = input + u.input_tokens as i128;
                output = output + u.output_tokens as i128;
                cache_read = cache_read + (match u.cache_read_tokens {
                    Some(n) => n,
                    None => 0,
                }) as i128;
                cache_write = cache_write + (match u.cache_write_tokens {
                    Some(n) => n,
                    None => 0,
                }) as i128;
            },
            _ => {},
        }
        i = i + 1;
    }
    proof {
        assert(all.take(i as int) =~= all);
    }
    (input, output, cache_read, cache_write)
}

fn fits(n: i128) -> (r: bool)
    ensures
        r == (i64::MIN <= n <= i64::MAX),
{
    -9223372036854775808i128 <= n && n <= 9223372036854775807i128
}

/// Whether the token totals of a session are `i64` values.
pub fn tokens_fit(state: &SessionState) -> (r: bool)
    ensures
        r == totals_fit(token_totals(state@.nodes)),
{
    let (input, output, cache_read, cache_write) = sum_tokens(state.nodes());
    fits(input) && fits(output) && fits(cache_read) && fits(cache_write)
}

/// The time stamps of the settled calls.
fn collect_tool_spans(nodes: &Vec<ChatNode>) -> (r: Vec<(u64, u64)>)
    ensures
        r@ == tool_spans_of(crate::text::views(nodes@)),
{
    let mut out: Vec<(u64, u64)> = Vec::new();
    let mut i: usize = 0;
    let ghost all = crate::text::views(nodes@);
    proof {
        assert(all.take(0) =~= Seq::empty());
    }
    while i < nodes.len()
        invariant
            i <= nodes.len(),
            all == crate::text::views(nodes@),
            out@ == tool_spans_of(all.take(i as int)),
        decreases nodes.len() - i,
    {
        proof {
            assert(all.take(i + 1).drop_last() =~= all.take(i as int));
            assert(all.take(i + 1).last() == nodes@[i as int]@);
        }
        match &nodes[i].data {
            NodeData::Tool { result: Some(r), .. } => {
                match (r.call_time, r.result_time) {
                    (Some(start), Some(end)) => {
                        out.push((start, end));
                    },
                    _ => {},
                }
            },
            _ => {},
        }
        i = i + 1;
    }
    proof {
        assert(all.take(i as int) =~= all);
    }
    out
}

/// The spans of the turns that lie wholly in the window, and those to their first chunk.
fn collect_turn_spans(events: &Vec<StoredEvent>) -> (r: (Vec<(u64, u64)>, Vec<(u64, u64)>))
    ensures
        r.0@ == timing(crate::text::views(events@)).llm,
        r.1@ == timing(crate::text::views(events@)).first_token,
{
    let mut open: Option<(i64, u64)> = None;
    let mut first_chunk: Option<u64> = None;
    let mut llm: Vec<(u64, u64)> = Vec::new();
    let mut first_token: Vec<(u64, u64)> = Vec::new();
    let mut i: usize = 0;
    let ghost all = crate::text::views(events@);
    proof {
        assert(all.take(0) =~= Seq::empty());
    }
    while i < events.len()
        invariant
            i <= events.len(),
            all == crate::text::views(events@),
            timing(all.take(i as int)) == (Timing {
                open,
                first_chunk,
                llm: llm@,
                first_token: first_token@,
            }),
        decreases events.len() - i,
    {
        proof {
            assert(all.take(i + 1).drop_last() =~= all.take(i as int));
            assert(all.take(i + 1).last() == events@[i as int]@);
        }
        let time = events[i].event.time;
        match &events[i].data {
            EventData::TurnStart { turn } => {
                open = Some((*turn, time));
                first_chunk = None;
            },
            EventData::AssistantChunk { turn, .. } => {
                match open {
                    Some((t, _)) => {
                        if t == *turn && first_chunk.is_none() {
                            first_chunk = Some(time);
                        }
                    },
                    None => {},
                }
            },
            EventData::TurnEnd { turn, .. } => {
                match open {
                    Some((t, start)) => {
                        if t == *turn {
                            llm.push((start, time));
                            match first_chunk {
                                Some(chunk) => {
                                    first_token.push((start, chunk));
                                },
                                None => {},
                            }
                        }
                    },
                    None => {},
                }
                open = None;
                first_chunk = None;
            },
            _ => {},
        }
        i = i + 1;
    }
    proof {
        assert(all.take(i as int) =~= all);
    }
    (llm, first_token)
}

/// The context window that the newest `request/context` event reports.
fn find_context(events: &Vec<StoredEvent>) -> (r: Option<i64>)
    ensures
        r == newest_context(crate::text::views(events@)),
{
    let ghost all = crate::text::views(events@);
    let mut n: usize = events.len();
    proof {
        assert(all.take(n as int) =~= all);
    }
    while n > 0
        invariant
            n <= events.len(),
            all == crate::text::views(events@),
            newest_context(all) == newest_context(all.take(n as int)),
        decreases n,
    {
        proof {
            assert(all.take(n as int).drop_last() =~= all.take(n - 1));
            assert(all.take(n as int).last() == events@[n - 1]@);
        }
        match &events[n - 1].data {
            EventData::RequestContext { context_window, .. } => {
                return *context_window;
            },
            _ => {},
        }
        n = n - 1;
    }
    None
}

/// What the metrics of a session are.
pub open spec fn stats_of(s: SessionView) -> StatsView {
    let totals = token_totals(s.nodes);
    StatsView {
        turns: turns_of(s.nodes).len(),
        steps: steps_of(s.nodes).len(),
        input_tokens: totals.input,
        output_tokens: totals.output,
        cache_read_tokens: totals.cache_read,
        cache_write_tokens: totals.cache_write,
        context_window: newest_context(s.events),
        llm_spans: timing(s.events).llm,
        first_token_spans: timing(s.events).first_token,
        tool_spans: tool_spans_of(s.nodes),
    }
}

/// The metrics of a session.
pub fn session_stats(state: &SessionState) -> (r: SessionStats)
    requires
        totals_fit(token_totals(state@.nodes)),
    ensures
        r@ == stats_of(state@),
{
    let nodes = state.nodes();
    let (input, output, cache_read, cache_write) = sum_tokens(nodes);
    let (llm_spans, first_token_spans) = collect_turn_spans(state.events());
    SessionStats {
        turns: count_turns(nodes) as u64,
        steps: count_steps(nodes) as u64,
        input_tokens: input as i64,
        output_tokens: output as i64,
        cache_read_tokens: cache_read as i64,
        cache_write_tokens: cache_write as i64,
        context_window: find_context(state.events()),
        llm_spans,
        first_token_spans,
        tool_spans: collect_tool_spans(nodes),
    }
}

} // verus!
