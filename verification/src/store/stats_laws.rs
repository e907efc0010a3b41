//! What the metrics of a session promise, whatever its nodes and events are.

use vstd::prelude::*;

use crate::store::event_data::EventDataView;
use crate::store::node::{ChatNodeView, NodeDataView};
use crate::store::session::SessionView;
use crate::store::stored::StoredEventView;

verus! {

broadcast use vstd::seq_lib::group_to_multiset_ensures;

/// A count that may be absent, as the number it adds.
pub open spec fn counted_tokens(n: Option<i64>) -> int {
    if n is Some {
        n->0 as int
    } else {
        0
    }
}

/// Whether a node carries token counts.
pub open spec fn has_usage(node: ChatNodeView) -> bool {
    node.data matches NodeDataView::Assistant { usage, .. } && usage is Some
}

/// Whether no count of a node is negative.
pub open spec fn counts_up(node: ChatNodeView) -> bool {
    node.data matches NodeDataView::Assistant { usage: Some(u), .. } ==> {
        &&& u.input_tokens >= 0
        &&& u.output_tokens >= 0
        &&& counted_tokens(u.cache_read_tokens) >= 0
        &&& counted_tokens(u.cache_write_tokens) >= 0
    }
}

proof fn lemma_totals_add(a: Seq<ChatNodeView>, b: Seq<ChatNodeView>)
    ensures
        ({
            let x = crate::store::stats::token_totals(a);
            let y = crate::store::stats::token_totals(b);
            let z = crate::store::stats::token_totals(a + b);
            &&& z.input == x.input + y.input
            &&& z.output == x.output + y.output
            &&& z.cache_read == x.cache_read + y.cache_read
            &&& z.cache_write == x.cache_write + y.cache_write
        }),
    decreases b.len(),
{
    if b.len() == 0 {
        assert(a + b =~= a);
    } else {
        assert((a + b).drop_last() =~= a + b.drop_last());
        assert((a + b).last() == b.last());
        lemma_totals_add(a, b.drop_last());
    }
}

/// Token totals are additive: those of two lists of nodes put together are the sums of the
/// totals of each, kind by kind.
pub proof fn law_token_totals_add(s: SessionView, one: SessionView, two: SessionView)
    requires
        s.nodes == one.nodes + two.nodes,
    ensures
        ({
            let x = crate::store::stats::stats_of(one);
            let y = crate::store::stats::stats_of(two);
            let z = crate::store::stats::stats_of(s);
            &&& z.input_tokens == x.input_tokens + y.input_tokens
            &&& z.output_tokens == x.output_tokens + y.output_tokens
            &&& z.cache_read_tokens == x.cache_read_tokens + y.cache_read_tokens
            &&& z.cache_write_tokens == x.cache_write_tokens + y.cache_write_tokens
        }),
{
    lemma_totals_add(one.nodes, two.nodes);
}

/// A single assistant node counts what its usage says, each kind on its own, an absent cache
/// count as nothing; any other single node, and no node at all, counts nothing.
pub proof fn law_token_totals_of_one(s: SessionView)
    requires
        s.nodes.len() <= 1,
    ensures
        ({
            let z = crate::store::stats::stats_of(s);
            if s.nodes.len() == 1 && has_usage(s.nodes[0]) {
                let u = s.nodes[0].data->usage->0;
                &&& z.input_tokens == u.input_tokens
                &&& z.output_tokens == u.output_tokens
                &&& z.cache_read_tokens == counted_tokens(u.cache_read_tokens)
                &&& z.cache_write_tokens == counted_tokens(u.cache_write_tokens)
            } else {
                &&& z.input_tokens == 0
                &&& z.output_tokens == 0
                &&& z.cache_read_tokens == 0
                &&& z.cache_write_tokens == 0
            }
        }),
{
    reveal_with_fuel(crate::store::stats::token_totals, 2);
}

proof fn lemma_totals_reordered(a: Seq<ChatNodeView>, b: Seq<ChatNodeView>)
    requires
        a.to_multiset() == b.to_multiset(),
    ensures
        crate::store::stats::token_totals(a) == crate::store::stats::token_totals(b),
    decreases a.len(),
{
    assert(a.len() == a.to_multiset().len());
    assert(b.len() == b.to_multiset().len());
    if a.len() > 0 {
        let x = a.last();
        assert(a.contains(x));
        assert(a.to_multiset().count(x) > 0);
        assert(b.to_multiset().count(x) > 0);
        assert(b.contains(x));
        let k = choose|k: int| 0 <= k < b.len() && b[k] == x;
        let rest = b.remove(k);
        assert(a.drop_last() =~= a.remove(a.len() - 1));
        vstd::seq_lib::to_multiset_remove(a, a.len() - 1);
        vstd::seq_lib::to_multiset_remove(b, k);
        lemma_totals_reordered(a.drop_last(), rest);
        assert(b =~= b.take(k) + seq![x] + b.skip(k + 1));
        assert(rest =~= b.take(k) + b.skip(k + 1));
        lemma_totals_add(b.take(k), b.skip(k + 1));
        lemma_totals_add(b.take(k), seq![x]);
        lemma_totals_add(b.take(k) + seq![x], b.skip(k + 1));
        lemma_totals_add(a.drop_last(), seq![x]);
        assert(a =~= a.drop_last() + seq![x]);
    }
}

/// The order of the nodes does not matter for the token totals.
pub proof fn law_token_totals_unordered(one: SessionView, two: SessionView)
    requires
        one.nodes.to_multiset() == two.nodes.to_multiset(),
    ensures
        ({
            let x = crate::store::stats::stats_of(one);
            let y = crate::store::stats::stats_of(two);
            &&& x.input_tokens == y.input_tokens
            &&& x.output_tokens == y.output_tokens
            &&& x.cache_read_tokens == y.cache_read_tokens
            &&& x.cache_write_tokens == y.cache_write_tokens
        }),
{
    lemma_totals_reordered(one.nodes, two.nodes);
}

/// A further node whose counts are not negative lowers no total.
pub proof fn law_token_totals_grow(one: SessionView, two: SessionView, node: ChatNodeView)
    requires
        two.nodes == one.nodes.push(node),
        counts_up(node),
    ensures
        ({
            let x = crate::store::stats::stats_of(one);
            let y = crate::store::stats::stats_of(two);
            &&& x.input_tokens <= y.input_tokens
            &&& x.output_tokens <= y.output_tokens
            &&& x.cache_read_tokens <= y.cache_read_tokens
            &&& x.cache_write_tokens <= y.cache_write_tokens
        }),
{
    assert(two.nodes.drop_last() =~= one.nodes);
}

/// Whether a node shows model activity in a turn.
pub open spec fn active_in(node: ChatNodeView, turn: i64) -> bool {
    match node.data {
        NodeDataView::Assistant { turn: t, .. } => t == turn,
        NodeDataView::TurnError { turn: t, .. } => t == turn,
        NodeDataView::TurnMaxTokens { turn: t } => t == turn,
        _ => false,
    }
}

/// Whether a node belongs to a step of a turn.
pub open spec fn in_step(node: ChatNodeView, turn: i64, step: i64) -> bool {
    match node.data {
        NodeDataView::Assistant { turn: t, step: s, .. } => t == turn && s == step,
        NodeDataView::Tool { call, .. } => call is Some && call->0.turn == turn && call->0.step
            == step,
        _ => false,
    }
}

proof fn lemma_turns(nodes: Seq<ChatNodeView>)
    ensures
        crate::store::stats::turns_of(nodes).finite(),
        forall|t: i64| #[trigger]
            crate::store::stats::turns_of(nodes).contains(t) <==> exists|i: int|
                0 <= i < nodes.len() && active_in(#[trigger] nodes[i], t),
    decreases nodes.len(),
{
    if nodes.len() > 0 {
        let rest = nodes.drop_last();
        lemma_turns(rest);
        assert forall|t: i64| #[trigger]
            crate::store::stats::turns_of(nodes).contains(t) <==> exists|i: int|
                0 <= i < nodes.len() && active_in(#[trigger] nodes[i], t) by {
            if exists|i: int| 0 <= i < nodes.len() && active_in(#[trigger] nodes[i], t) {
                let i = choose|i: int| 0 <= i < nodes.len() && active_in(#[trigger] nodes[i], t);
                if i < rest.len() {
                    assert(active_in(rest[i], t));
                }
            }
            if crate::store::stats::turns_of(rest).contains(t) {
                let i = choose|i: int| 0 <= i < rest.len() && active_in(#[trigger] rest[i], t);
                assert(active_in(nodes[i], t));
            }
            if crate::store::stats::node_turn(nodes.last()) == Some(t) {
                assert(active_in(nodes[nodes.len() - 1], t));
            }
        }
    }
}

proof fn lemma_steps(nodes: Seq<ChatNodeView>)
    ensures
        crate::store::stats::steps_of(nodes).finite(),
        forall|t: i64, s: i64|
            #[trigger] crate::store::stats::steps_of(nodes).contains((t, s)) <==> exists|i: int|
                0 <= i < nodes.len() && in_step(#[trigger] nodes[i], t, s),
    decreases nodes.len(),
{
    if nodes.len() > 0 {
        let rest = nodes.drop_last();
        lemma_steps(rest);
        assert forall|t: i64, s: i64|
            #[trigger] crate::store::stats::steps_of(nodes).contains((t, s)) <==> exists|i: int|
                0 <= i < nodes.len() && in_step(#[trigger] nodes[i], t, s) by {
            if exists|i: int| 0 <= i < nodes.len() && in_step(#[trigger] nodes[i], t, s) {
                let i = choose|i: int| 0 <= i < nodes.len() && in_step(#[trigger] nodes[i], t, s);
                if i < rest.len() {
                    assert(in_step(rest[i], t, s));
                }
            }
            if crate::store::stats::steps_of(rest).contains((t, s)) {
                let i = choose|i: int| 0 <= i < rest.len() && in_step(#[trigger] rest[i], t, s);
                assert(in_step(nodes[i], t, s));
            }
            if crate::store::stats::node_step(nodes.last()) == Some((t, s)) {
                assert(in_step(nodes[nodes.len() - 1], t, s));
            }
        }
    }
}

/// The count of turns is the number of distinct turns that some node shows model activity in,
/// and the count of steps the number of distinct steps that some node belongs to.
pub proof fn law_turns_and_steps(s: SessionView, turns: Set<i64>, steps: Set<(i64, i64)>)
    requires
        forall|t: i64| #[trigger]
            turns.contains(t) <==> exists|i: int|
                0 <= i < s.nodes.len() && active_in(#[trigger] s.nodes[i], t),
        forall|t: i64, p: i64|
            #[trigger] steps.contains((t, p)) <==> exists|i: int|
                0 <= i < s.nodes.len() && in_step(#[trigger] s.nodes[i], t, p),
    ensures
        crate::store::stats::stats_of(s).turns == turns.len(),
        crate::store::stats::stats_of(s).steps == steps.len(),
{
    lemma_turns(s.nodes);
    lemma_steps(s.nodes);
    assert(turns =~= crate::store::stats::turns_of(s.nodes));
    assert forall|x: (i64, i64)|
        steps.contains(x) == crate::store::stats::steps_of(s.nodes).contains(x) by {
        assert(x == (x.0, x.1));
        assert(steps.contains((x.0, x.1)) == crate::store::stats::steps_of(s.nodes).contains(
            (x.0, x.1),
        ));
    }
    assert(steps =~= crate::store::stats::steps_of(s.nodes));
}

/// Whether an event reports what the context of a request is.
pub open spec fn reports_context(e: StoredEventView) -> bool {
    e.data is RequestContext
}

proof fn lemma_context(events: Seq<StoredEventView>, at: int)
    requires
        0 <= at < events.len(),
        reports_context(events[at]),
        forall|i: int| at < i < events.len() ==> !reports_context(#[trigger] events[i]),
    ensures
        crate::store::stats::newest_context(events) == events[at].data->RequestContext_context_window,
    decreases events.len(),
{
    if at < events.len() - 1 {
        assert(!reports_context(events[events.len() - 1]));
        lemma_context(events.drop_last(), at);
    }
}

proof fn lemma_no_context(events: Seq<StoredEventView>)
    requires
        forall|i: int| 0 <= i < events.len() ==> !reports_context(#[trigger] events[i]),
    ensures
        crate::store::stats::newest_context(events) is None,
    decreases events.len(),
{
    if events.len() > 0 {
        assert(!reports_context(events[events.len() - 1]));
        lemma_no_context(events.drop_last());
    }
}

/// The context window of a session is the one that the last report of its events names: earlier
/// reports do not matter, and without a report there is none.
pub proof fn law_newest_context(s: SessionView, at: int)
    requires
        -1 <= at < s.events.len(),
        at >= 0 ==> reports_context(s.events[at]),
        forall|i: int| at < i < s.events.len() ==> !reports_context(#[trigger] s.events[i]),
    ensures
        crate::store::stats::stats_of(s).context_window == (if at >= 0 {
            s.events[at].data->RequestContext_context_window
        } else {
            None
        }),
{
    if at >= 0 {
        lemma_context(s.events, at);
    } else {
        lemma_no_context(s.events);
    }
}

/// Whether an event opens or closes a turn.
pub open spec fn bounds_turn(e: StoredEventView) -> bool {
    e.data is TurnStart || e.data is TurnEnd
}

/// Whether an event is a chunk of what the model streams in a turn.
pub open spec fn streams_in(e: StoredEventView, turn: i64) -> bool {
    e.data matches EventDataView::AssistantChunk { turn: t, .. } && t == turn
}

proof fn lemma_inside_turn(before: Seq<StoredEventView>, start: StoredEventView, inside: Seq<StoredEventView>, turn: i64)
    requires
        start.data == (EventDataView::TurnStart { turn }),
        forall|i: int| 0 <= i < inside.len() ==> !bounds_turn(#[trigger] inside[i]),
    ensures
        ({
            let t = crate::store::stats::timing(before.push(start) + inside);
            let b = crate::store::stats::timing(before);
            &&& t.llm == b.llm
            &&& t.first_token == b.first_token
            &&& t.open == Some((turn, start.event.time))
            &&& match t.first_chunk {
                Some(time) => exists|k: int|
                    {
                        &&& 0 <= k < inside.len()
                        &&& streams_in(#[trigger] inside[k], turn)
                        &&& inside[k].event.time == time
                        &&& forall|i: int|
                            0 <= i < k ==> !streams_in(#[trigger] inside[i], turn)
                    },
                None => forall|i: int|
                    0 <= i < inside.len() ==> !streams_in(#[trigger] inside[i], turn),
            }
        }),
    decreases inside.len(),
{
    let all = before.push(start) + inside;
    if inside.len() == 0 {
        assert(all =~= before.push(start));
        assert(all.drop_last() =~= before);
    } else {
        let rest = inside.drop_last();
        assert(all.drop_last() =~= before.push(start) + rest);
        assert(all.last() == inside.last());
        assert forall|i: int| 0 <= i < rest.len() implies !bounds_turn(#[trigger] rest[i]) by {
            assert(rest[i] == inside[i]);
        }
        lemma_inside_turn(before, start, rest, turn);
        assert(!bounds_turn(inside[inside.len() - 1]));
        let was = crate::store::stats::timing(before.push(start) + rest);
        if was.first_chunk is Some {
            let k = choose|k: int|
                {
                    &&& 0 <= k < rest.len()
                    &&& streams_in(#[trigger] rest[k], turn)
                    &&& rest[k].event.time == was.first_chunk->0
                    &&& forall|i: int| 0 <= i < k ==> !streams_in(#[trigger] rest[i], turn)
                };
            assert(streams_in(inside[k], turn));
            assert forall|i: int| 0 <= i < k implies !streams_in(#[trigger] inside[i], turn) by {
                assert(inside[i] == rest[i]);
            }
        } else {
            assert forall|i: int| 0 <= i < rest.len() implies !streams_in(
                #[trigger] inside[i],
                turn,
            ) by {
                assert(inside[i] == rest[i]);
            }
            assert(streams_in(inside[inside.len() - 1], turn) || !streams_in(
                inside[inside.len() - 1],
                turn,
            ));
        }
    }
}

/// A turn whose start and end are both in the window adds one span to the model time, from its
/// start to its end; where the model streamed in it, it adds one span to the time to the first
/// token, from its start to the first chunk of the turn.
pub proof fn law_turn_span(
    s: SessionView,
    earlier: SessionView,
    start: StoredEventView,
    inside: Seq<StoredEventView>,
    end: StoredEventView,
    turn: i64,
)
    requires
        s.events == (earlier.events.push(start) + inside).push(end),
        start.data == (EventDataView::TurnStart { turn }),
        end.data matches EventDataView::TurnEnd { turn: t, .. } && t == turn,
        forall|i: int| 0 <= i < inside.len() ==> !bounds_turn(#[trigger] inside[i]),
    ensures
        crate::store::stats::stats_of(s).llm_spans == crate::store::stats::stats_of(
            earlier,
        ).llm_spans.push((start.event.time, end.event.time)),
        (forall|i: int| 0 <= i < inside.len() ==> !streams_in(#[trigger] inside[i], turn))
            ==> crate::store::stats::stats_of(s).first_token_spans
            == crate::store::stats::stats_of(earlier).first_token_spans,
        forall|k: int|
            0 <= k < inside.len() && streams_in(#[trigger] inside[k], turn) && (forall|i: int|
                0 <= i < k ==> !streams_in(#[trigger] inside[i], turn))
                ==> crate::store::stats::stats_of(s).first_token_spans
                == crate::store::stats::stats_of(earlier).first_token_spans.push(
                (start.event.time, inside[k].event.time),
            ),
{
    lemma_inside_turn(earlier.events, start, inside, turn);
    assert(s.events.drop_last() =~= earlier.events.push(start) + inside);
}

/// Only the end of a turn measures time.
pub proof fn law_no_span(s: SessionView, earlier: SessionView, e: StoredEventView)
    requires
        s.events == earlier.events.push(e),
        e.data !is TurnEnd,
    ensures
        crate::store::stats::stats_of(s).llm_spans == crate::store::stats::stats_of(
            earlier,
        ).llm_spans,
        crate::store::stats::stats_of(s).first_token_spans == crate::store::stats::stats_of(
            earlier,
        ).first_token_spans,
{
    assert(s.events.drop_last() =~= earlier.events);
}

proof fn lemma_open_turn(events: Seq<StoredEventView>, turn: i64)
    requires
        forall|i: int|
            0 <= i < events.len() ==> (#[trigger] events[i]).data != (EventDataView::TurnStart {
                turn,
            }),
    ensures
        match crate::store::stats::timing(events).open {
            Some((opened, _)) => opened != turn,
            None => true,
        },
    decreases events.len(),
{
    if events.len() > 0 {
        let rest = events.drop_last();
        assert forall|i: int| 0 <= i < rest.len() implies (#[trigger] rest[i]).data != (
        EventDataView::TurnStart { turn }) by {
            assert(rest[i] == events[i]);
        }
        lemma_open_turn(rest, turn);
        assert(events[events.len() - 1] == events.last());
    }
}

/// A turn whose start is not in the window measures nothing.
pub proof fn law_turn_cut_off(s: SessionView, earlier: SessionView, e: StoredEventView, turn: i64)
    requires
        s.events == earlier.events.push(e),
        e.data matches EventDataView::TurnEnd { turn: t, .. } && t == turn,
        forall|i: int|
            0 <= i < earlier.events.len() ==> (#[trigger] earlier.events[i]).data != (
            EventDataView::TurnStart { turn }),
    ensures
        crate::store::stats::stats_of(s).llm_spans == crate::store::stats::stats_of(
            earlier,
        ).llm_spans,
        crate::store::stats::stats_of(s).first_token_spans == crate::store::stats::stats_of(
            earlier,
        ).first_token_spans,
{
    assert(s.events.drop_last() =~= earlier.events);
    lemma_open_turn(earlier.events, turn);
}

/// A settled tool call measures from its call to its result where both times are known, in the
/// order of the nodes; other nodes measure nothing.
pub proof fn law_tool_span(s: SessionView, earlier: SessionView, node: ChatNodeView)
    requires
        s.nodes == earlier.nodes.push(node),
    ensures
        ({
            let was = crate::store::stats::stats_of(earlier).tool_spans;
            let now = crate::store::stats::stats_of(s).tool_spans;
            if node.data is Tool && node.data->result is Some && node.data->result->0.call_time
                is Some && node.data->result->0.result_time is Some {
                &&& now.len() == was.len() + 1
                &&& now.drop_last() == was
                &&& now.last().0 == node.data->result->0.call_time->0
                &&& now.last().1 == node.data->result->0.result_time->0
            } else {
                now == was
            }
        }),
{
    assert(s.nodes.drop_last() =~= earlier.nodes);
    let was = crate::store::stats::stats_of(earlier).tool_spans;
    let now = crate::store::stats::stats_of(s).tool_spans;
    if now.len() == was.len() + 1 {
        assert(now.drop_last() =~= was);
    }
}

} // verus!
