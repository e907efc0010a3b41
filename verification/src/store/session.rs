//! The state of one session: its event window, projections, queue, derived nodes and
//! fold choices.

use vstd::prelude::*;

use crate::json::{Json, JsonView};
use crate::store::fold::fold_events;
use crate::store::node::{ChatNode, ChatNodeView, FoldState, NodeData, NodeDataView};
use crate::store::stored::{StoredEvent, StoredEventView};
use crate::table::Table;
use crate::text::{same, Duplicate};
use crate::wire::{QueueItem, QueueItemView, SessionId};

verus! {

/// The seq of an empty window.
pub const NO_SEQ: i64 = -1;

/// One projection value with the seq it was computed at.
#[derive(Debug, PartialEq)]
pub struct ProjectionValue {
    pub value: Json,
    pub seq: i64,
}

/// One projection value.
pub struct ProjectionView {
    pub value: JsonView,
    pub seq: i64,
}

impl View for ProjectionValue {
    type V = ProjectionView;

    open spec fn view(&self) -> ProjectionView {
        ProjectionView { value: self.value@, seq: self.seq }
    }
}

/// The queue of a session, as its last frame gave it.
#[derive(Debug, PartialEq)]
pub struct QueueSnapshot {
    pub items: Vec<QueueItem>,
}

impl View for QueueSnapshot {
    type V = Seq<QueueItemView>;

    open spec fn view(&self) -> Seq<QueueItemView> {
        crate::text::views(self.items@)
    }
}

impl Default for QueueSnapshot {
    fn default() -> (r: Self)
        ensures
            r@ == Seq::<QueueItemView>::empty(),
    {
        let r = QueueSnapshot { items: Vec::new() };
        proof {
            assert(r@ =~= Seq::<QueueItemView>::empty());
        }
        r
    }
}

/// The state of one session.
#[derive(Debug)]
pub struct SessionState {
    pub session_id: SessionId,
    events: Vec<StoredEvent>,
    oldest_seq: i64,
    last_seq: i64,
    durable_seq: i64,
    truncated: bool,
    projections: Table<ProjectionValue>,
    queue: Option<QueueSnapshot>,
    nodes: Vec<ChatNode>,
    fold: Table<FoldState>,
    max_events: usize,
}

/// The state of one session. `oldest_seq` and `last_seq` bound the window (-1 where it is
/// empty), `durable_seq` is the last baseline (-1 before the first), `truncated` tells
/// that the head of the window was evicted.
pub struct SessionView {
    pub session_id: Seq<char>,
    pub events: Seq<StoredEventView>,
    pub oldest_seq: i64,
    pub last_seq: i64,
    pub durable_seq: i64,
    pub truncated: bool,
    pub projections: Map<Seq<char>, ProjectionView>,
    pub queue: Option<Seq<QueueItemView>>,
    pub nodes: Seq<ChatNodeView>,
    pub folds: Map<Seq<char>, FoldState>,
    pub max_events: usize,
}

impl View for SessionState {
    type V = SessionView;

    closed spec fn view(&self) -> SessionView {
        SessionView {
            session_id: self.session_id@,
            events: crate::text::views(self.events@),
            oldest_seq: self.oldest_seq,
            last_seq: self.last_seq,
            durable_seq: self.durable_seq,
            truncated: self.truncated,
            projections: self.projections@,
            queue: crate::text::opt_view(self.queue),
            nodes: crate::text::views(self.nodes@),
            folds: self.fold@,
            max_events: self.max_events,
        }
    }
}

// ---------------------------------------------------------------------------
// what the operations mean
// ---------------------------------------------------------------------------

/// A session of which nothing has arrived.
pub open spec fn fresh_session(session_id: Seq<char>, max_events: usize) -> SessionView {
    SessionView {
        session_id,
        events: Seq::empty(),
        oldest_seq: NO_SEQ,
        last_seq: NO_SEQ,
        durable_seq: NO_SEQ,
        truncated: false,
        projections: Map::empty(),
        queue: None,
        nodes: Seq::empty(),
        folds: Map::empty(),
        max_events,
    }
}

impl SessionView {
    /// Whether the last node is not settled: a step that still streams, or a call that has no
    /// result yet and was not interrupted.
    pub open spec fn unsettled(self) -> bool {
        self.nodes.len() > 0 && match self.nodes.last().data {
            NodeDataView::Assistant { finalized, interrupted, .. } => !finalized && !interrupted,
            NodeDataView::Tool { result, interrupted, .. } => result is None && !interrupted,
            _ => false,
        }
    }

    /// The session after its window was cut to the cap: the head goes.
    pub open spec fn evicted(self) -> SessionView {
        if self.events.len() <= self.max_events {
            self
        } else {
            let events = self.events.skip(self.events.len() - self.max_events);
            SessionView { events, oldest_seq: events[0].event.seq, truncated: true, ..self }
        }
    }

    /// The session after an event: one whose seq is not above the last is ignored.
    pub open spec fn with_event(self, e: StoredEventView) -> SessionView {
        if e.event.seq <= self.last_seq {
            self
        } else {
            SessionView {
                events: self.events.push(e),
                oldest_seq: if self.events.len() == 0 {
                    e.event.seq
                } else {
                    self.oldest_seq
                },
                last_seq: e.event.seq,
                ..self
            }.evicted()
        }
    }

    /// The session after a projection: the higher seq wins.
    pub open spec fn with_projection(self, key: Seq<char>, value: JsonView, seq: i64) -> SessionView {
        if self.projections.dom().contains(key) && seq <= self.projections[key].seq {
            self
        } else {
            SessionView {
                projections: self.projections.insert(key, ProjectionView { value, seq }),
                ..self
            }
        }
    }

    /// The session after a queue frame: the queue is replaced.
    pub open spec fn with_queue(self, items: Seq<QueueItemView>) -> SessionView {
        SessionView { queue: Some(items), ..self }
    }

    /// The session after a durable baseline: what lies beyond it is dropped, for it will
    /// be sent again.
    pub open spec fn cut_to(self, durable_seq: i64) -> SessionView {
        let events = up_to(self.events, durable_seq);
        let dropped = events.len() != self.events.len();
        SessionView {
            events,
            durable_seq,
            oldest_seq: if dropped {
                first_seq(events)
            } else {
                self.oldest_seq
            },
            last_seq: if dropped {
                highest_seq(events)
            } else {
                self.last_seq
            },
            projections: Map::new(
                |k: Seq<char>|
                    self.projections.dom().contains(k) && self.projections[k].seq <= durable_seq,
                |k: Seq<char>| self.projections[k],
            ),
            ..self
        }
    }

    /// The session after a page of history was put before the window: events that overlap
    /// the window are dropped, and of two with the same seq the first stays.
    pub open spec fn with_history(self, page: Seq<StoredEventView>) -> SessionView {
        let kept = by_seq(before_window(page, self.events.len() == 0, self.oldest_seq));
        if kept.len() == 0 {
            self
        } else {
            let events = kept + self.events;
            SessionView {
                events,
                oldest_seq: events[0].event.seq,
                last_seq: events.last().event.seq,
                ..self
            }
        }
    }

    /// The session with its nodes derived anew; fold choices of nodes that are gone go.
    pub open spec fn rebuilt(self) -> SessionView {
        let nodes = crate::store::fold::chat_nodes(self.events);
        SessionView {
            nodes,
            folds: Map::new(
                |k: Seq<char>| self.folds.dom().contains(k) && has_key(nodes, k),
                |k: Seq<char>| self.folds[k],
            ),
            ..self
        }
    }
}

/// Whether a node has the key.
pub open spec fn has_key(nodes: Seq<ChatNodeView>, key: Seq<char>) -> bool {
    exists|i: int| 0 <= i < nodes.len() && (#[trigger] nodes[i]).key == key
}

/// The events whose seq is at most `limit`.
pub open spec fn up_to(events: Seq<StoredEventView>, limit: i64) -> Seq<StoredEventView>
    decreases events.len(),
{
    if events.len() == 0 {
        Seq::empty()
    } else {
        let rest = up_to(events.drop_last(), limit);
        if events.last().event.seq <= limit {
            rest.push(events.last())
        } else {
            rest
        }
    }
}

/// The seq of the first event, or -1.
pub open spec fn first_seq(events: Seq<StoredEventView>) -> i64 {
    if events.len() == 0 {
        NO_SEQ
    } else {
        events[0].event.seq
    }
}

/// The highest seq, or -1 where there is no event.
pub open spec fn highest_seq(events: Seq<StoredEventView>) -> i64
    decreases events.len(),
{
    if events.len() == 0 {
        NO_SEQ
    } else if events.len() == 1 {
        events[0].event.seq
    } else {
        let rest = highest_seq(events.drop_last());
        if events.last().event.seq >= rest {
            events.last().event.seq
        } else {
            rest
        }
    }
}

/// The events of a page that lie before the window.
pub open spec fn before_window(page: Seq<StoredEventView>, empty: bool, oldest_seq: i64) -> Seq<
    StoredEventView,
>
    decreases page.len(),
{
    if page.len() == 0 {
        Seq::empty()
    } else {
        let rest = before_window(page.drop_last(), empty, oldest_seq);
        if empty || page.last().event.seq < oldest_seq {
            rest.push(page.last())
        } else {
            rest
        }
    }
}

/// Events by ascending seq with one more; a seq that is there already stays as it is.
pub open spec fn insert_seq(sorted: Seq<StoredEventView>, e: StoredEventView) -> Seq<StoredEventView>
    decreases sorted.len(),
{
    if sorted.len() == 0 || sorted.last().event.seq < e.event.seq {
        sorted.push(e)
    } else if sorted.last().event.seq == e.event.seq {
        sorted
    } else {
        insert_seq(sorted.drop_last(), e).push(sorted.last())
    }
}

/// The events by ascending seq, each seq once: the first event with it.
pub open spec fn by_seq(events: Seq<StoredEventView>) -> Seq<StoredEventView>
    decreases events.len(),
{
    if events.len() == 0 {
        Seq::empty()
    } else {
        insert_seq(by_seq(events.drop_last()), events.last())
    }
}

// ---------------------------------------------------------------------------
// the operations
// ---------------------------------------------------------------------------

/// Puts an event into a list by ascending seq; a seq that is there already stays.
fn insert_event(sorted: &mut Vec<StoredEvent>, e: StoredEvent)
    ensures
        crate::text::views(final(sorted)@) == insert_seq(crate::text::views(old(sorted)@), e@),
{
    let ghost all = crate::text::views(sorted@);
    let mut at: usize = sorted.len();
    proof {
        assert(all.take(at as int) =~= all);
        assert(all.skip(at as int) =~= Seq::empty());
        assert(insert_seq(all, e@) + Seq::<StoredEventView>::empty() =~= insert_seq(all, e@));
    }
    while at > 0 && sorted[at - 1].event.seq > e.event.seq
        invariant
            at <= sorted.len(),
            all == crate::text::views(sorted@),
            sorted@ == old(sorted)@,
            insert_seq(all, e@) == insert_seq(all.take(at as int), e@) + all.skip(at as int),
        decreases at,
    {
        proof {
            let prefix = all.take(at as int);
            assert(prefix.last() == sorted@[at - 1]@);
            assert(prefix.drop_last() =~= all.take(at - 1));
            assert(insert_seq(all.take(at - 1), e@).push(prefix.last()) + all.skip(at as int)
                =~= insert_seq(all.take(at - 1), e@) + all.skip(at - 1));
        }
        at = at - 1;
    }
    let ghost prefix = all.take(at as int);
    if at > 0 && sorted[at - 1].event.seq == e.event.seq {
        proof {
            assert(prefix.last() == sorted@[at - 1]@);
            assert(prefix + all.skip(at as int) =~= all);
        }
        return;
    }
    proof {
        if at > 0 {
            assert(prefix.last() == sorted@[at - 1]@);
        }
        assert(crate::text::views(sorted@.insert(at as int, e)) =~= prefix.push(e@) + all.skip(
            at as int,
        ));
    }
    sorted.insert(at, e);
}

impl SessionState {
    /// A session of which nothing has arrived.
    pub(crate) fn new(session_id: SessionId, max_events: usize) -> (r: Self)
        ensures
            r@ == fresh_session(session_id@, max_events),
    {
        let r = SessionState {
            session_id,
            events: Vec::new(),
            oldest_seq: -1,
            last_seq: -1,
            durable_seq: -1,
            truncated: false,
            projections: Table::new(),
            queue: None,
            nodes: Vec::new(),
            fold: Table::new(),
            max_events,
        };
        proof {
            assert(r@.events =~= Seq::empty());
            assert(r@.nodes =~= Seq::empty());
        }
        r
    }

    /// Appends an event; one whose seq is not above the last is ignored. The head of the
    /// window is evicted where the cap is passed.
    pub(crate) fn apply_event(&mut self, stored: StoredEvent)
        requires
            old(self)@.max_events >= 1,
        ensures
            final(self)@ == old(self)@.with_event(stored@),
    {
        let seq = stored.event.seq;
        if seq <= self.last_seq {
            return;
        }
        if self.events.len() == 0 {
            self.oldest_seq = seq;
        }
        let ghost before = self.events@;
        let ghost added = stored@;
        self.events.push(stored);
        proof {
            assert(crate::text::views(self.events@) =~= crate::text::views(before).push(added));
        }
        self.last_seq = seq;
        self.evict_to_cap();
    }

    fn evict_to_cap(&mut self)
        requires
            old(self)@.max_events >= 1,
        ensures
            final(self)@ == old(self)@.evicted(),
    {
        if self.events.len() <= self.max_events {
            return;
        }
        let excess = self.events.len() - self.max_events;
        let ghost before = self.events@;
        let mut tail = self.events.split_off(excess);
        std::mem::swap(&mut tail, &mut self.events);
        proof {
            assert(crate::text::views(self.events@) =~= crate::text::views(before).skip(
                excess as int,
            ));
        }
        self.oldest_seq = self.events[0].event.seq;
        self.truncated = true;
    }

    /// Applies a projection: the higher seq wins.
    pub(crate) fn apply_projection(&mut self, key: String, value: Json, seq: i64)
        ensures
            final(self)@ == old(self)@.with_projection(key@, value@, seq),
    {
        let stale = match self.projections.get(key.as_str()) {
            Some(row) => seq <= row.seq,
            None => false,
        };
        if !stale {
            self.projections.insert(key, ProjectionValue { value, seq });
        }
    }

    /// Replaces the queue.
    pub(crate) fn apply_queue(&mut self, items: Vec<QueueItem>)
        ensures
            final(self)@ == old(self)@.with_queue(crate::text::views(items@)),
    {
        self.queue = Some(QueueSnapshot { items });
    }

    /// Sets the durable baseline: events and projections beyond it are dropped.
    pub(crate) fn truncate_to(&mut self, durable_seq: i64)
        ensures
            final(self)@ == old(self)@.cut_to(durable_seq),
    {
        self.durable_seq = durable_seq;
        let mut all: Vec<StoredEvent> = Vec::new();
        std::mem::swap(&mut all, &mut self.events);
        let before = all.len();
        let ghost given = crate::text::views(all@);
        let mut kept: Vec<StoredEvent> = Vec::new();
        proof {
            assert(crate::text::views(kept@) =~= Seq::empty());
            assert(given.take(0) =~= Seq::empty());
        }
        for e in iter: all
            invariant
                crate::text::views(iter.seq()) == given,
                crate::text::views(kept@) == up_to(given.take(iter.index()), durable_seq),
        {
            proof {
                assert(given.take(iter.index() + 1).drop_last() =~= given.take(iter.index()));
                assert(given.take(iter.index() + 1).last() == e@);
            }
            if e.event.seq <= durable_seq {
                proof {
                    assert(crate::text::views(kept@.push(e)) =~= crate::text::views(kept@).push(e@));
                }
                kept.push(e);
            }
        }
        proof {
            assert(given.take(given.len() as int) =~= given);
        }
        if kept.len() != before {
            self.oldest_seq = if kept.len() == 0 {
                -1
            } else {
                kept[0].event.seq
            };
            self.last_seq = highest(&kept);
        }
        self.events = kept;
        let mut rows: Table<ProjectionValue> = Table::new();
        std::mem::swap(&mut rows, &mut self.projections);
        let ghost given_rows = rows@;
        let mut fresh: Table<ProjectionValue> = Table::new();
        loop
            invariant
                forall|k: Seq<char>| #[trigger]
                    rows@.dom().contains(k) ==> given_rows.dom().contains(k) && rows@[k]
                        == given_rows[k],
                forall|k: Seq<char>| #[trigger]
                    fresh@.dom().contains(k) <==> given_rows.dom().contains(k) && !rows@.dom().contains(
                        k,
                    ) && given_rows[k].seq <= durable_seq,
                forall|k: Seq<char>| #[trigger]
                    fresh@.dom().contains(k) ==> fresh@[k] == given_rows[k],
            ensures
                rows@ == Map::<Seq<char>, ProjectionView>::empty(),
            decreases rows.size(),
        {
            match rows.pop() {
                None => {
                    break;
                },
                Some((k, row)) => {
                    if row.seq <= durable_seq {
                        fresh.insert(k, row);
                    }
                },
            }
        }
        proof {
            assert(fresh@ =~= old(self)@.cut_to(durable_seq).projections);
        }
        self.projections = fresh;
    }

    /// Puts a page of history before the window.
    pub(crate) fn prepend(&mut self, page: Vec<StoredEvent>)
        ensures
            final(self)@ == old(self)@.with_history(crate::text::views(page@)),
    {
        let empty = self.events.len() == 0;
        let oldest = self.oldest_seq;
        let ghost given = crate::text::views(page@);
        let mut kept: Vec<StoredEvent> = Vec::new();
        proof {
            assert(crate::text::views(kept@) =~= Seq::empty());
            assert(given.take(0) =~= Seq::empty());
        }
        for e in iter: page
            invariant
                crate::text::views(iter.seq()) == given,
                crate::text::views(kept@) == by_seq(
                    before_window(given.take(iter.index()), empty, oldest),
                ),
        {
            proof {
                let next = given.take(iter.index() + 1);
                assert(next.drop_last() =~= given.take(iter.index()));
                assert(next.last() == e@);
                let rest = before_window(given.take(iter.index()), empty, oldest);
                assert(rest.push(e@).drop_last() =~= rest);
                assert(rest.push(e@).last() == e@);
            }
            if empty || e.event.seq < oldest {
                insert_event(&mut kept, e);
            }
        }
        proof {
            assert(given.take(given.len() as int) =~= given);
        }
        if kept.len() == 0 {
            return;
        }
        let ghost before = self.events@;
        let ghost front = kept@;
        let mut tail: Vec<StoredEvent> = Vec::new();
        std::mem::swap(&mut tail, &mut self.events);
        kept.append(&mut tail);
        proof {
            assert(crate::text::views(kept@) =~= crate::text::views(front) + crate::text::views(
                before,
            ));
        }
        self.events = kept;
        let n = self.events.len();
        self.oldest_seq = self.events[0].event.seq;
        self.last_seq = self.events[n - 1].event.seq;
    }

    /// Derives the nodes anew and forgets the fold choices of nodes that are gone.
    pub(crate) fn rebuild(&mut self)
        ensures
            final(self)@ == old(self)@.rebuilt(),
    {
        let nodes = fold_events(&self.events);
        let ghost shown = crate::text::views(nodes@);
        let mut choices: Table<FoldState> = Table::new();
        std::mem::swap(&mut choices, &mut self.fold);
        let ghost given = choices@;
        let mut kept: Table<FoldState> = Table::new();
        loop
            invariant
                shown == crate::text::views(nodes@),
                forall|k: Seq<char>| #[trigger]
                    choices@.dom().contains(k) ==> given.dom().contains(k) && choices@[k]
                        == given[k],
                forall|k: Seq<char>| #[trigger]
                    kept@.dom().contains(k) <==> given.dom().contains(k) && !choices@.dom().contains(
                        k,
                    ) && has_key(shown, k),
                forall|k: Seq<char>| #[trigger] kept@.dom().contains(k) ==> kept@[k] == given[k],
            ensures
                choices@ == Map::<Seq<char>, FoldState>::empty(),
            decreases choices.size(),
        {
            match choices.pop() {
                None => {
                    break;
                },
                Some((k, state)) => {
                    if key_shown(&nodes, k.as_str()) {
                        kept.insert(k, state);
                    }
                },
            }
        }
        proof {
            assert(kept@ =~= old(self)@.rebuilt().folds);
        }
        self.fold = kept;
        self.nodes = nodes;
    }

    /// The events of the window.
    pub fn events(&self) -> (r: &Vec<StoredEvent>)
        ensures
            crate::text::views(r@) == self@.events,
    {
        &self.events
    }

    /// Whether the last node is not settled.
    pub fn has_unsettled_tail(&self) -> (r: bool)
        ensures
            r == self@.unsettled(),
    {
        let n = self.nodes.len();
        if n == 0 {
            return false;
        }
        proof {
            assert(self@.nodes.last() == self.nodes@[n - 1]@);
        }
        match &self.nodes[n - 1].data {
            NodeData::Assistant { finalized, interrupted, .. } => !*finalized && !*interrupted,
            NodeData::Tool { result, interrupted, .. } => result.is_none() && !*interrupted,
            _ => false,
        }
    }

    /// The chat nodes, in display order.
    pub fn nodes(&self) -> (r: &Vec<ChatNode>)
        ensures
            crate::text::views(r@) == self@.nodes,
    {
        &self.nodes
    }

    /// The seq of the first event of the window, -1 where it is empty.
    pub fn oldest_seq(&self) -> (r: i64)
        ensures
            r == self@.oldest_seq,
    {
        self.oldest_seq
    }

    /// The highest applied seq, -1 where the window is empty.
    pub fn last_seq(&self) -> (r: i64)
        ensures
            r == self@.last_seq,
    {
        self.last_seq
    }

    /// The last durable baseline.
    pub fn durable_seq(&self) -> (r: i64)
        ensures
            r == self@.durable_seq,
    {
        self.durable_seq
    }

    /// Whether the head of the window was evicted.
    pub fn truncated(&self) -> (r: bool)
        ensures
            r == self@.truncated,
    {
        self.truncated
    }

    /// The projection named `key`.
    pub fn projection(&self, key: &str) -> (r: Option<&ProjectionValue>)
        ensures
            match r {
                Some(p) => self@.projections.dom().contains(key@) && self@.projections[key@] == p@,
                None => !self@.projections.dom().contains(key@),
            },
    {
        self.projections.get(key)
    }

    /// The queue, where a frame has given one.
    pub fn queue(&self) -> (r: Option<&QueueSnapshot>)
        ensures
            crate::text::opt_view(r) == self@.queue,
    {
        match &self.queue {
            Some(q) => Some(q),
            None => None,
        }
    }

    /// The fold choice for a node.
    pub fn fold_choice(&self, key: &str) -> (r: Option<FoldState>)
        ensures
            match r {
                Some(s) => self@.folds.dom().contains(key@) && self@.folds[key@] == s,
                None => !self@.folds.dom().contains(key@),
            },
    {
        match self.fold.get(key) {
            Some(s) => Some(*s),
            None => None,
        }
    }

    /// Sets the fold choice for a node.
    pub(crate) fn choose_fold(&mut self, key: &str, state: FoldState)
        ensures
            final(self)@ == (SessionView {
                folds: old(self)@.folds.insert(key@, state),
                ..old(self)@
            }),
    {
        self.fold.insert(key.to_owned(), state);
    }
}

/// The highest seq, or -1.
fn highest(events: &Vec<StoredEvent>) -> (r: i64)
    ensures
        r == highest_seq(crate::text::views(events@)),
{
    if events.len() == 0 {
        return -1;
    }
    let ghost all = crate::text::views(events@);
    let mut best: i64 = events[0].event.seq;
    let mut i: usize = 1;
    while i < events.len()
        invariant
            1 <= i <= events.len(),
            all == crate::text::views(events@),
            best == highest_seq(all.take(i as int)),
        decreases events.len() - i,
    {
        proof {
            assert(all.take(i + 1).drop_last() =~= all.take(i as int));
            assert(all.take(i + 1).last() == events@[i as int]@);
        }
        if events[i].event.seq >= best {
            best = events[i].event.seq;
        }
        i = i + 1;
    }
    proof {
        assert(all.take(i as int) =~= all);
    }
    best
}

/// Whether a node has the key.
fn key_shown(nodes: &Vec<ChatNode>, key: &str) -> (r: bool)
    ensures
        r == has_key(crate::text::views(nodes@), key@),
{
    let mut i: usize = 0;
    let ghost all = crate::text::views(nodes@);
    while i < nodes.len()
        invariant
            i <= nodes.len(),
            all == crate::text::views(nodes@),
            forall|k: int| 0 <= k < i ==> (#[trigger] all[k]).key != key@,
        decreases nodes.len() - i,
    {
        proof {
            assert(all[i as int] == nodes@[i as int]@);
        }
        if same(nodes[i].key.as_str(), key) {
            return true;
        }
        i = i + 1;
    }
    false
}

} // verus!
