//! What a window of a session takes and keeps, whatever comes.

use vstd::prelude::*;

use crate::json::JsonView;
use crate::store::node::{ChatNodeView, NodeDataView};
use crate::store::session::SessionView;
use crate::store::stored::StoredEventView;
use crate::store::StoreView;
use crate::wire::{
    MuxFrameView, QueueItemView, RpcErrorView, SessionEventView, ToolEventViewView,
};

verus! {

/// A new event is the last one of the window and its seq the last that the window knows; the
/// window keeps the newest events before it, as many as its cap lets it, and loses only the
/// oldest.
pub proof fn law_event_taken(s: SessionView, e: StoredEventView)
    requires
        s.max_events >= 1,
        e.event.seq > s.last_seq,
    ensures
        ({
            let out = s.with_event(e);
            let all = s.events.push(e);
            &&& out.events.len() > 0 && out.events.last() == e
            &&& out.last_seq == e.event.seq
            &&& out.events == all.skip(all.len() - out.events.len())
            &&& out.events.len() == (if all.len() <= s.max_events {
                all.len()
            } else {
                s.max_events as nat
            })
            &&& s.events.len() == 0 ==> out.oldest_seq == e.event.seq
            &&& out.truncated <==> s.truncated || all.len() > s.max_events
            &&& out.session_id == s.session_id && out.projections == s.projections && out.queue
                == s.queue
        }),
{
    let all = s.events.push(e);
    assert(all.skip(0) =~= all);
}

/// Whether some events hold one with a seq.
pub open spec fn has_seq(events: Seq<StoredEventView>, seq: i64) -> bool {
    exists|i: int| 0 <= i < events.len() && (#[trigger] events[i]).event.seq == seq
}

proof fn lemma_pushed(events: Seq<StoredEventView>, e: StoredEventView, seq: i64)
    ensures
        has_seq(events.push(e), seq) <==> has_seq(events, seq) || e.event.seq == seq,
{
    let all = events.push(e);
    if has_seq(all, seq) {
        let i = choose|i: int| 0 <= i < all.len() && (#[trigger] all[i]).event.seq == seq;
        if i < events.len() {
            assert(events[i].event.seq == seq);
        }
    }
    if has_seq(events, seq) {
        let i = choose|i: int| 0 <= i < events.len() && (#[trigger] events[i]).event.seq == seq;
        assert(all[i].event.seq == seq);
    }
    assert(all[events.len() as int] == e);
}

proof fn lemma_inserted(sorted: Seq<StoredEventView>, e: StoredEventView, seq: i64)
    ensures
        has_seq(crate::store::session::insert_seq(sorted, e), seq) <==> has_seq(sorted, seq)
            || e.event.seq == seq,
    decreases sorted.len(),
{
    if sorted.len() == 0 || sorted.last().event.seq < e.event.seq {
        lemma_pushed(sorted, e, seq);
    } else if sorted.last().event.seq == e.event.seq {
        assert(sorted[sorted.len() - 1].event.seq == e.event.seq);
    } else {
        let front = sorted.drop_last();
        lemma_inserted(front, e, seq);
        lemma_pushed(crate::store::session::insert_seq(front, e), sorted.last(), seq);
        lemma_pushed(front, sorted.last(), seq);
        assert(front.push(sorted.last()) =~= sorted);
    }
}

proof fn lemma_sorted(events: Seq<StoredEventView>, seq: i64)
    ensures
        has_seq(crate::store::session::by_seq(events), seq) <==> has_seq(events, seq),
    decreases events.len(),
{
    if events.len() > 0 {
        let front = events.drop_last();
        lemma_sorted(front, seq);
        lemma_inserted(crate::store::session::by_seq(front), events.last(), seq);
        lemma_pushed(front, events.last(), seq);
        assert(front.push(events.last()) =~= events);
    }
}

proof fn lemma_before(page: Seq<StoredEventView>, empty: bool, oldest: i64, seq: i64)
    ensures
        has_seq(crate::store::session::before_window(page, empty, oldest), seq) <==> has_seq(page, seq)
            && (empty || seq < oldest),
    decreases page.len(),
{
    if page.len() > 0 {
        let front = page.drop_last();
        lemma_before(front, empty, oldest, seq);
        lemma_pushed(front, page.last(), seq);
        assert(front.push(page.last()) =~= page);
        lemma_pushed(
            crate::store::session::before_window(front, empty, oldest),
            page.last(),
            seq,
        );
    }
}

/// A page of history brings every event that is older than the window and no other: the window
/// then has what it had and those. An empty window takes the whole page.
pub proof fn law_page_taken(s: SessionView, page: Seq<StoredEventView>, seq: i64)
    ensures
        has_seq(s.with_history(page).events, seq) <==> has_seq(s.events, seq) || (has_seq(page, seq)
            && (s.events.len() == 0 || seq < s.oldest_seq)),
{
    let before = crate::store::session::before_window(page, s.events.len() == 0, s.oldest_seq);
    let kept = crate::store::session::by_seq(before);
    lemma_before(page, s.events.len() == 0, s.oldest_seq, seq);
    lemma_sorted(before, seq);
    let all = kept + s.events;
    if kept.len() == 0 {
        assert(!has_seq(kept, seq));
    } else {
        if has_seq(kept, seq) {
            let i = choose|i: int| 0 <= i < kept.len() && (#[trigger] kept[i]).event.seq == seq;
            assert(all[i].event.seq == seq);
        }
        if has_seq(s.events, seq) {
            let i = choose|i: int|
                0 <= i < s.events.len() && (#[trigger] s.events[i]).event.seq == seq;
            assert(all[kept.len() + i].event.seq == seq);
        }
        if has_seq(all, seq) {
            let i = choose|i: int| 0 <= i < all.len() && (#[trigger] all[i]).event.seq == seq;
            if i < kept.len() {
                assert(kept[i].event.seq == seq);
            } else {
                assert(s.events[i - kept.len()].event.seq == seq);
            }
        }
    }
}

/// A session is still at work where its last node is: a step that is neither complete nor cut
/// off, or a call without a result that was not cut off.
pub proof fn law_unsettled(s: SessionView)
    ensures
        s.nodes.len() == 0 ==> !s.unsettled(),
        s.nodes.len() > 0 ==> match s.nodes.last().data {
            NodeDataView::Assistant { finalized, interrupted, .. } => s.unsettled() == !(finalized
                || interrupted),
            NodeDataView::Tool { result, interrupted, .. } => s.unsettled() == !(result is Some
                || interrupted),
            _ => !s.unsettled(),
        },
{
}

/// What the frames tell of a session is there afterwards: its queue, its projections where the
/// frame is the first of its key, and where its durable part ends; an error of the stream is the
/// store's last one.
pub proof fn law_frames_taken(
    store: StoreView,
    id: Seq<char>,
    items: Seq<QueueItemView>,
    key: Seq<char>,
    value: JsonView,
    seq: i64,
    error: RpcErrorView,
)
    ensures
        ({
            let queued = store.after_frame(MuxFrameView::SessionQueue { session_id: id, items }).0;
            let projected = store.after_frame(
                MuxFrameView::SessionProjection { session_id: id, key, value, seq },
            ).0;
            let subscribed = store.after_frame(
                MuxFrameView::SessionSubscribed { session_id: id, last_seq: seq },
            ).0;
            let failed = store.after_frame(MuxFrameView::StreamError { error }).0;
            &&& queued.sessions.dom().contains(id) && queued.sessions[id].queue == Some(items)
            &&& projected.sessions.dom().contains(id)
            &&& !store.sessions.dom().contains(id) ==> projected.sessions[id].projections.dom().contains(
                key,
            ) && projected.sessions[id].projections[key].value == value
                && projected.sessions[id].projections[key].seq == seq
            &&& subscribed.sessions.dom().contains(id) && subscribed.sessions[id].durable_seq == seq
            &&& failed.last_stream_error == Some(crate::store::stream_error(error))
            &&& failed.sessions == store.sessions
        }),
{
}

/// An event of a session that is new is the last of that session's window afterwards.
pub proof fn law_event_frame_taken(
    store: StoreView,
    id: Seq<char>,
    event: SessionEventView,
    view: Option<ToolEventViewView>,
)
    requires
        crate::store::stored::stored_event(event, view) is Ok,
        store.session_or_fresh(id).max_events >= 1,
        crate::store::stored::stored_event(event, view)->Ok_0.event.seq > store.session_or_fresh(
            id,
        ).last_seq,
    ensures
        ({
            let out = store.after_frame(MuxFrameView::SessionEvent { session_id: id, event, view }).0;
            &&& out.sessions.dom().contains(id)
            &&& out.sessions[id].events.len() > 0
            &&& out.sessions[id].events.last() == crate::store::stored::stored_event(
                event,
                view,
            )->Ok_0
            &&& out.sessions[id].nodes == crate::store::fold::chat_nodes(out.sessions[id].events)
        }),
{
    law_event_taken(
        store.session_or_fresh(id),
        crate::store::stored::stored_event(event, view)->Ok_0,
    );
}

proof fn lemma_absorbed(
    state: SessionView,
    id: Seq<char>,
    a: Seq<(SessionEventView, Option<ToolEventViewView>)>,
    b: Seq<(SessionEventView, Option<ToolEventViewView>)>,
)
    requires
        crate::store::absorbed(state, id, a).1 is Ok,
    ensures
        crate::store::absorbed(state, id, a + b) == crate::store::absorbed(
            crate::store::absorbed(state, id, a).0,
            id,
            b,
        ),
    decreases a.len(),
{
    if a.len() == 0 {
        assert(a + b =~= b);
    } else {
        let (event, view) = a[0];
        assert((a + b)[0] == a[0]);
        assert((a + b).drop_first() =~= a.drop_first() + b);
        lemma_absorbed(
            state.with_event(crate::store::stored::stored_event(event, view)->Ok_0),
            id,
            a.drop_first(),
            b,
        );
    }
}

/// Two pages of history, one behind the other, are one page.
pub proof fn law_pages_add(
    state: SessionView,
    id: Seq<char>,
    a: Seq<(SessionEventView, Option<ToolEventViewView>)>,
    b: Seq<(SessionEventView, Option<ToolEventViewView>)>,
    event: SessionEventView,
    view: Option<ToolEventViewView>,
)
    requires
        crate::store::absorbed(state, id, a).1 is Ok,
    ensures
        crate::store::absorbed(state, id, a + b) == crate::store::absorbed(
            crate::store::absorbed(state, id, a).0,
            id,
            b,
        ),
        crate::store::stored::stored_event(event, view) matches Ok(stored) ==> crate::store::absorbed(
            state,
            id,
            seq![(event, view)],
        ).0 == state.with_event(stored),
{
    lemma_absorbed(state, id, a, b);
    reveal_with_fuel(crate::store::absorbed, 2);
    assert(seq![(event, view)].drop_first() =~= Seq::empty());
}

/// A node that nobody folded or unfolded is folded by its kind: what the assistant says and the
/// notices are open; tools, compactions and user messages are folded.
pub proof fn law_folded_by_kind(store: StoreView, id: Seq<char>, i: int)
    requires
        store.sessions.dom().contains(id),
        0 <= i < store.sessions[id].nodes.len(),
        !store.sessions[id].folds.dom().contains(store.sessions[id].nodes[i].key),
        forall|k: int|
            0 <= k < i ==> (#[trigger] store.sessions[id].nodes[k]).key
                != store.sessions[id].nodes[i].key,
    ensures
        ({
            let node = store.sessions[id].nodes[i];
            let folded = crate::store::effective_fold(store, id, node.key).collapsed;
            &&& node.data is Assistant || node.data is TurnError || node.data is TurnMaxTokens
                || node.data is Unknown ==> !folded
            &&& node.data is Tool || node.data is Compaction || node.data is User ==> folded
        }),
{
    let nodes = store.sessions[id].nodes;
    lemma_node_found(nodes, nodes[i].key, i);
}

proof fn lemma_node_found(nodes: Seq<ChatNodeView>, key: Seq<char>, i: int)
    requires
        0 <= i < nodes.len(),
        nodes[i].key == key,
        forall|k: int| 0 <= k < i ==> (#[trigger] nodes[k]).key != key,
    ensures
        crate::store::fold::node_index(nodes, key) == i,
{
    crate::seqs::lemma_first_index(nodes, |n: ChatNodeView| n.key == key, i);
}

} // verus!
