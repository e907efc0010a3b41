//! What holds of every session and of every store.

use vstd::prelude::*;

use crate::json::JsonView;
use crate::store::node::FoldState;
use crate::store::session::{ProjectionView, SessionView, NO_SEQ};
use crate::store::stored::StoredEventView;
use crate::store::StoreView;
use crate::wire::{MuxFrameView, QueueItemView};

verus! {

/// The seqs of a list of events ascend strictly.
pub open spec fn ascending(events: Seq<StoredEventView>) -> bool {
    forall|i: int, j: int|
        0 <= i < j < events.len() ==> (#[trigger] events[i]).event.seq < (
        #[trigger] events[j]).event.seq
}

/// The window of a session: its seqs ascend strictly, and the watermarks are those of its
/// ends (-1 where it is empty).
pub open spec fn window_fine(s: SessionView) -> bool {
    &&& ascending(s.events)
    &&& s.oldest_seq == crate::store::session::first_seq(s.events)
    &&& s.last_seq == (if s.events.len() == 0 {
        NO_SEQ
    } else {
        s.events.last().event.seq
    })
    &&& s.max_events >= 1
}

/// The nodes of a session are those of its window.
pub open spec fn derived(s: SessionView) -> bool {
    s.nodes == crate::store::fold::chat_nodes(s.events)
}

/// A fresh session is fine, and its nodes are those of its window.
pub proof fn law_fresh(id: Seq<char>, max_events: usize)
    requires
        max_events >= 1,
    ensures
        window_fine(crate::store::session::fresh_session(id, max_events)),
        derived(crate::store::session::fresh_session(id, max_events)),
{
    let s = crate::store::session::fresh_session(id, max_events);
    crate::store::fold_laws::law_chat_nodes(s.events);
    assert(s.nodes =~= crate::store::fold::chat_nodes(s.events));
}

/// An event keeps the window fine, and the window never passes its cap when it takes one.
pub proof fn law_event_keeps(s: SessionView, e: StoredEventView)
    requires
        window_fine(s),
    ensures
        window_fine(s.with_event(e)),
        e.event.seq > s.last_seq ==> s.with_event(e).events.len() <= s.max_events
            && s.with_event(e).events.last() == e && s.with_event(e).last_seq == e.event.seq,
        e.event.seq <= s.last_seq ==> s.with_event(e) == s,
        s.events.len() <= s.max_events ==> s.with_event(e).events.len() <= s.max_events,
{
    if e.event.seq > s.last_seq {
        let pushed = s.events.push(e);
        assert forall|i: int, j: int| 0 <= i < j < pushed.len() implies (
        #[trigger] pushed[i]).event.seq < (#[trigger] pushed[j]).event.seq by {
            if j == pushed.len() - 1 && s.events.len() > 0 {
                assert(s.events[i].event.seq <= s.events.last().event.seq);
            }
        }
        if pushed.len() > s.max_events {
            let n = pushed.len() - s.max_events;
            let cut = pushed.skip(n);
            assert forall|i: int, j: int| 0 <= i < j < cut.len() implies (
            #[trigger] cut[i]).event.seq < (#[trigger] cut[j]).event.seq by {
                assert(cut[i] == pushed[i + n] && cut[j] == pushed[j + n]);
            }
            assert(cut.last() == e);
        }
    }
}

/// A duplicate is ignored: the same event again changes nothing.
pub proof fn law_duplicate_ignored(s: SessionView, e: StoredEventView)
    requires
        window_fine(s),
    ensures
        s.with_event(e).with_event(e) == s.with_event(e),
{
    law_event_keeps(s, e);
}

/// Eviction is what tells that the head of the window is gone: a window that stays within
/// its cap is not marked.
pub proof fn law_eviction_marked(s: SessionView, e: StoredEventView)
    requires
        window_fine(s),
    ensures
        s.with_event(e).truncated == (s.truncated || (e.event.seq > s.last_seq && s.events.len() + 1
            > s.max_events)),
{
}

proof fn lemma_up_to(events: Seq<StoredEventView>, limit: i64)
    requires
        ascending(events),
    ensures
        crate::store::session::up_to(events, limit).len() <= events.len(),
        crate::store::session::up_to(events, limit) == events.take(
            crate::store::session::up_to(events, limit).len() as int,
        ),
        forall|i: int|
            0 <= i < events.len() ==> ((#[trigger] events[i]).event.seq <= limit <==> i
                < crate::store::session::up_to(events, limit).len()),
    decreases events.len(),
{
    if events.len() > 0 {
        let rest = events.drop_last();
        assert(ascending(rest));
        lemma_up_to(rest, limit);
        let kept = crate::store::session::up_to(rest, limit);
        let out = crate::store::session::up_to(events, limit);
        if events.last().event.seq <= limit {
            if kept.len() < rest.len() {
                assert(rest[kept.len() as int].event.seq > limit);
                assert(events[kept.len() as int].event.seq < events[events.len()
                    - 1].event.seq);
            }
            assert(out =~= events);
            assert(events.take(events.len() as int) =~= events);
            assert forall|i: int| 0 <= i < events.len() implies (
            #[trigger] events[i]).event.seq <= limit by {
                if i < rest.len() {
                    assert(rest[i] == events[i]);
                }
            }
        } else {
            assert(out =~= events.take(out.len() as int));
            assert forall|i: int| 0 <= i < events.len() implies ((
            #[trigger] events[i]).event.seq <= limit <==> i < out.len()) by {
                if i < rest.len() {
                    assert(rest[i] == events[i]);
                }
            }
        }
    } else {
        assert(crate::store::session::up_to(events, limit) =~= events.take(0));
    }
}

proof fn lemma_highest(events: Seq<StoredEventView>)
    requires
        ascending(events),
    ensures
        crate::store::session::highest_seq(events) == (if events.len() == 0 {
            NO_SEQ
        } else {
            events.last().event.seq
        }),
    decreases events.len(),
{
    if events.len() > 1 {
        let rest = events.drop_last();
        assert(ascending(rest));
        lemma_highest(rest);
        assert(rest.last() == events[events.len() - 2]);
        assert(events[events.len() - 2].event.seq < events[events.len() - 1].event.seq);
    }
}

/// A baseline keeps the window fine and leaves nothing beyond it: the window becomes its
/// prefix up to the baseline, and no projection is newer.
pub proof fn law_baseline(s: SessionView, durable_seq: i64)
    requires
        window_fine(s),
    ensures
        window_fine(s.cut_to(durable_seq)),
        s.cut_to(durable_seq).durable_seq == durable_seq,
        s.cut_to(durable_seq).events.is_prefix_of(s.events),
        forall|i: int|
            0 <= i < s.cut_to(durable_seq).events.len() ==> (#[trigger] s.cut_to(
                durable_seq,
            ).events[i]).event.seq <= durable_seq,
        forall|i: int|
            s.cut_to(durable_seq).events.len() <= i < s.events.len() ==> (
            #[trigger] s.events[i]).event.seq > durable_seq,
        forall|k: Seq<char>| #[trigger]
            s.cut_to(durable_seq).projections.dom().contains(k) ==> s.cut_to(
                durable_seq,
            ).projections[k].seq <= durable_seq && s.projections.dom().contains(k) && s.cut_to(
                durable_seq,
            ).projections[k] == s.projections[k],
{
    lemma_up_to(s.events, durable_seq);
    let cut = s.cut_to(durable_seq);
    assert forall|i: int| 0 <= i < cut.events.len() implies (
    #[trigger] cut.events[i]).event.seq <= durable_seq by {
        assert(cut.events[i] == s.events[i]);
    }
    assert(ascending(cut.events)) by {
        assert forall|i: int, j: int| 0 <= i < j < cut.events.len() implies (
        #[trigger] cut.events[i]).event.seq < (#[trigger] cut.events[j]).event.seq by {
            assert(cut.events[i] == s.events[i] && cut.events[j] == s.events[j]);
        }
    }
    lemma_highest(cut.events);
    if cut.events.len() == s.events.len() {
        assert(cut.events =~= s.events);
    }
}

/// A baseline again changes nothing.
pub proof fn law_baseline_again(s: SessionView, durable_seq: i64)
    requires
        window_fine(s),
    ensures
        s.cut_to(durable_seq).cut_to(durable_seq) == s.cut_to(durable_seq),
{
    law_baseline(s, durable_seq);
    let once = s.cut_to(durable_seq);
    lemma_up_to(once.events, durable_seq);
    let kept = crate::store::session::up_to(once.events, durable_seq);
    if kept.len() < once.events.len() {
        assert(once.events[kept.len() as int].event.seq <= durable_seq);
    }
    assert(kept =~= once.events);
    assert(once.cut_to(durable_seq).projections =~= once.projections);
}

/// What a baseline dropped is taken again when it is sent again.
pub proof fn law_dropped_is_taken_again(s: SessionView, durable_seq: i64, e: StoredEventView)
    requires
        window_fine(s),
        durable_seq >= NO_SEQ,
        e.event.seq > durable_seq,
    ensures
        s.cut_to(durable_seq).with_event(e).events.len() > 0,
        s.cut_to(durable_seq).with_event(e).events.last() == e,
{
    law_baseline(s, durable_seq);
    let cut = s.cut_to(durable_seq);
    if cut.events.len() > 0 {
        assert(cut.events[cut.events.len() - 1].event.seq <= durable_seq);
    }
    law_event_keeps(cut, e);
}

/// The higher seq wins: after a projection the row is at least as new as the frame, and no
/// other row changes.
pub proof fn law_projection_newest(s: SessionView, key: Seq<char>, value: JsonView, seq: i64)
    ensures
        s.with_projection(key, value, seq).projections.dom().contains(key),
        s.with_projection(key, value, seq).projections[key].seq >= seq,
        s.projections.dom().contains(key) ==> s.with_projection(key, value, seq).projections[key].seq
            >= s.projections[key].seq,
        forall|k: Seq<char>|
            k != key ==> (s.with_projection(key, value, seq).projections.dom().contains(k)
                == s.projections.dom().contains(k) && (s.projections.dom().contains(k)
                ==> #[trigger] s.with_projection(key, value, seq).projections[k]
                == s.projections[k])),
{
}

/// Two projections of one key give the same row in either order, unless their seqs are
/// equal: then the first stays.
pub proof fn law_projection_order(
    s: SessionView,
    key: Seq<char>,
    a: ProjectionView,
    b: ProjectionView,
)
    requires
        a.seq != b.seq,
    ensures
        s.with_projection(key, a.value, a.seq).with_projection(key, b.value, b.seq).projections
            == s.with_projection(key, b.value, b.seq).with_projection(
            key,
            a.value,
            a.seq,
        ).projections,
{
    let ab = s.with_projection(key, a.value, a.seq).with_projection(key, b.value, b.seq);
    let ba = s.with_projection(key, b.value, b.seq).with_projection(key, a.value, a.seq);
    assert(ab.projections =~= ba.projections);
}

/// The queue is what the last frame gave.
pub proof fn law_queue_replaced(s: SessionView, first: Seq<QueueItemView>, second: Seq<QueueItemView>)
    ensures
        s.with_queue(first).with_queue(second) == s.with_queue(second),
{
}

proof fn lemma_insert_seq(sorted: Seq<StoredEventView>, e: StoredEventView)
    requires
        ascending(sorted),
    ensures
        ascending(crate::store::session::insert_seq(sorted, e)),
        crate::store::session::insert_seq(sorted, e).len() > 0,
        forall|i: int|
            0 <= i < crate::store::session::insert_seq(sorted, e).len() ==> (
            #[trigger] crate::store::session::insert_seq(sorted, e)[i] == e || sorted.contains(
                crate::store::session::insert_seq(sorted, e)[i],
            )),
        exists|i: int|
            0 <= i < crate::store::session::insert_seq(sorted, e).len() && (
            #[trigger] crate::store::session::insert_seq(sorted, e)[i]).event.seq == e.event.seq,
        forall|i: int|
            0 <= i < sorted.len() ==> crate::store::session::insert_seq(sorted, e).contains(
                #[trigger] sorted[i],
            ),
    decreases sorted.len(),
{
    let out = crate::store::session::insert_seq(sorted, e);
    if sorted.len() == 0 || sorted.last().event.seq < e.event.seq {
        assert forall|i: int, j: int| 0 <= i < j < out.len() implies (
        #[trigger] out[i]).event.seq < (#[trigger] out[j]).event.seq by {
            if j == out.len() - 1 {
                assert(sorted[i].event.seq <= sorted[sorted.len() - 1].event.seq);
            }
        }
        assert(out[out.len() - 1] == e);
        assert forall|i: int| 0 <= i < sorted.len() implies out.contains(#[trigger] sorted[i]) by {
            assert(out[i] == sorted[i]);
        }
        assert forall|i: int| 0 <= i < out.len() implies (#[trigger] out[i] == e
            || sorted.contains(out[i])) by {
            if i < sorted.len() {
                assert(sorted[i] == out[i]);
            }
        }
    } else if sorted.last().event.seq == e.event.seq {
        assert(out[out.len() - 1].event.seq == e.event.seq);
    } else {
        let rest = sorted.drop_last();
        assert(ascending(rest));
        lemma_insert_seq(rest, e);
        let inner = crate::store::session::insert_seq(rest, e);
        assert forall|i: int, j: int| 0 <= i < j < out.len() implies (
        #[trigger] out[i]).event.seq < (#[trigger] out[j]).event.seq by {
            assert(out[i] == inner[i]);
            if j == out.len() - 1 {
                if inner[i] != e {
                    let k = choose|k: int| 0 <= k < rest.len() && rest[k] == inner[i];
                    assert(sorted[k].event.seq < sorted[sorted.len() - 1].event.seq);
                }
            } else {
                assert(out[j] == inner[j]);
            }
        }
        assert forall|i: int| 0 <= i < out.len() implies (#[trigger] out[i] == e
            || sorted.contains(out[i])) by {
            if i < inner.len() {
                assert(out[i] == inner[i]);
                if inner[i] != e {
                    let k = choose|k: int| 0 <= k < rest.len() && rest[k] == inner[i];
                    assert(sorted[k] == inner[i]);
                }
            } else {
                assert(sorted[sorted.len() - 1] == out[i]);
            }
        }
        let at = choose|i: int| 0 <= i < inner.len() && (#[trigger] inner[i]).event.seq == e.event.seq;
        assert(out[at].event.seq == e.event.seq);
        assert forall|i: int| 0 <= i < sorted.len() implies out.contains(#[trigger] sorted[i]) by {
            if i < rest.len() {
                assert(inner.contains(rest[i]));
                let k = choose|k: int| 0 <= k < inner.len() && inner[k] == rest[i];
                assert(out[k] == sorted[i]);
            } else {
                assert(out[out.len() - 1] == sorted[i]);
            }
        }
    }
}

/// Whether an event of a list has a number.
spec fn has_seq(list: Seq<StoredEventView>, seq: i64) -> bool {
    exists|k: int| 0 <= k < list.len() && (#[trigger] list[k]).event.seq == seq
}

proof fn lemma_by_seq_numbers(events: Seq<StoredEventView>, seq: i64)
    requires
        has_seq(events, seq),
    ensures
        has_seq(crate::store::session::by_seq(events), seq),
    decreases events.len(),
{
    let rest = events.drop_last();
    let sorted = crate::store::session::by_seq(rest);
    let out = crate::store::session::by_seq(events);
    lemma_by_seq(rest);
    lemma_insert_seq(sorted, events.last());
    if events.last().event.seq != seq {
        let k = choose|k: int| 0 <= k < events.len() && (#[trigger] events[k]).event.seq == seq;
        assert(rest[k].event.seq == seq);
        lemma_by_seq_numbers(rest, seq);
        let m = choose|m: int| 0 <= m < sorted.len() && (#[trigger] sorted[m]).event.seq == seq;
        assert(out.contains(sorted[m]));
        let n = choose|n: int| 0 <= n < out.len() && out[n] == sorted[m];
        assert(out[n].event.seq == seq);
    }
}

proof fn lemma_by_seq(events: Seq<StoredEventView>)
    ensures
        ascending(crate::store::session::by_seq(events)),
        events.len() > 0 ==> crate::store::session::by_seq(events).len() > 0,
        forall|i: int|
            0 <= i < crate::store::session::by_seq(events).len() ==> events.contains(
                #[trigger] crate::store::session::by_seq(events)[i],
            ),
    decreases events.len(),
{
    if events.len() > 0 {
        let rest = events.drop_last();
        lemma_by_seq(rest);
        let sorted = crate::store::session::by_seq(rest);
        lemma_insert_seq(sorted, events.last());
        let out = crate::store::session::by_seq(events);
        assert forall|i: int| 0 <= i < out.len() implies events.contains(#[trigger] out[i]) by {
            if out[i] == events.last() {
                assert(events[events.len() - 1] == out[i]);
            } else {
                assert(sorted.contains(out[i]));
                let k = choose|k: int| 0 <= k < sorted.len() && sorted[k] == out[i];
                assert(rest.contains(sorted[k]));
                let m = choose|m: int| 0 <= m < rest.len() && rest[m] == sorted[k];
                assert(events[m] == out[i]);
            }
        }
    }
}

proof fn lemma_before_window(page: Seq<StoredEventView>, empty: bool, oldest_seq: i64)
    ensures
        forall|i: int|
            0 <= i < crate::store::session::before_window(page, empty, oldest_seq).len() ==> {
                let e = #[trigger] crate::store::session::before_window(page, empty, oldest_seq)[i];
                page.contains(e) && (empty || e.event.seq < oldest_seq)
            },
        forall|i: int|
            0 <= i < page.len() && (empty || (#[trigger] page[i]).event.seq < oldest_seq)
                ==> crate::store::session::before_window(page, empty, oldest_seq).contains(page[i]),
    decreases page.len(),
{
    if page.len() > 0 {
        let rest = page.drop_last();
        lemma_before_window(rest, empty, oldest_seq);
        let kept = crate::store::session::before_window(rest, empty, oldest_seq);
        let out = crate::store::session::before_window(page, empty, oldest_seq);
        assert forall|i: int| 0 <= i < out.len() implies {
            let e = #[trigger] out[i];
            page.contains(e) && (empty || e.event.seq < oldest_seq)
        } by {
            if i < kept.len() {
                assert(out[i] == kept[i]);
                let k = choose|k: int| 0 <= k < rest.len() && rest[k] == kept[i];
                assert(page[k] == out[i]);
            } else {
                assert(page[page.len() - 1] == out[i]);
            }
        }
        assert forall|i: int|
            0 <= i < page.len() && (empty || (
            #[trigger] page[i]).event.seq < oldest_seq) implies out.contains(page[i]) by {
            if i < rest.len() {
                assert(rest[i] == page[i]);
                let k = choose|k: int| 0 <= k < kept.len() && kept[k] == page[i];
                assert(out[k] == page[i]);
            } else {
                assert(out[out.len() - 1] == page[i]);
            }
        }
    }
}

proof fn lemma_kept(page: Seq<StoredEventView>, empty: bool, oldest_seq: i64)
    ensures
        ascending(
            crate::store::session::by_seq(
                crate::store::session::before_window(page, empty, oldest_seq),
            ),
        ),
        forall|i: int|
            0 <= i < crate::store::session::by_seq(
                crate::store::session::before_window(page, empty, oldest_seq),
            ).len() ==> empty || (#[trigger] crate::store::session::by_seq(
                crate::store::session::before_window(page, empty, oldest_seq),
            )[i]).event.seq < oldest_seq,
{
    let chosen = crate::store::session::before_window(page, empty, oldest_seq);
    lemma_before_window(page, empty, oldest_seq);
    lemma_by_seq(chosen);
    let kept = crate::store::session::by_seq(chosen);
    assert forall|i: int| 0 <= i < kept.len() implies empty || (
    #[trigger] kept[i]).event.seq < oldest_seq by {
        assert(chosen.contains(kept[i]));
        let k = choose|k: int| 0 <= k < chosen.len() && chosen[k] == kept[i];
        assert(empty || chosen[k].event.seq < oldest_seq);
    }
}

/// A page of history keeps the window fine: it grows backward, and what it held stays as
/// its end.
pub proof fn law_history_keeps(s: SessionView, page: Seq<StoredEventView>)
    requires
        window_fine(s),
    ensures
        window_fine(s.with_history(page)),
        s.with_history(page).events.len() >= s.events.len(),
        s.with_history(page).events.skip(s.with_history(page).events.len() - s.events.len())
            == s.events,
{
    let empty = s.events.len() == 0;
    lemma_kept(page, empty, s.oldest_seq);
    let kept = crate::store::session::by_seq(
        crate::store::session::before_window(page, empty, s.oldest_seq),
    );
    if kept.len() == 0 {
        assert(s.events.skip(0) =~= s.events);
    } else {
        let events = kept + s.events;
        assert forall|i: int, j: int| 0 <= i < j < events.len() implies (
        #[trigger] events[i]).event.seq < (#[trigger] events[j]).event.seq by {
            if i < kept.len() && j >= kept.len() {
                assert(kept[i].event.seq < s.oldest_seq);
                assert(s.events[0].event.seq <= s.events[j - kept.len()].event.seq);
            }
        }
        assert(events.skip(events.len() - s.events.len()) =~= s.events);
    }
}

/// The same page of history again changes nothing.
pub proof fn law_history_again(s: SessionView, page: Seq<StoredEventView>)
    requires
        window_fine(s),
    ensures
        s.with_history(page).with_history(page) == s.with_history(page),
{
    law_history_keeps(s, page);
    let empty = s.events.len() == 0;
    let chosen = crate::store::session::before_window(page, empty, s.oldest_seq);
    lemma_before_window(page, empty, s.oldest_seq);
    lemma_by_seq(chosen);
    let kept = crate::store::session::by_seq(chosen);
    if kept.len() > 0 {
        let once = s.with_history(page);
        let second = crate::store::session::before_window(page, false, once.oldest_seq);
        lemma_before_window(page, false, once.oldest_seq);
        if second.len() > 0 {
            let e = second[0];
            let i = choose|i: int| 0 <= i < page.len() && page[i] == e;
            assert(page[i].event.seq < once.oldest_seq);
            assert(once.events[0] == kept[0]);
            if !empty {
                assert(chosen.contains(kept[0]));
                let c = choose|c: int| 0 <= c < chosen.len() && chosen[c] == kept[0];
                assert(chosen[c].event.seq < s.oldest_seq);
            }
            assert(chosen.contains(page[i]));
            let m = choose|m: int| 0 <= m < chosen.len() && chosen[m] == page[i];
            assert(chosen[m].event.seq == page[i].event.seq);
            lemma_by_seq_numbers(chosen, chosen[m].event.seq);
            let k = choose|k: int|
                0 <= k < kept.len() && (#[trigger] kept[k]).event.seq == chosen[m].event.seq;
            assert(kept[0].event.seq <= kept[k].event.seq);
        }
        assert(second.len() == 0);
        assert(crate::store::session::by_seq(second).len() == 0);
    }
}

/// Deriving the nodes makes them those of the window, keeps the fold choice of every node
/// that is still there, and forgets the others.
pub proof fn law_rebuild(s: SessionView, key: Seq<char>)
    ensures
        derived(s.rebuilt()),
        s.rebuilt().events == s.events,
        s.rebuilt().folds.dom().contains(key) <==> s.folds.dom().contains(key)
            && crate::store::session::has_key(s.rebuilt().nodes, key),
        s.rebuilt().folds.dom().contains(key) ==> s.rebuilt().folds[key] == s.folds[key],
{
}

/// Deriving the nodes again changes nothing.
pub proof fn law_rebuild_again(s: SessionView)
    ensures
        s.rebuilt().rebuilt() == s.rebuilt(),
{
    assert(s.rebuilt().rebuilt().folds =~= s.rebuilt().folds);
}

/// Every session of a store is fine, and its nodes are those of its window.
pub open spec fn store_fine(store: StoreView) -> bool {
    &&& store.max_events >= 1
    &&& forall|id: Seq<char>| #[trigger]
        store.sessions.dom().contains(id) ==> window_fine(store.sessions[id]) && derived(
            store.sessions[id],
        )
}

/// Every frame keeps a store fine.
pub proof fn law_frame_keeps(store: StoreView, frame: MuxFrameView)
    requires
        store_fine(store),
    ensures
        store_fine(store.after_frame(frame).0),
{
    match frame {
        MuxFrameView::SessionEvent { session_id, event, view } => {
            law_fresh(session_id, store.max_events);
            let stored = crate::store::stored::stored_event(event, view);
            if stored is Ok {
                let s = store.session_or_fresh(session_id);
                law_event_keeps(s, stored->Ok_0);
                let next = s.with_event(stored->Ok_0);
                assert(window_fine(next.rebuilt()));
            }
        },
        MuxFrameView::SessionSubscribed { session_id, last_seq } => {
            law_fresh(session_id, store.max_events);
            let s = store.session_or_fresh(session_id);
            law_baseline(s, last_seq);
            assert(window_fine(s.cut_to(last_seq).rebuilt()));
        },
        MuxFrameView::SessionProjection { session_id, key, value, seq } => {
            law_fresh(session_id, store.max_events);
        },
        MuxFrameView::SessionQueue { session_id, items } => {
            law_fresh(session_id, store.max_events);
        },
        _ => {},
    }
}

/// The session that a frame is about.
pub open spec fn frame_session(frame: MuxFrameView) -> Option<Seq<char>> {
    match frame {
        MuxFrameView::SessionEvent { session_id, .. } => Some(session_id),
        MuxFrameView::SessionSubscribed { session_id, .. } => Some(session_id),
        MuxFrameView::SessionProjection { session_id, .. } => Some(session_id),
        MuxFrameView::SessionQueue { session_id, .. } => Some(session_id),
        _ => None,
    }
}

/// A frame leaves every other session as it is.
pub proof fn law_frame_is_local(store: StoreView, frame: MuxFrameView, id: Seq<char>)
    requires
        frame_session(frame) != Some(id),
    ensures
        store.after_frame(frame).0.sessions.dom().contains(id) == store.sessions.dom().contains(id),
        store.sessions.dom().contains(id) ==> store.after_frame(frame).0.sessions[id]
            == store.sessions[id],
{
}

/// A refused frame leaves the store as it is.
pub proof fn law_refused_changes_nothing(store: StoreView, frame: MuxFrameView)
    requires
        store.after_frame(frame).1 is Err,
    ensures
        store.after_frame(frame).0 == store,
{
}

/// Only an event frame can be refused.
pub proof fn law_only_events_refused(store: StoreView, frame: MuxFrameView)
    requires
        store.after_frame(frame).1 is Err,
    ensures
        frame is SessionEvent,
{
}

/// A fold choice is what the store answers from then on, and it is the session's own: a
/// frame for another session does not change it.
pub proof fn law_fold_choice(store: StoreView, id: Seq<char>, key: Seq<char>, state: FoldState)
    requires
        store.sessions.dom().contains(id),
    ensures
        crate::store::effective_fold(
            store.with_session(
                id,
                SessionView {
                    folds: store.sessions[id].folds.insert(key, state),
                    ..store.sessions[id]
                },
            ),
            id,
            key,
        ) == state,
{
}

} // verus!
