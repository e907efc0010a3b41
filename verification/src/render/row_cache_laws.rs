//! What the row cache keeps.

use vstd::prelude::*;

use crate::render::row_cache::{RowCacheView, RowView, StageView, SyncView};
use crate::store::node::ChatNodeView;
use crate::store::StoreView;

verus! {

/// Spacing puts an empty line behind every row but the last, and doing it again changes
/// nothing.
pub proof fn law_spacing(rows: Seq<RowView>)
    ensures
        crate::render::row_cache::spaced_rows(crate::render::row_cache::spaced_rows(rows))
            == crate::render::row_cache::spaced_rows(rows),
        forall|i: int|
            0 <= i < rows.len() - 1 ==> {
                let lines = (#[trigger] crate::render::row_cache::spaced_rows(rows)[i]).lines;
                lines.len() > 0 && lines.last().blank()
            },
        rows.len() > 0 ==> crate::render::row_cache::spaced_rows(rows).last() == rows.last(),
{
    let once = crate::render::row_cache::spaced_rows(rows);
    assert forall|i: int| 0 <= i < rows.len() - 1 implies {
        let lines = (#[trigger] once[i]).lines;
        lines.len() > 0 && lines.last().blank()
    } by {
        let row = rows[i];
        assert(once[i] == crate::render::row_cache::with_blank(row));
        assert(crate::render::style::empty_line().blank());
    }
    assert(crate::render::row_cache::spaced_rows(once) =~= once);
}

proof fn lemma_placed(
    start: SyncView,
    nodes: Seq<ChatNodeView>,
    store: StoreView,
    id: Seq<char>,
    stage: StageView,
)
    requires
        start.placed.len() == 0,
    ensures
        ({
            let placed = crate::render::row_cache::sync_nodes(start, nodes, store, id, stage).placed;
            &&& placed.len() == nodes.len()
            &&& forall|i: int|
                0 <= i < nodes.len() ==> (#[trigger] placed[i]).key == nodes[i].key
                    && placed[i].signature == crate::render::signature::signature(
                    nodes[i],
                    crate::render::row_cache::is_collapsed(store, id, nodes[i].key),
                )
        }),
    decreases nodes.len(),
{
    if nodes.len() > 0 {
        let front = nodes.drop_last();
        lemma_placed(start, front, store, id, stage);
        let before = crate::render::row_cache::sync_nodes(start, front, store, id, stage);
        let after = crate::render::row_cache::sync_nodes(start, nodes, store, id, stage);
        let node = nodes.last();
        crate::seqs::lemma_first_index_holds(
            before.left,
            crate::render::row_cache::of_node(node.key),
        );
        assert(after.placed.drop_last() =~= before.placed);
        assert forall|i: int| 0 <= i < nodes.len() implies (#[trigger] after.placed[i]).key
            == nodes[i].key && after.placed[i].signature == crate::render::signature::signature(
            nodes[i],
            crate::render::row_cache::is_collapsed(store, id, nodes[i].key),
        ) by {
            if i < front.len() {
                assert(after.placed[i] == before.placed[i]);
                assert(front[i] == nodes[i]);
            }
        }
    }
}

/// After a reconciliation the rows are those of the session's nodes, one for each, in their
/// order, and each carries the fingerprint of what its node shows.
pub proof fn law_rows_follow_nodes(
    cache: RowCacheView,
    store: StoreView,
    id: Seq<char>,
    stage: StageView,
)
    requires
        store.sessions.dom().contains(id),
    ensures
        ({
            let rows = crate::render::row_cache::synced(cache, store, id, stage).rows;
            let nodes = store.sessions[id].nodes;
            &&& rows.len() == nodes.len()
            &&& forall|i: int|
                0 <= i < nodes.len() ==> (#[trigger] rows[i]).key == nodes[i].key
                    && rows[i].signature == crate::render::signature::signature(
                    nodes[i],
                    crate::render::row_cache::is_collapsed(store, id, nodes[i].key),
                )
        }),
{
    let start = crate::render::row_cache::at_width(cache, stage.scene.width);
    lemma_placed(
        SyncView {
            left: start.rows,
            placed: Seq::empty(),
            dirty: start.dirty,
            changed: cache.width != stage.scene.width,
        },
        store.sessions[id].nodes,
        store,
        id,
        stage,
    );
}

/// Whether rows are those of some nodes and show what they show now.
pub open spec fn current(
    rows: Seq<RowView>,
    nodes: Seq<ChatNodeView>,
    store: StoreView,
    id: Seq<char>,
) -> bool {
    &&& rows.len() == nodes.len()
    &&& forall|i: int|
        0 <= i < nodes.len() ==> (#[trigger] rows[i]).key == nodes[i].key && rows[i].signature
            == crate::render::signature::signature(
            nodes[i],
            crate::render::row_cache::is_collapsed(store, id, nodes[i].key),
        )
}

proof fn lemma_kept(
    left: Seq<RowView>,
    placed: Seq<RowView>,
    node: ChatNodeView,
    collapsed: bool,
    stage: StageView,
)
    requires
        left.len() > 0,
        left[0].key == node.key,
        left[0].signature == crate::render::signature::signature(node, collapsed),
    ensures
        crate::render::row_cache::sync_node(
            SyncView { left, placed, dirty: Seq::empty(), changed: false },
            node,
            collapsed,
            stage,
        ) == (SyncView {
            left: left.skip(1),
            placed: placed.push(left[0]),
            dirty: Seq::empty(),
            changed: false,
        }),
{
    crate::seqs::lemma_first_index(left, crate::render::row_cache::of_node(node.key), 0);
    assert(left.remove(0) =~= left.skip(1));
}

proof fn lemma_again(
    rows: Seq<RowView>,
    nodes: Seq<ChatNodeView>,
    n: int,
    store: StoreView,
    id: Seq<char>,
    stage: StageView,
)
    requires
        current(rows, nodes, store, id),
        0 <= n <= nodes.len(),
    ensures
        crate::render::row_cache::sync_nodes(
            SyncView {
                left: rows,
                placed: Seq::empty(),
                dirty: Seq::empty(),
                changed: false,
            },
            nodes.take(n),
            store,
            id,
            stage,
        ) == (SyncView {
            left: rows.skip(n),
            placed: rows.take(n),
            dirty: Seq::empty(),
            changed: false,
        }),
    decreases n,
{
    let start = SyncView {
        left: rows,
        placed: Seq::empty(),
        dirty: Seq::empty(),
        changed: false,
    };
    if n == 0 {
        assert(rows.skip(0) =~= rows);
        assert(rows.take(0) =~= Seq::empty());
        assert(nodes.take(0) =~= Seq::empty());
    } else {
        lemma_again(rows, nodes, n - 1, store, id, stage);
        assert(nodes.take(n).drop_last() =~= nodes.take(n - 1));
        assert(nodes.take(n).last() == nodes[n - 1]);
        let left = rows.skip(n - 1);
        let node = nodes[n - 1];
        assert(rows[n - 1].key == node.key);
        assert(left[0] == rows[n - 1]);
        lemma_kept(
            left,
            rows.take(n - 1),
            node,
            crate::render::row_cache::is_collapsed(store, id, node.key),
            stage,
        );
        assert(left.skip(1) =~= rows.skip(n));
        assert(rows.take(n - 1).push(rows[n - 1]) =~= rows.take(n));
    }
}

/// A reconciliation with nodes that show what they showed renders nothing, marks nothing and
/// calls for no drawing: idle rows stay.
pub proof fn law_idle_rows_stay(
    cache: RowCacheView,
    store: StoreView,
    id: Seq<char>,
    stage: StageView,
)
    requires
        store.sessions.dom().contains(id),
        cache.width == stage.scene.width,
        cache.dirty.len() == 0,
        current(cache.rows, store.sessions[id].nodes, store, id),
    ensures
        !crate::render::row_cache::sync_changes(cache, store, id, stage),
        crate::render::row_cache::synced(cache, store, id, stage).rows
            == crate::render::row_cache::spaced_rows(cache.rows),
        crate::render::row_cache::synced(cache, store, id, stage).dirty.len() == 0,
{
    let nodes = store.sessions[id].nodes;
    let n = nodes.len() as int;
    lemma_again(cache.rows, nodes, n, store, id, stage);
    assert(nodes.take(n) =~= nodes);
    assert(cache.rows.take(n) =~= cache.rows);
    assert(cache.dirty =~= Seq::empty());
}

/// At another width every row is rendered anew.
pub proof fn law_width_drops_rows(cache: RowCacheView, width: u16)
    requires
        cache.width != width,
    ensures
        crate::render::row_cache::at_width(cache, width).rows.len() == 0,
        crate::render::row_cache::at_width(cache, width).dirty.len() == 0,
{
}

/// A line has a place: a row that is there and, where that row has lines, one of them. A line
/// past the end is the last of the last row.
pub proof fn law_line_has_place(rows: Seq<RowView>, i: int, offset: int)
    requires
        rows.len() > 0,
        0 <= i <= rows.len(),
        0 <= offset,
    ensures
        ({
            let (row, line) = crate::render::row_cache::place_from(rows, i, offset);
            &&& 0 <= row < rows.len()
            &&& 0 <= line
            &&& rows[row].lines.len() > 0 ==> line < rows[row].lines.len()
            &&& offset >= crate::render::row_cache::line_count(rows.skip(i)) ==> row == rows.len()
                - 1 && (rows.last().lines.len() > 0 ==> line == rows.last().lines.len() - 1)
        }),
    decreases rows.len() - i,
{
    if i < rows.len() {
        let rest = rows.skip(i);
        lemma_count_front(rest);
        assert(rest.drop_first() =~= rows.skip(i + 1));
        assert(rest[0] == rows[i]);
        if offset >= rows[i].lines.len() {
            law_line_has_place(rows, i + 1, offset - rows[i].lines.len());
        }
    }
}

proof fn lemma_count_front(rows: Seq<RowView>)
    requires
        rows.len() > 0,
    ensures
        crate::render::row_cache::line_count(rows) == rows[0].lines.len()
            + crate::render::row_cache::line_count(rows.drop_first()),
    decreases rows.len(),
{
    if rows.len() == 1 {
        assert(rows.drop_last() =~= Seq::empty());
        assert(rows.drop_first() =~= Seq::empty());
    } else {
        lemma_count_front(rows.drop_last());
        assert(rows.drop_last().drop_first() =~= rows.drop_first().drop_last());
    }
}

} // verus!
