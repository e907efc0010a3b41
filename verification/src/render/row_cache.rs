//! The rendered rows of a session's nodes, kept until what they show changes.

use vstd::prelude::*;

use crate::render::inline_image::{ImageRow, ImageRowView};
use crate::render::markdown::{render_node_full, NodeRenderView, SceneView};
use crate::render::signature::rendered_signature;
use crate::render::sink::{push_line, RenderContext};
use crate::render::style::{Color, Line, LineView};
use crate::render::wrap::wrap_lines_marked;
use crate::store::node::{ChatNode, ChatNodeView};
use crate::store::{SessionStore, StoreView};
use crate::text::same;
use crate::wire::SessionId;

verus! {

/// The rows of one node, wrapped.
#[derive(Debug)]
pub struct CachedRow {
    pub node_key: String,
    pub anchor_seq: i64,
    /// The lines; those of an inline image are empty and are drawn over. Every row but the last
    /// ends with an empty line.
    pub lines: Vec<Line>,
    pub images: Vec<ImageRow>,
    /// The ranges of lines that are code.
    pub code_ranges: Vec<(usize, usize)>,
    /// The fill behind code.
    pub code_fill: Color,
    signature: u64,
}

/// What a [`CachedRow`] stands for.
#[verifier::ext_equal]
pub struct RowView {
    pub key: Seq<char>,
    pub anchor_seq: i64,
    pub lines: Seq<LineView>,
    pub images: Seq<ImageRowView>,
    pub code_ranges: Seq<(nat, nat)>,
    pub code_fill: Color,
    pub signature: u64,
}

impl View for CachedRow {
    type V = RowView;

    closed spec fn view(&self) -> RowView {
        RowView {
            key: self.node_key@,
            anchor_seq: self.anchor_seq,
            lines: crate::text::views(self.lines@),
            images: crate::text::views(self.images@),
            code_ranges: crate::render::wrap::nat_pairs(self.code_ranges@),
            code_fill: self.code_fill,
            signature: self.signature,
        }
    }
}

impl CachedRow {
    /// The number of lines.
    pub fn line_total(&self) -> (r: usize)
        ensures
            r == self@.lines.len(),
    {
        proof {
            assert(self@.lines.len() == self.lines@.len());
        }
        self.lines.len()
    }

    /// The key of the row's node.
    pub fn key(&self) -> (r: &String)
        ensures
            r@ == self@.key,
    {
        &self.node_key
    }

    /// The lines.
    pub fn text(&self) -> (r: &Vec<Line>)
        ensures
            crate::text::views(r@) == self@.lines,
    {
        &self.lines
    }

    /// The ranges of lines that are code.
    pub fn ranges(&self) -> (r: &Vec<(usize, usize)>)
        ensures
            crate::render::wrap::nat_pairs(r@) == self@.code_ranges,
    {
        &self.code_ranges
    }

    /// The fill behind code.
    pub fn fill(&self) -> (r: Color)
        ensures
            r == self@.code_fill,
    {
        self.code_fill
    }
}

/// The cached rows of a session.
#[derive(Debug)]
pub struct RowCache {
    rows: Vec<CachedRow>,
    dirty: Vec<String>,
    width: u16,
}

/// What a [`RowCache`] stands for: the rows in display order, the keys of the nodes that are to
/// be rendered again, and the width of the rows.
#[verifier::ext_equal]
pub struct RowCacheView {
    pub rows: Seq<RowView>,
    pub dirty: Seq<Seq<char>>,
    pub width: u16,
}

impl View for RowCache {
    type V = RowCacheView;

    closed spec fn view(&self) -> RowCacheView {
        RowCacheView {
            rows: crate::text::views(self.rows@),
            dirty: crate::text::views(self.dirty@),
            width: self.width,
        }
    }
}

/// The lines that images are marked at.
pub open spec fn image_marks(images: Seq<ImageRowView>) -> Seq<usize> {
    images.map_values(|i: ImageRowView| i.line_index as usize)
}

/// Images moved to the rows of their marks, as far as there are rows.
pub open spec fn images_at(images: Seq<ImageRowView>, rows: Seq<nat>) -> Seq<ImageRowView> {
    Seq::new(
        if images.len() < rows.len() {
            images.len()
        } else {
            rows.len()
        },
        |i: int| ImageRowView { line_index: rows[i], ..images[i] },
    )
}

/// Line ranges moved to the rows of their lines.
pub open spec fn ranges_on_rows(ranges: Seq<(nat, nat)>, lines: Seq<LineView>, width: nat) -> Seq<
    (nat, nat),
> {
    ranges.map_values(
        |r: (nat, nat)|
            (
                crate::render::wrap::row_of_line(lines, width, r.0 as int),
                crate::render::wrap::row_of_line(lines, width, r.1 as int),
            ),
    )
}

/// The rows of a rendered node.
pub open spec fn wrapped_node(
    node: ChatNodeView,
    full: NodeRenderView,
    width: u16,
    fill: Color,
    signature: u64,
) -> RowView {
    let lines = full.text.lines;
    let w = width as nat;
    if width == 0 {
        RowView {
            key: node.key,
            anchor_seq: node.anchor_seq,
            lines: Seq::empty(),
            images: Seq::empty(),
            code_ranges: Seq::empty(),
            code_fill: fill,
            signature,
        }
    } else {
        RowView {
            key: node.key,
            anchor_seq: node.anchor_seq,
            lines: crate::render::wrap::wrapped_all(lines, w),
            images: images_at(
                full.images,
                crate::render::wrap::marked_rows(lines, w, image_marks(full.images), 0),
            ),
            code_ranges: ranges_on_rows(full.text.code_ranges, lines, w),
            code_fill: fill,
            signature,
        }
    }
}

/// What the rows of every node depend on.
pub struct StageView {
    pub scene: SceneView,
    pub folds: Map<Seq<char>, bool>,
}

impl<'a> RenderContext<'a> {
    /// What the rows of every node depend on.
    pub open spec fn stage(self) -> StageView {
        StageView { scene: self.scene(), folds: self.skill_folds@ }
    }
}

/// The rows of a node.
pub open spec fn fresh_row(node: ChatNodeView, collapsed: bool, stage: StageView) -> RowView {
    wrapped_node(
        node,
        crate::render::markdown::node_render(node, collapsed, stage.scene, stage.folds),
        stage.scene.width,
        stage.scene.look.theme.panel_bg,
        crate::render::signature::signature(node, collapsed),
    )
}

/// Whether rows are those of a node.
pub open spec fn of_node(key: Seq<char>) -> spec_fn(RowView) -> bool {
    |r: RowView| r.key == key
}

/// The place of the rows of a node.
pub open spec fn row_index(rows: Seq<RowView>, key: Seq<char>) -> int {
    crate::seqs::first_index(rows, of_node(key))
}

/// The keys with one more, unless it is there.
pub open spec fn with_key(keys: Seq<Seq<char>>, key: Seq<char>) -> Seq<Seq<char>> {
    if keys.contains(key) {
        keys
    } else {
        keys.push(key)
    }
}

/// A reconciliation on its way: the rows not yet asked for, those already placed, the keys to
/// render again, and whether anything changed.
pub struct SyncView {
    pub left: Seq<RowView>,
    pub placed: Seq<RowView>,
    pub dirty: Seq<Seq<char>>,
    pub changed: bool,
}

/// One more node: its rows are placed as they are, marked where they show something else now,
/// or rendered where there are none.
pub open spec fn sync_node(st: SyncView, node: ChatNodeView, collapsed: bool, stage: StageView) -> SyncView {
    let i = row_index(st.left, node.key);
    if 0 <= i < st.left.len() {
        let row = st.left[i];
        let now = crate::render::signature::signature(node, collapsed);
        SyncView {
            left: st.left.remove(i),
            placed: st.placed.push(RowView { signature: now, ..row }),
            dirty: if row.signature == now {
                st.dirty
            } else {
                with_key(st.dirty, node.key)
            },
            changed: st.changed || row.signature != now,
        }
    } else {
        SyncView {
            placed: st.placed.push(fresh_row(node, collapsed, stage)),
            changed: true,
            ..st
        }
    }
}

/// Whether a node of a session is collapsed.
pub open spec fn is_collapsed(store: StoreView, id: Seq<char>, key: Seq<char>) -> bool {
    crate::store::effective_fold(store, id, key).collapsed
}

/// Some nodes, one after the other.
pub open spec fn sync_nodes(
    start: SyncView,
    nodes: Seq<ChatNodeView>,
    store: StoreView,
    id: Seq<char>,
    stage: StageView,
) -> SyncView
    decreases nodes.len(),
{
    if nodes.len() == 0 {
        start
    } else {
        sync_node(
            sync_nodes(start, nodes.drop_last(), store, id, stage),
            nodes.last(),
            is_collapsed(store, id, nodes.last().key),
            stage,
        )
    }
}

/// Rows that end with an empty line.
pub open spec fn with_blank(row: RowView) -> RowView {
    if row.lines.len() > 0 && row.lines.last().blank() {
        row
    } else {
        RowView { lines: row.lines.push(crate::render::style::empty_line()), ..row }
    }
}

/// The rows with an empty line between the nodes: every row but the last ends with one.
pub open spec fn spaced_rows(rows: Seq<RowView>) -> Seq<RowView> {
    Seq::new(
        rows.len(),
        |i: int|
            if i == rows.len() - 1 {
                rows[i]
            } else {
                with_blank(rows[i])
            },
    )
}

/// The cache before a reconciliation at a width: rows of another width are dropped.
pub open spec fn at_width(cache: RowCacheView, width: u16) -> RowCacheView {
    if cache.width == width {
        cache
    } else {
        RowCacheView { rows: Seq::empty(), dirty: Seq::empty(), width }
    }
}

/// The outcome of a reconciliation with the nodes of a session.
pub open spec fn sync_outcome(
    cache: RowCacheView,
    store: StoreView,
    id: Seq<char>,
    stage: StageView,
) -> SyncView {
    let start = at_width(cache, stage.scene.width);
    sync_nodes(
        SyncView {
            left: start.rows,
            placed: Seq::empty(),
            dirty: start.dirty,
            changed: cache.width != stage.scene.width,
        },
        store.sessions[id].nodes,
        store,
        id,
        stage,
    )
}

/// The cache after a reconciliation.
pub open spec fn synced(cache: RowCacheView, store: StoreView, id: Seq<char>, stage: StageView) -> RowCacheView {
    if store.sessions.dom().contains(id) {
        let done = sync_outcome(cache, store, id, stage);
        RowCacheView {
            rows: spaced_rows(done.placed),
            dirty: done.dirty,
            width: stage.scene.width,
        }
    } else {
        RowCacheView { rows: Seq::empty(), dirty: Seq::empty(), width: cache.width }
    }
}

/// Whether a reconciliation calls for drawing.
pub open spec fn sync_changes(cache: RowCacheView, store: StoreView, id: Seq<char>, stage: StageView) -> bool {
    if store.sessions.dom().contains(id) {
        let done = sync_outcome(cache, store, id, stage);
        done.changed || done.placed.len() != at_width(cache, stage.scene.width).rows.len()
            || done.dirty.len() > 0
    } else {
        cache.rows.len() > 0
    }
}

/// The rows after one node was rendered again.
pub open spec fn rerendered(
    rows: Seq<RowView>,
    key: Seq<char>,
    store: StoreView,
    id: Seq<char>,
    stage: StageView,
) -> Seq<RowView> {
    let nodes = store.sessions[id].nodes;
    let n = crate::store::fold::node_index(nodes, key);
    if 0 <= n < nodes.len() {
        let i = row_index(rows, key);
        spaced_rows(
            if 0 <= i < rows.len() {
                rows.update(
                    i,
                    RowView {
                        key: rows[i].key,
                        anchor_seq: rows[i].anchor_seq,
                        signature: rows[i].signature,
                        ..fresh_row(nodes[n], is_collapsed(store, id, key), stage)
                    },
                )
            } else {
                rows
            },
        )
    } else {
        rows
    }
}

/// The rows after some nodes were rendered again.
pub open spec fn rerendered_all(
    rows: Seq<RowView>,
    keys: Seq<Seq<char>>,
    store: StoreView,
    id: Seq<char>,
    stage: StageView,
) -> Seq<RowView>
    decreases keys.len(),
{
    if keys.len() == 0 {
        rows
    } else {
        rerendered(rerendered_all(rows, keys.drop_last(), store, id, stage), keys.last(), store, id, stage)
    }
}

/// The cache after the nodes to render again were rendered.
pub open spec fn cleaned(cache: RowCacheView, store: StoreView, id: Seq<char>, stage: StageView) -> RowCacheView {
    RowCacheView {
        rows: if store.sessions.dom().contains(id) {
            rerendered_all(cache.rows, cache.dirty, store, id, stage)
        } else {
            cache.rows
        },
        dirty: Seq::empty(),
        width: cache.width,
    }
}

/// The number of lines of some rows.
pub open spec fn line_count(rows: Seq<RowView>) -> nat
    decreases rows.len(),
{
    if rows.len() == 0 {
        0
    } else {
        line_count(rows.drop_last()) + rows.last().lines.len()
    }
}

/// The place of a line, counted over all rows from row `i` on: its row and its line there. A
/// line past the end is the last line of the last row.
pub open spec fn place_from(rows: Seq<RowView>, i: int, offset: int) -> (int, int)
    decreases rows.len() - i,
{
    if i < 0 || i >= rows.len() {
        if rows.len() == 0 {
            (0, 0)
        } else {
            (
                rows.len() - 1,
                if rows.last().lines.len() == 0 {
                    0
                } else {
                    rows.last().lines.len() - 1
                },
            )
        }
    } else if offset < rows[i].lines.len() {
        (i, offset)
    } else {
        place_from(rows, i + 1, offset - rows[i].lines.len())
    }
}

fn render_row(node: &ChatNode, collapsed: bool, ctx: &RenderContext<'_>) -> (r: CachedRow)
    ensures
        r@ == fresh_row(node@, collapsed, ctx.stage()),
{
    let full = render_node_full(node, collapsed, ctx);
    let ghost view = full@;
    let ghost lines = view.text.lines;
    let ghost w = ctx.width as nat;
    let mut marks: Vec<usize> = Vec::new();
    let mut i: usize = 0;
    while i < full.images.len()
        invariant
            i <= full.images.len(),
            marks.len() == i,
            forall|k: int| 0 <= k < i ==> (#[trigger] marks@[k]) == full.images@[k].line_index,
        decreases full.images.len() - i,
    {
        marks.push(full.images[i].line_index);
        i = i + 1;
    }
    proof {
        assert(marks@ =~= image_marks(view.images));
        assert forall|k: int| 0 <= k < full.code_ranges@.len() implies (
        #[trigger] full.code_ranges@[k]).0 <= full.code_ranges@[k].1 && full.code_ranges@[k].1
            <= full.lines@.len() by {
            assert(view.text.code_ranges[k] == (
                full.code_ranges@[k].0 as nat,
                full.code_ranges@[k].1 as nat,
            ));
        }
    }
    let done = wrap_lines_marked(&full.lines, ctx.width, &marks, &full.code_ranges);
    let mut images: Vec<ImageRow> = Vec::new();
    let n = if full.images.len() < done.marks.len() {
        full.images.len()
    } else {
        done.marks.len()
    };
    let mut k: usize = 0;
    while k < n
        invariant
            k <= n,
            n <= full.images.len(),
            n <= done.marks.len(),
            images.len() == k,
            forall|j: int|
                0 <= j < k ==> (#[trigger] images@[j])@ == (ImageRowView {
                    line_index: done.marks@[j] as nat,
                    ..full.images@[j]@
                }),
        decreases n - k,
    {
        images.push(
            ImageRow {
                line_index: done.marks[k],
                attachment_id: full.images[k].attachment_id.clone(),
                rows: full.images[k].rows,
            },
        );
        k = k + 1;
    }
    let r = CachedRow {
        node_key: node.key.clone(),
        anchor_seq: node.anchor_seq,
        lines: done.rows,
        images,
        code_ranges: done.ranges,
        code_fill: ctx.theme.panel_bg,
        signature: rendered_signature(node, collapsed),
    };
    proof {
        let want = fresh_row(node@, collapsed, ctx.stage());
        if ctx.width == 0 {
            assert(r@.lines =~= want.lines);
            assert(r@.images =~= want.images);
            assert(r@.code_ranges =~= want.code_ranges);
        } else {
            let rows = crate::render::wrap::marked_rows(lines, w, image_marks(view.images), 0);
            assert(crate::render::wrap::nats(done.marks@) == rows);
            assert(rows.len() == done.marks@.len());
            assert forall|j: int| 0 <= j < n implies #[trigger] r@.images[j] == images_at(
                view.images,
                rows,
            )[j] by {
                assert(rows[j] == done.marks@[j] as nat);
                assert(view.images[j] == full.images@[j]@);
                assert(images@[j]@ == r@.images[j]);
            }
            assert(r@.images =~= images_at(view.images, rows));
            assert(crate::render::wrap::ranges_at(full.code_ranges@, lines, w) =~= ranges_on_rows(
                view.text.code_ranges,
                lines,
                w,
            ));
        }
        assert(r@ =~= want);
    }
    r
}

proof fn lemma_push_row(rows: Seq<CachedRow>, row: CachedRow)
    ensures
        crate::text::views(rows.push(row)) == crate::text::views(rows).push(row@),
{
    assert(crate::text::views(rows.push(row)) =~= crate::text::views(rows).push(row@));
}

fn find_row(rows: &Vec<CachedRow>, key: &str) -> (r: usize)
    ensures
        r == row_index(crate::text::views(rows@), key@),
        r <= rows@.len(),
{
    let ghost all = crate::text::views(rows@);
    let mut i: usize = 0;
    while i < rows.len()
        invariant
            i <= rows@.len(),
            all == crate::text::views(rows@),
            forall|k: int| 0 <= k < i ==> !of_node(key@)(#[trigger] all[k]),
        decreases rows.len() - i,
    {
        proof {
            assert(all[i as int] == rows@[i as int]@);
        }
        if same(rows[i].node_key.as_str(), key) {
            proof {
                crate::seqs::lemma_first_index(all, of_node(key@), i as int);
            }
            return i;
        }
        i = i + 1;
    }
    proof {
        crate::seqs::lemma_first_index(all, of_node(key@), i as int);
    }
    i
}

fn mark(keys: &mut Vec<String>, key: &str)
    ensures
        crate::text::views(final(keys)@) == with_key(crate::text::views(old(keys)@), key@),
{
    let ghost all = crate::text::views(keys@);
    let mut i: usize = 0;
    while i < keys.len()
        invariant
            i <= keys.len(),
            keys@ == old(keys)@,
            all == crate::text::views(keys@),
            forall|k: int| 0 <= k < i ==> (#[trigger] all[k]) != key@,
        decreases keys.len() - i,
    {
        proof {
            assert(all[i as int] == keys@[i as int]@);
        }
        if same(keys[i].as_str(), key) {
            proof {
                assert(all.contains(key@));
            }
            return;
        }
        i = i + 1;
    }
    let name = key.to_owned();
    proof {
        assert(crate::text::views(keys@.push(name)) =~= all.push(key@));
    }
    keys.push(name);
}

fn ensure_inter_message_blank(rows: &mut Vec<CachedRow>)
    ensures
        crate::text::views(final(rows)@) == spaced_rows(crate::text::views(old(rows)@)),
{
    let n = rows.len();
    let ghost before = crate::text::views(rows@);
    let mut i: usize = 0;
    while i < n
        invariant
            i <= n,
            n == rows.len(),
            before.len() == n,
            forall|k: int|
                0 <= k < n ==> (#[trigger] rows@[k])@ == (if k < i && k < n - 1 {
                    with_blank(before[k])
                } else {
                    before[k]
                }),
        decreases n - i,
    {
        if i < n - 1 {
            let count = rows[i].lines.len();
            let ghost row = rows@[i as int]@;
            let ends_blank = count > 0 && rows[i].lines[count - 1].is_blank();
            proof {
                assert(row == before[i as int]);
                assert(row.lines.len() == count);
                if count > 0 {
                    assert(row.lines.last() == rows@[i as int].lines@[count - 1]@);
                }
            }
            if !ends_blank {
                push_line(&mut rows[i].lines, Line::empty());
                proof {
                    assert(rows@[i as int]@ == with_blank(row));
                }
            }
        }
        i = i + 1;
    }
    proof {
        assert(crate::text::views(rows@) =~= spaced_rows(before));
    }
}

impl Default for RowCache {
    fn default() -> (r: Self)
        ensures
            r@ == (RowCacheView { rows: Seq::empty(), dirty: Seq::empty(), width: 0 }),
    {
        RowCache::new()
    }
}

impl RowCache {
    /// No rows.
    pub fn new() -> (r: Self)
        ensures
            r@ == (RowCacheView { rows: Seq::empty(), dirty: Seq::empty(), width: 0 }),
    {
        let r = RowCache { rows: Vec::new(), dirty: Vec::new(), width: 0 };
        proof {
            assert(r@ =~= (RowCacheView { rows: Seq::empty(), dirty: Seq::empty(), width: 0 }));
        }
        r
    }

    /// Drop every row and every mark.
    pub fn invalidate_all(&mut self)
        ensures
            final(self)@ == (RowCacheView {
                rows: Seq::empty(),
                dirty: Seq::empty(),
                width: old(self)@.width,
            }),
    {
        self.rows = Vec::new();
        self.dirty = Vec::new();
        proof {
            assert(self@ =~= (RowCacheView {
                rows: Seq::empty(),
                dirty: Seq::empty(),
                width: old(self)@.width,
            }));
        }
    }

    /// The keys of the nodes to render again.
    pub fn dirty(&self) -> (r: &Vec<String>)
        ensures
            crate::text::views(r@) == self@.dirty,
    {
        &self.dirty
    }

    /// The keys of the nodes to render again, taken out.
    pub fn take_dirty(&mut self) -> (r: Vec<String>)
        ensures
            crate::text::views(r@) == old(self)@.dirty,
            final(self)@ == (RowCacheView { dirty: Seq::empty(), ..old(self)@ }),
    {
        let mut keys: Vec<String> = Vec::new();
        std::mem::swap(&mut keys, &mut self.dirty);
        proof {
            assert(self@ =~= (RowCacheView { dirty: Seq::empty(), ..old(self)@ }));
        }
        keys
    }

    /// The rows in display order.
    pub fn lines(&self) -> (r: &Vec<CachedRow>)
        ensures
            crate::text::views(r@) == self@.rows,
    {
        &self.rows
    }

    /// The number of lines of all rows, as far as it can be counted.
    pub fn line_total(&self) -> (r: usize)
        ensures
            r == (if line_count(self@.rows) <= usize::MAX {
                line_count(self@.rows) as int
            } else {
                usize::MAX as int
            }),
    {
        let ghost all = self@.rows;
        let mut total: usize = 0;
        let mut i: usize = 0;
        while i < self.rows.len()
            invariant
                i <= self.rows@.len(),
                all == self@.rows,
                all.len() == self.rows@.len(),
                total == (if line_count(all.take(i as int)) <= usize::MAX {
                    line_count(all.take(i as int)) as int
                } else {
                    usize::MAX as int
                }),
            decreases self.rows.len() - i,
        {
            proof {
                assert(all.take(i + 1).drop_last() =~= all.take(i as int));
                assert(all.take(i + 1).last() == self.rows@[i as int]@);
            }
            total = total.saturating_add(self.rows[i].line_total());
            i = i + 1;
        }
        proof {
            assert(all.take(i as int) =~= all);
        }
        total
    }

    /// The row of a line counted over all rows, and its line there. A line past the end is the
    /// last line of the last row.
    pub fn line_to_row(&self, offset: usize) -> (r: (usize, usize))
        ensures
            (r.0 as int, r.1 as int) == place_from(self@.rows, 0, offset as int),
    {
        let ghost all = self@.rows;
        let mut remaining: usize = offset;
        let mut i: usize = 0;
        while i < self.rows.len()
            invariant
                i <= self.rows.len(),
                all == self@.rows,
                place_from(all, 0, offset as int) == place_from(all, i as int, remaining as int),
            decreases self.rows.len() - i,
        {
            let n = self.rows[i].lines.len();
            proof {
                assert(all[i as int] == self.rows@[i as int]@);
                assert(all[i as int].lines.len() == n);
            }
            if remaining < n {
                return (i, remaining);
            }
            remaining = remaining - n;
            i = i + 1;
        }
        if i == 0 {
            (0, 0)
        } else {
            let n = self.rows[i - 1].lines.len();
            proof {
                assert(all.last() == self.rows@[i - 1]@);
                assert(all.last().lines.len() == n);
            }
            (
                i - 1,
                if n == 0 {
                    0
                } else {
                    n - 1
                },
            )
        }
    }

    /// Reconcile the rows with the nodes of a session, at the width of the context. A new node
    /// is rendered; one that shows something else now is marked to be rendered again; the rows
    /// of a node that is gone are dropped; at another width everything is rendered anew.
    /// Returns whether anything calls for drawing.
    pub fn sync(
        &mut self,
        store: &SessionStore,
        session_id: &SessionId,
        ctx: &RenderContext<'_>,
    ) -> (r: bool)
        ensures
            final(self)@ == synced(old(self)@, store@, session_id@, ctx.stage()),
            r == sync_changes(old(self)@, store@, session_id@, ctx.stage()),
    {
        let ghost before = self@;
        let ghost stage = ctx.stage();
        proof {
            assert(before.rows.len() == self.rows@.len());
        }
        let state = match store.session(session_id) {
            Some(state) => state,
            None => {
                let changed = self.rows.len() > 0;
                self.invalidate_all();
                return changed;
            },
        };
        let mut changed = false;
        if self.width != ctx.width {
            self.invalidate_all();
            self.width = ctx.width;
            changed = true;
        }
        let ghost start = at_width(before, stage.scene.width);
        proof {
            assert(self@ =~= start);
            assert(start.rows.len() == self.rows@.len());
        }
        let old_len = self.rows.len();
        let mut left: Vec<CachedRow> = Vec::new();
        std::mem::swap(&mut left, &mut self.rows);
        let mut placed: Vec<CachedRow> = Vec::new();
        let nodes = state.nodes();
        let ghost all = store@.sessions[session_id@].nodes;
        let ghost first = SyncView {
            left: start.rows,
            placed: Seq::empty(),
            dirty: start.dirty,
            changed: before.width != stage.scene.width,
        };
        proof {
            assert(all.take(0) =~= Seq::empty());
            assert(crate::text::views(placed@) =~= Seq::empty());
        }
        let mut i: usize = 0;
        while i < nodes.len()
            invariant
                i <= nodes.len(),
                all == crate::text::views(nodes@),
                stage == ctx.stage(),
                self.width == ctx.width,
                sync_nodes(first, all.take(i as int), store@, session_id@, stage) == (SyncView {
                    left: crate::text::views(left@),
                    placed: crate::text::views(placed@),
                    dirty: crate::text::views(self.dirty@),
                    changed,
                }),
            decreases nodes.len() - i,
        {
            let node = &nodes[i];
            proof {
                assert(all.take(i + 1).drop_last() =~= all.take(i as int));
                assert(all.take(i + 1).last() == node@);
            }
            let collapsed = store.fold_state(session_id, node.key.as_str()).collapsed;
            let at = find_row(&left, node.key.as_str());
            proof {
                assert(crate::text::views(left@).len() == left@.len());
            }
            if at < left.len() {
                let ghost rows = crate::text::views(left@);
                let mut row = left.remove(at);
                let now = rendered_signature(node, collapsed);
                proof {
                    assert(row@ == rows[at as int]);
                    assert(crate::text::views(left@) =~= rows.remove(at as int));
                }
                if row.signature != now {
                    row.signature = now;
                    mark(&mut self.dirty, node.key.as_str());
                    changed = true;
                }
                proof {
                    lemma_push_row(placed@, row);
                }
                placed.push(row);
            } else {
                let row = render_row(node, collapsed, ctx);
                proof {
                    lemma_push_row(placed@, row);
                }
                placed.push(row);
                changed = true;
            }
            i = i + 1;
        }
        proof {
            assert(all.take(i as int) =~= all);
            assert(crate::text::views(placed@).len() == placed@.len());
            assert(crate::text::views(self.dirty@).len() == self.dirty@.len());
        }
        let grown = placed.len() != old_len;
        ensure_inter_message_blank(&mut placed);
        self.rows = placed;
        changed || grown || self.dirty.len() > 0
    }

    /// Render exactly the marked nodes again, and clear the marks.
    pub fn render_dirty(
        &mut self,
        store: &SessionStore,
        session_id: &SessionId,
        ctx: &RenderContext<'_>,
    )
        ensures
            final(self)@ == cleaned(old(self)@, store@, session_id@, ctx.stage()),
    {
        let ghost before = self@;
        let ghost stage = ctx.stage();
        let keys = self.take_dirty();
        let state = match store.session(session_id) {
            Some(state) => state,
            None => return,
        };
        let nodes = state.nodes();
        let ghost all = crate::text::views(keys@);
        let ghost node_views = store@.sessions[session_id@].nodes;
        proof {
            assert(all.take(0) =~= Seq::empty());
        }
        let mut i: usize = 0;
        while i < keys.len()
            invariant
                i <= keys.len(),
                all == crate::text::views(keys@),
                stage == ctx.stage(),
                node_views == crate::text::views(nodes@),
                node_views == store@.sessions[session_id@].nodes,
                self@ == (RowCacheView {
                    rows: rerendered_all(
                        before.rows,
                        all.take(i as int),
                        store@,
                        session_id@,
                        stage,
                    ),
                    dirty: Seq::empty(),
                    width: before.width,
                }),
            decreases keys.len() - i,
        {
            let key = keys[i].as_str();
            proof {
                assert(all.take(i + 1).drop_last() =~= all.take(i as int));
                assert(all.take(i + 1).last() == key@);
            }
            self.rerender(key, nodes, store, session_id, ctx);
            i = i + 1;
        }
        proof {
            assert(all.take(i as int) =~= all);
        }
    }

    fn rerender(
        &mut self,
        key: &str,
        nodes: &Vec<ChatNode>,
        store: &SessionStore,
        session_id: &SessionId,
        ctx: &RenderContext<'_>,
    )
        requires
            crate::text::views(nodes@) == store@.sessions[session_id@].nodes,
        ensures
            final(self)@ == (RowCacheView {
                rows: rerendered(old(self)@.rows, key@, store@, session_id@, ctx.stage()),
                ..old(self)@
            }),
    {
        let ghost before = self@;
        let ghost node_views = crate::text::views(nodes@);
        let mut n: usize = 0;
        while n < nodes.len() && !same(nodes[n].key.as_str(), key)
            invariant
                n <= nodes.len(),
                node_views == crate::text::views(nodes@),
                forall|k: int| 0 <= k < n ==> (#[trigger] node_views[k]).key != key@,
            decreases nodes.len() - n,
        {
            proof {
                assert(node_views[n as int] == nodes@[n as int]@);
            }
            n = n + 1;
        }
        proof {
            if n < nodes.len() {
                assert(node_views[n as int] == nodes@[n as int]@);
            }
            crate::seqs::lemma_first_index(
                node_views,
                |n: ChatNodeView| n.key == key@,
                n as int,
            );
        }
        if n == nodes.len() {
            return;
        }
        let collapsed = store.fold_state(session_id, key).collapsed;
        let fresh = render_row(&nodes[n], collapsed, ctx);
        let at = find_row(&self.rows, key);
        proof {
            assert(before.rows.len() == self.rows@.len());
        }
        if at < self.rows.len() {
            let row = CachedRow {
                node_key: self.rows[at].node_key.clone(),
                anchor_seq: self.rows[at].anchor_seq,
                lines: fresh.lines,
                images: fresh.images,
                code_ranges: fresh.code_ranges,
                code_fill: fresh.code_fill,
                signature: self.rows[at].signature,
            };
            let ghost view = row@;
            self.rows.set(at, row);
            proof {
                assert(crate::text::views(self.rows@) =~= before.rows.update(at as int, view));
            }
        }
        ensure_inter_message_blank(&mut self.rows);
    }
}

} // verus!
