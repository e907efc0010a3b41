//! Where things stand on the screen, whatever its size is.

use vstd::prelude::*;

use crate::app::draw::Screen;
use crate::app::state::{
    AppView, Area, CellPos, Focus, ModeView, RunningToolView, HINT_WIDTH, TOO_SMALL_WIDTH,
    WIDE_WIDTH,
};
use crate::render::row_cache::RowView;
use crate::render::trajectory::PieceView;
use crate::store::node::{ChatNodeView, NodeDataView};

verus! {

/// What is centred has as much room at one side as at the other, but for one cell, and is no
/// taller than what it is centred in.
pub proof fn law_centred(area: Area, width: u16, height: u16)
    requires
        width <= area.width,
        height <= area.height,
        area.x + area.width <= u16::MAX,
        area.y + area.height <= u16::MAX,
    ensures
        ({
            let out = crate::app::layout::centred(area, width, height);
            let left = out.x - area.x;
            let right = area.x + area.width - (out.x + out.width);
            let above = out.y - area.y;
            let below = area.y + area.height - (out.y + out.height);
            &&& out.width == width && out.height == height
            &&& left == right || left + 1 == right
            &&& above == below || above + 1 == below
            &&& left >= 0 && above >= 0
        }),
{
}

/// The composer is as tall as its lines and one row more, as long as neither the screen nor the
/// composer's own limit is in the way.
pub proof fn law_composer_rows(lines: nat, limit: u16)
    ensures
        ({
            let rows = crate::app::layout::composer_rows(lines, limit);
            &&& rows <= limit
            &&& rows <= crate::app::layout::COMPOSER_MAX_ROWS
            &&& rows <= lines + 1
            &&& rows == lines + 1 || rows == limit || rows == crate::app::layout::COMPOSER_MAX_ROWS
        }),
{
}

/// The lines of a text are one more than its line feeds: the line feeds of two texts put
/// together are those of each, and a character is one where it is a line feed.
pub proof fn law_feeds(a: Seq<char>, b: Seq<char>, c: char)
    ensures
        crate::app::draw::feeds(a + b) == crate::app::draw::feeds(a) + crate::app::draw::feeds(b),
        crate::app::draw::feeds(seq![c]) == (if c == '\n' {
            1nat
        } else {
            0
        }),
    decreases b.len(),
{
    reveal_with_fuel(crate::app::draw::feeds, 2);
    assert(seq![c].drop_last() =~= Seq::empty());
    if b.len() == 0 {
        assert(a + b =~= a);
    } else {
        law_feeds(a, b.drop_last(), c);
        assert((a + b).drop_last() =~= a + b.drop_last());
        assert((a + b).last() == b.last());
    }
}

/// The terminal's cursor is shown only where the composer has the keys, and then within it: its
/// column is that of the caret as long as the line fits.
pub proof fn law_cursor_in_composer(app: AppView)
    requires
        app.composer_area.width > 4,
        app.composer_area.height > 1,
        app.composer_area.x + app.composer_area.width <= u16::MAX,
        app.composer_area.y + app.composer_area.height <= u16::MAX,
    ensures
        app.focus != Focus::Composer ==> app.cursor() is None,
        app.focus == Focus::Composer ==> (app.cursor() matches Some((x, y)) && {
            let e = app.composer.editor;
            let start = crate::app::editor::line_start(e.text, e.caret);
            let used = crate::render::width::chars_cols(e.text.subrange(start, e.caret));
            &&& app.composer_area.x + 2 <= x < app.composer_area.x + app.composer_area.width - 2
            &&& app.composer_area.y + 1 <= y < app.composer_area.y + app.composer_area.height
            &&& used < app.composer_area.width - 4 ==> x == app.composer_area.x + 2 + used
            &&& used >= app.composer_area.width - 4 ==> x == app.composer_area.x
                + app.composer_area.width - 3
        }),
{
}

/// The part of a row that is lit up as selected is the part that would be copied: it begins at
/// the first selected column and ends at the last one or where the line ends, on the row's own
/// line of the screen.
pub proof fn law_highlight(
    rows: Seq<RowView>,
    offset: int,
    start: CellPos,
    end: CellPos,
    content: Area,
    row: int,
    area: Area,
)
    requires
        0 <= row,
        content.x + content.width <= u16::MAX,
        content.y + content.height <= u16::MAX,
        crate::app::layout::highlight(rows, offset, start, end, content, row) == Some(area),
    ensures
        ({
            let line = crate::app::mouse::nth_line(rows, 0, offset + row);
            let from: int = if row == start.row {
                start.col as int
            } else {
                0
            };
            &&& line is Some
            &&& row < content.height
            &&& area.y == content.y + row
            &&& area.height == 1
            &&& content.x + from <= u16::MAX ==> area.x == content.x + from
            &&& row == end.row ==> from + area.width <= end.col
            &&& from + area.width <= crate::render::width::spans_columns(line->0.spans)
        }),
{
}

/// What is selected is lit up as far as it is selected: a row whose line is longer than the
/// selection is lit up to the selection's last column.
pub proof fn law_highlight_width(
    rows: Seq<RowView>,
    offset: int,
    start: CellPos,
    end: CellPos,
    content: Area,
)
    requires
        start.row == end.row,
        start.col < end.col,
        start.row < content.height,
        crate::app::mouse::nth_line(rows, 0, offset + start.row) matches Some(line)
            && crate::render::width::spans_columns(line.spans) >= end.col,
    ensures
        crate::app::layout::highlight(
            rows,
            offset,
            start,
            end,
            content,
            start.row as int,
        ) matches Some(area) && area.width == end.col - start.col,
{
}

/// A screen that is too narrow shows nothing but that; a takeover other than an approval takes
/// the whole screen.
pub proof fn law_screen_kind(width: u16, mode: ModeView)
    ensures
        crate::app::draw::screen_of(width, mode) == Screen::TooSmall <==> width < TOO_SMALL_WIDTH,
        width >= TOO_SMALL_WIDTH && (mode is Chat || mode is Approval)
            ==> crate::app::draw::screen_of(width, mode) == Screen::Chat,
        width >= TOO_SMALL_WIDTH && (mode is Question || mode is Settings || mode is Image)
            ==> crate::app::draw::screen_of(width, mode) == Screen::Takeover,
{
}

/// The approval dialog is no wider than the chat and than a dialog may be, and is as high as its
/// lines and its border where the chat has room for them, as high as the chat where it has not.
pub proof fn law_dialog_size(chat: Area, rows: nat)
    requires
        chat.height >= 3,
        rows > 0,
    ensures
        crate::app::layout::dialog_width(chat) <= crate::app::layout::DIALOG_WIDTH,
        crate::app::layout::dialog_width(chat) <= chat.width,
        chat.width >= crate::app::layout::DIALOG_WIDTH + 4 ==> crate::app::layout::dialog_width(chat)
            == crate::app::layout::DIALOG_WIDTH,
        rows + 2 <= chat.height ==> crate::app::layout::dialog_height(chat, rows) == rows + 2,
        rows + 2 > chat.height ==> crate::app::layout::dialog_height(chat, rows) == chat.height,
{
}

/// The rows that texts take below each other are those that each takes.
pub proof fn law_rows_add(a: Seq<Seq<char>>, b: Seq<Seq<char>>, text: Seq<char>, width: nat)
    ensures
        crate::app::layout::wrapped_rows(a + b, width) == crate::app::layout::wrapped_rows(a, width)
            + crate::app::layout::wrapped_rows(b, width),
        crate::app::layout::wrapped_rows(seq![text], width) == crate::render::fit::wrapped_rows(
            text,
            width,
        ),
    decreases b.len(),
{
    reveal_with_fuel(crate::app::layout::wrapped_rows, 2);
    assert(seq![text].drop_last() =~= Seq::empty());
    if b.len() == 0 {
        assert(a + b =~= a);
    } else {
        law_rows_add(a, b.drop_last(), text, width);
        assert((a + b).drop_last() =~= a + b.drop_last());
        assert((a + b).last() == b.last());
    }
}

/// Every row that a selection covers is lit up, and no row outside of it.
pub proof fn law_rows_lit(
    rows: Seq<RowView>,
    offset: int,
    start: CellPos,
    end: CellPos,
    content: Area,
    n: int,
    row: int,
)
    requires
        content.y + content.height <= u16::MAX,
    ensures
        ({
            let lit = crate::app::layout::highlights(rows, offset, start, end, content, n);
            let here = crate::app::layout::highlight(rows, offset, start, end, content, row);
            &&& start.row <= row < n && here is Some ==> lit.contains(here->0)
            &&& forall|k: int|
                0 <= k < lit.len() ==> content.y + start.row <= (#[trigger] lit[k]).y < content.y + n
        }),
    decreases n - start.row,
{
    if n > start.row {
        law_rows_lit(rows, offset, start, end, content, n - 1, row);
        let before = crate::app::layout::highlights(rows, offset, start, end, content, n - 1);
        let lit = crate::app::layout::highlights(rows, offset, start, end, content, n);
        let here = crate::app::layout::highlight(rows, offset, start, end, content, row);
        if start.row <= row < n && here is Some {
            if row == n - 1 {
                assert(lit[lit.len() - 1] == here->0);
            } else {
                let k = choose|k: int| 0 <= k < before.len() && before[k] == here->0;
                assert(lit[k] == here->0);
            }
        }
        assert forall|k: int| 0 <= k < lit.len() implies content.y + start.row <= (
        #[trigger] lit[k]).y < content.y + n by {
            if k < before.len() {
                assert(lit[k] == before[k]);
            }
        }
    }
}

/// On a wide screen the status line tells all there is to tell, on a very narrow one nothing. In
/// between it is one piece: the hint where there is one, and else what would come first.
pub proof fn law_status_by_width(app: AppView, left: Seq<PieceView>, width: u16, room: u16)
    ensures
        ({
            let shown = app.status_shown(left, width, room);
            &&& width < HINT_WIDTH ==> shown.len() == 0
            &&& width >= WIDE_WIDTH ==> shown == left
            &&& HINT_WIDTH <= width < WIDE_WIDTH ==> shown.len() == 1
            &&& HINT_WIDTH <= width < WIDE_WIDTH && app.hint is Some ==> shown[0].text
                == crate::render::fit::cut(app.hint->0, room as nat, 1, "…"@)
            &&& HINT_WIDTH <= width < WIDE_WIDTH && app.hint is None && left.len() > 0
                ==> shown[0].role == left[0].role && shown[0].text == crate::render::fit::cut(
                left[0].text,
                room as nat,
                1,
                "…"@,
            )
        }),
{
}

/// A fold is kept as long as its node has a row, and then as it was.
pub proof fn law_folds_kept(app: AppView, key: Seq<char>, i: int)
    requires
        0 <= i < app.row_cache.rows.len(),
        app.skill_folds.dom().contains(app.row_cache.rows[i].key),
    ensures
        ({
            let folds = app.pruned().skill_folds;
            let kept = app.row_cache.rows[i].key;
            &&& folds.dom().contains(kept) && folds[kept] == app.skill_folds[kept]
            &&& (forall|k: int|
                0 <= k < app.row_cache.rows.len() ==> (#[trigger] app.row_cache.rows[k]).key != key)
                ==> !folds.dom().contains(key)
        }),
{
    reveal(AppView::with_skill_folds);
    assert(crate::app::draw::has_row(app.row_cache.rows, app.row_cache.rows[i].key));
}

/// The sidebar has its place on a wide screen only, one column of it where it is folded; on a
/// narrow one the drawer takes its place while it is open, at the left and over the whole height,
/// and is never wider than the screen.
pub proof fn law_sidebar_or_drawer(width: u16, height: u16, collapsed: bool, open: bool)
    ensures
        ({
            let columns = crate::app::layout::sidebar_columns(width, collapsed);
            let drawer = crate::app::layout::drawer_at(width, height, open);
            &&& columns > 0 <==> width >= WIDE_WIDTH
            &&& width >= WIDE_WIDTH && collapsed ==> columns == 1
            &&& columns > 0 ==> drawer.width == 0
            &&& columns == 0 && open ==> drawer.x == 0 && drawer.y == 0 && drawer.height == height
            &&& columns == 0 && open && width > 0 ==> 0 < drawer.width <= width
            &&& !open ==> drawer.width == 0
        }),
{
}

/// The columns of the pieces of a line are those of each, side by side.
pub proof fn law_pieces_side_by_side(a: Seq<PieceView>, b: Seq<PieceView>, piece: PieceView)
    requires
        crate::render::width::text_columns(piece.text) <= u16::MAX,
    ensures
        crate::app::draw::pieces_width(a + b) == crate::app::draw::pieces_width(a)
            + crate::app::draw::pieces_width(b),
        crate::app::draw::pieces_width(seq![piece]) == crate::render::width::text_columns(
            piece.text,
        ),
    decreases b.len(),
{
    reveal_with_fuel(crate::app::draw::pieces_width, 2);
    assert(seq![piece].drop_last() =~= Seq::empty());
    if b.len() == 0 {
        assert(a + b =~= a);
    } else {
        law_pieces_side_by_side(a, b.drop_last(), piece);
        assert((a + b).drop_last() =~= a + b.drop_last());
        assert((a + b).last() == b.last());
    }
}

// ---------------------------------------------------------------------------
// running tools
// ---------------------------------------------------------------------------

/// Whether a node is a tool that was called and has no result.
pub open spec fn waits_for_result(node: ChatNodeView) -> bool {
    node.data matches NodeDataView::Tool { call, result, .. } && call is Some && result is None
}

/// The tools that are watched are those that were called and have no result: those of two lists
/// of nodes put together are those of the first and then those of the second, each by its key.
pub proof fn law_tools_watched(
    a: Seq<ChatNodeView>,
    b: Seq<ChatNodeView>,
    node: ChatNodeView,
    watched: Seq<RunningToolView>,
    now: u64,
)
    ensures
        crate::app::draw::tools_of(a + b, watched, now) == crate::app::draw::tools_of(
            a,
            watched,
            now,
        ) + crate::app::draw::tools_of(b, watched, now),
        ({
            let one = crate::app::draw::tools_of(seq![node], watched, now);
            &&& waits_for_result(node) ==> one.len() == 1 && one[0].key == node.key
            &&& !waits_for_result(node) ==> one.len() == 0
        }),
    decreases b.len(),
{
    reveal_with_fuel(crate::app::draw::tools_of, 2);
    assert(seq![node].drop_last() =~= Seq::empty());
    let x = crate::app::draw::tools_of(a, watched, now);
    if b.len() == 0 {
        assert(a + b =~= a);
        assert(x + Seq::<RunningToolView>::empty() =~= x);
    } else {
        law_tools_watched(a, b.drop_last(), node, watched, now);
        assert((a + b).drop_last() =~= a + b.drop_last());
        assert((a + b).last() == b.last());
        let y = crate::app::draw::tools_of(b.drop_last(), watched, now);
        if crate::app::draw::runs_tool(b.last()) {
            let t = crate::app::draw::tools_of(b, watched, now).last();
            assert((x + y).push(t) =~= x + y.push(t));
        }
    }
}

} // verus!
