//! What the mouse does, wherever it is used.

use vstd::prelude::*;

use crate::app::event::{MouseEvent, MouseKind};
use crate::app::state::{ActionView, AppView, CellPos, TOO_SMALL_WIDTH, WIDE_WIDTH};

verus! {

/// Whether the mouse reaches the chat: the screen is large enough and nothing lies over it.
pub open spec fn reaches(app: AppView) -> bool {
    &&& app.terminal_width >= TOO_SMALL_WIDTH
    &&& !app.covered()
    &&& app.composer.popup() is None
}

/// Whether a cell is one of the chat's text: within the chat, two columns from either side and
/// one row from the top, and of no other pane.
pub open spec fn in_chat(app: AppView, column: u16, row: u16) -> bool {
    &&& app.chat_area.x + 2 <= column
    &&& column + 2 < app.chat_area.x + app.chat_area.width
    &&& app.chat_area.y + 1 <= row
    &&& row < app.chat_area.y + app.chat_area.height
    &&& app.chat_area.x + 4 <= u16::MAX && app.chat_area.y + 1 <= u16::MAX
    &&& !app.sidebar_area.holds(column, row)
    &&& !app.composer_area.holds(column, row)
}

/// A text is selected by dragging: with selecting switched on, pressing at a cell of the chat,
/// dragging to another and letting go copies the text between the two, counted from the first
/// row and column of the chat's text; then selecting is over. Where there is no text nothing is
/// copied.
pub proof fn law_dragging_copies(app: AppView, c1: u16, r1: u16, c2: u16, r2: u16)
    requires
        reaches(app),
        app.select_mode,
        !app.drawer_open,
        in_chat(app, c1, r1),
        in_chat(app, c2, r2),
    ensures
        ({
            let from = (CellPos {
                row: (r1 - app.chat_area.y - 1) as u16,
                col: (c1 - app.chat_area.x - 2) as u16,
            });
            let to = (CellPos {
                row: (r2 - app.chat_area.y - 1) as u16,
                col: (c2 - app.chat_area.x - 2) as u16,
            });
            let text = crate::app::mouse::selection_text(
                app.row_cache.rows,
                app.view.offset as int,
                from,
                to,
            );
            let pressed = app.moused((MouseEvent { kind: MouseKind::Down, column: c1, row: r1 })).0;
            let dragged = pressed.moused(
                (MouseEvent { kind: MouseKind::Drag, column: c2, row: r2 }),
            ).0;
            let out = dragged.moused((MouseEvent { kind: MouseKind::Up, column: c2, row: r2 })).0;
            &&& dragged.selection == Some((from, to))
            &&& out.selection is None
            &&& !out.select_mode
            &&& text.len() > 0 ==> out.clipboard == Some(text)
            &&& text.len() == 0 ==> out.clipboard == app.clipboard
            &&& out.composer == app.composer
            &&& out.view == app.view
        }),
{
    reveal(AppView::with_selection);
    reveal(AppView::with_select_mode);
    reveal(AppView::with_hint);
    reveal(AppView::with_clipboard);
    reveal(AppView::with_copied_flash);
    reveal(AppView::with_needs_draw);
}

/// Without selecting switched on, dragging copies nothing.
pub proof fn law_no_selecting_no_copy(app: AppView, event: MouseEvent)
    requires
        !app.select_mode,
        app.selection is None,
        event.kind == MouseKind::Drag || event.kind == MouseKind::Up,
    ensures
        app.moused(event).0 == app,
{
}

/// The wheel over the chat scrolls it by three lines, down or up as it turns, as far as the chat
/// goes; over the sidebar it does not scroll the chat.
pub proof fn law_wheel(app: AppView, down: bool, column: u16, row: u16)
    requires
        reaches(app),
    ensures
        ({
            let event = (MouseEvent {
                kind: if down {
                    MouseKind::ScrollDown
                } else {
                    MouseKind::ScrollUp
                },
                column,
                row,
            });
            let out = app.moused(event).0;
            &&& app.sidebar_area.holds(column, row) ==> out.view == app.view
            &&& !app.sidebar_area.holds(column, row) && app.chat_area.holds(column, row) && down
                && app.view.offset + 3 <= app.bottom() ==> out.view.offset == app.view.offset + 3
            &&& !app.sidebar_area.holds(column, row) && app.chat_area.holds(column, row) && !down
                && 3 <= app.view.offset <= app.bottom() ==> out.view.offset == app.view.offset - 3
            &&& !app.sidebar_area.holds(column, row) && app.chat_area.holds(column, row)
                ==> !out.view.follow
            &&& out.composer == app.composer
        }),
{
    reveal(AppView::with_view);
    reveal(AppView::with_sidebar);
}

/// A click on the row of a session in the sidebar makes that session the active one.
pub proof fn law_session_click(app: AppView, column: u16, row: u16, index: usize, ordinal: usize)
    requires
        reaches(app),
        app.terminal_width >= WIDE_WIDTH,
        app.sidebar_area.holds(column, row),
        app.sidebar_row_at(row) == Some(
            crate::app::groups::DisplayRow::Session { index, ordinal },
        ),
        index < app.sessions.len(),
    ensures
        ({
            let (out, action) = app.moused(
                (MouseEvent { kind: MouseKind::Down, column, row }),
            );
            let id = app.sessions[index as int].session_id;
            &&& out.active_session == Some(id)
            &&& out.sidebar.selected == ordinal
            &&& app.active_session != Some(id) ==> action == ActionView::SwitchSession(id)
        }),
{
    reveal(AppView::with_selection);
    reveal(AppView::with_select_mode);
    reveal(AppView::with_hint);
    reveal(AppView::with_sidebar);
    reveal(AppView::with_active_session);
    reveal(AppView::with_session_model);
    reveal(AppView::with_drawer_open);
    reveal(AppView::with_focus);
    reveal(AppView::with_drawer_prior_hint);
    reveal(AppView::with_store);
    reveal(AppView::with_view);
    reveal(AppView::with_row_cache);
    let calm = app.selection_cancelled();
    assert(calm.list() == app.list());
    assert(calm.sidebar_row_at(row) == app.sidebar_row_at(row));
}

// ---------------------------------------------------------------------------
// a click into the composer
// ---------------------------------------------------------------------------

/// How many line feeds stand before a place.
pub open spec fn feeds_before(text: Seq<char>, at: int) -> nat
    decreases at,
{
    if at <= 0 {
        0
    } else {
        feeds_before(text, at - 1) + (if text[at - 1] == '\n' {
            1nat
        } else {
            0
        })
    }
}

proof fn lemma_no_feed(text: Seq<char>, a: int, b: int)
    requires
        0 <= a <= b <= text.len(),
        forall|i: int| a <= i < b ==> #[trigger] text[i] != '\n',
    ensures
        feeds_before(text, a) == feeds_before(text, b),
    decreases b - a,
{
    if a < b {
        lemma_no_feed(text, a, b - 1);
        assert(text[b - 1] != '\n');
    }
}

proof fn lemma_stop(text: Seq<char>, at: int)
    requires
        0 <= at <= text.len(),
    ensures
        crate::app::editor_laws::ends_line(text, at, crate::app::editor::line_stop(text, at)),
    decreases text.len() - at,
{
    if at < text.len() && text[at] != '\n' {
        lemma_stop(text, at + 1);
    }
}

proof fn lemma_line_start(text: Seq<char>, from: int, n: nat)
    requires
        0 <= from <= text.len(),
        from == 0 || text[from - 1] == '\n',
    ensures
        ({
            let at = crate::app::mouse::nth_line_start(text, from, n);
            &&& from <= at <= text.len()
            &&& at == 0 || text[at - 1] == '\n'
            &&& feeds_before(text, at) <= feeds_before(text, from) + n
            &&& feeds_before(text, at) == feeds_before(text, from) + n
                || crate::app::editor::line_stop(text, at) == text.len()
        }),
    decreases n,
{
    if n > 0 {
        lemma_stop(text, from);
        let stop = crate::app::editor::line_stop(text, from);
        if stop < text.len() {
            lemma_no_feed(text, from, stop);
            lemma_line_start(text, stop + 1, (n - 1) as nat);
        }
    }
}

proof fn lemma_place(text: Seq<char>, at: int, stop: int, used: nat, column: nat)
    requires
        0 <= at <= stop <= text.len(),
    ensures
        at <= crate::app::mouse::place_at(text, at, stop, used, column) <= stop,
    decreases stop - at,
{
    if at < stop && used < column {
        lemma_place(
            text,
            at + 1,
            stop,
            used + crate::render::width::cols(text[at]),
            column,
        );
    }
}

/// A click into the composer leads to the line that was clicked, or to the last line where the
/// click was below it.
pub proof fn law_click_finds_line(text: Seq<char>, line: nat, column: nat)
    ensures
        ({
            let at = crate::app::mouse::clicked(text, line, column);
            &&& 0 <= at <= text.len()
            &&& feeds_before(text, at) == line || feeds_before(text, at) < line && feeds_before(
                text,
                at,
            ) == feeds_before(text, text.len() as int)
        }),
{
    lemma_line_start(text, 0, line);
    let start = crate::app::mouse::nth_line_start(text, 0, line);
    lemma_stop(text, start);
    let stop = crate::app::editor::line_stop(text, start);
    lemma_place(text, start, stop, 0, column);
    let at = crate::app::mouse::clicked(text, line, column);
    lemma_no_feed(text, start, at);
    if feeds_before(text, start) < line {
        assert(stop == text.len());
        lemma_no_feed(text, start, stop);
    }
}

proof fn lemma_narrow_place(text: Seq<char>, at: int, stop: int, used: nat, column: nat)
    requires
        0 <= at <= stop <= text.len(),
        forall|i: int|
            at <= i < stop ==> crate::app::selection_laws::columns(#[trigger] text[i]) == 1,
    ensures
        used <= column && column - used <= stop - at ==> crate::app::mouse::place_at(
            text,
            at,
            stop,
            used,
            column,
        ) == at + (column - used),
        column > used && column - used > stop - at ==> crate::app::mouse::place_at(
            text,
            at,
            stop,
            used,
            column,
        ) == stop,
    decreases stop - at,
{
    if at < stop && used < column {
        assert(crate::app::selection_laws::columns(text[at]) == 1);
        lemma_narrow_place(text, at + 1, stop, used + 1, column);
    }
}

/// In a line of one-column characters a click leads to the character at the clicked column, or
/// to the end of the line where the click was behind it.
pub proof fn law_click_finds_column(text: Seq<char>, column: nat)
    requires
        forall|i: int|
            0 <= i < text.len() ==> text[i] != '\n' && crate::app::selection_laws::columns(
                #[trigger] text[i],
            ) == 1,
    ensures
        crate::app::mouse::clicked(text, 0, column) == (if column <= text.len() {
            column as int
        } else {
            text.len() as int
        }),
{
    lemma_stop(text, 0);
    let stop = crate::app::editor::line_stop(text, 0);
    assert(stop == text.len());
    lemma_narrow_place(text, 0, stop, 0, column);
}

/// A pasted text goes into the composer at its caret where the composer has the keys and nothing
/// lies over it, and nowhere else.
pub proof fn law_paste(app: AppView, text: Seq<char>)
    ensures
        app.terminal_width >= TOO_SMALL_WIDTH && app.focus == crate::app::state::Focus::Composer
            && !app.covered() ==> app.pasted(text).composer.editor
            == app.composer.editor.typed_all(text),
        app.focus != crate::app::state::Focus::Composer ==> app.pasted(text) == app,
        app.covered() ==> app.pasted(text) == app,
{
    reveal(AppView::with_composer);
    crate::app::editor_laws::law_composer_types(app.composer, text);
}

} // verus!
