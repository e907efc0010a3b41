//! What the mouse does: clicks, the wheel, and selecting text in the chat.

use vstd::prelude::*;

use crate::app::editor::{Composer, ComposerView, Editor, EditorView};
use crate::app::event::{MouseEvent, MouseKind};
use crate::app::groups::{display_rows, scroll_start, visible_sessions, DisplayRow, SidebarState};
use crate::app::state::{
    Action, ActionView, App, AppView, Area, CellPos, Focus, Toast, ToastView, TOO_SMALL_WIDTH,
    WIDE_WIDTH,
};
use crate::i18n::trf;
use crate::render::row_cache::{RowCache, RowView};
use crate::render::style::{Line, LineView};
use crate::render::width::char_cols;
use crate::text::{chars_of, join_texts, trimmed_end, u64_text, Duplicate};

verus! {

// ---------------------------------------------------------------------------
// selected text
// ---------------------------------------------------------------------------

/// A line counted over the rows from row `i` on.
pub open spec fn nth_line(rows: Seq<RowView>, i: int, at: int) -> Option<LineView>
    decreases rows.len() - i,
{
    if i < 0 || i >= rows.len() || at < 0 {
        None
    } else if at < rows[i].lines.len() {
        Some(rows[i].lines[at])
    } else {
        nth_line(rows, i + 1, at - rows[i].lines.len())
    }
}

/// The characters of a text that begin between two columns; the text begins at column `at`.
pub open spec fn between(text: Seq<char>, at: nat, from: nat, to: nat) -> Seq<char>
    decreases text.len(),
{
    if text.len() == 0 || at >= to {
        Seq::empty()
    } else {
        let rest = between(
            text.drop_first(),
            at + crate::render::width::cols(text[0]),
            from,
            to,
        );
        if at >= from {
            seq![text[0]] + rest
        } else {
            rest
        }
    }
}

/// Whether a cell comes before another, row by row.
pub open spec fn before(a: CellPos, b: CellPos) -> bool {
    a.row < b.row || (a.row == b.row && a.col <= b.col)
}

/// The first and the last cell of a selection.
pub open spec fn in_order(anchor: CellPos, current: CellPos) -> (CellPos, CellPos) {
    if before(anchor, current) {
        (anchor, current)
    } else {
        (current, anchor)
    }
}

/// The columns of a row that a selection covers.
pub open spec fn covered(start: CellPos, end: CellPos, row: int) -> (nat, nat) {
    (
        if row == start.row {
            start.col as nat
        } else {
            0
        },
        if row == end.row {
            end.col as nat
        } else {
            u16::MAX as nat
        },
    )
}

/// The selected texts of the rows before row `n`, without trailing white space. Rows behind the
/// last line have none.
pub open spec fn selected_rows(
    rows: Seq<RowView>,
    offset: int,
    start: CellPos,
    end: CellPos,
    n: int,
) -> Seq<Seq<char>>
    decreases n - start.row,
{
    if n <= start.row {
        Seq::empty()
    } else {
        let texts = selected_rows(rows, offset, start, end, n - 1);
        match nth_line(rows, 0, offset + n - 1) {
            Some(line) => {
                let (from, to) = covered(start, end, n - 1);
                texts.push(crate::text::trim_end(between(line.text(), 0, from, to)))
            },
            None => texts,
        }
    }
}

/// The text of a selection: that of its rows, line by line.
pub open spec fn selection_text(
    rows: Seq<RowView>,
    offset: int,
    anchor: CellPos,
    current: CellPos,
) -> Seq<char> {
    let (start, end) = in_order(anchor, current);
    crate::text::join_all(selected_rows(rows, offset, start, end, end.row + 1), "\n"@)
}

fn text_of_line(line: &Line) -> (r: String)
    ensures
        r@ == line@.text(),
{
    let ghost all = crate::text::views(line.spans@);
    let mut out = String::new();
    let mut i: usize = 0;
    proof {
        assert(out@ =~= crate::render::style::spans_text(all.take(0)));
    }
    while i < line.spans.len()
        invariant
            i <= line.spans@.len(),
            all == crate::text::views(line.spans@),
            out@ == crate::render::style::spans_text(all.take(i as int)),
        decreases line.spans.len() - i,
    {
        proof {
            assert(all.take(i + 1).drop_last() =~= all.take(i as int));
            assert(all.take(i + 1).last() == line.spans@[i as int]@);
        }
        out.append(line.spans[i].content.as_str());
        i = i + 1;
    }
    proof {
        assert(all.take(i as int) =~= all);
    }
    out
}

fn cut_between(text: &str, from: usize, to: usize) -> (r: String)
    requires
        to <= u16::MAX,
    ensures
        r@ == between(text@, 0, from as nat, to as nat),
{
    let chars = chars_of(text);
    let mut out = String::new();
    let mut at: usize = 0;
    let mut i: usize = 0;
    proof {
        assert(chars@.skip(0) =~= chars@);
        assert(out@ + between(chars@, 0, from as nat, to as nat) =~= between(
            chars@,
            0,
            from as nat,
            to as nat,
        ));
    }
    while i < chars.len() && at < to
        invariant
            i <= chars@.len(),
            to <= u16::MAX,
            at <= to + 255,
            chars@ == text@,
            out@ + between(chars@.skip(i as int), at as nat, from as nat, to as nat) == between(
                text@,
                0,
                from as nat,
                to as nat,
            ),
        decreases chars.len() - i,
    {
        let ghost rest = chars@.skip(i as int);
        proof {
            assert(rest[0] == chars@[i as int]);
            assert(rest.drop_first() =~= chars@.skip(i + 1));
        }
        let c = chars[i];
        let w = char_cols(c);
        let ghost tail = between(chars@.skip(i + 1), (at + w) as nat, from as nat, to as nat);
        if at >= from {
            proof {
                assert(out@.push(c) + tail =~= out@ + (seq![c] + tail));
            }
            out.push(c);
        }
        at = at + w;
        i = i + 1;
    }
    proof {
        assert(between(chars@.skip(i as int), at as nat, from as nat, to as nat) =~= Seq::empty());
        assert(out@ + Seq::<char>::empty() =~= out@);
    }
    out
}

pub(crate) fn line_at(cache: &RowCache, offset: usize, row: u16) -> (r: Option<&Line>)
    ensures
        crate::text::opt_view(r) == nth_line(cache@.rows, 0, offset + row),
{
    let rows = cache.lines();
    let mut left: u128 = offset as u128 + row as u128;
    let mut i: usize = 0;
    while i < rows.len()
        invariant
            i <= rows@.len(),
            crate::text::views(rows@) == cache@.rows,
            nth_line(cache@.rows, 0, offset + row) == nth_line(cache@.rows, i as int, left as int),
        decreases rows.len() - i,
    {
        proof {
            assert(cache@.rows[i as int] == rows@[i as int]@);
        }
        let lines = rows[i].text();
        proof {
            assert(lines@.len() == cache@.rows[i as int].lines.len());
        }
        if left < lines.len() as u128 {
            return Some(&lines[left as usize]);
        }
        left = left - lines.len() as u128;
        i = i + 1;
    }
    None
}

/// The text of a selection.
pub fn selected_text(cache: &RowCache, offset: usize, anchor: CellPos, current: CellPos) -> (r: String)
    ensures
        r@ == selection_text(cache@.rows, offset as int, anchor, current),
{
    let ordered = anchor.row < current.row || (anchor.row == current.row && anchor.col
        <= current.col);
    let (start, end) = if ordered {
        (anchor, current)
    } else {
        (current, anchor)
    };
    let mut out: Vec<String> = Vec::new();
    let mut row: u32 = start.row as u32;
    let last: u32 = end.row as u32 + 1;
    proof {
        assert(crate::text::views(out@) =~= selected_rows(
            cache@.rows,
            offset as int,
            start,
            end,
            row as int,
        ));
    }
    while row < last
        invariant
            start.row <= row <= last,
            last == end.row + 1,
            crate::text::views(out@) == selected_rows(
                cache@.rows,
                offset as int,
                start,
                end,
                row as int,
            ),
        decreases last - row,
    {
        match line_at(cache, offset, row as u16) {
            Some(line) => {
                let from: usize = if row == start.row as u32 {
                    start.col as usize
                } else {
                    0
                };
                let to: usize = if row == end.row as u32 {
                    end.col as usize
                } else {
                    u16::MAX as usize
                };
                let text = trimmed_end(
                    cut_between(text_of_line(line).as_str(), from, to).as_str(),
                );
                proof {
                    assert(crate::text::views(out@.push(text)) =~= crate::text::views(out@).push(
                        text@,
                    ));
                }
                out.push(text);
            },
            None => {},
        }
        row = row + 1;
    }
    join_texts(&out, "\n")
}

/// A selection is the same whichever end it was begun at.
pub proof fn law_selection_symmetric(rows: Seq<RowView>, offset: int, a: CellPos, b: CellPos)
    ensures
        selection_text(rows, offset, a, b) == selection_text(rows, offset, b, a),
{
}

// ---------------------------------------------------------------------------
// the composer
// ---------------------------------------------------------------------------

/// Where line `n` of a text begins, the last line where there are fewer.
pub open spec fn nth_line_start(text: Seq<char>, from: int, n: nat) -> int
    decreases n,
{
    let stop = crate::app::editor::line_stop(text, from);
    if n == 0 || stop >= text.len() {
        from
    } else {
        nth_line_start(text, stop + 1, (n - 1) as nat)
    }
}

/// The first place from `at` on, before `stop`, that lies at or behind a column; the place `at`
/// lies at column `used`.
pub open spec fn place_at(text: Seq<char>, at: int, stop: int, used: nat, column: nat) -> int
    decreases stop - at,
{
    if at >= stop || used >= column {
        at
    } else {
        place_at(text, at + 1, stop, used + crate::render::width::cols(text[at]), column)
    }
}

/// The caret of a click at a line and a column.
pub open spec fn clicked(text: Seq<char>, line: nat, column: nat) -> int {
    let start = nth_line_start(text, 0, line);
    place_at(text, start, crate::app::editor::line_stop(text, start), 0, column)
}

/// How far the composer is scrolled to the side so that its caret is seen: the columns before
/// the caret in its line that a width does not hold.
pub open spec fn side_scroll(e: EditorView, width: u16) -> nat {
    let start = crate::app::editor::line_start(e.text, e.caret);
    let used = crate::render::width::chars_cols(e.text.subrange(start, e.caret));
    if used >= width && width > 0 {
        (used - width + 1) as nat
    } else {
        0
    }
}

fn line_stop_of(text: &Vec<char>, at: usize) -> (r: usize)
    requires
        at <= text@.len(),
    ensures
        r == crate::app::editor::line_stop(text@, at as int),
        at <= r <= text@.len(),
{
    let mut i: usize = at;
    while i < text.len() && text[i] != '\n'
        invariant
            at <= i <= text@.len(),
            crate::app::editor::line_stop(text@, i as int) == crate::app::editor::line_stop(
                text@,
                at as int,
            ),
        decreases text.len() - i,
    {
        i = i + 1;
    }
    i
}

pub(crate) fn columns_before(text: &Vec<char>, start: usize, end: usize) -> (r: u128)
    requires
        start <= end <= text@.len(),
    ensures
        r == crate::render::width::chars_cols(text@.subrange(start as int, end as int)),
        r <= 255 * (end - start),
{
    let ghost part = text@.subrange(start as int, end as int);
    let mut used: u128 = 0;
    let mut i: usize = start;
    while i < end
        invariant
            start <= i <= end <= text@.len(),
            part == text@.subrange(start as int, end as int),
            used == crate::render::width::chars_cols(part.take(i - start)),
            used <= 255 * (i - start),
        decreases end - i,
    {
        proof {
            assert(part.take(i - start + 1).drop_last() =~= part.take(i - start));
            assert(part.take(i - start + 1).last() == text@[i as int]);
        }
        used = used + char_cols(text[i]) as u128;
        i = i + 1;
    }
    proof {
        assert(part.take(i - start) =~= part);
    }
    used
}

/// How far the composer is scrolled to the side.
pub fn scroll_of(editor: &Editor, width: u16) -> (r: u128)
    ensures
        r == side_scroll(editor@, width),
        r <= 255 * editor.text@.len(),
{
    let caret = if editor.caret <= editor.text.len() {
        editor.caret
    } else {
        editor.text.len()
    };
    let mut start: usize = caret;
    while start > 0 && editor.text[start - 1] != '\n'
        invariant
            start <= caret <= editor.text@.len(),
            crate::app::editor::line_start(editor.text@, start as int)
                == crate::app::editor::line_start(editor.text@, caret as int),
        decreases start,
    {
        start = start - 1;
    }
    let used = columns_before(&editor.text, start, caret);
    if used >= width as u128 && width > 0 {
        used - width as u128 + 1
    } else {
        0
    }
}

/// The caret of a click at a line and a column.
pub fn caret_at(text: &Vec<char>, line: usize, column: u128) -> (r: usize)
    ensures
        r == clicked(text@, line as nat, column as nat),
        r <= text@.len(),
{
    let mut start: usize = 0;
    let mut n: usize = line;
    let mut stop = line_stop_of(text, 0);
    while n > 0 && stop < text.len()
        invariant
            start <= stop <= text@.len(),
            stop == crate::app::editor::line_stop(text@, start as int),
            nth_line_start(text@, start as int, n as nat) == nth_line_start(text@, 0, line as nat),
        decreases n,
    {
        start = stop + 1;
        stop = line_stop_of(text, start);
        n = n - 1;
    }
    let ghost origin = start;
    let mut at: usize = start;
    let mut used: u128 = 0;
    while at < stop && used < column
        invariant
            origin <= at <= stop <= text@.len(),
            used <= 255 * (at - origin),
            place_at(text@, at as int, stop as int, used as nat, column as nat) == place_at(
                text@,
                origin as int,
                stop as int,
                0,
                column as nat,
            ),
        decreases stop - at,
    {
        used = used + char_cols(text[at]) as u128;
        at = at + 1;
    }
    at
}

// ---------------------------------------------------------------------------
// mouse events
// ---------------------------------------------------------------------------

/// A sum inside sixteen bits.
pub open spec fn plus(a: u16, b: int) -> u16 {
    if a + b > u16::MAX {
        u16::MAX
    } else {
        (a + b) as u16
    }
}

/// A difference that is not negative.
pub open spec fn minus(a: u16, b: int) -> u16 {
    if a > b {
        (a - b) as u16
    } else {
        0
    }
}

impl Area {
    /// What is left inside the margins of the chat and the composer: two columns at either
    /// side, one row at the top.
    pub open spec fn content(self) -> Area {
        Area {
            x: plus(self.x, 2),
            y: plus(self.y, 1),
            width: minus(self.width, 4),
            height: minus(self.height, 1),
        }
    }

    /// What is left inside the margins of the chat and the composer.
    pub fn inner(&self) -> (r: Area)
        ensures
            r == self.content(),
    {
        Area {
            x: self.x.saturating_add(2),
            y: self.y.saturating_add(1),
            width: self.width.saturating_sub(4),
            height: self.height.saturating_sub(1),
        }
    }
}

impl AppView {
    /// Whether something lies over the chat that has the mouse.
    pub open spec fn covered(self) -> bool {
        self.theme_picker.open || self.queue_popup_open || self.launcher is Some || self.new_session
            is Some || self.sidebar_search is Some || !(self.mode is Chat)
    }

    /// A click into the composer puts the caret at the clicked cell.
    pub open spec fn composer_clicked(self, column: u16, row: u16) -> AppView {
        let inner = self.composer_area.content();
        if inner.width == 0 || inner.height == 0 {
            self
        } else {
            let e = self.composer.editor;
            self.composing(
                ComposerView {
                    editor: EditorView {
                        caret: clicked(
                            e.text,
                            minus(row, inner.y as int) as nat,
                            minus(column, inner.x as int) as nat + side_scroll(e, inner.width),
                        ),
                        ..e
                    },
                    ..self.composer
                },
            )
        }
    }

    /// The row of the sidebar at a row of the screen: none in its head, in its foot and behind
    /// its last row.
    pub open spec fn sidebar_row_at(self, row: u16) -> Option<DisplayRow> {
        let area = self.sidebar_area;
        let groups = crate::app::groups::groups(self.list(), self.archived_expanded);
        let rows = crate::app::groups::rows_of(groups, groups.len());
        let line = minus(row, area.y as int) as int;
        let at = crate::app::groups::first_row(rows, self.sidebar.selected, area.height) + line - 2;
        if area.height == 0 || area.width < 4 || line < 2 || line >= minus(area.height, 1) || at
            >= rows.len() {
            None
        } else {
            Some(rows[at])
        }
    }

    /// A click into the sidebar: on a session it selects it and makes it the active one, on the
    /// head of the archived sessions it shows or hides them.
    pub open spec fn sidebar_clicked(self, row: u16) -> (AppView, ActionView) {
        let groups = crate::app::groups::groups(self.list(), self.archived_expanded);
        match self.sidebar_row_at(row) {
            None => (self, ActionView::Nothing),
            Some(DisplayRow::Header(g)) => if groups[g as int].is_archived {
                (
                    self.with_archived_expanded(!self.archived_expanded).selecting(
                        crate::app::groups::kept(self.sidebar.selected, self.rows().len()),
                    ),
                    ActionView::Nothing,
                )
            } else {
                (self, ActionView::Nothing)
            },
            Some(DisplayRow::Session { index, ordinal }) => if index < self.sessions.len() {
                self.selecting(ordinal).switched(self.sessions[index as int].session_id)
            } else {
                (self, ActionView::Nothing)
            },
        }
    }

    /// A selection begun at a cell of the chat.
    pub open spec fn anchored(self, column: u16, row: u16) -> AppView {
        let content = self.chat_area.content();
        if self.select_mode && content.holds(column, row) {
            let at = CellPos { row: (row - content.y) as u16, col: (column - content.x) as u16 };
            self.with_selection(Some((at, at))).unhinted()
        } else {
            self
        }
    }

    /// The button pressed at a cell.
    pub open spec fn pressed_at(self, column: u16, row: u16) -> (AppView, ActionView) {
        if TOO_SMALL_WIDTH <= self.terminal_width < WIDE_WIDTH && column == self.chat_area.x && row
            == self.chat_area.y {
            (self.drawer_toggled(), ActionView::Nothing)
        } else if self.sidebar_area.holds(column, row) {
            let (there, action) = self.selection_cancelled().sidebar_clicked(row);
            (there.drawer_closed(), action)
        } else {
            let open = self.drawer_closed();
            if self.composer_area.holds(column, row) {
                (
                    open.selection_cancelled().focused(Focus::Composer).composer_clicked(column, row),
                    ActionView::Focus(Focus::Composer),
                )
            } else {
                (open.anchored(column, row), ActionView::Nothing)
            }
        }
    }

    /// The pointer dragged to a cell: a selection ends there, inside the chat.
    pub open spec fn dragged_to(self, column: u16, row: u16) -> AppView {
        let content = self.chat_area.content();
        match self.selection {
            Some((anchor, _)) => self.with_selection(
                Some(
                    (
                        anchor,
                        CellPos {
                            row: crate::app::editor::least(
                                minus(row, content.y as int) as int,
                                minus(content.height, 1) as int,
                            ) as u16,
                            col: crate::app::editor::least(
                                minus(column, content.x as int) as int,
                                minus(content.width, 1) as int,
                            ) as u16,
                        },
                    ),
                ),
            ),
            None => self,
        }
    }

    /// The button released: a selection is copied, and selecting is over.
    pub open spec fn released(self) -> AppView {
        match self.selection {
            Some((anchor, current)) => {
                let text = selection_text(
                    self.row_cache.rows,
                    self.view.offset as int,
                    anchor,
                    current,
                );
                let over = self.with_selection(None).with_select_mode(false).unhinted();
                if text.len() == 0 {
                    over
                } else {
                    over.with_clipboard(Some(text)).with_copied_flash(
                        Some(
                            ToastView {
                                text: self.text_with(
                                    "status.copied"@,
                                    seq![crate::text::decimal(text.len())],
                                ),
                                at: self.clock,
                            },
                        ),
                    ).with_needs_draw(true)
                }
            },
            None => self,
        }
    }

    /// The wheel over the sidebar moves the selection, where the list is longer than its
    /// window.
    pub open spec fn sidebar_wheeled(self, down: bool) -> AppView {
        let groups = crate::app::groups::groups(self.list(), self.archived_expanded);
        let rows = crate::app::groups::rows_of(groups, groups.len());
        let height = self.sidebar_area.height;
        if height == 0 || rows.len() <= crate::app::groups::window(height) {
            self
        } else {
            self.selecting(
                crate::app::groups::moved(
                    self.sidebar.selected,
                    if down {
                        3
                    } else {
                        -3
                    },
                    self.rows().len(),
                ),
            )
        }
    }

    /// The wheel turned over a cell, three lines a turn. The sidebar comes before the chat: the
    /// drawer lies over it.
    pub open spec fn wheeled(self, down: bool, column: u16, row: u16) -> (AppView, ActionView) {
        if self.sidebar_area.holds(column, row) {
            (self.sidebar_wheeled(down), ActionView::Nothing)
        } else if self.chat_area.holds(column, row) {
            let by: i64 = if down {
                3
            } else {
                -3i64 as i64
            };
            (self.scrolled(by as int), ActionView::Scroll(by))
        } else {
            (self, ActionView::Nothing)
        }
    }

    /// What a mouse event does. Nothing on a screen that is too small, nor under an overlay, a
    /// takeover or the composer's list.
    pub open spec fn moused(self, event: MouseEvent) -> (AppView, ActionView) {
        if self.terminal_width < TOO_SMALL_WIDTH || self.covered() || self.composer.popup() is Some {
            (self, ActionView::Nothing)
        } else {
            match event.kind {
                MouseKind::Down => self.pressed_at(event.column, event.row),
                MouseKind::Drag => (
                    self.dragged_to(event.column, event.row),
                    ActionView::Nothing,
                ),
                MouseKind::Up => (self.released(), ActionView::Nothing),
                MouseKind::ScrollUp => self.wheeled(false, event.column, event.row),
                MouseKind::ScrollDown => self.wheeled(true, event.column, event.row),
                MouseKind::Moved | MouseKind::Other => (self, ActionView::Nothing),
            }
        }
    }

    /// A pasted text goes into the composer where it has the keys, and is dropped elsewhere.
    pub open spec fn pasted(self, text: Seq<char>) -> AppView {
        if self.terminal_width < TOO_SMALL_WIDTH || self.focus != Focus::Composer
            || self.covered() {
            self
        } else {
            self.composing(self.composer.typed_all(text))
        }
    }
}

impl App {
    fn is_covered(&self) -> (r: bool)
        ensures
            r == self@.covered(),
    {
        self.theme_picker().open || self.queue_popup_open() || self.launcher().is_some()
            || self.new_session().is_some() || self.sidebar_search().is_some() || !self.in_chat()
    }

    fn composer_click(&mut self, column: u16, row: u16)
        ensures
            final(self)@ == old(self)@.composer_clicked(column, row),
    {
        let inner = self.composer_area().inner();
        if inner.width == 0 || inner.height == 0 {
            return;
        }
        let mut composer = self.composer().duplicate();
        let line = row.saturating_sub(inner.y) as usize;
        let scroll = scroll_of(&composer.editor, inner.width);
        let total = composer.editor.text.len();
        let column: u128 = column.saturating_sub(inner.x) as u128 + scroll;
        composer.editor.caret = caret_at(&composer.editor.text, line, column);
        self.set_composer(composer);
    }

    fn sidebar_row(&self, row: u16) -> (r: Option<DisplayRow>)
        ensures
            r == self@.sidebar_row_at(row),
    {
        let area = self.sidebar_area();
        let line = row.saturating_sub(area.y);
        if area.height == 0 || area.width < 4 || line < 2 || line >= area.height.saturating_sub(1) {
            return None;
        }
        let groups = self.sidebar_groups();
        let count = visible_sessions(&groups).len();
        let rows = display_rows(&groups);
        proof {
            assert(crate::text::views(groups@).len() == groups@.len());
        }
        let start = scroll_start(&rows, self.sidebar().selected, area.height);
        let skip = (line - 2) as usize;
        if start < rows.len() && skip < rows.len() - start {
            Some(rows[start + skip])
        } else {
            None
        }
    }

    fn sidebar_click(&mut self, row: u16) -> (r: Action)
        ensures
            final(self)@ == old(self)@.sidebar_clicked(row).0,
            r@ == old(self)@.sidebar_clicked(row).1,
    {
        match self.sidebar_row(row) {
            None => Action::Nothing,
            Some(DisplayRow::Header(g)) => {
                let groups = self.sidebar_groups();
                let total = groups.len();
                proof {
                    let views = crate::text::views(groups@);
                    assert(views.len() == total);
                    lemma_header_inside(views, views.len());
                    assert(views[g as int] == groups@[g as int]@);
                }
                if groups[g].is_archived {
                    let len = self.sidebar_rows().len();
                    let mut sidebar = self.sidebar();
                    let expanded = self.archived_expanded();
                    sidebar.clamp(len);
                    self.set_archived_expanded(!expanded);
                    self.set_sidebar(sidebar);
                }
                Action::Nothing
            },
            Some(DisplayRow::Session { index, ordinal }) => {
                if index < self.sessions().len() {
                    let id = self.sessions()[index].session_id.duplicate();
                    self.set_sidebar(SidebarState { selected: ordinal });
                    self.switch_to_session(id)
                } else {
                    Action::Nothing
                }
            },
        }
    }

    fn anchor(&mut self, column: u16, row: u16)
        ensures
            final(self)@ == old(self)@.anchored(column, row),
    {
        let content = self.chat_area().inner();
        if self.select_mode() && content.contains(column, row) {
            let at = CellPos { row: row - content.y, col: column - content.x };
            self.set_selection(Some((at, at)));
            self.set_hint(None);
        }
    }

    fn mouse_down(&mut self, column: u16, row: u16) -> (r: Action)
        ensures
            final(self)@ == old(self)@.pressed_at(column, row).0,
            r@ == old(self)@.pressed_at(column, row).1,
    {
        let width = self.terminal_width();
        let chat = self.chat_area();
        if width < WIDE_WIDTH && width >= TOO_SMALL_WIDTH && column == chat.x && row == chat.y {
            self.toggle_drawer();
            return Action::Nothing;
        }
        let in_composer = self.composer_area().contains(column, row);
        if self.sidebar_area().contains(column, row) {
            self.cancel_selection();
            let action = self.sidebar_click(row);
            self.close_drawer();
            return action;
        }
        self.close_drawer();
        if in_composer {
            self.cancel_selection();
            self.set_focus(Focus::Composer);
            self.composer_click(column, row);
            return Action::Focus(Focus::Composer);
        }
        self.anchor(column, row);
        Action::Nothing
    }

    fn mouse_drag(&mut self, column: u16, row: u16)
        ensures
            final(self)@ == old(self)@.dragged_to(column, row),
    {
        let content = self.chat_area().inner();
        match self.selection() {
            Some((anchor, _)) => {
                let down = row.saturating_sub(content.y);
                let across = column.saturating_sub(content.x);
                let last_row = content.height.saturating_sub(1);
                let last_col = content.width.saturating_sub(1);
                self.set_selection(
                    Some(
                        (
                            anchor,
                            CellPos {
                                row: if down < last_row {
                                    down
                                } else {
                                    last_row
                                },
                                col: if across < last_col {
                                    across
                                } else {
                                    last_col
                                },
                            },
                        ),
                    ),
                );
            },
            None => {},
        }
    }

    fn mouse_up(&mut self)
        ensures
            final(self)@ == old(self)@.released(),
    {
        match self.selection() {
            Some((anchor, current)) => {
                let text = selected_text(
                    self.row_cache(),
                    self.viewport().offset,
                    anchor,
                    current,
                );
                let count = u64_text(crate::clipboard::copied_count(text.as_str()) as u64);
                let args: [&str; 1] = [count.as_str()];
                proof {
                    assert(crate::i18n::arg_texts(args@) =~= seq![count@]);
                }
                let note = trf(self.strings(), self.locale(), "status.copied", args.as_slice());
                let at = self.clock();
                self.set_selection(None);
                self.set_select_mode(false);
                self.set_hint(None);
                if !text.as_str().is_empty() {
                    self.set_clipboard(Some(text));
                    self.set_copied_flash(Some(Toast { text: note, at }));
                    self.set_needs_draw(true);
                }
            },
            None => {},
        }
    }

    fn sidebar_wheel(&mut self, down: bool)
        ensures
            final(self)@ == old(self)@.sidebar_wheeled(down),
    {
        let height = self.sidebar_area().height;
        let groups = self.sidebar_groups();
        let count = visible_sessions(&groups).len();
        let rows = display_rows(&groups);
        proof {
            assert(crate::text::views(groups@).len() == groups@.len());
        }
        let fits: usize = if height > 3 {
            (height - 3) as usize
        } else {
            0
        };
        if height == 0 || rows.len() <= fits {
            return;
        }
        let mut sidebar = self.sidebar();
        sidebar.move_by(
            if down {
                3
            } else {
                -3
            },
            count,
        );
        self.set_sidebar(sidebar);
    }

    fn mouse_wheel(&mut self, down: bool, column: u16, row: u16) -> (r: Action)
        ensures
            final(self)@ == old(self)@.wheeled(down, column, row).0,
            r@ == old(self)@.wheeled(down, column, row).1,
    {
        if self.sidebar_area().contains(column, row) {
            self.sidebar_wheel(down);
            return Action::Nothing;
        }
        if self.chat_area().contains(column, row) {
            let by: i64 = if down {
                3
            } else {
                -3
            };
            self.scroll(by);
            return Action::Scroll(by);
        }
        Action::Nothing
    }

    /// Handle a mouse event.
    pub fn handle_mouse(&mut self, event: MouseEvent) -> (r: Action)
        ensures
            final(self)@ == old(self)@.moused(event).0,
            r@ == old(self)@.moused(event).1,
    {
        if self.terminal_width() < TOO_SMALL_WIDTH || self.is_covered()
            || self.composer().popup().is_some() {
            return Action::Nothing;
        }
        match event.kind {
            MouseKind::Down => self.mouse_down(event.column, event.row),
            MouseKind::Drag => {
                self.mouse_drag(event.column, event.row);
                Action::Nothing
            },
            MouseKind::Up => {
                self.mouse_up();
                Action::Nothing
            },
            MouseKind::ScrollUp => self.mouse_wheel(false, event.column, event.row),
            MouseKind::ScrollDown => self.mouse_wheel(true, event.column, event.row),
            MouseKind::Moved | MouseKind::Other => Action::Nothing,
        }
    }

    /// Handle a pasted text.
    pub fn handle_paste(&mut self, text: &str)
        ensures
            final(self)@ == old(self)@.pasted(text@),
    {
        if self.terminal_width() < TOO_SMALL_WIDTH || self.focus() != Focus::Composer
            || self.is_covered() {
            return;
        }
        let mut composer = self.composer().duplicate();
        composer.insert_text(text);
        self.set_composer(composer);
    }
}

proof fn lemma_header_inside(all: Seq<crate::app::groups::GroupView>, n: nat)
    requires
        n <= all.len() <= usize::MAX,
    ensures
        forall|k: int|
            0 <= k < crate::app::groups::rows_of(all, n).len() ==> (
            #[trigger] crate::app::groups::rows_of(all, n)[k] matches DisplayRow::Header(g) ==> g
                < n),
    decreases n,
{
    if n > 0 {
        lemma_header_inside(all, (n - 1) as nat);
    }
}

} // verus!
