//! The visible part of the chat: which lines of which rows stand where.
//!
//! The content stands inside a margin of two columns on either side, below one empty row.

use vstd::prelude::*;

use crate::render::format::format_elapsed;
use crate::render::inline_image::ImageRowView;
use crate::render::row_cache::{CachedRow, RowCache, RowView};
use crate::render::sink::LINK_PREFIX;
use crate::render::style::{Color, Line, SpanView};
use crate::render::width::columns_of;
use crate::text::{chars_of, joined, slice_text};

verus! {

/// The width of the content in an area: without the margin.
pub fn content_width(area_width: u16) -> (r: u16)
    ensures
        r == (if area_width >= 4 {
            area_width - 4
        } else {
            0
        }),
{
    area_width.saturating_sub(4)
}

/// The number of spinner frames.
pub const SPINNER_COUNT: usize = 10;

/// The frames of the spinner, each one column wide.
pub open spec fn spinner_frame(i: nat) -> Seq<char> {
    if i == 0 {
        "⠋"@
    } else if i == 1 {
        "⠙"@
    } else if i == 2 {
        "⠹"@
    } else if i == 3 {
        "⠸"@
    } else if i == 4 {
        "⠼"@
    } else if i == 5 {
        "⠴"@
    } else if i == 6 {
        "⠦"@
    } else if i == 7 {
        "⠧"@
    } else if i == 8 {
        "⠇"@
    } else {
        "⠏"@
    }
}

/// The frame of the spinner at a tick: they take turns.
pub fn spinner_at(tick: usize) -> (r: &'static str)
    ensures
        r@ == spinner_frame(tick as nat % SPINNER_COUNT as nat),
{
    let i = tick % SPINNER_COUNT;
    if i == 0 {
        "⠋"
    } else if i == 1 {
        "⠙"
    } else if i == 2 {
        "⠹"
    } else if i == 3 {
        "⠸"
    } else if i == 4 {
        "⠼"
    } else if i == 5 {
        "⠴"
    } else if i == 6 {
        "⠦"
    } else if i == 7 {
        "⠧"
    } else if i == 8 {
        "⠇"
    } else {
        "⠏"
    }
}

/// What opens a hyperlink in the terminal.
pub open spec fn link_open(url: Seq<char>) -> Seq<char> {
    "\x1b]8;;"@ + url + "\x1b\\"@
}

/// What opens a hyperlink in the terminal.
pub fn osc8_open(url: &str) -> (r: String)
    ensures
        r@ == link_open(url@),
{
    let mut out = joined("\x1b]8;;", url);
    out.append("\x1b\\");
    out
}

/// What closes a hyperlink in the terminal.
pub fn osc8_close() -> (r: &'static str)
    ensures
        r@ == "\x1b]8;;\x1b\\"@,
{
    "\x1b]8;;\x1b\\"
}

/// The text of a span and the address that it carries in front, where it does.
pub open spec fn link_parts(content: Seq<char>) -> (Seq<char>, Option<Seq<char>>) {
    if content.len() > 0 && content[0] == LINK_PREFIX {
        let rest = content.drop_first();
        let i = crate::seqs::first_index(rest, crate::text::equal_to(LINK_PREFIX));
        if i < rest.len() {
            (rest.skip(i + 1), Some(rest.take(i)))
        } else {
            (content, None)
        }
    } else {
        (content, None)
    }
}

/// The text of a span and the address that it carries in front, where it does.
pub fn strip_link_prefix(content: &str) -> (r: (String, Option<String>))
    ensures
        (r.0@, crate::text::opt_view(r.1)) == link_parts(content@),
{
    let chars = chars_of(content);
    if chars.len() > 0 && chars[0] == LINK_PREFIX {
        let ghost rest = chars@.drop_first();
        let mut i: usize = 1;
        while i < chars.len() && chars[i] != LINK_PREFIX
            invariant
                1 <= i <= chars.len(),
                rest == chars@.drop_first(),
                forall|k: int|
                    0 <= k < i - 1 ==> !crate::text::equal_to(LINK_PREFIX)(#[trigger] rest[k]),
            decreases chars.len() - i,
        {
            i = i + 1;
        }
        proof {
            crate::seqs::lemma_first_index(rest, crate::text::equal_to(LINK_PREFIX), i - 1);
        }
        if i < chars.len() {
            let text = slice_text(&chars, i + 1, chars.len());
            let url = slice_text(&chars, 1, i);
            proof {
                assert(text@ =~= rest.skip(i as int));
                assert(url@ =~= rest.take(i - 1));
            }
            return (text, Some(url));
        }
    }
    (content.to_owned(), None)
}

/// The columns of a line as it is drawn: addresses take none. Capped at the largest number.
pub open spec fn visible_width(spans: Seq<SpanView>) -> nat
    decreases spans.len(),
{
    if spans.len() == 0 {
        0
    } else {
        let sum = visible_width(spans.drop_last()) + crate::render::width::text_columns(
            link_parts(spans.last().content).0,
        );
        if sum <= u16::MAX {
            sum as nat
        } else {
            u16::MAX as nat
        }
    }
}

/// The columns of a line as it is drawn: addresses take none.
pub fn line_visible_width(line: &Line) -> (r: u16)
    ensures
        r == visible_width(line@.spans),
{
    let ghost all = line@.spans;
    let mut total: u16 = 0;
    let mut i: usize = 0;
    while i < line.spans.len()
        invariant
            i <= line.spans.len(),
            all == line@.spans,
            total == visible_width(all.take(i as int)),
        decreases line.spans.len() - i,
    {
        proof {
            assert(all.take(i + 1).drop_last() =~= all.take(i as int));
            assert(all.take(i + 1).last() == line.spans@[i as int]@);
        }
        let (text, _) = strip_link_prefix(line.spans[i].content.as_str());
        let w = columns_of(text.as_str());
        total =
        if w > 65535 {
            u16::MAX
        } else {
            total.saturating_add(w as u16)
        };
        i = i + 1;
    }
    proof {
        assert(all.take(i as int) =~= all);
    }
    total
}

/// The sign of a running tool behind its header: where it starts, the spinner, and how long the
/// tool has been running. None where the header leaves no column.
pub fn live_indicator(header: &Line, width: u16, tick: usize, elapsed: u64) -> (r: Option<
    (u16, String, String),
>)
    ensures
        ({
            let drawn = visible_width(header@.spans);
            if drawn >= width {
                r is None
            } else {
                r matches Some((at, spinner, text)) && at == drawn && spinner@ == " "@
                    + spinner_frame(tick as nat % SPINNER_COUNT as nat) && text@
                    == crate::render::format::elapsed_text(elapsed as nat)
            }
        }),
{
    let drawn = line_visible_width(header);
    if drawn >= width {
        return None;
    }
    Some((drawn, joined(" ", spinner_at(tick)), format_elapsed(elapsed)))
}

/// One visible line: line `line` of row `row`, on the row `y` of the area, with the fill behind
/// it where it is code.
#[derive(Debug, Clone, Copy, PartialEq, Eq)]
pub struct VisibleLine {
    pub row: usize,
    pub line: usize,
    pub y: u16,
    pub fill: Option<Color>,
}

/// Whether a line lies in one of some ranges.
pub open spec fn in_ranges(ranges: Seq<(nat, nat)>, line: int) -> bool {
    exists|i: int| 0 <= i < ranges.len() && (#[trigger] ranges[i]).0 <= line < ranges[i].1
}

/// The fill behind a line.
pub open spec fn fill_at(row: RowView, line: int) -> Option<Color> {
    if in_ranges(row.code_ranges, line) {
        Some(row.code_fill)
    } else {
        None
    }
}

/// The visible lines from a line of a row on, the first of them on row `y` of an area of some
/// height.
pub open spec fn lines_from(rows: Seq<RowView>, row: int, line: int, y: int, height: int) -> Seq<
    VisibleLine,
>
    decreases height - y, rows.len() - row,
{
    if row < 0 || row >= rows.len() || y >= height {
        Seq::empty()
    } else if line >= rows[row].lines.len() {
        lines_from(rows, row + 1, 0, y, height)
    } else {
        seq![
            VisibleLine {
                row: row as usize,
                line: line as usize,
                y: y as u16,
                fill: fill_at(rows[row], line),
            },
        ] + lines_from(rows, row, line + 1, y + 1, height)
    }
}

/// The visible lines of a chat scrolled to a line, in an area of some height: nothing without
/// rows, and nothing in an area of less than two rows.
pub open spec fn visible_lines_of(rows: Seq<RowView>, offset: int, height: int) -> Seq<VisibleLine> {
    if rows.len() == 0 || height < 2 {
        Seq::empty()
    } else {
        let (row, line) = crate::render::row_cache::place_from(rows, 0, offset);
        lines_from(rows, row, line, 1, height)
    }
}

fn is_in_ranges(ranges: &Vec<(usize, usize)>, line: usize) -> (r: bool)
    ensures
        r == in_ranges(crate::render::wrap::nat_pairs(ranges@), line as int),
{
    let ghost all = crate::render::wrap::nat_pairs(ranges@);
    let mut i: usize = 0;
    while i < ranges.len()
        invariant
            i <= ranges.len(),
            all == crate::render::wrap::nat_pairs(ranges@),
            forall|k: int| 0 <= k < i ==> !((#[trigger] all[k]).0 <= line < all[k].1),
        decreases ranges.len() - i,
    {
        let (start, end) = ranges[i];
        proof {
            assert(all[i as int] == (start as nat, end as nat));
        }
        if start <= line && line < end {
            return true;
        }
        i = i + 1;
    }
    false
}

/// The visible lines of a chat scrolled to a line, in an area of some height.
pub fn visible_lines(cache: &RowCache, offset: usize, height: u16) -> (r: Vec<VisibleLine>)
    ensures
        r@ == visible_lines_of(cache@.rows, offset as int, height as int),
{
    let rows = cache.lines();
    let ghost all = cache@.rows;
    let mut out: Vec<VisibleLine> = Vec::new();
    if rows.len() == 0 || height < 2 {
        return out;
    }
    let (start_row, start_line) = cache.line_to_row(offset);
    let mut row: usize = start_row;
    let mut line: usize = start_line;
    let mut y: u16 = 1;
    let ghost whole = lines_from(all, start_row as int, start_line as int, 1, height as int);
    proof {
        assert(out@ + whole =~= whole);
    }
    while row < rows.len() && y < height
        invariant
            all == crate::text::views(rows@),
            y <= height,
            out@ + lines_from(all, row as int, line as int, y as int, height as int) == whole,
        decreases height - y, rows.len() - row,
    {
        proof {
            assert(all[row as int] == rows@[row as int]@);
        }
        let count = rows[row].line_total();
        if line >= count {
            row = row + 1;
            line = 0;
        } else {
            let fill = row_fill(&rows[row], line);
            let item = VisibleLine { row, line, y, fill };
            proof {
                let rest = lines_from(all, row as int, line + 1, y + 1, height as int);
                assert(out@.push(item) + rest =~= out@ + (seq![item] + rest));
            }
            out.push(item);
            line = line + 1;
            y = y + 1;
        }
    }
    proof {
        assert(out@ + lines_from(all, row as int, line as int, y as int, height as int) =~= out@);
    }
    out
}

fn row_fill(row: &CachedRow, line: usize) -> (r: Option<Color>)
    ensures
        r == fill_at(row@, line as int),
{
    if is_in_ranges(row.ranges(), line) {
        Some(row.fill())
    } else {
        None
    }
}

/// The visible part of an inline image: the row of the area at which it starts, and its rows.
pub open spec fn image_window(image: ImageRowView, first_line: int, row_y: int, height: int) -> Option<
    (int, int),
> {
    let top = if image.line_index >= first_line {
        row_y + image.line_index - first_line
    } else {
        row_y
    };
    let hidden = if image.line_index >= first_line {
        0
    } else {
        first_line - image.line_index
    };
    let left = image.rows - hidden;
    if left <= 0 || top >= height {
        None
    } else {
        Some((
            top,
            if left < height - top {
                left
            } else {
                height - top
            },
        ))
    }
}

/// Whether the chat is longer than its area, so that a scrollbar shows.
pub fn shows_scrollbar(total: usize, height: u16) -> (r: bool)
    ensures
        r == (total > (if height > 0 {
            height - 1
        } else {
            0
        })),
{
    total > height.saturating_sub(1) as usize
}

/// The visible part of an inline image, for the first line of its row that is visible and the
/// row of the area that it stands on.
pub fn image_area(line_index: usize, rows: u16, first_line: usize, row_y: u16, height: u16) -> (r: Option<
    (u16, u16),
>)
    ensures
        ({
            let image = ImageRowView {
                line_index: line_index as nat,
                attachment_id: Seq::empty(),
                rows,
            };
            match image_window(image, first_line as int, row_y as int, height as int) {
                Some((top, left)) => r matches Some((t, n)) && t == top && n == left,
                None => r is None,
            }
        }),
{
    if row_y >= height {
        return None;
    }
    if line_index >= first_line {
        let down = line_index - first_line;
        if rows == 0 || down >= (height - row_y) as usize {
            return None;
        }
        let top = row_y + down as u16;
        let room = height - top;
        Some((
            top,
            if rows < room {
                rows
            } else {
                room
            },
        ))
    } else {
        let hidden = first_line - line_index;
        if hidden >= rows as usize {
            return None;
        }
        let left = rows - hidden as u16;
        let room = height - row_y;
        Some((
            row_y,
            if left < room {
                left
            } else {
                room
            },
        ))
    }
}

/// A link's text and address survive: what the renderer puts in front of a span is what is read
/// off it. An address does not hold the mark that stands around it.
pub proof fn law_link_read_back(url: Seq<char>, text: Seq<char>)
    requires
        !url.contains(LINK_PREFIX),
    ensures
        link_parts(seq![LINK_PREFIX] + url + seq![LINK_PREFIX] + text) == (text, Some(url)),
{
    let content = seq![LINK_PREFIX] + url + seq![LINK_PREFIX] + text;
    let rest = content.drop_first();
    assert(rest =~= url + seq![LINK_PREFIX] + text);
    assert forall|k: int| 0 <= k < url.len() implies !crate::text::equal_to(LINK_PREFIX)(
        #[trigger] rest[k],
    ) by {
        assert(rest[k] == url[k]);
        assert(url.contains(url[k]));
    }
    crate::seqs::lemma_first_index(
        rest,
        crate::text::equal_to(LINK_PREFIX),
        url.len() as int,
    );
    assert(rest.take(url.len() as int) =~= url);
    assert(rest.skip(url.len() as int + 1) =~= text);
}

/// A span without the mark is plain text.
pub proof fn law_plain_text_is_no_link(text: Seq<char>)
    requires
        text.len() == 0 || text[0] != LINK_PREFIX,
    ensures
        link_parts(text) == (text, None::<Seq<char>>),
{
}

/// The visible lines fill the area from its second row on, one line to a row, and never reach
/// past it; they are lines of the rows, in their order.
pub proof fn law_visible_lines(rows: Seq<RowView>, row: int, line: int, y: int, height: int)
    requires
        0 <= row,
        0 <= line,
        0 <= y,
        height <= u16::MAX,
        rows.len() <= usize::MAX,
        forall|i: int| 0 <= i < rows.len() ==> (#[trigger] rows[i]).lines.len() <= usize::MAX,
    ensures
        ({
            let shown = lines_from(rows, row, line, y, height);
            &&& y + shown.len() <= (if height > y {
                height
            } else {
                y
            })
            &&& forall|i: int|
                0 <= i < shown.len() ==> (#[trigger] shown[i]).y == y + i && row <= shown[i].row
                    < rows.len() && shown[i].line < rows[shown[i].row as int].lines.len()
        }),
    decreases height - y, rows.len() - row,
{
    if row < rows.len() && y < height {
        if line >= rows[row].lines.len() {
            law_visible_lines(rows, row + 1, 0, y, height);
        } else {
            law_visible_lines(rows, row, line + 1, y + 1, height);
            let rest = lines_from(rows, row, line + 1, y + 1, height);
            let shown = lines_from(rows, row, line, y, height);
            assert forall|i: int| 0 <= i < shown.len() implies (#[trigger] shown[i]).y == y + i
                && row <= shown[i].row < rows.len() && shown[i].line
                < rows[shown[i].row as int].lines.len() by {
                if i > 0 {
                    assert(shown[i] == rest[i - 1]);
                }
            }
        }
    }
}

} // verus!
