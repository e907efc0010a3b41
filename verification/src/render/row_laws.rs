//! Which lines of the chat are on the screen and how they are broken, whatever they hold.

use vstd::prelude::*;

use crate::render::inline_image::ImageRowView;
use crate::render::row_cache::RowView;
use crate::render::sink::LINK_PREFIX;
use crate::render::style::{LineView, SpanView, Style};
use crate::render::wrap::WrapView;

verus! {

// ---------------------------------------------------------------------------
// what is on the screen
// ---------------------------------------------------------------------------

proof fn lemma_shown(rows: Seq<RowView>, row: int, line: int, y: int, height: int)
    requires
        0 <= row <= rows.len(),
        0 <= line,
        row < rows.len() ==> line <= rows[row].lines.len(),
        row == rows.len() ==> line == 0,
        0 <= y <= height <= u16::MAX,
        rows.len() <= usize::MAX,
        forall|i: int| 0 <= i < rows.len() ==> (#[trigger] rows[i]).lines.len() <= usize::MAX,
    ensures
        ({
            let shown = crate::render::chat_view::lines_from(rows, row, line, y, height);
            let below = crate::app::selection_laws::all_lines(rows.skip(row));
            let left = below.len() - line;
            &&& left >= 0
            &&& shown.len() == (if left < height - y {
                left
            } else {
                height - y
            })
            &&& forall|i: int|
                0 <= i < shown.len() ==> {
                    &&& (#[trigger] shown[i]).row < rows.len()
                    &&& shown[i].line < rows[shown[i].row as int].lines.len()
                    &&& rows[shown[i].row as int].lines[shown[i].line as int] == below[line + i]
                    &&& shown[i].y == y + i
                }
        }),
    decreases height - y, rows.len() - row,
{
    let shown = crate::render::chat_view::lines_from(rows, row, line, y, height);
    let below = crate::app::selection_laws::all_lines(rows.skip(row));
    if row < rows.len() {
        assert(rows.skip(row)[0] == rows[row]);
        assert(rows.skip(row).drop_first() =~= rows.skip(row + 1));
        let next = crate::app::selection_laws::all_lines(rows.skip(row + 1));
        assert(below == rows[row].lines + next);
        if y < height {
            if line >= rows[row].lines.len() {
                lemma_shown(rows, row + 1, 0, y, height);
                assert forall|i: int| 0 <= i < shown.len() implies rows[(
                #[trigger] shown[i]).row as int].lines[shown[i].line as int] == below[line + i] by {
                    assert(below[line + i] == next[i]);
                }
            } else {
                lemma_shown(rows, row, line + 1, y + 1, height);
                let rest = crate::render::chat_view::lines_from(rows, row, line + 1, y + 1, height);
                assert forall|i: int| 0 <= i < shown.len() implies {
                    &&& (#[trigger] shown[i]).row < rows.len()
                    &&& shown[i].line < rows[shown[i].row as int].lines.len()
                    &&& rows[shown[i].row as int].lines[shown[i].line as int] == below[line + i]
                    &&& shown[i].y == y + i
                } by {
                    if i > 0 {
                        assert(shown[i] == rest[i - 1]);
                        assert(below[line + i] == below[line + 1 + (i - 1)]);
                    } else {
                        assert(below[line] == rows[row].lines[line]);
                    }
                }
            }
        }
    } else {
        assert(rows.skip(row) =~= Seq::empty());
    }
}

proof fn lemma_place(rows: Seq<RowView>, row: int, offset: int)
    requires
        0 <= row < rows.len(),
        0 <= offset < crate::app::selection_laws::all_lines(rows.skip(row)).len(),
    ensures
        ({
            let (at, line) = crate::render::row_cache::place_from(rows, row, offset);
            &&& row <= at < rows.len()
            &&& 0 <= line < rows[at].lines.len()
            &&& line + (crate::app::selection_laws::all_lines(rows.skip(row)).len() - crate::app::selection_laws::all_lines(rows.skip(at)).len()) == offset
            &&& forall|i: int|
                offset <= i < crate::app::selection_laws::all_lines(rows.skip(row)).len() ==> #[trigger] crate::app::selection_laws::all_lines(
                    rows.skip(row),
                )[i] == crate::app::selection_laws::all_lines(rows.skip(at))[i - offset + line]
        }),
    decreases rows.len() - row,
{
    assert(rows.skip(row)[0] == rows[row]);
    assert(rows.skip(row).drop_first() =~= rows.skip(row + 1));
    let below = crate::app::selection_laws::all_lines(rows.skip(row));
    let next = crate::app::selection_laws::all_lines(rows.skip(row + 1));
    assert(below == rows[row].lines + next);
    if offset >= rows[row].lines.len() {
        let n = rows[row].lines.len() as int;
        if row + 1 == rows.len() {
            assert(rows.skip(row + 1) =~= Seq::empty());
            assert(next.len() == 0);
        }
        lemma_place(rows, row + 1, offset - n);
        let (at, line) = crate::render::row_cache::place_from(rows, row, offset);
        assert forall|i: int| offset <= i < below.len() implies #[trigger] below[i] == crate::app::selection_laws::all_lines(
            rows.skip(at),
        )[i - offset + line] by {
            assert(below[i] == next[i - n]);
        }
    }
}

/// The screen shows the lines of the chat from the one it is scrolled to on, one to a row and in
/// their order, until the lines or the screen end: its first row is left free.
pub proof fn law_screen_shows(rows: Seq<RowView>, offset: int, height: int)
    requires
        0 <= offset < crate::app::selection_laws::all_lines(rows).len(),
        2 <= height <= u16::MAX,
        rows.len() <= usize::MAX,
        forall|i: int| 0 <= i < rows.len() ==> (#[trigger] rows[i]).lines.len() <= usize::MAX,
    ensures
        ({
            let shown = crate::render::chat_view::visible_lines_of(rows, offset, height);
            let left = crate::app::selection_laws::all_lines(rows).len() - offset;
            &&& shown.len() == (if left < height - 1 {
                left
            } else {
                height - 1
            })
            &&& forall|i: int|
                0 <= i < shown.len() ==> {
                    &&& (#[trigger] shown[i]).row < rows.len()
                    &&& shown[i].line < rows[shown[i].row as int].lines.len()
                    &&& rows[shown[i].row as int].lines[shown[i].line as int] == crate::app::selection_laws::all_lines(
                        rows,
                    )[offset + i]
                    &&& shown[i].y == 1 + i
                }
        }),
{
    assert(rows.skip(0) =~= rows);
    if rows.len() == 0 {
        assert(crate::app::selection_laws::all_lines(rows).len() == 0);
    }
    lemma_place(rows, 0, offset);
    let (at, line) = crate::render::row_cache::place_from(rows, 0, offset);
    lemma_shown(rows, at, line, 1, height);
    let shown = crate::render::chat_view::visible_lines_of(rows, offset, height);
    assert forall|i: int| 0 <= i < shown.len() implies rows[(
    #[trigger] shown[i]).row as int].lines[shown[i].line as int] == crate::app::selection_laws::all_lines(rows)[offset + i] by {
        assert(crate::app::selection_laws::all_lines(rows.skip(0))[offset + i] == crate::app::selection_laws::all_lines(rows.skip(at))[i + line]);
    }
}

/// A line is filled with the color of code where and only where it is one of a range of code.
pub proof fn law_code_filled(row: RowView, line: int, i: int)
    ensures
        0 <= i < row.code_ranges.len() && row.code_ranges[i].0 <= line < row.code_ranges[i].1
            ==> crate::render::chat_view::fill_at(row, line) == Some(row.code_fill),
        crate::render::chat_view::fill_at(row, line) is Some ==> exists|k: int|
            0 <= k < row.code_ranges.len() && (#[trigger] row.code_ranges[k]).0 <= line
                < row.code_ranges[k].1,
{
    if 0 <= i < row.code_ranges.len() && row.code_ranges[i].0 <= line < row.code_ranges[i].1 {
        assert(crate::render::chat_view::in_ranges(row.code_ranges, line));
    }
}

/// The part of an image that is on the screen lies on it, is no taller than the image, and what
/// is scrolled out above is not drawn; an image that is wholly on the screen is drawn whole, at
/// its own line.
pub proof fn law_image_window(image: ImageRowView, first_line: int, row_y: int, height: int)
    requires
        0 <= first_line,
        0 <= row_y <= height,
    ensures
        ({
            let shown = crate::render::chat_view::image_window(image, first_line, row_y, height);
            let top = row_y + image.line_index - first_line;
            &&& shown matches Some((y, n)) ==> {
                &&& row_y <= y
                &&& 0 < n <= image.rows
                &&& y + n <= height
            }
            &&& image.line_index >= first_line && image.rows > 0 && top + image.rows <= height
                ==> shown == Some((top, image.rows as int))
            &&& image.line_index < first_line && first_line - image.line_index < image.rows
                && row_y < height ==> (shown matches Some((y, n)) && y == row_y && n <= image.rows
                - (first_line - image.line_index))
            &&& image.line_index + image.rows <= first_line ==> shown is None
        }),
{
}

// ---------------------------------------------------------------------------
// where lines are broken
// ---------------------------------------------------------------------------

/// The text of a row that is being filled.
spec fn filling(st: WrapView) -> Seq<char> {
    crate::render::style::spans_text(st.current) + st.pending
}

/// Whether a row could not have taken the first character of the text behind it.
pub open spec fn is_full(row: LineView, next: Seq<char>, width: nat) -> bool {
    &&& next.len() > 0
    &&& crate::render::width::chars_cols(row.text()) + crate::render::width::cols(next[0]) > width
}

spec fn greedy(st: WrapView, width: nat) -> bool {
    &&& st.columns == crate::render::width::chars_cols(filling(st))
    &&& forall|i: int|
        0 <= i < st.rows.len() - 1 ==> is_full(#[trigger] st.rows[i], st.rows[i + 1].text(), width)
    &&& st.rows.len() > 0 ==> is_full(st.rows.last(), filling(st), width)
}

proof fn lemma_spans_push(spans: Seq<SpanView>, span: SpanView)
    ensures
        crate::render::style::spans_text(spans.push(span)) == crate::render::style::spans_text(spans)
            + span.content,
{
    assert(spans.push(span).drop_last() =~= spans);
}

proof fn lemma_closed_text(spans: Seq<SpanView>, text: Seq<char>, style: Style)
    ensures
        crate::render::style::spans_text(crate::render::wrap::closed(spans, text, style))
            == crate::render::style::spans_text(spans) + text,
{
    if text.len() == 0 {
        assert(crate::render::style::spans_text(spans) + text =~= crate::render::style::spans_text(
            spans,
        ));
    } else {
        lemma_spans_push(spans, SpanView { content: text, style });
    }
}

proof fn lemma_greedy_char(st: WrapView, c: char, style: Style, width: nat)
    requires
        greedy(st, width),
    ensures
        greedy(crate::render::wrap::wrap_char(st, c, style, width), width),
{
    let out = crate::render::wrap::wrap_char(st, c, style, width);
    let w = crate::render::width::cols(c);
    if st.columns + w > width && st.columns > 0 {
        lemma_closed_text(st.current, st.pending, style);
        let row = out.rows.last();
        assert(row.text() == filling(st));
        assert(filling(out) =~= seq![c]);
        reveal_with_fuel(crate::render::width::chars_cols, 2);
        assert(seq![c].drop_last() =~= Seq::empty());
        assert forall|i: int| 0 <= i < out.rows.len() - 1 implies is_full(
            #[trigger] out.rows[i],
            out.rows[i + 1].text(),
            width,
        ) by {
            assert(out.rows[i] == st.rows[i]);
            if i + 1 < st.rows.len() {
                assert(out.rows[i + 1] == st.rows[i + 1]);
            }
        }
    } else {
        assert(filling(out) =~= filling(st).push(c));
        assert(filling(out).drop_last() =~= filling(st));
        if st.rows.len() > 0 {
            assert(filling(out)[0] == filling(st)[0]);
        }
    }
}

proof fn lemma_greedy_chars(st: WrapView, chars: Seq<char>, style: Style, width: nat)
    requires
        greedy(st, width),
    ensures
        greedy(crate::render::wrap::wrap_chars(st, chars, style, width), width),
    decreases chars.len(),
{
    if chars.len() > 0 {
        lemma_greedy_chars(st, chars.drop_last(), style, width);
        lemma_greedy_char(
            crate::render::wrap::wrap_chars(st, chars.drop_last(), style, width),
            chars.last(),
            style,
            width,
        );
    }
}

proof fn lemma_greedy_spans(spans: Seq<SpanView>, width: nat)
    ensures
        greedy(crate::render::wrap::wrap_spans(spans, width), width),
        crate::render::wrap::wrap_spans(spans, width).pending.len() == 0,
    decreases spans.len(),
{
    let out = crate::render::wrap::wrap_spans(spans, width);
    if spans.len() == 0 {
        assert(filling(out) =~= Seq::empty());
    } else {
        lemma_greedy_spans(spans.drop_last(), width);
        let before = crate::render::wrap::wrap_spans(spans.drop_last(), width);
        let span = spans.last();
        lemma_greedy_chars(before, span.content, span.style, width);
        let after = crate::render::wrap::wrap_chars(before, span.content, span.style, width);
        lemma_closed_text(after.current, after.pending, span.style);
        assert(filling(out) =~= filling(after));
    }
}

/// A line is broken only where it has to be: no row has room for the first character of the row
/// below it.
pub proof fn law_wrap_is_greedy(line: LineView, width: nat, i: int)
    requires
        0 <= i < crate::render::wrap::wrapped(line, width).len() - 1,
    ensures
        is_full(
            crate::render::wrap::wrapped(line, width)[i],
            crate::render::wrap::wrapped(line, width)[i + 1].text(),
            width,
        ),
{
    lemma_greedy_spans(line.spans, width);
    let st = crate::render::wrap::wrap_spans(line.spans, width);
    let rows = crate::render::wrap::wrapped(line, width);
    assert(filling(st) =~= crate::render::style::spans_text(st.current));
    assert(rows[i] == st.rows[i]);
    if i + 1 < st.rows.len() {
        assert(rows[i + 1] == st.rows[i + 1]);
    } else {
        assert(rows[i + 1].text() == filling(st));
    }
}

/// The columns of a line as it is drawn are those of its spans side by side, up to what a screen
/// can have; the address of a link takes none.
pub proof fn law_drawn_width(a: Seq<SpanView>, b: Seq<SpanView>)
    ensures
        ({
            let both = crate::render::chat_view::visible_width(a)
                + crate::render::chat_view::visible_width(b);
            crate::render::chat_view::visible_width(a + b) == (if both <= u16::MAX {
                both
            } else {
                u16::MAX as nat
            })
        }),
        crate::render::chat_view::visible_width(a) <= u16::MAX,
    decreases b.len(),
{
    lemma_drawn_bound(a);
    if b.len() == 0 {
        assert(a + b =~= a);
    } else {
        law_drawn_width(a, b.drop_last());
        assert((a + b).drop_last() =~= a + b.drop_last());
        assert((a + b).last() == b.last());
    }
}

proof fn lemma_drawn_bound(spans: Seq<SpanView>)
    ensures
        crate::render::chat_view::visible_width(spans) <= u16::MAX,
    decreases spans.len(),
{
    if spans.len() > 0 {
        lemma_drawn_bound(spans.drop_last());
    }
}

/// A span with an address in front is as wide as its text.
pub proof fn law_link_takes_no_room(span: SpanView, url: Seq<char>, text: Seq<char>)
    requires
        !url.contains(LINK_PREFIX),
        span.content == seq![LINK_PREFIX] + url + seq![LINK_PREFIX] + text,
        crate::render::width::text_columns(text) <= u16::MAX,
    ensures
        crate::render::chat_view::visible_width(seq![span]) == crate::render::width::text_columns(
            text,
        ),
{
    crate::render::chat_view::law_link_read_back(url, text);
    reveal_with_fuel(crate::render::chat_view::visible_width, 2);
    assert(seq![span].drop_last() =~= Seq::empty());
}

} // verus!
