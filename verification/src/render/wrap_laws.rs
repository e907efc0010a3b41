//! What wrapping keeps.

use vstd::prelude::*;

use crate::render::style::{LineView, SpanView, Style};
use crate::render::wrap::WrapView;

verus! {

/// A text as styled characters.
pub open spec fn tagged(text: Seq<char>, style: Style) -> Seq<(char, Style)> {
    text.map_values(|c: char| (c, style))
}

/// The styled characters of some spans.
pub open spec fn styled_chars(spans: Seq<SpanView>) -> Seq<(char, Style)>
    decreases spans.len(),
{
    if spans.len() == 0 {
        Seq::empty()
    } else {
        styled_chars(spans.drop_last()) + tagged(spans.last().content, spans.last().style)
    }
}

/// The styled characters of some lines, one line after the other.
pub open spec fn lines_chars(lines: Seq<LineView>) -> Seq<(char, Style)>
    decreases lines.len(),
{
    if lines.len() == 0 {
        Seq::empty()
    } else {
        lines_chars(lines.drop_last()) + styled_chars(lines.last().spans)
    }
}

/// The columns of some styled characters.
pub open spec fn styled_cols(chars: Seq<(char, Style)>) -> nat
    decreases chars.len(),
{
    if chars.len() == 0 {
        0
    } else {
        styled_cols(chars.drop_last()) + crate::render::width::cols(chars.last().0)
    }
}

/// Whether a line fits into a width.
pub open spec fn fits(line: LineView, width: nat) -> bool {
    styled_cols(styled_chars(line.spans)) <= width
}

spec fn open_row(st: WrapView, style: Style) -> Seq<(char, Style)> {
    styled_chars(st.current) + tagged(st.pending, style)
}

spec fn shown(st: WrapView, style: Style) -> Seq<(char, Style)> {
    lines_chars(st.rows) + open_row(st, style)
}

proof fn lemma_closed(spans: Seq<SpanView>, text: Seq<char>, style: Style)
    ensures
        styled_chars(crate::render::wrap::closed(spans, text, style)) == styled_chars(spans)
            + tagged(text, style),
{
    if text.len() == 0 {
        assert(styled_chars(spans) + tagged(text, style) =~= styled_chars(spans));
    } else {
        let span = SpanView { content: text, style };
        assert(spans.push(span).drop_last() =~= spans);
    }
}

spec fn sound(st: WrapView, style: Style, width: nat) -> bool {
    &&& st.columns == styled_cols(open_row(st, style))
    &&& st.columns <= width
    &&& forall|i: int| 0 <= i < st.rows.len() ==> fits(#[trigger] st.rows[i], width)
}

proof fn lemma_char(st: WrapView, c: char, style: Style, width: nat)
    ensures
        shown(crate::render::wrap::wrap_char(st, c, style, width), style) == shown(st, style).push(
            (c, style),
        ),
        sound(st, style, width) && crate::render::width::cols(c) <= width ==> sound(
            crate::render::wrap::wrap_char(st, c, style, width),
            style,
            width,
        ),
{
    let after = crate::render::wrap::wrap_char(st, c, style, width);
    let w = crate::render::width::cols(c);
    if st.columns + w > width && st.columns > 0 {
        let row = crate::render::style::line_of(
            crate::render::wrap::closed(st.current, st.pending, style),
        );
        lemma_closed(st.current, st.pending, style);
        assert(after.rows.drop_last() =~= st.rows);
        assert(styled_chars(after.current) =~= Seq::empty());
        assert(tagged(seq![c], style) =~= seq![(c, style)]);
        assert(open_row(after, style) =~= seq![(c, style)]);
        assert(shown(after, style) =~= shown(st, style).push((c, style)));
        assert(seq![(c, style)].drop_last() =~= Seq::empty());
        assert(styled_cols(seq![(c, style)]) == w) by {
            reveal_with_fuel(styled_cols, 2);
        }
        if sound(st, style, width) && w <= width {
            assert forall|i: int| 0 <= i < after.rows.len() implies fits(
                #[trigger] after.rows[i],
                width,
            ) by {
                if i < st.rows.len() {
                    assert(after.rows[i] == st.rows[i]);
                } else {
                    assert(after.rows[i] == row);
                }
            }
        }
    } else {
        assert(tagged(st.pending.push(c), style) =~= tagged(st.pending, style).push((c, style)));
        assert(open_row(after, style) =~= open_row(st, style).push((c, style)));
        assert(open_row(after, style).drop_last() =~= open_row(st, style));
        assert(shown(after, style) =~= shown(st, style).push((c, style)));
    }
}

proof fn lemma_chars(st: WrapView, chars: Seq<char>, style: Style, width: nat)
    ensures
        shown(crate::render::wrap::wrap_chars(st, chars, style, width), style) == shown(st, style)
            + tagged(chars, style),
        sound(st, style, width) && (forall|i: int|
            0 <= i < chars.len() ==> crate::render::width::cols(#[trigger] chars[i]) <= width)
            ==> sound(crate::render::wrap::wrap_chars(st, chars, style, width), style, width),
    decreases chars.len(),
{
    if chars.len() == 0 {
        assert(shown(st, style) + tagged(chars, style) =~= shown(st, style));
    } else {
        let front = chars.drop_last();
        lemma_chars(st, front, style, width);
        lemma_char(
            crate::render::wrap::wrap_chars(st, front, style, width),
            chars.last(),
            style,
            width,
        );
        assert(shown(st, style) + tagged(chars, style) =~= (shown(st, style) + tagged(front, style)).push(
            (chars.last(), style),
        ));
        if forall|i: int|
            0 <= i < chars.len() ==> crate::render::width::cols(#[trigger] chars[i]) <= width {
            assert forall|i: int| 0 <= i < front.len() implies crate::render::width::cols(
                #[trigger] front[i],
            ) <= width by {
                assert(front[i] == chars[i]);
            }
        }
    }
}

spec fn narrow(spans: Seq<SpanView>, width: nat) -> bool {
    forall|i: int, j: int|
        0 <= i < spans.len() && 0 <= j < spans[i].content.len() ==> crate::render::width::cols(
            #[trigger] spans[i].content[j],
        ) <= width
}

proof fn lemma_spans(spans: Seq<SpanView>, width: nat, style: Style)
    ensures
        crate::render::wrap::wrap_spans(spans, width).pending.len() == 0,
        shown(crate::render::wrap::wrap_spans(spans, width), style) == styled_chars(spans),
        narrow(spans, width) ==> sound(
            crate::render::wrap::wrap_spans(spans, width),
            style,
            width,
        ),
    decreases spans.len(),
{
    let st = crate::render::wrap::wrap_spans(spans, width);
    if spans.len() == 0 {
        assert(shown(st, style) =~= Seq::empty());
        assert(open_row(st, style) =~= Seq::empty());
    } else {
        let front = spans.drop_last();
        let span = spans.last();
        let before = crate::render::wrap::wrap_spans(front, width);
        lemma_spans(front, width, span.style);
        lemma_chars(before, span.content, span.style, width);
        let after = crate::render::wrap::wrap_chars(before, span.content, span.style, width);
        lemma_closed(after.current, after.pending, span.style);
        assert(tagged(st.pending, style) =~= Seq::empty());
        assert(open_row(st, style) =~= open_row(after, span.style));
        assert(shown(st, style) =~= shown(after, span.style));
        if narrow(spans, width) {
            assert forall|i: int, j: int|
                0 <= i < front.len() && 0 <= j < front[i].content.len() implies crate::render::width::cols(
                #[trigger] front[i].content[j],
            ) <= width by {
                assert(front[i] == spans[i]);
                assert(crate::render::width::cols(spans[i].content[j]) <= width);
            }
            assert forall|j: int| 0 <= j < span.content.len() implies crate::render::width::cols(
                #[trigger] span.content[j],
            ) <= width by {
                assert(crate::render::width::cols(spans[spans.len() - 1].content[j]) <= width);
            }
        }
    }
}

/// Wrapping loses, adds and restyles no character: the rows show the characters of the line,
/// each in its style, in their order.
pub proof fn law_wrap_keeps_characters(line: LineView, width: nat)
    ensures
        lines_chars(crate::render::wrap::wrapped(line, width)) == styled_chars(line.spans),
{
    let style = crate::render::style::plain();
    let st = crate::render::wrap::wrap_spans(line.spans, width);
    lemma_spans(line.spans, width, style);
    assert(tagged(st.pending, style) =~= Seq::empty());
    let rows = crate::render::wrap::wrapped(line, width);
    if st.current.len() > 0 || st.rows.len() == 0 {
        assert(rows.drop_last() =~= st.rows);
        assert(lines_chars(rows) =~= shown(st, style));
    } else {
        assert(styled_chars(st.current) =~= Seq::empty());
        assert(shown(st, style) =~= lines_chars(st.rows));
    }
}

/// Where no character is wider than the width, every row fits into it.
pub proof fn law_wrap_fits(line: LineView, width: nat)
    requires
        forall|i: int, j: int|
            0 <= i < line.spans.len() && 0 <= j < line.spans[i].content.len()
                ==> crate::render::width::cols(#[trigger] line.spans[i].content[j]) <= width,
    ensures
        forall|i: int|
            0 <= i < crate::render::wrap::wrapped(line, width).len() ==> fits(
                #[trigger] crate::render::wrap::wrapped(line, width)[i],
                width,
            ),
{
    let style = crate::render::style::plain();
    let st = crate::render::wrap::wrap_spans(line.spans, width);
    lemma_spans(line.spans, width, style);
    assert(narrow(line.spans, width));
    assert(tagged(st.pending, style) =~= Seq::empty());
    assert(open_row(st, style) =~= styled_chars(st.current));
    let rows = crate::render::wrap::wrapped(line, width);
    assert forall|i: int| 0 <= i < rows.len() implies fits(#[trigger] rows[i], width) by {
        if i < st.rows.len() {
            assert(rows[i] == st.rows[i]);
        }
    }
}

/// A line has at least one row, and a line that holds nothing exactly one, as empty as itself.
pub proof fn law_wrap_rows(line: LineView, width: nat)
    ensures
        crate::render::wrap::wrapped(line, width).len() >= 1,
        line.spans.len() == 0 ==> crate::render::wrap::wrapped(line, width)
            == seq![crate::render::style::empty_line()],
{
    if line.spans.len() == 0 {
        assert(crate::render::wrap::wrapped(line, width)
            =~= seq![crate::render::style::empty_line()]);
    }
}

/// Marks in rising order are carried over one for one, each to the row at which its line
/// starts.
pub proof fn law_marks_carried(lines: Seq<LineView>, width: nat, marks: Seq<usize>, from: int)
    requires
        0 <= from,
        forall|i: int| 0 <= i < marks.len() ==> from <= #[trigger] marks[i] < lines.len(),
        forall|i: int, j: int| 0 <= i < j < marks.len() ==> marks[i] < marks[j],
    ensures
        crate::render::wrap::marked_rows(lines, width, marks, from).len() == marks.len(),
        forall|i: int|
            0 <= i < marks.len() ==> #[trigger] crate::render::wrap::marked_rows(
                lines,
                width,
                marks,
                from,
            )[i] == crate::render::wrap::row_of_line(lines, width, marks[i] as int),
    decreases lines.len() - from,
{
    if from < lines.len() && marks.len() > 0 {
        if marks[0] == from {
            let rest = marks.drop_first();
            assert forall|i: int| 0 <= i < rest.len() implies from + 1 <= #[trigger] rest[i]
                < lines.len() by {
                assert(rest[i] == marks[i + 1]);
                assert(marks[0] < marks[i + 1]);
            }
            law_marks_carried(lines, width, rest, from + 1);
            let tail = crate::render::wrap::marked_rows(lines, width, rest, from + 1);
            assert forall|i: int| 0 <= i < marks.len() implies #[trigger] crate::render::wrap::marked_rows(
                lines,
                width,
                marks,
                from,
            )[i] == crate::render::wrap::row_of_line(lines, width, marks[i] as int) by {
                if i > 0 {
                    assert(crate::render::wrap::marked_rows(lines, width, marks, from)[i] == tail[i
                        - 1]);
                    assert(rest[i - 1] == marks[i]);
                }
            }
        } else {
            assert forall|i: int| 0 <= i < marks.len() implies from + 1 <= #[trigger] marks[i]
                < lines.len() by {
                if i > 0 {
                    assert(marks[0] < marks[i]);
                }
            }
            law_marks_carried(lines, width, marks, from + 1);
        }
    } else if marks.len() > 0 {
        assert(from <= marks[0] < lines.len());
    }
}

/// The rows of a line range are the rows of its lines: where the lines of a range end, its
/// rows end too.
pub proof fn law_ranges_carried(lines: Seq<LineView>, width: nat, start: int, end: int)
    requires
        0 <= start <= end <= lines.len(),
    ensures
        crate::render::wrap::row_of_line(lines, width, start)
            <= crate::render::wrap::row_of_line(lines, width, end),
        crate::render::wrap::row_of_line(lines, width, end)
            <= crate::render::wrap::wrapped_all(lines, width).len(),
        crate::render::wrap::wrapped_all(lines, width).subrange(
            crate::render::wrap::row_of_line(lines, width, start) as int,
            crate::render::wrap::row_of_line(lines, width, end) as int,
        ) == crate::render::wrap::wrapped_all(lines.subrange(start, end), width),
{
    lemma_wrapped_add(lines.take(start), lines.subrange(start, end), width);
    assert(lines.take(start) + lines.subrange(start, end) =~= lines.take(end));
    lemma_wrapped_add(lines.take(end), lines.skip(end), width);
    assert(lines.take(end) + lines.skip(end) =~= lines);
    let s = crate::render::wrap::row_of_line(lines, width, start) as int;
    let e = crate::render::wrap::row_of_line(lines, width, end) as int;
    assert(crate::render::wrap::wrapped_all(lines, width).subrange(s, e)
        =~= crate::render::wrap::wrapped_all(lines.subrange(start, end), width));
}

proof fn lemma_wrapped_add(a: Seq<LineView>, b: Seq<LineView>, width: nat)
    ensures
        crate::render::wrap::wrapped_all(a + b, width) == crate::render::wrap::wrapped_all(a, width)
            + crate::render::wrap::wrapped_all(b, width),
    decreases b.len(),
{
    if b.len() == 0 {
        assert(a + b =~= a);
        assert(crate::render::wrap::wrapped_all(a, width) + crate::render::wrap::wrapped_all(b, width)
            =~= crate::render::wrap::wrapped_all(a, width));
    } else {
        lemma_wrapped_add(a, b.drop_last(), width);
        assert((a + b).drop_last() =~= a + b.drop_last());
        assert(crate::render::wrap::wrapped_all(a + b, width) =~= crate::render::wrap::wrapped_all(
            a,
            width,
        ) + crate::render::wrap::wrapped_all(b, width));
    }
}

} // verus!
