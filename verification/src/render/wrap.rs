//! Wrapping styled lines at a width.

use vstd::prelude::*;

use crate::render::style::{Line, LineView, Span, SpanView, Style};
use crate::render::width::char_cols;

verus! {

/// A line on its way through wrapping: the rows that are full, the spans of the row being
/// filled, the open text of its last span, and the columns that the row takes so far.
pub struct WrapView {
    pub rows: Seq<LineView>,
    pub current: Seq<SpanView>,
    pub pending: Seq<char>,
    pub columns: nat,
}

/// The start of wrapping.
pub open spec fn wrap_start() -> WrapView {
    WrapView { rows: Seq::empty(), current: Seq::empty(), pending: Seq::empty(), columns: 0 }
}

/// The spans with a text closed into a span of its own, unless it is empty.
pub open spec fn closed(spans: Seq<SpanView>, text: Seq<char>, style: Style) -> Seq<SpanView> {
    if text.len() == 0 {
        spans
    } else {
        spans.push(SpanView { content: text, style })
    }
}

/// One more character: it opens a row of its own where it would overflow a row that already
/// shows something.
pub open spec fn wrap_char(st: WrapView, c: char, style: Style, width: nat) -> WrapView {
    let w = crate::render::width::cols(c);
    if st.columns + w > width && st.columns > 0 {
        WrapView {
            rows: st.rows.push(
                crate::render::style::line_of(closed(st.current, st.pending, style)),
            ),
            current: Seq::empty(),
            pending: seq![c],
            columns: w,
        }
    } else {
        WrapView { pending: st.pending.push(c), columns: st.columns + w, ..st }
    }
}

/// More characters in one style.
pub open spec fn wrap_chars(st: WrapView, chars: Seq<char>, style: Style, width: nat) -> WrapView
    decreases chars.len(),
{
    if chars.len() == 0 {
        st
    } else {
        wrap_char(wrap_chars(st, chars.drop_last(), style, width), chars.last(), style, width)
    }
}

/// One more span.
pub open spec fn wrap_span(st: WrapView, span: SpanView, width: nat) -> WrapView {
    let after = wrap_chars(st, span.content, span.style, width);
    WrapView {
        current: closed(after.current, after.pending, span.style),
        pending: Seq::empty(),
        ..after
    }
}

/// More spans.
pub open spec fn wrap_spans(spans: Seq<SpanView>, width: nat) -> WrapView
    decreases spans.len(),
{
    if spans.len() == 0 {
        wrap_start()
    } else {
        wrap_span(wrap_spans(spans.drop_last(), width), spans.last(), width)
    }
}

/// The rows of a line: at least one.
pub open spec fn wrapped(line: LineView, width: nat) -> Seq<LineView> {
    let st = wrap_spans(line.spans, width);
    if st.current.len() > 0 || st.rows.len() == 0 {
        st.rows.push(crate::render::style::line_of(st.current))
    } else {
        st.rows
    }
}

/// The rows of several lines.
pub open spec fn wrapped_all(lines: Seq<LineView>, width: nat) -> Seq<LineView>
    decreases lines.len(),
{
    if lines.len() == 0 {
        Seq::empty()
    } else {
        wrapped_all(lines.drop_last(), width) + wrapped(lines.last(), width)
    }
}

/// The row at which a line starts.
pub open spec fn row_of_line(lines: Seq<LineView>, width: nat, line: int) -> nat {
    wrapped_all(lines.take(line), width).len()
}

/// The rows at which the marked lines start, for marks in rising order from line `from` on.
pub open spec fn marked_rows(
    lines: Seq<LineView>,
    width: nat,
    marks: Seq<usize>,
    from: int,
) -> Seq<nat>
    decreases lines.len() - from,
{
    if from >= lines.len() || marks.len() == 0 {
        Seq::empty()
    } else if marks[0] == from {
        seq![row_of_line(lines, width, from)] + marked_rows(
            lines,
            width,
            marks.drop_first(),
            from + 1,
        )
    } else {
        marked_rows(lines, width, marks, from + 1)
    }
}

fn close(current: &mut Vec<Span>, pending: String, style: Style)
    ensures
        crate::text::views(final(current)@) == closed(
            crate::text::views(old(current)@),
            pending@,
            style,
        ),
{
    if !pending.as_str().is_empty() {
        let span = Span { content: pending, style };
        proof {
            crate::render::style::lemma_push_span(current@, span);
        }
        current.push(span);
    }
}

/// The rows of a line at a width. A character wider than the width is kept whole.
pub fn wrap_line(line: &Line, width: usize) -> (r: Vec<Line>)
    ensures
        crate::text::views(r@) == wrapped(line@, width as nat),
{
    let mut rows: Vec<Line> = Vec::new();
    let mut current: Vec<Span> = Vec::new();
    let mut columns: usize = 0;
    let ghost all = line@.spans;
    proof {
        assert(all.take(0) =~= Seq::empty());
        assert(crate::text::views(rows@) =~= Seq::empty());
        assert(crate::text::views(current@) =~= Seq::empty());
    }
    let mut i: usize = 0;
    while i < line.spans.len()
        invariant
            i <= line.spans.len(),
            all == line@.spans,
            wrap_spans(all.take(i as int), width as nat) == (WrapView {
                rows: crate::text::views(rows@),
                current: crate::text::views(current@),
                pending: Seq::empty(),
                columns: columns as nat,
            }),
        decreases line.spans.len() - i,
    {
        let span = &line.spans[i];
        let style = span.style;
        let chars = crate::text::chars_of(span.content.as_str());
        let ghost before = wrap_spans(all.take(i as int), width as nat);
        let mut pending = String::new();
        proof {
            assert(chars@.take(0) =~= Seq::empty());
            assert(pending@ =~= Seq::empty());
        }
        let mut j: usize = 0;
        while j < chars.len()
            invariant
                j <= chars.len(),
                wrap_chars(before, chars@.take(j as int), style, width as nat) == (WrapView {
                    rows: crate::text::views(rows@),
                    current: crate::text::views(current@),
                    pending: pending@,
                    columns: columns as nat,
                }),
            decreases chars.len() - j,
        {
            let c = chars[j];
            let w = char_cols(c);
            proof {
                assert(chars@.take(j + 1).drop_last() =~= chars@.take(j as int));
                assert(chars@.take(j + 1).last() == c);
            }
            if columns > 0 && (w > width || columns > width - w) {
                let mut row: Vec<Span> = Vec::new();
                std::mem::swap(&mut row, &mut current);
                let mut text = String::new();
                std::mem::swap(&mut text, &mut pending);
                close(&mut row, text, style);
                let full = Line::from_spans(row);
                proof {
                    crate::render::style::lemma_push_line(rows@, full);
                    assert(crate::text::views(current@) =~= Seq::empty());
                }
                rows.push(full);
                columns = 0;
                proof {
                    assert(pending@.push(c) =~= seq![c]);
                }
            }
            pending.push(c);
            columns = columns + w;
            j = j + 1;
        }
        proof {
            assert(chars@.take(j as int) =~= chars@);
            assert(all.take(i + 1).drop_last() =~= all.take(i as int));
            assert(all.take(i + 1).last() == span@);
        }
        close(&mut current, pending, style);
        i = i + 1;
    }
    proof {
        assert(all.take(i as int) =~= all);
    }
    if current.len() > 0 || rows.len() == 0 {
        let last = Line::from_spans(current);
        proof {
            crate::render::style::lemma_push_line(rows@, last);
        }
        rows.push(last);
    }
    rows
}

/// Wrapped lines, with what was known by line index carried over to row index.
pub struct WrappedLines {
    pub rows: Vec<Line>,
    pub marks: Vec<usize>,
    pub ranges: Vec<(usize, usize)>,
}

/// The places of some line ranges among the rows.
pub open spec fn ranges_at(ranges: Seq<(usize, usize)>, lines: Seq<LineView>, width: nat) -> Seq<
    (nat, nat),
> {
    ranges.map_values(
        |r: (usize, usize)|
            (
                row_of_line(lines, width, r.0 as int),
                row_of_line(lines, width, r.1 as int),
            ),
    )
}

/// Pairs of machine numbers as numbers.
pub open spec fn nat_pairs(pairs: Seq<(usize, usize)>) -> Seq<(nat, nat)> {
    pairs.map_values(|r: (usize, usize)| (r.0 as nat, r.1 as nat))
}

/// Machine numbers as numbers.
pub open spec fn nats(numbers: Seq<usize>) -> Seq<nat> {
    numbers.map_values(|n: usize| n as nat)
}

/// Whether some line ranges lie within `n` lines.
pub open spec fn ranges_within(ranges: Seq<(usize, usize)>, n: nat) -> bool {
    forall|i: int|
        0 <= i < ranges.len() ==> (#[trigger] ranges[i]).0 <= ranges[i].1 && ranges[i].1 <= n
}

/// Wrap every line, and move the marked lines and the line ranges onto the rows. At width 0
/// nothing is left.
pub fn wrap_lines_marked(
    lines: &Vec<Line>,
    width: u16,
    marks: &Vec<usize>,
    ranges: &Vec<(usize, usize)>,
) -> (r: WrappedLines)
    requires
        ranges_within(ranges@, lines@.len()),
    ensures
        width == 0 ==> r.rows@.len() == 0 && r.marks@.len() == 0 && r.ranges@.len() == 0,
        width > 0 ==> {
            let all = crate::text::views(lines@);
            &&& crate::text::views(r.rows@) == wrapped_all(all, width as nat)
            &&& nats(r.marks@) == marked_rows(all, width as nat, marks@, 0)
            &&& nat_pairs(r.ranges@) == ranges_at(ranges@, all, width as nat)
        },
{
    if width == 0 {
        return WrappedLines { rows: Vec::new(), marks: Vec::new(), ranges: Vec::new() };
    }
    let columns = width as usize;
    let ghost w = width as nat;
    let ghost all = crate::text::views(lines@);
    let mut rows: Vec<Line> = Vec::new();
    let mut found: Vec<usize> = Vec::new();
    let mut next: usize = 0;
    let mut before: Vec<usize> = Vec::new();
    proof {
        assert(all.take(0) =~= Seq::empty());
        assert(crate::text::views(rows@) =~= Seq::empty());
        assert(marks@.skip(0) =~= marks@);
        assert(nats(found@) + marked_rows(all, w, marks@, 0) =~= marked_rows(all, w, marks@, 0));
    }
    let mut i: usize = 0;
    while i < lines.len()
        invariant
            i <= lines.len(),
            w == width as nat,
            columns == width,
            all == crate::text::views(lines@),
            next <= marks.len(),
            crate::text::views(rows@) == wrapped_all(all.take(i as int), w),
            before.len() == i,
            forall|k: int| 0 <= k < i ==> (#[trigger] before@[k]) == row_of_line(all, w, k),
            nats(found@) + marked_rows(all, w, marks@.skip(next as int), i as int)
                == marked_rows(all, w, marks@, 0),
        decreases lines.len() - i,
    {
        before.push(rows.len());
        proof {
            assert(rows@.len() == crate::text::views(rows@).len());
        }
        let ghost left = marks@.skip(next as int);
        if next < marks.len() && marks[next] == i {
            let ghost old_found = found@;
            proof {
                assert(left[0] == i);
                assert(left.drop_first() =~= marks@.skip(next + 1));
                let tail = marked_rows(all, w, marks@.skip(next + 1), i + 1);
                assert(nats(old_found.push(rows@.len() as usize)) =~= nats(old_found).push(
                    rows@.len(),
                ));
                assert(nats(old_found).push(rows@.len()) + tail =~= nats(old_found) + (
                seq![row_of_line(all, w, i as int)] + tail));
            }
            found.push(rows.len());
            next = next + 1;
        }
        proof {
            assert(all.take(i + 1).drop_last() =~= all.take(i as int));
            assert(all.take(i + 1).last() == lines@[i as int]@);
        }
        let mut more = wrap_line(&lines[i], columns);
        proof {
            assert(crate::text::views(rows@ + more@) =~= crate::text::views(rows@)
                + crate::text::views(more@));
        }
        rows.append(&mut more);
        i = i + 1;
    }
    before.push(rows.len());
    proof {
        assert(rows@.len() == crate::text::views(rows@).len());
        assert(nats(found@) + marked_rows(all, w, marks@.skip(next as int), i as int)
            =~= nats(found@));
        assert(all.take(i as int) =~= all);
    }
    let mut moved: Vec<(usize, usize)> = Vec::new();
    let mut k: usize = 0;
    while k < ranges.len()
        invariant
            k <= ranges.len(),
            ranges_within(ranges@, lines@.len()),
            before.len() == lines.len() + 1,
            forall|j: int| 0 <= j < before.len() ==> (#[trigger] before@[j]) == row_of_line(all, w, j),
            moved.len() == k,
            forall|j: int|
                0 <= j < k ==> (#[trigger] moved@[j]).0 == row_of_line(
                    all,
                    w,
                    ranges@[j].0 as int,
                ) && moved@[j].1 == row_of_line(all, w, ranges@[j].1 as int),
        decreases ranges.len() - k,
    {
        let (start, end) = ranges[k];
        proof {
            assert(ranges@[k as int].1 <= lines@.len());
        }
        moved.push((before[start], before[end]));
        k = k + 1;
    }
    proof {
        assert(nat_pairs(moved@) =~= ranges_at(ranges@, all, w));
    }
    WrappedLines { rows, marks: found, ranges: moved }
}

} // verus!
