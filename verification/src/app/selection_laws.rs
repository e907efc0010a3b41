//! What selecting text in the chat promises, whatever the rows are.

use vstd::prelude::*;

use crate::app::state::CellPos;
use crate::render::row_cache::RowView;
use crate::render::style::LineView;

verus! {

/// The columns that a character takes on the screen.
pub open spec fn columns(c: char) -> nat {
    if crate::render::width::char_columns(c) is Some {
        crate::render::width::char_columns(c)->0 as nat
    } else {
        0
    }
}

/// The column at which the character `i` of a text begins.
pub open spec fn begins(text: Seq<char>, i: int) -> nat
    decreases i,
{
    if i <= 0 {
        0
    } else {
        begins(text, i - 1) + columns(text[i - 1])
    }
}

/// The lines of some rows, one row behind the other.
pub open spec fn all_lines(rows: Seq<RowView>) -> Seq<LineView>
    decreases rows.len(),
{
    if rows.len() == 0 {
        Seq::empty()
    } else {
        rows[0].lines + all_lines(rows.drop_first())
    }
}

/// Whether the characters from `lo` to `hi` are those that begin between two columns.
pub open spec fn lies_between(text: Seq<char>, at: nat, from: nat, to: nat, lo: int, hi: int) -> bool {
    &&& 0 <= lo <= hi <= text.len()
    &&& forall|i: int|
        0 <= i < text.len() ==> ((lo <= i < hi) <==> (from <= at + #[trigger] begins(text, i)
            && at + begins(text, i) < to))
}

proof fn lemma_begins_shift(text: Seq<char>, i: int)
    requires
        text.len() > 0,
        0 <= i < text.len(),
    ensures
        begins(text, i + 1) == columns(text[0]) + begins(text.drop_first(), i),
    decreases i,
{
    if i > 0 {
        lemma_begins_shift(text, i - 1);
        assert(text.drop_first()[i - 1] == text[i]);
    } else {
        assert(begins(text, 1) == begins(text, 0) + columns(text[0]));
    }
}

proof fn lemma_begins_grows(text: Seq<char>, i: int, j: int)
    requires
        0 <= i <= j,
    ensures
        begins(text, i) <= begins(text, j),
    decreases j - i,
{
    if i < j {
        lemma_begins_grows(text, i, j - 1);
    }
}

proof fn lemma_between(text: Seq<char>, at: nat, from: nat, to: nat) -> (r: (int, int))
    ensures
        lies_between(text, at, from, to, r.0, r.1),
        crate::app::mouse::between(text, at, from, to) == text.subrange(r.0, r.1),
    decreases text.len(),
{
    let out = crate::app::mouse::between(text, at, from, to);
    if text.len() == 0 || at >= to {
        assert(out =~= text.subrange(0, 0));
        (0, 0)
    } else {
        let rest = text.drop_first();
        let next = at + crate::render::width::cols(text[0]);
        let (l, h) = lemma_between(rest, next, from, to);
        assert forall|i: int| 0 <= i < rest.len() implies #[trigger] begins(text, i + 1)
            == columns(text[0]) + begins(rest, i) by {
            lemma_begins_shift(text, i);
        }
        assert forall|i: int| 1 <= i < text.len() implies #[trigger] begins(text, i) == columns(
            text[0],
        ) + begins(rest, i - 1) by {
            assert(begins(text, (i - 1) + 1) == columns(text[0]) + begins(rest, i - 1));
        }
        let tail = crate::app::mouse::between(rest, next, from, to);
        if at >= from {
            if l < h {
                lemma_begins_grows(rest, 0, l);
                assert(l <= 0 < h);
                assert(out =~= text.subrange(0, h + 1));
                (0, h + 1)
            } else {
                assert(out =~= text.subrange(0, 1));
                (0, 1)
            }
        } else {
            assert(out =~= text.subrange(l + 1, h + 1));
            (l + 1, h + 1)
        }
    }
}

proof fn lemma_trimmed(s: Seq<char>)
    ensures
        ({
            let t = crate::text::trim_end(s);
            &&& t.len() <= s.len()
            &&& t == s.take(t.len() as int)
            &&& forall|i: int| t.len() <= i < s.len() ==> crate::text::white(#[trigger] s[i])
            &&& t.len() > 0 ==> !crate::text::white(t.last())
        }),
    decreases s.len(),
{
    if s.len() > 0 && crate::text::white(s.last()) {
        lemma_trimmed(s.drop_last());
        let t = crate::text::trim_end(s);
        assert(t =~= s.take(t.len() as int));
        assert forall|i: int| t.len() <= i < s.len() implies crate::text::white(
            #[trigger] s[i],
        ) by {
            if i < s.len() - 1 {
                assert(s.drop_last()[i] == s[i]);
            }
        }
    } else {
        assert(s.take(s.len() as int) =~= s);
    }
}

proof fn lemma_nth_line(rows: Seq<RowView>, i: int, at: int)
    requires
        0 <= i <= rows.len(),
    ensures
        ({
            let lines = all_lines(rows.skip(i));
            crate::app::mouse::nth_line(rows, i, at) == (if 0 <= at < lines.len() {
                Some(lines[at])
            } else {
                None
            })
        }),
    decreases rows.len() - i,
{
    if i < rows.len() {
        assert(rows.skip(i).drop_first() =~= rows.skip(i + 1));
        assert(rows.skip(i)[0] == rows[i]);
        if at >= rows[i].lines.len() {
            lemma_nth_line(rows, i + 1, at - rows[i].lines.len());
        }
    }
}

/// The lines of the rows are counted from the first line of the first row on, through all rows.
pub proof fn law_lines_are_counted(rows: Seq<RowView>, at: int)
    ensures
        crate::app::mouse::nth_line(rows, 0, at) == (if 0 <= at < all_lines(rows).len() {
            Some(all_lines(rows)[at])
        } else {
            None
        }),
{
    assert(rows.skip(0) =~= rows);
    lemma_nth_line(rows, 0, at);
}

proof fn lemma_one_row(rows: Seq<RowView>, offset: int, start: CellPos, end: CellPos)
    requires
        start.row == end.row,
        start.col <= end.col,
    ensures
        crate::app::mouse::selection_text(rows, offset, start, end) == (
        match crate::app::mouse::nth_line(rows, 0, offset + start.row) {
            Some(line) => crate::text::trim_end(
                crate::app::mouse::between(line.text(), 0, start.col as nat, end.col as nat),
            ),
            None => Seq::empty(),
        }),
{
    reveal_with_fuel(crate::app::mouse::selected_rows, 2);
}

/// A selection within one row: what is copied runs from the first character that begins at or
/// behind the first column to the last one that begins before the last column and is not
/// trailing white space. No character is left out on the way, and none outside is copied.
pub proof fn law_selection_in_a_row(
    rows: Seq<RowView>,
    offset: int,
    start: CellPos,
    end: CellPos,
)
    requires
        start.row == end.row,
        start.col <= end.col,
        0 <= offset,
        offset + start.row < all_lines(rows).len(),
    ensures
        ({
            let text = all_lines(rows)[offset + start.row].text();
            let copied = crate::app::mouse::selection_text(rows, offset, start, end);
            exists|lo: int, hi: int|
                {
                    &&& #[trigger] lies_between(
                        text,
                        0,
                        start.col as nat,
                        end.col as nat,
                        lo,
                        hi,
                    )
                    &&& copied.len() <= hi - lo
                    &&& copied == text.subrange(lo, lo + copied.len())
                    &&& forall|i: int|
                        lo + copied.len() <= i < hi ==> crate::text::white(#[trigger] text[i])
                    &&& copied.len() > 0 ==> !crate::text::white(copied.last())
                }
        }),
{
    law_lines_are_counted(rows, offset + start.row);
    lemma_one_row(rows, offset, start, end);
    let text = all_lines(rows)[offset + start.row].text();
    let (lo, hi) = lemma_between(text, 0, start.col as nat, end.col as nat);
    let all = text.subrange(lo, hi);
    lemma_trimmed(all);
    let copied = crate::app::mouse::selection_text(rows, offset, start, end);
    assert(copied =~= text.subrange(lo, lo + copied.len()));
    assert forall|i: int| lo + copied.len() <= i < hi implies crate::text::white(
        #[trigger] text[i],
    ) by {
        assert(all[i - lo] == text[i]);
    }
    assert(lies_between(text, 0, start.col as nat, end.col as nat, lo, hi));
}

proof fn lemma_begins_of_narrow(text: Seq<char>, i: int)
    requires
        0 <= i <= text.len(),
        forall|k: int| 0 <= k < text.len() ==> columns(#[trigger] text[k]) == 1,
    ensures
        begins(text, i) == i,
    decreases i,
{
    if i > 0 {
        lemma_begins_of_narrow(text, i - 1);
    }
}

/// In a row of one-column characters, a selection from column `a` to column `b` copies the
/// characters from `a` to `b`, without the white space at their end.
pub proof fn law_selection_of_narrow_text(
    rows: Seq<RowView>,
    offset: int,
    start: CellPos,
    end: CellPos,
)
    requires
        start.row == end.row,
        start.col <= end.col,
        0 <= offset,
        offset + start.row < all_lines(rows).len(),
        end.col <= all_lines(rows)[offset + start.row].text().len(),
        forall|k: int|
            0 <= k < all_lines(rows)[offset + start.row].text().len() ==> columns(
                #[trigger] all_lines(rows)[offset + start.row].text()[k],
            ) == 1,
    ensures
        ({
            let cut = all_lines(rows)[offset + start.row].text().subrange(
                start.col as int,
                end.col as int,
            );
            let copied = crate::app::mouse::selection_text(rows, offset, start, end);
            &&& copied.len() <= cut.len()
            &&& copied == cut.take(copied.len() as int)
            &&& forall|i: int| copied.len() <= i < cut.len() ==> crate::text::white(#[trigger] cut[i])
            &&& copied.len() > 0 ==> !crate::text::white(copied.last())
            &&& (cut.len() == 0 || !crate::text::white(cut.last())) ==> copied == cut
        }),
{
    law_lines_are_counted(rows, offset + start.row);
    lemma_one_row(rows, offset, start, end);
    let text = all_lines(rows)[offset + start.row].text();
    let (lo, hi) = lemma_between(text, 0, start.col as nat, end.col as nat);
    assert forall|i: int| 0 <= i < text.len() implies #[trigger] begins(text, i) == i by {
        lemma_begins_of_narrow(text, i);
    }
    let cut = text.subrange(start.col as int, end.col as int);
    if start.col < end.col {
        assert(begins(text, start.col as int) == start.col);
        assert(begins(text, end.col - 1) == end.col - 1);
        assert(begins(text, lo) == lo);
        assert(begins(text, hi - 1) == hi - 1);
        assert(lo == start.col && hi == end.col);
    } else if lo < hi {
        assert(begins(text, lo) == lo);
    }
    assert(text.subrange(lo, hi) =~= cut);
    lemma_trimmed(cut);
}

/// A selection that ends where it began copies nothing.
pub proof fn law_empty_selection(rows: Seq<RowView>, offset: int, at: CellPos)
    ensures
        crate::app::mouse::selection_text(rows, offset, at, at).len() == 0,
{
    lemma_one_row(rows, offset, at, at);
    match crate::app::mouse::nth_line(rows, 0, offset + at.row) {
        Some(line) => {
            let (lo, hi) = lemma_between(line.text(), 0, at.col as nat, at.col as nat);
            if lo < hi {
                assert(begins(line.text(), lo) >= at.col);
            }
            lemma_trimmed(line.text().subrange(lo, hi));
        },
        None => {},
    }
}

proof fn lemma_rows_split(rows: Seq<RowView>, offset: int, start: CellPos, end: CellPos, row: u16, n: int)
    requires
        start.row <= row < end.row,
        row + 1 <= n <= end.row + 1,
    ensures
        crate::app::mouse::selected_rows(rows, offset, start, end, n)
            == crate::app::mouse::selected_rows(
            rows,
            offset,
            start,
            (CellPos { row, col: u16::MAX }),
            row + 1,
        ) + crate::app::mouse::selected_rows(
            rows,
            offset,
            (CellPos { row: (row + 1) as u16, col: 0 }),
            end,
            n,
        ),
    decreases n - row,
{
    let upper = crate::app::mouse::selected_rows(
        rows,
        offset,
        start,
        (CellPos { row, col: u16::MAX }),
        row + 1,
    );
    let below = (CellPos { row: (row + 1) as u16, col: 0 });
    if n == row + 1 {
        lemma_rows_end(rows, offset, start, end, row, n);
        assert(crate::app::mouse::selected_rows(rows, offset, below, end, n) =~= Seq::empty());
        assert(upper + Seq::<Seq<char>>::empty() =~= upper);
    } else {
        lemma_rows_split(rows, offset, start, end, row, n - 1);
        let lower = crate::app::mouse::selected_rows(rows, offset, below, end, n - 1);
        match crate::app::mouse::nth_line(rows, 0, offset + n - 1) {
            Some(line) => {
                let (from, to) = crate::app::mouse::covered(start, end, n - 1);
                let t = crate::text::trim_end(
                    crate::app::mouse::between(line.text(), 0, from, to),
                );
                assert((upper + lower).push(t) =~= upper + lower.push(t));
            },
            None => {},
        }
    }
}

proof fn lemma_rows_end(rows: Seq<RowView>, offset: int, start: CellPos, end: CellPos, row: u16, n: int)
    requires
        start.row <= row < end.row,
        start.row <= n <= row + 1,
    ensures
        crate::app::mouse::selected_rows(rows, offset, start, end, n)
            == crate::app::mouse::selected_rows(
            rows,
            offset,
            start,
            (CellPos { row, col: u16::MAX }),
            n,
        ),
    decreases n - start.row,
{
    if n > start.row {
        lemma_rows_end(rows, offset, start, end, row, n - 1);
    }
}

proof fn lemma_join(a: Seq<Seq<char>>, b: Seq<Seq<char>>, between: Seq<char>)
    requires
        a.len() > 0,
        b.len() > 0,
    ensures
        crate::text::join_all(a + b, between) == crate::text::join_all(a, between) + between
            + crate::text::join_all(b, between),
    decreases b.len(),
{
    assert((a + b).drop_last() =~= a + b.drop_last());
    assert((a + b).last() == b.last());
    if b.len() == 1 {
        assert(a + b.drop_last() =~= a);
    } else {
        lemma_join(a, b.drop_last(), between);
        assert(crate::text::join_all(a, between) + between + crate::text::join_all(
            b.drop_last(),
            between,
        ) + between + b.last() =~= crate::text::join_all(a, between) + between + (
        crate::text::join_all(b.drop_last(), between) + between + b.last()));
    }
}

proof fn lemma_rows_some(rows: Seq<RowView>, offset: int, start: CellPos, end: CellPos, n: int)
    requires
        start.row < n,
        crate::app::mouse::nth_line(rows, 0, offset + start.row) is Some,
    ensures
        crate::app::mouse::selected_rows(rows, offset, start, end, n).len() > 0,
    decreases n - start.row,
{
    if n - 1 > start.row {
        lemma_rows_some(rows, offset, start, end, n - 1);
    }
}

/// A selection over several rows copies its rows one by one, a line feed between them: cut
/// behind any of its rows, it is the text of its upper part, which takes the row above the cut
/// to its end, a line feed, and the text of its lower part, which takes the row below the cut
/// from its first column on.
pub proof fn law_selection_splits(
    rows: Seq<RowView>,
    offset: int,
    start: CellPos,
    end: CellPos,
    row: u16,
)
    requires
        start.row <= row < end.row,
        0 <= offset,
        offset + row + 1 < all_lines(rows).len(),
    ensures
        crate::app::mouse::selection_text(rows, offset, start, end)
            == crate::app::mouse::selection_text(
            rows,
            offset,
            start,
            (CellPos { row, col: u16::MAX }),
        ) + seq!['\n'] + crate::app::mouse::selection_text(
            rows,
            offset,
            (CellPos { row: (row + 1) as u16, col: 0 }),
            end,
        ),
{
    reveal_strlit("\n");
    assert("\n"@ =~= seq!['\n']);
    let cut = (CellPos { row, col: u16::MAX });
    let below = (CellPos { row: (row + 1) as u16, col: 0 });
    law_lines_are_counted(rows, offset + start.row);
    law_lines_are_counted(rows, offset + row + 1);
    lemma_rows_split(rows, offset, start, end, row, end.row + 1);
    lemma_rows_some(rows, offset, start, cut, row + 1);
    lemma_rows_some(rows, offset, below, end, end.row + 1);
    lemma_join(
        crate::app::mouse::selected_rows(rows, offset, start, cut, row + 1),
        crate::app::mouse::selected_rows(rows, offset, below, end, end.row + 1),
        "\n"@,
    );
}

/// A row below the last line adds nothing to a selection.
pub proof fn law_selection_past_the_end(
    rows: Seq<RowView>,
    offset: int,
    start: CellPos,
    end: CellPos,
)
    requires
        start.row < end.row,
        offset + end.row >= all_lines(rows).len(),
    ensures
        crate::app::mouse::selection_text(rows, offset, start, end)
            == crate::app::mouse::selection_text(
            rows,
            offset,
            start,
            (CellPos { row: (end.row - 1) as u16, col: u16::MAX }),
        ),
{
    law_lines_are_counted(rows, offset + end.row);
    lemma_rows_end(rows, offset, start, end, (end.row - 1) as u16, end.row as int);
}

} // verus!
