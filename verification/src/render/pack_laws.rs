//! How many rows a text takes, whatever its words are.

use vstd::prelude::*;

verus! {

/// The rows that some columns take hold them, and one row less would not.
pub proof fn law_rows_hold(columns: nat, width: nat)
    requires
        width > 0,
    ensures
        ({
            let rows = crate::render::fit::rows_for(columns, width);
            &&& rows * width >= columns
            &&& rows > 0 ==> (rows - 1) * width < columns
        }),
{
    let q = columns / width;
    let r = columns % width;
    assert(columns == q * width + r && r < width) by (nonlinear_arith)
        requires
            width > 0,
            q == columns / width,
            r == columns % width,
    ;
    let rows = crate::render::fit::rows_for(columns, width);
    if r == 0 {
        assert(rows == q);
        assert(rows > 0 ==> (rows - 1) * width < columns) by (nonlinear_arith)
            requires
                columns == rows * width,
                width > 0,
        ;
    } else {
        assert(rows == q + 1);
        assert(rows * width >= columns && (rows - 1) * width < columns) by (nonlinear_arith)
            requires
                columns == (rows - 1) * width + r,
                0 < r < width,
        ;
    }
}

/// The columns of words side by side, a blank between two of them.
pub open spec fn side_by_side(all: Seq<Seq<char>>) -> nat
    decreases all.len(),
{
    if all.len() == 0 {
        0
    } else {
        let before = side_by_side(all.drop_last());
        before + crate::render::width::text_columns(all.last()) as nat + (if before > 0 {
            1nat
        } else {
            0
        })
    }
}

proof fn lemma_fits(all: Seq<Seq<char>>, width: nat)
    requires
        side_by_side(all) <= width <= u16::MAX,
    ensures
        crate::render::fit::packed(all, width).rows == 1,
        crate::render::fit::packed(all, width).used == side_by_side(all),
    decreases all.len(),
{
    if all.len() > 0 {
        lemma_fits(all.drop_last(), width);
    }
}

/// A text whose words fit side by side takes one row.
pub proof fn law_one_row(text: Seq<char>, width: nat)
    requires
        side_by_side(crate::render::fit::words(text)) <= width <= u16::MAX,
    ensures
        crate::render::fit::wrapped_rows(text, width) == 1,
{
    lemma_fits(crate::render::fit::words(text), width);
}

proof fn lemma_rows(all: Seq<Seq<char>>, width: nat)
    requires
        width > 0,
    ensures
        1 <= crate::render::fit::packed(all, width).rows,
        crate::render::fit::packed(all, width).rows <= usize::MAX,
    decreases all.len(),
{
    if all.len() > 0 {
        lemma_rows(all.drop_last(), width);
        law_rows_hold(crate::render::width::text_columns(all.last()) as nat, width);
    }
}

/// A word that does not fit behind the words before it opens a row of its own, and no word takes
/// a row away.
pub proof fn law_word_opens_row(all: Seq<Seq<char>>, word: Seq<char>, width: nat)
    requires
        0 < width,
        crate::render::fit::packed(all, width).rows < usize::MAX,
        crate::render::width::text_columns(word) <= width,
    ensures
        ({
            let before = crate::render::fit::packed(all, width);
            let after = crate::render::fit::packed(all.push(word), width);
            let w = crate::render::width::text_columns(word);
            &&& before.used > 0 && before.used + 1 + w > width ==> after.rows == before.rows + 1
                && after.used == w
            &&& before.used + 1 + w <= width ==> after.rows == before.rows
        }),
{
    assert(all.push(word).drop_last() =~= all);
    assert(all.push(word).last() == word);
}

/// A text takes at least one row, whatever the width.
pub proof fn law_at_least_one_row(text: Seq<char>, width: nat)
    ensures
        crate::render::fit::wrapped_rows(text, width) >= 1,
{
    if width > 0 {
        lemma_rows(crate::render::fit::words(text), width);
    }
}

} // verus!
