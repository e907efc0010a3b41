//! Display widths of characters and texts, in terminal columns.

use vstd::prelude::*;

use crate::render::style::Span;

verus! {

/// The columns of a character, as `UnicodeWidthChar::width` counts them: `None` for a control
/// character.
pub uninterp spec fn char_columns(c: char) -> Option<usize>;

/// `unicode_width::UnicodeWidthChar::width`: the displayed width of a character. The width
/// comes out of a table of bytes.
#[verifier::external_body]
pub(crate) fn columns_of_char(c: char) -> (r: Option<usize>)
    ensures
        r == char_columns(c),
        r matches Some(n) ==> n <= 255,
{
    unicode_width::UnicodeWidthChar::width(c)
}

/// The columns of a text, as `UnicodeWidthStr::width` counts them.
pub uninterp spec fn text_columns(s: Seq<char>) -> usize;

/// `unicode_width::UnicodeWidthStr::width`: the displayed width of a text.
#[verifier::external_body]
pub(crate) fn columns_of(s: &str) -> (r: usize)
    ensures
        r == text_columns(s@),
{
    unicode_width::UnicodeWidthStr::width(s)
}

/// The columns that a character takes: none for a control character.
pub open spec fn cols(c: char) -> nat {
    match char_columns(c) {
        Some(n) => n as nat,
        None => 0,
    }
}

/// The columns that a character takes: none for a control character.
pub fn char_cols(c: char) -> (r: usize)
    ensures
        r == cols(c),
        r <= 255,
{
    match columns_of_char(c) {
        Some(n) => n,
        None => 0,
    }
}

/// The columns of a text, counted character by character.
pub open spec fn chars_cols(s: Seq<char>) -> nat
    decreases s.len(),
{
    if s.len() == 0 {
        0
    } else {
        chars_cols(s.drop_last()) + cols(s.last())
    }
}

/// The sum of two widths, capped at the largest number.
pub open spec fn capped_sum(a: nat, b: nat) -> nat {
    if a + b <= usize::MAX {
        a + b
    } else {
        usize::MAX as nat
    }
}

/// The columns of some spans side by side.
pub open spec fn spans_columns(spans: Seq<crate::render::style::SpanView>) -> nat
    decreases spans.len(),
{
    if spans.len() == 0 {
        0
    } else {
        capped_sum(spans_columns(spans.drop_last()), text_columns(spans.last().content) as nat)
    }
}

/// The columns of some spans side by side.
pub fn cell_width(cell: &Vec<Span>) -> (r: usize)
    ensures
        r == spans_columns(crate::text::views(cell@)),
{
    let mut total: usize = 0;
    let ghost all = crate::text::views(cell@);
    let mut i: usize = 0;
    while i < cell.len()
        invariant
            i <= cell.len(),
            all == crate::text::views(cell@),
            total == spans_columns(all.take(i as int)),
        decreases cell.len() - i,
    {
        proof {
            assert(all.take(i + 1).drop_last() =~= all.take(i as int));
            assert(all.take(i + 1).last() == cell@[i as int]@);
        }
        total = total.saturating_add(columns_of(cell[i].content.as_str()));
        i = i + 1;
    }
    proof {
        assert(all.take(i as int) =~= all);
    }
    total
}

} // verus!
