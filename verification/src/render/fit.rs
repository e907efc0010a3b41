//! Fitting text into a width: cutting it short, and counting the rows that it takes.

use vstd::prelude::*;

use crate::render::width::{char_cols, columns_of};
use crate::text::{chars_of, is_white, joined, slice_text};

verus! {

/// How many of some characters fit, with `used` columns taken before them and `reserve`
/// columns left free behind them.
pub open spec fn fitting(chars: Seq<char>, used: nat, reserve: nat, max: nat) -> nat
    decreases chars.len(),
{
    if chars.len() == 0 {
        0
    } else {
        let w = crate::render::width::cols(chars[0]);
        if used + w + reserve > max {
            0
        } else {
            1 + fitting(chars.drop_first(), used + w, reserve, max)
        }
    }
}

/// A text cut to a width: as it is where it fits, else as much of it as leaves `reserve`
/// columns, and the mark behind it.
pub open spec fn cut(text: Seq<char>, max: nat, reserve: nat, mark: Seq<char>) -> Seq<char> {
    if crate::render::width::text_columns(text) <= max {
        text
    } else {
        text.take(fitting(text, 0, reserve, max) as int) + mark
    }
}

fn cut_text(text: &str, max: usize, reserve: usize, mark: &str) -> (r: String)
    requires
        reserve <= 3,
    ensures
        r@ == cut(text@, max as nat, reserve as nat, mark@),
{
    if columns_of(text) <= max {
        return text.to_owned();
    }
    let chars = chars_of(text);
    let mut used: usize = 0;
    let mut i: usize = 0;
    proof {
        assert(chars@.skip(0) =~= chars@);
    }
    while i < chars.len()
        invariant
            i <= chars.len(),
            used <= max,
            reserve <= 3,
            chars@ == text@,
            crate::render::width::text_columns(text@) > max,
            fitting(chars@, 0, reserve as nat, max as nat) == i + fitting(
                chars@.skip(i as int),
                used as nat,
                reserve as nat,
                max as nat,
            ),
        decreases chars.len() - i,
    {
        let w = char_cols(chars[i]);
        proof {
            assert(chars@.skip(i as int)[0] == chars@[i as int]);
            assert(chars@.skip(i as int).drop_first() =~= chars@.skip(i + 1));
        }
        if w + reserve > max || used > max - (w + reserve) {
            let front = slice_text(&chars, 0, i);
            proof {
                assert(front@ =~= text@.take(i as int));
            }
            return joined(front.as_str(), mark);
        }
        used = used + w;
        i = i + 1;
    }
    let front = slice_text(&chars, 0, i);
    proof {
        assert(front@ =~= text@.take(i as int));
    }
    joined(front.as_str(), mark)
}

/// A text cut to a width, with `...` behind what is left of it.
pub fn truncate_width(text: &str, max: usize) -> (r: String)
    ensures
        r@ == cut(text@, max as nat, 3, "..."@),
{
    cut_text(text, max, 3, "...")
}

/// A text cut to a width, with `…` behind what is left of it.
pub fn truncate_ellipsis(text: &str, max: usize) -> (r: String)
    ensures
        r@ == cut(text@, max as nat, 1, "…"@),
{
    cut_text(text, max, 1, "…")
}

/// What is left of a text that was cut leaves room for the mark, and is a beginning of it. The
/// columns are counted character by character.
pub proof fn law_cut_leaves_room(chars: Seq<char>, used: nat, reserve: nat, max: nat)
    requires
        used + reserve <= max,
    ensures
        fitting(chars, used, reserve, max) <= chars.len(),
        used + crate::render::width::chars_cols(
            chars.take(fitting(chars, used, reserve, max) as int),
        ) + reserve <= max,
    decreases chars.len(),
{
    if chars.len() > 0 {
        let w = crate::render::width::cols(chars[0]);
        if used + w + reserve <= max {
            let rest = chars.drop_first();
            law_cut_leaves_room(rest, used + w, reserve, max);
            let n = fitting(rest, used + w, reserve, max) as int;
            lemma_cols_front(chars.take(n + 1));
            assert(chars.take(n + 1).drop_first() =~= rest.take(n));
        }
    }
}

proof fn lemma_cols_front(s: Seq<char>)
    requires
        s.len() > 0,
    ensures
        crate::render::width::chars_cols(s) == crate::render::width::cols(s[0])
            + crate::render::width::chars_cols(s.drop_first()),
    decreases s.len(),
{
    if s.len() == 1 {
        assert(s.drop_last() =~= Seq::empty());
        assert(s.drop_first() =~= Seq::empty());
    } else {
        lemma_cols_front(s.drop_last());
        assert(s.drop_last().drop_first() =~= s.drop_first().drop_last());
    }
}

/// The words of a text.
pub open spec fn words(text: Seq<char>) -> Seq<Seq<char>>
    decreases text.len(),
{
    if text.len() == 0 {
        Seq::empty()
    } else if crate::text::white(text[0]) {
        words(text.drop_first())
    } else {
        let n = crate::seqs::first_index(text, crate::render::sink::is_blank());
        proof {
            crate::seqs::lemma_first_index_holds(text, crate::render::sink::is_blank());
        }
        if 0 < n <= text.len() {
            seq![text.take(n)] + words(text.skip(n))
        } else {
            Seq::empty()
        }
    }
}

fn words_of(text: &str) -> (r: Vec<String>)
    ensures
        crate::text::views(r@) == words(text@),
{
    let chars = chars_of(text);
    let mut out: Vec<String> = Vec::new();
    let mut at: usize = 0;
    proof {
        assert(chars@.skip(0) =~= chars@);
        assert(crate::text::views(out@) + words(chars@) =~= words(chars@));
    }
    while at < chars.len()
        invariant
            at <= chars.len(),
            crate::text::views(out@) + words(chars@.skip(at as int)) == words(chars@),
        decreases chars.len() - at,
    {
        let ghost rest = chars@.skip(at as int);
        proof {
            assert(rest[0] == chars@[at as int]);
        }
        if is_white(chars[at]) {
            proof {
                assert(rest.drop_first() =~= chars@.skip(at + 1));
            }
            at = at + 1;
        } else {
            let mut end: usize = at + 1;
            while end < chars.len() && !is_white(chars[end])
                invariant
                    at < end <= chars.len(),
                    rest == chars@.skip(at as int),
                    forall|k: int|
                        0 <= k < end - at ==> !crate::render::sink::is_blank()(#[trigger] rest[k]),
                decreases chars.len() - end,
            {
                end = end + 1;
            }
            proof {
                crate::seqs::lemma_first_index(
                    rest,
                    crate::render::sink::is_blank(),
                    end - at,
                );
            }
            let word = slice_text(&chars, at, end);
            proof {
                assert(word@ =~= rest.take(end - at));
                assert(rest.skip(end - at) =~= chars@.skip(end as int));
                assert(crate::text::views(out@.push(word)) =~= crate::text::views(out@).push(word@));
                assert(crate::text::views(out@).push(word@) + words(chars@.skip(end as int))
                    =~= crate::text::views(out@) + (seq![word@] + words(chars@.skip(end as int))));
            }
            out.push(word);
            at = end;
        }
    }
    proof {
        assert(crate::text::views(out@) + words(chars@.skip(at as int)) =~= crate::text::views(
            out@,
        ));
    }
    out
}

/// Words packed into rows: the rows so far and the columns taken in the last. Both stop at the
/// largest number.
pub struct PackView {
    pub rows: nat,
    pub used: nat,
}

/// The number of rows of a width that some columns take.
pub open spec fn rows_for(columns: nat, width: nat) -> nat {
    if columns % width == 0 {
        columns / width
    } else {
        columns / width + 1
    }
}

/// Some words packed into rows. One that would reach past the row opens another; one wider than
/// a row takes as many as it needs.
pub open spec fn packed(all: Seq<Seq<char>>, width: nat) -> PackView
    decreases all.len(),
{
    if all.len() == 0 {
        PackView { rows: 1, used: 0 }
    } else {
        let before = packed(all.drop_last(), width);
        let w = crate::render::width::text_columns(all.last()) as nat;
        let wraps = before.used > 0 && before.used + 1 + w > width;
        let opened = if wraps {
            PackView { rows: crate::render::width::capped_sum(before.rows, 1), used: 0 }
        } else {
            before
        };
        PackView {
            rows: if w > width {
                crate::render::width::capped_sum(
                    opened.rows,
                    (rows_for(w, width) - 1) as nat,
                )
            } else {
                opened.rows
            },
            used: crate::render::width::capped_sum(
                opened.used,
                crate::render::width::capped_sum(
                    w,
                    if opened.used > 0 {
                        1
                    } else {
                        0
                    },
                ),
            ),
        }
    }
}

/// The rows that a text takes at a width: at least one.
pub open spec fn wrapped_rows(text: Seq<char>, width: nat) -> nat {
    if width == 0 || text.len() == 0 {
        1
    } else {
        packed(words(text), width).rows
    }
}

/// The rows that a text takes at a width: at least one.
pub fn wrapped_height(text: &str, width: u16) -> (r: usize)
    ensures
        r == wrapped_rows(text@, width as nat),
{
    if width == 0 || text.is_empty() {
        return 1;
    }
    let max = width as usize;
    let list = words_of(text);
    let ghost all = crate::text::views(list@);
    proof {
        assert(all.take(0) =~= Seq::empty());
    }
    let mut rows: usize = 1;
    let mut used: usize = 0;
    let mut i: usize = 0;
    while i < list.len()
        invariant
            i <= list.len(),
            max == width,
            width > 0,
            all == crate::text::views(list@),
            packed(all.take(i as int), width as nat) == (PackView {
                rows: rows as nat,
                used: used as nat,
            }),
        decreases list.len() - i,
    {
        proof {
            assert(all.take(i + 1).drop_last() =~= all.take(i as int));
            assert(all.take(i + 1).last() == list@[i as int]@);
        }
        let w = columns_of(list[i].as_str());
        if used > 0 && (used >= max || w > max - used - 1) {
            rows = rows.saturating_add(1);
            used = 0;
        }
        if w > max {
            let mut more = w / max;
            proof {
                assert(more >= 1) by (nonlinear_arith)
                    requires
                        w > max,
                        max > 0,
                        more == w / max,
                ;
            }
            if w % max == 0 {
                more = more - 1;
            }
            rows = rows.saturating_add(more);
        }
        let gap: usize = if used > 0 {
            1
        } else {
            0
        };
        used = used.saturating_add(w.saturating_add(gap));
        i = i + 1;
    }
    proof {
        assert(all.take(i as int) =~= all);
    }
    rows
}

} // verus!
