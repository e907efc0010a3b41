//! What numbers and texts look like in few columns, whatever they are.

use vstd::prelude::*;

verus! {

// ---------------------------------------------------------------------------
// durations
// ---------------------------------------------------------------------------

/// A duration under a minute is its seconds; a longer one is its minutes and the two digits of
/// the seconds beyond them, which read together are the duration.
pub proof fn law_elapsed(total: nat) -> (parts: (Seq<char>, Seq<char>))
    ensures
        ({
            let text = crate::render::format::elapsed_text(total);
            let (m, s) = parts;
            if total < 60 {
                text == seq!['('] + s + seq!['s', ')'] && crate::text_laws::reads_as(s) == total
            } else {
                &&& text == seq!['('] + m + seq!['m', ' '] + s + seq!['s', ')']
                &&& s.len() == 2
                &&& crate::text_laws::reads_as(s) < 60
                &&& 60 * crate::text_laws::reads_as(m) + crate::text_laws::reads_as(s) == total
            }
        }),
{
    reveal_strlit("(");
    reveal_strlit("s)");
    reveal_strlit("m ");
    reveal_strlit(")");
    reveal_strlit("s");
    let text = crate::render::format::elapsed_text(total);
    let m = crate::text::decimal(total / 60);
    crate::text_laws::law_decimal(total / 60);
    if total < 60 {
        let s = crate::text::decimal(total);
        crate::text_laws::law_decimal(total);
        assert(text =~= seq!['('] + s + seq!['s', ')']);
        (m, s)
    } else {
        let s = crate::render::format::two_digits(total % 60);
        lemma_two_digits(total % 60);
        assert(text =~= seq!['('] + m + seq!['m', ' '] + s + seq!['s', ')']);
        (m, s)
    }
}

proof fn lemma_two_digits(n: nat)
    requires
        n < 60,
    ensures
        crate::render::format::two_digits(n).len() == 2,
        crate::text_laws::reads_as(crate::render::format::two_digits(n)) == n,
{
    reveal_strlit("0");
    crate::text_laws::law_decimal(n);
    let d = crate::text::decimal(n);
    let s = crate::render::format::two_digits(n);
    if n < 10 {
        assert(s =~= seq!['0'] + d);
        assert(d.len() == 1);
        reveal_with_fuel(crate::text_laws::reads_as, 3);
        assert(s.drop_last() =~= seq!['0']);
        assert(seq!['0'].drop_last() =~= Seq::empty());
        assert(d.drop_last() =~= Seq::empty());
    } else {
        reveal_with_fuel(crate::text::decimal, 3);
        assert(d.len() == 2);
    }
}

// ---------------------------------------------------------------------------
// rounding
// ---------------------------------------------------------------------------

/// Rounding a quotient gives the nearest whole number, the even one where two are as near.
pub proof fn law_nearest(a: nat, b: nat)
    requires
        b > 0,
    ensures
        ({
            let n = crate::render::format::nearest(a, b) as int;
            &&& -(b as int) <= 2 * (n * b - a) <= b
            &&& 2 * (n * b - a) == b || 2 * (n * b - a) == -(b as int) ==> n % 2 == 0
        }),
{
    let q = a / b;
    let r = a % b;
    assert(a == q * b + r && 0 <= r < b) by (nonlinear_arith)
        requires
            b > 0,
            q == a / b,
            r == a % b,
    ;
    assert((q + 1) * b == q * b + b) by (nonlinear_arith);
}

proof fn lemma_scaled(n: nat, unit: nat, p: nat) -> (k: nat)
    requires
        n > 0,
        unit > 0,
    ensures
        k >= 1,
        crate::render::format::scaled(n, unit) == n * k,
        crate::render::format::scaled(n, unit) >= 0x10_0000_0000_0000 * unit,
    decreases
        (if n < 0x10_0000_0000_0000 * unit {
            0x10_0000_0000_0000 * unit - n
        } else {
            0
        }),
{
    if n >= 0x10_0000_0000_0000 * unit {
        1
    } else {
        let k = lemma_scaled(2 * n, unit, p);
        assert((2 * n) * k == n * (2 * k)) by (nonlinear_arith);
        2 * k
    }
}

/// The tenths of a count's quotient with a unit are off by less than a tenth of the unit.
pub proof fn law_tenths(n: nat, unit: nat)
    requires
        0 < n < 0x20_0000_0000_0000,
        unit == 1000 || unit == 1000000,
    ensures
        ({
            let t = crate::render::format::tenths(n, unit) as int;
            -(unit as int) < t * unit - 10 * n < unit
        }),
{
    let s = crate::render::format::scaled(n, unit);
    let k = lemma_scaled(n, unit, 0);
    assert(s / n == k) by (nonlinear_arith)
        requires
            s == n * k,
            n > 0,
    ;
    let q = crate::render::format::nearest(s, unit);
    let t = crate::render::format::tenths(n, unit);
    law_nearest(s, unit);
    law_nearest(10 * q, k);
    assert(k > 20) by (nonlinear_arith)
        requires
            n * k >= 0x10_0000_0000_0000 * unit,
            unit >= 1000,
            n < 0x20_0000_0000_0000,
    ;
    let e = t * k - 10 * q;
    let d = q * unit - s;
    let off = t * unit - 10 * n;
    assert(off * k == e * unit + 10 * d) by (nonlinear_arith)
        requires
            e == t * k - 10 * q,
            d == q * unit - s,
            off == t * unit - 10 * n,
            s == n * k,
    ;
    assert(-(k * unit) <= 2 * (e * unit) <= k * unit) by (nonlinear_arith)
        requires
            -(k as int) <= 2 * e <= k,
            unit > 0,
    ;
    assert(20 * unit < k * unit) by (nonlinear_arith)
        requires
            k > 20,
            unit > 0,
    ;
    assert(-(k * unit) < off * k < k * unit);
    assert(-(unit as int) < off < unit) by (nonlinear_arith)
        requires
            -(k * unit) < off * k < k * unit,
            k > 0,
    ;
}

/// A number of tenths reads as its whole part and, where it is not a whole number, a dot and the
/// tenth.
pub proof fn law_tenths_text(t: nat)
    ensures
        ({
            let text = crate::render::format::tenths_text(t);
            &&& t % 10 == 0 ==> crate::text_laws::reads_as(text) * 10 == t
            &&& t % 10 != 0 ==> {
                let whole = text.take(text.len() - 2);
                &&& text.len() >= 3
                &&& text[text.len() - 2] == '.'
                &&& crate::text_laws::reads_as(whole) * 10 + (text.last() as int - '0' as int) == t
            }
        }),
{
    reveal_strlit(".");
    crate::text_laws::law_decimal(t / 10);
    crate::text_laws::law_decimal(t % 10);
    let text = crate::render::format::tenths_text(t);
    if t % 10 != 0 {
        let d = crate::text::decimal(t % 10);
        assert(d.len() == 1);
        assert(text.take(text.len() - 2) =~= crate::text::decimal(t / 10));
        reveal_with_fuel(crate::text_laws::reads_as, 2);
        assert(d.drop_last() =~= Seq::empty());
        assert(text.last() == d[0]);
    }
}

/// A count below a thousand is written out; a larger one is told in thousands, or from a million
/// on in millions, off by less than a tenth of what it is told in.
pub proof fn law_tokens_text(count: int)
    requires
        count < 0x20_0000_0000_0000,
    ensures
        ({
            let text = crate::render::format::tokens_text(count);
            &&& count < 1000 ==> text == crate::text::int_decimal(count)
            &&& 1000 <= count < 1000000 ==> exists|t: nat|
                text == #[trigger] crate::render::format::tenths_text(t) + seq!['K'] && -1000 < t
                    * 1000 - 10 * count < 1000
            &&& 1000000 <= count ==> exists|t: nat|
                text == #[trigger] crate::render::format::tenths_text(t) + seq!['M'] && -1000000
                    < t * 1000000 - 10 * count < 1000000
        }),
{
    reveal_strlit("K");
    reveal_strlit("M");
    assert("K"@ =~= seq!['K']);
    assert("M"@ =~= seq!['M']);
    if count >= 1000000 {
        law_tenths(count as nat, 1000000);
        let t = crate::render::format::tenths(count as nat, 1000000);
        assert(crate::render::format::tokens_text(count)
            == crate::render::format::tenths_text(t) + seq!['M']);
    } else if count >= 1000 {
        law_tenths(count as nat, 1000);
        let t = crate::render::format::tenths(count as nat, 1000);
        assert(crate::render::format::tokens_text(count)
            == crate::render::format::tenths_text(t) + seq!['K']);
    }
}

// ---------------------------------------------------------------------------
// grouping
// ---------------------------------------------------------------------------

proof fn lemma_grouped_prefix(digits: Seq<char>, n: nat)
    requires
        digits.len() >= 3,
        n <= digits.len() - 3,
    ensures
        crate::render::format::grouped(digits, n) == crate::render::format::grouped(
            digits.take(digits.len() - 3),
            n,
        ),
    decreases n,
{
    if n > 0 {
        lemma_grouped_prefix(digits, (n - 1) as nat);
        let fewer = digits.take(digits.len() - 3);
        assert(fewer[n - 1] == digits[n - 1]);
        assert((digits.len() - (n - 1)) % 3 == (fewer.len() - (n - 1)) % 3);
    }
}

/// A number is grouped by threes from its end: up to three digits stand alone, and of more the
/// last three stand behind a comma.
pub proof fn law_grouped_by_threes(digits: Seq<char>)
    ensures
        ({
            let n = digits.len();
            let all = crate::render::format::grouped(digits, n);
            &&& n <= 3 ==> all == digits
            &&& n > 3 ==> all == crate::render::format::grouped(
                digits.take(n - 3),
                (n - 3) as nat,
            ) + seq![','] + digits.skip(n - 3)
        }),
{
    let n = digits.len();
    reveal_with_fuel(crate::render::format::grouped, 4);
    if n <= 3 {
        assert(crate::render::format::grouped(digits, n) =~= digits);
    } else {
        lemma_grouped_prefix(digits, (n - 3) as nat);
        assert(crate::render::format::grouped(digits, n) =~= crate::render::format::grouped(
            digits.take(n - 3),
            (n - 3) as nat,
        ) + seq![','] + digits.skip(n - 3));
    }
}

/// A token count is written out in full, grouped; a negative one counts as none.
pub proof fn law_tokens_abs(count: int)
    ensures
        ({
            let digits = crate::text::decimal(
                if count > 0 {
                    count as nat
                } else {
                    0
                },
            );
            crate::render::format::tokens_abs_text(count).filter(
                crate::render::format::not_comma(),
            ) == digits
        }),
{
    let n: nat = if count > 0 {
        count as nat
    } else {
        0
    };
    crate::text_laws::law_decimal(n);
    let digits = crate::text::decimal(n);
    assert forall|i: int| 0 <= i < digits.len() implies #[trigger] digits[i] != ',' by {
        assert('0' as int <= digits[i] as int);
    }
    crate::render::format::law_grouping_keeps_digits(digits, digits.len());
    assert(digits.take(digits.len() as int) =~= digits);
}

// ---------------------------------------------------------------------------
// cutting
// ---------------------------------------------------------------------------

proof fn lemma_cut_maximal(chars: Seq<char>, used: nat, reserve: nat, max: nat)
    ensures
        ({
            let k = crate::render::fit::fitting(chars, used, reserve, max);
            &&& k <= chars.len()
            &&& k < chars.len() ==> used + crate::render::width::chars_cols(
                chars.take(k as int + 1),
            ) + reserve > max
        }),
    decreases chars.len(),
{
    if chars.len() > 0 {
        let w = crate::render::width::cols(chars[0]);
        let k = crate::render::fit::fitting(chars, used, reserve, max);
        if used + w + reserve > max {
            assert(chars.take(1) =~= seq![chars[0]]);
            reveal_with_fuel(crate::render::width::chars_cols, 2);
            assert(chars.take(1).drop_last() =~= Seq::empty());
        } else {
            lemma_cut_maximal(chars.drop_first(), used + w, reserve, max);
            if k < chars.len() {
                let rest = chars.drop_first().take(k as int);
                lemma_cols_front(chars[0], rest);
                assert(chars.take(k as int + 1) =~= seq![chars[0]] + rest);
            }
        }
    }
}

proof fn lemma_cols_front(c: char, rest: Seq<char>)
    ensures
        crate::render::width::chars_cols(seq![c] + rest) == crate::render::width::cols(c)
            + crate::render::width::chars_cols(rest),
    decreases rest.len(),
{
    if rest.len() == 0 {
        assert(seq![c] + rest =~= seq![c]);
        reveal_with_fuel(crate::render::width::chars_cols, 2);
        assert(seq![c].drop_last() =~= Seq::empty());
    } else {
        lemma_cols_front(c, rest.drop_last());
        assert((seq![c] + rest).drop_last() =~= seq![c] + rest.drop_last());
        assert((seq![c] + rest).last() == rest.last());
    }
}

/// A text that fits is shown as it is; one that does not is cut to its longest beginning that
/// leaves room for the mark, and the mark stands behind it.
pub proof fn law_cut(text: Seq<char>, max: nat, reserve: nat, mark: Seq<char>)
    requires
        reserve <= max,
    ensures
        ({
            let out = crate::render::fit::cut(text, max, reserve, mark);
            &&& crate::render::width::text_columns(text) <= max ==> out == text
            &&& crate::render::width::text_columns(text) > max ==> exists|k: int|
                {
                    &&& 0 <= k <= text.len()
                    &&& out == #[trigger] text.take(k) + mark
                    &&& crate::render::width::chars_cols(text.take(k)) + reserve <= max
                    &&& k < text.len() ==> crate::render::width::chars_cols(text.take(k + 1))
                        + reserve > max
                }
        }),
{
    let k = crate::render::fit::fitting(text, 0, reserve, max) as int;
    crate::render::fit::law_cut_leaves_room(text, 0, reserve, max);
    lemma_cut_maximal(text, 0, reserve, max);
    if crate::render::width::text_columns(text) > max {
        assert(crate::render::fit::cut(text, max, reserve, mark) == text.take(k) + mark);
    }
}

/// The words of a text hold no white space, are not empty, and one behind the other are the
/// text without its white space.
pub proof fn law_words(text: Seq<char>)
    ensures
        ({
            let words = crate::render::fit::words(text);
            &&& forall|k: int| 0 <= k < words.len() ==> (#[trigger] words[k]).len() > 0
            &&& forall|k: int, i: int|
                0 <= k < words.len() && 0 <= i < words[k].len() ==> !crate::text::white(
                    #[trigger] words[k][i],
                )
            &&& crate::text_laws::all_of(words) == text.filter(
                |c: char| !crate::text::white(c),
            )
        }),
    decreases text.len(),
{
    let words = crate::render::fit::words(text);
    let ink = |c: char| !crate::text::white(c);
    if text.len() == 0 {
        reveal(Seq::filter);
        assert(crate::text_laws::all_of(words) =~= text.filter(ink));
    } else if crate::text::white(text[0]) {
        law_words(text.drop_first());
        lemma_filter_front(text, 1, ink);
        assert(text.skip(1) =~= text.drop_first());
        assert(text.take(1).filter(ink) =~= Seq::empty()) by {
            reveal(Seq::filter);
            assert(text.take(1).drop_last() =~= Seq::empty());
            assert(text.take(1).last() == text[0]);
            assert(!ink(text[0]));
            assert(Seq::<char>::empty().filter(ink) =~= Seq::empty());
        }
        assert(Seq::<char>::empty() + text.drop_first().filter(ink)
            =~= text.drop_first().filter(ink));
    } else {
        let p = crate::render::sink::is_blank();
        crate::seqs::lemma_first_index_holds(text, p);
        let n = crate::seqs::first_index(text, p);
        if n == 0 {
            assert(p(text[0]));
        }
        let rest = crate::render::fit::words(text.skip(n));
        law_words(text.skip(n));
        assert(words.drop_first() =~= rest);
        assert(words[0] == text.take(n));
        assert forall|i: int| 0 <= i < n implies !crate::text::white(#[trigger] text[i]) by {
            assert(!p(text[i]));
        }
        lemma_filter_all(text.take(n), ink);
        lemma_filter_front(text, n, ink);
        assert forall|k: int| 0 <= k < words.len() implies (#[trigger] words[k]).len() > 0 by {
            if k > 0 {
                assert(words[k] == rest[k - 1]);
            }
        }
        assert forall|k: int, i: int| 0 <= k < words.len() && 0 <= i < words[k].len() implies
            !crate::text::white(#[trigger] words[k][i]) by {
            if k > 0 {
                assert(words[k] == rest[k - 1]);
                assert(!crate::text::white(rest[k - 1][i]));
            } else {
                assert(words[0][i] == text[i]);
            }
        }
    }
}

proof fn lemma_filter_front(s: Seq<char>, n: int, p: spec_fn(char) -> bool)
    requires
        0 <= n <= s.len(),
    ensures
        s.filter(p) == s.take(n).filter(p) + s.skip(n).filter(p),
    decreases s.len() - n,
{
    reveal(Seq::filter);
    if n == s.len() {
        assert(s.take(n) =~= s);
        assert(s.skip(n) =~= Seq::empty());
        assert(s.filter(p) + Seq::<char>::empty() =~= s.filter(p));
    } else {
        let front = s.drop_last();
        lemma_filter_front(front, n, p);
        assert(front.take(n) =~= s.take(n));
        assert(s.skip(n).drop_last() =~= front.skip(n));
        assert(s.skip(n).last() == s.last());
        let x = s.take(n).filter(p);
        let y = front.skip(n).filter(p);
        assert((x + y).push(s.last()) =~= x + y.push(s.last()));
    }
}

proof fn lemma_filter_all(s: Seq<char>, p: spec_fn(char) -> bool)
    requires
        forall|i: int| 0 <= i < s.len() ==> p(#[trigger] s[i]),
    ensures
        s.filter(p) == s,
    decreases s.len(),
{
    reveal(Seq::filter);
    if s.len() > 0 {
        let front = s.drop_last();
        assert forall|i: int| 0 <= i < front.len() implies p(#[trigger] front[i]) by {
            assert(front[i] == s[i]);
        }
        lemma_filter_all(front, p);
        assert(p(s[s.len() - 1]));
        assert(front.push(s.last()) =~= s);
    } else {
        assert(s.filter(p) =~= s);
    }
}

} // verus!
