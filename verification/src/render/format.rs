//! Numbers and durations in words.

use vstd::prelude::*;

use crate::text::{chars_of, i64_text, joined, u64_text};

verus! {

/// A number with at least two digits.
pub open spec fn two_digits(n: nat) -> Seq<char> {
    if n < 10 {
        "0"@ + crate::text::decimal(n)
    } else {
        crate::text::decimal(n)
    }
}

fn padded(n: u64) -> (r: String)
    ensures
        r@ == two_digits(n as nat),
{
    if n < 10 {
        joined("0", u64_text(n).as_str())
    } else {
        u64_text(n)
    }
}

/// Minutes and seconds, a text between them.
pub open spec fn minutes_text(total: nat, between: Seq<char>) -> Seq<char> {
    crate::text::decimal(total / 60) + between + two_digits(total % 60) + "s"@
}

fn minutes(total: u64, between: &str) -> (r: String)
    ensures
        r@ == minutes_text(total as nat, between@),
{
    let mut out = joined(u64_text(total / 60).as_str(), between);
    out.append(padded(total % 60).as_str());
    out.append("s");
    out
}

/// How long something has been going on: `(9s)` under a minute, else `(2m 03s)`.
pub open spec fn elapsed_text(total: nat) -> Seq<char> {
    if total < 60 {
        "("@ + crate::text::decimal(total) + "s)"@
    } else {
        "("@ + minutes_text(total, "m "@) + ")"@
    }
}

/// How long something has been going on, for whole seconds: `(9s)` under a minute, else
/// `(2m 03s)`.
pub fn format_elapsed(total: u64) -> (r: String)
    ensures
        r@ == elapsed_text(total as nat),
{
    if total < 60 {
        let mut out = joined("(", u64_text(total).as_str());
        out.append("s)");
        out
    } else {
        let mut out = joined("(", minutes(total, "m ").as_str());
        out.append(")");
        out
    }
}

/// A duration of a minute or more, for whole seconds: `2m 03s`.
pub fn format_minutes(total: u64) -> (r: String)
    ensures
        r@ == minutes_text(total as nat, "m "@),
{
    minutes(total, "m ")
}

/// A duration in the compact form, for whole seconds: `9s` under a minute, else `31m33s`.
pub fn format_compact(total: u64) -> (r: String)
    ensures
        r@ == (if total < 60 {
            crate::text::decimal(total as nat) + "s"@
        } else {
            minutes_text(total as nat, "m"@)
        }),
{
    if total < 60 {
        joined(u64_text(total).as_str(), "s")
    } else {
        minutes(total, "m")
    }
}

/// The time of day of a number of seconds since the epoch: `HH:MM:SS` in UTC.
pub fn format_clock(secs: u64) -> (r: String)
    ensures
        r@ == two_digits((secs as nat / 3600) % 24) + ":"@ + two_digits((secs as nat / 60) % 60)
            + ":"@ + two_digits(secs as nat % 60),
{
    let mut out = padded((secs / 3600) % 24);
    out.append(":");
    out.append(padded((secs / 60) % 60).as_str());
    out.append(":");
    out.append(padded(secs % 60).as_str());
    out
}

/// A quotient rounded to the nearest integer, to the even one where two are as near.
pub open spec fn nearest(a: nat, b: nat) -> nat {
    let q = a / b;
    let r = a % b;
    if 2 * r > b || (2 * r == b && q % 2 == 1) {
        q + 1
    } else {
        q
    }
}

fn round(a: u128, b: u128) -> (r: u128)
    requires
        0 < b,
        a < 0x4000_0000_0000_0000_0000_0000_0000_0000,
    ensures
        r == nearest(a as nat, b as nat),
{
    let q = a / b;
    let rem = a % b;
    proof {
        assert(q <= a) by (nonlinear_arith)
            requires
                b > 0,
                q == a / b,
        ;
        assert(rem < b);
        assert(rem <= a) by (nonlinear_arith)
            requires
                b > 0,
                rem == a % b,
                a >= 0,
        ;
    }
    if rem > b - rem || (rem == b - rem && q % 2 == 1) {
        q + 1
    } else {
        q
    }
}

/// A count in 53 binary digits.
pub open spec fn significant(n: nat) -> nat {
    if n < 0x20_0000_0000_0000 {
        n
    } else if n < 0x40_0000_0000_0000 {
        nearest(n, 2) * 2
    } else if n < 0x80_0000_0000_0000 {
        nearest(n, 4) * 4
    } else if n < 0x100_0000_0000_0000 {
        nearest(n, 8) * 8
    } else if n < 0x200_0000_0000_0000 {
        nearest(n, 16) * 16
    } else if n < 0x400_0000_0000_0000 {
        nearest(n, 32) * 32
    } else if n < 0x800_0000_0000_0000 {
        nearest(n, 64) * 64
    } else if n < 0x1000_0000_0000_0000 {
        nearest(n, 128) * 128
    } else if n < 0x2000_0000_0000_0000 {
        nearest(n, 256) * 256
    } else if n < 0x4000_0000_0000_0000 {
        nearest(n, 512) * 512
    } else {
        nearest(n, 1024) * 1024
    }
}

/// A count doubled until its quotient with `unit` has 53 binary digits.
pub open spec fn scaled(n: nat, unit: nat) -> nat
    decreases
        (if n < 0x10_0000_0000_0000 * unit {
            0x10_0000_0000_0000 * unit - n
        } else {
            0
        }),
{
    if n == 0 || n >= 0x10_0000_0000_0000 * unit {
        n
    } else {
        scaled(2 * n, unit)
    }
}

/// The tenths of a count's quotient with `unit`, the quotient taken in 53 binary digits.
pub open spec fn tenths(n: nat, unit: nat) -> nat {
    let s = scaled(n, unit);
    nearest(10 * nearest(s, unit), s / n)
}

/// The power of two to which the quotient of two counts is rounded, where that has 53 binary
/// digits or more.
pub open spec fn grain(a: nat, b: nat) -> nat
    decreases
        (if a >= 0x20_0000_0000_0000 * b {
            a - 0x20_0000_0000_0000 * b + 1
        } else {
            0
        }),
{
    if b == 0 || a < 0x20_0000_0000_0000 * b {
        1
    } else {
        2 * grain(a, 2 * b)
    }
}

/// A count, however large, in 53 binary digits.
pub open spec fn in_digits(n: nat) -> nat {
    nearest(n, grain(n, 1)) * grain(n, 1)
}

/// The whole part of a quotient, the quotient taken in 53 binary digits.
pub open spec fn whole_part(a: nat, b: nat) -> nat {
    if a == 0 {
        0
    } else if a < 0x10_0000_0000_0000 * b {
        let s = scaled(a, b);
        nearest(s, b) / (s / a)
    } else {
        nearest(a, b * grain(a, b)) * grain(a, b)
    }
}

/// A share in percent without its fraction, every number on the way taken in 53 binary digits.
pub open spec fn rough_percent(part: nat, whole: nat) -> nat {
    whole_part(in_digits(100 * in_digits(part)), in_digits(whole))
}

fn grain_of(a: u128, b: u128) -> (r: u128)
    requires
        0 < b <= 0x8000_0000_0000_0000,
        a <= 0x40_0000_0000_0000_0000,
    ensures
        r == grain(a as nat, b as nat),
        1 <= r <= 0x100_0000,
        0 < b * r <= 0x8000_0000_0000_0000,
{
    let mut g: u128 = 1;
    let mut step: u128 = b;
    proof {
        assert(1 * grain(a as nat, b as nat) == grain(a as nat, b as nat));
    }
    while a >= 0x20_0000_0000_0000 * step
        invariant
            0 < b,
            0 < step <= 0x8000_0000_0000_0000,
            a <= 0x40_0000_0000_0000_0000,
            step == b * g,
            1 <= g <= step,
            g == 1 || g <= 0x100_0000,
            grain(a as nat, b as nat) == g * grain(a as nat, step as nat),
        decreases a + 1 - step,
    {
        proof {
            assert(step <= 0x20_0000);
            assert(g * (2 * grain(a as nat, (2 * step) as nat)) == (2 * g) * grain(
                a as nat,
                (2 * step) as nat,
            )) by (nonlinear_arith);
            assert(b * (2 * g) == 2 * (b * g)) by (nonlinear_arith);
        }
        g = g * 2;
        step = step * 2;
    }
    proof {
        assert(grain(a as nat, step as nat) == 1);
        assert(g * grain(a as nat, step as nat) == g) by (nonlinear_arith)
            requires
                grain(a as nat, step as nat) == 1,
        ;
    }
    g
}

fn digits_of(n: u128) -> (r: u128)
    requires
        n <= 0x3f_ffff_0000_0000_0000,
    ensures
        r == in_digits(n as nat),
        r <= n + 0x100_0000,
        n >= 1 ==> r >= 1,
        n <= 0x8000_0000_0000_0000 ==> r <= 0x8000_0000_0000_0000,
{
    let g = grain_of(n, 1);
    let q = round(n, g);
    proof {
        lemma_nearest_bounds(n as nat, g as nat);
        if n <= 0x8000_0000_0000_0000 {
            lemma_grain_small(n as nat);
        }
        if n >= 1 {
            lemma_nearest_positive(n as nat);
        }
    }
    q * g
}

proof fn lemma_nearest_bounds(a: nat, b: nat)
    requires
        b > 0,
    ensures
        nearest(a, b) * b <= a + b,
        nearest(a, b) <= a + 1,
        nearest(a, b) * b + b >= a,
{
    let q = a / b;
    assert(q * b <= a && a < q * b + b && q <= a) by (nonlinear_arith)
        requires
            b > 0,
            q == a / b,
            a >= 0,
    ;
    assert((q + 1) * b == q * b + b) by (nonlinear_arith);
    if 2 * (a % b) > b {
        assert(a % b == a - q * b) by (nonlinear_arith)
            requires
                b > 0,
                q == a / b,
        ;
    }
}

proof fn lemma_nearest_positive(n: nat)
    requires
        n >= 1,
    ensures
        in_digits(n) >= 1,
{
    let g = grain(n, 1);
    lemma_grain_below(n, 1);
    if g > 1 {
        let q = n / g;
        assert(q >= 1) by (nonlinear_arith)
            requires
                q == n / g,
                n >= g,
                g > 1,
        ;
        assert(nearest(n, g) >= 1);
        assert(nearest(n, g) * g >= 1) by (nonlinear_arith)
            requires
                nearest(n, g) >= 1,
                g > 1,
        ;
    } else {
        assert(n / 1 == n);
        assert(nearest(n, 1) * 1 == nearest(n, 1));
    }
}

proof fn lemma_grain_below(a: nat, b: nat)
    requires
        b > 0,
    ensures
        grain(a, b) >= 1,
        grain(a, b) > 1 ==> grain(a, b) * b <= a,
    decreases
        (if a >= 0x20_0000_0000_0000 * b {
            a - 0x20_0000_0000_0000 * b + 1
        } else {
            0
        }),
{
    if a >= 0x20_0000_0000_0000 * b {
        lemma_grain_below(a, 2 * b);
        let g = grain(a, 2 * b);
        assert((2 * g) * b == g * (2 * b)) by (nonlinear_arith);
        if g == 1 {
            assert((2 * g) * b == 2 * b);
        }
    }
}

proof fn lemma_grain_small(n: nat)
    requires
        n <= 0x8000_0000_0000_0000,
    ensures
        nearest(n, grain(n, 1)) * grain(n, 1) <= 0x8000_0000_0000_0000,
{
    reveal_with_fuel(grain, 13);
    let g = grain(n, 1);
    let q = nearest(n, g);
    let top: nat = 0x8000_0000_0000_0000;
    if n == top {
        assert(g == 2048);
    } else {
        assert(g == 1 || g == 2 || g == 4 || g == 8 || g == 16 || g == 32 || g == 64 || g == 128
            || g == 256 || g == 512 || g == 1024);
    }
}

fn whole_part_of(a: u128, b: u128) -> (r: u128)
    requires
        1 <= a <= 0x40_0000_0000_0000_0000,
        1 <= b <= 0x8000_0000_0000_0000,
    ensures
        r == whole_part(a as nat, b as nat),
{
    let limit = 0x10_0000_0000_0000 * b;
    if a >= limit {
        let g = grain_of(a, b);
        let q = round(a, b * g);
        proof {
            lemma_nearest_bounds(a as nat, (b * g) as nat);
            assert(q * g <= 0x80_0000_0000_0000_0000_0000_0000) by (nonlinear_arith)
                requires
                    q <= a + 1,
                    a <= 0x40_0000_0000_0000_0000,
                    g <= 0x100_0000,
            ;
        }
        return q * g;
    }
    let mut s: u128 = a;
    while s < limit
        invariant
            1 <= a <= s,
            s <= 2 * limit,
            limit == 0x10_0000_0000_0000 * b,
            1 <= b <= 0x8000_0000_0000_0000,
            scaled(a as nat, b as nat) == scaled(s as nat, b as nat),
        decreases
                (if s < limit {
                    limit - s
                } else {
                    0
                }),
    {
        s = s * 2;
    }
    let pow = s / a;
    proof {
        assert(pow >= 1) by (nonlinear_arith)
            requires
                s >= a,
                a >= 1,
                pow == s / a,
        ;
    }
    round(s, b) / pow
}

/// A share in percent without its fraction, every number on the way taken in 53 binary digits.
pub fn percent_roughly(part: i64, whole: i64) -> (r: u128)
    requires
        part > 0,
        whole > 0,
    ensures
        r == rough_percent(part as nat, whole as nat),
{
    let held = digits_of(part as u128);
    let over = digits_of(held * 100);
    let by = digits_of(whole as u128);
    whole_part_of(over, by)
}

/// A number of tenths, without a fraction of zero.
pub open spec fn tenths_text(t: nat) -> Seq<char> {
    if t % 10 == 0 {
        crate::text::decimal(t / 10)
    } else {
        crate::text::decimal(t / 10) + "."@ + crate::text::decimal(t % 10)
    }
}

/// A token count in the compact form: `999`, `138K`, `49.2M`.
pub open spec fn tokens_text(count: int) -> Seq<char> {
    if count >= 1000000 {
        tenths_text(tenths(significant(count as nat), 1000000)) + "M"@
    } else if count >= 1000 {
        tenths_text(tenths(significant(count as nat), 1000)) + "K"@
    } else {
        crate::text::int_decimal(count)
    }
}

fn significant_of(n: u128) -> (r: u128)
    requires
        1000 <= n <= i64::MAX,
    ensures
        r == significant(n as nat),
        1000 <= r <= 0x8000_0000_0000_0000,
{
    if n < 0x20_0000_0000_0000 {
        n
    } else if n < 0x40_0000_0000_0000 {
        round(n, 2) * 2
    } else if n < 0x80_0000_0000_0000 {
        round(n, 4) * 4
    } else if n < 0x100_0000_0000_0000 {
        round(n, 8) * 8
    } else if n < 0x200_0000_0000_0000 {
        round(n, 16) * 16
    } else if n < 0x400_0000_0000_0000 {
        round(n, 32) * 32
    } else if n < 0x800_0000_0000_0000 {
        round(n, 64) * 64
    } else if n < 0x1000_0000_0000_0000 {
        round(n, 128) * 128
    } else if n < 0x2000_0000_0000_0000 {
        round(n, 256) * 256
    } else if n < 0x4000_0000_0000_0000 {
        round(n, 512) * 512
    } else {
        round(n, 1024) * 1024
    }
}

fn tenths_of(n: u128, unit: u128) -> (r: u128)
    requires
        1 <= n <= 0x8000_0000_0000_0000,
        1000 <= unit <= 1000000,
    ensures
        r == tenths(n as nat, unit as nat),
        r <= 0xffff_ffff_ffff_ffff,
{
    let limit = 0x10_0000_0000_0000 * unit;
    let mut s: u128 = n;
    while s < limit
        invariant
            1 <= n <= s,
            s <= 0x8000_0000_0000_0000 || s <= 2 * limit,
            limit == 0x10_0000_0000_0000 * unit,
            1000 <= unit <= 1000000,
            scaled(n as nat, unit as nat) == scaled(s as nat, unit as nat),
        decreases
                (if s < limit {
                    limit - s
                } else {
                    0
                }),
    {
        s = s * 2;
    }
    let pow = s / n;
    proof {
        assert(pow >= 1) by (nonlinear_arith)
            requires
                s >= n,
                n >= 1,
                pow == s / n,
        ;
    }
    let q = round(s, unit);
    proof {
        let d = (s / unit) as int;
        assert(d * unit <= s && d <= s) by (nonlinear_arith)
            requires
                unit >= 1,
                d == s / unit,
                s >= 0,
        ;
        assert(q <= d + 1);
        assert(s < 2 * pow * n) by (nonlinear_arith)
            requires
                n >= 1,
                s >= n,
                pow == s / n,
        ;
        assert(1000 * d <= s) by (nonlinear_arith)
            requires
                d * unit <= s,
                unit >= 1000,
                d >= 0,
        ;
        assert(10 * q <= pow * (n + 10)) by (nonlinear_arith)
            requires
                q <= d + 1,
                1000 * d <= s,
                s < 2 * pow * n,
                pow >= 1,
                n >= 1,
        ;
    }
    let t = round(10 * q, pow);
    proof {
        assert((10 * q) / pow as int <= n + 10) by (nonlinear_arith)
            requires
                10 * q <= pow * (n + 10),
                pow >= 1,
                q >= 0,
        ;
    }
    t
}

fn tenths_string(t: u128) -> (r: String)
    requires
        t <= 0xffff_ffff_ffff_ffff,
    ensures
        r@ == tenths_text(t as nat),
{
    let n = t as u64;
    if n % 10 == 0 {
        u64_text(n / 10)
    } else {
        let mut out = joined(u64_text(n / 10).as_str(), ".");
        out.append(u64_text(n % 10).as_str());
        out
    }
}

/// A token count in the compact form: exact below a thousand, else with at most one digit
/// behind the point.
pub fn format_tokens(count: i64) -> (r: String)
    ensures
        r@ == tokens_text(count as int),
{
    if count >= 1000000 {
        let t = tenths_of(significant_of(count as u128), 1000000);
        joined(tenths_string(t).as_str(), "M")
    } else if count >= 1000 {
        let t = tenths_of(significant_of(count as u128), 1000);
        joined(tenths_string(t).as_str(), "K")
    } else {
        i64_text(count)
    }
}

/// The first `n` of some digits, in groups of three from the end of all of them.
pub open spec fn grouped(digits: Seq<char>, n: nat) -> Seq<char>
    decreases n,
{
    if n == 0 || n > digits.len() {
        Seq::empty()
    } else {
        let i = (n - 1) as nat;
        let before = grouped(digits, i);
        (if i > 0 && (digits.len() - i) % 3 == 0 {
            before.push(',')
        } else {
            before
        }).push(digits[i as int])
    }
}

/// A token count with thousands separators: `141,021`. One below zero counts as zero.
pub open spec fn tokens_abs_text(count: int) -> Seq<char> {
    let digits = crate::text::decimal(
        if count > 0 {
            count as nat
        } else {
            0
        },
    );
    grouped(digits, digits.len())
}

/// A token count with thousands separators: `141,021`.
pub fn format_tokens_abs(count: i64) -> (r: String)
    ensures
        r@ == tokens_abs_text(count as int),
{
    let n: u64 = if count > 0 {
        count as u64
    } else {
        0
    };
    let digits = chars_of(u64_text(n).as_str());
    let mut out = String::new();
    proof {
        assert(out@ =~= Seq::empty());
    }
    let mut i: usize = 0;
    while i < digits.len()
        invariant
            i <= digits.len(),
            out@ == grouped(digits@, i as nat),
        decreases digits.len() - i,
    {
        if i > 0 && (digits.len() - i) % 3 == 0 {
            out.push(',');
        }
        out.push(digits[i]);
        i = i + 1;
    }
    out
}

/// Whether a character is not a separator.
pub open spec fn not_comma() -> spec_fn(char) -> bool {
    |c: char| c != ','
}

/// Grouping only adds separators: without them the digits are what they were.
pub proof fn law_grouping_keeps_digits(digits: Seq<char>, n: nat)
    requires
        n <= digits.len(),
        forall|i: int| 0 <= i < digits.len() ==> #[trigger] digits[i] != ',',
    ensures
        grouped(digits, n).filter(not_comma()) == digits.take(n as int),
    decreases n,
{
    reveal(Seq::filter);
    if n == 0 {
        assert(grouped(digits, n).filter(not_comma()) =~= digits.take(0));
    } else {
        let i = (n - 1) as nat;
        law_grouping_keeps_digits(digits, i);
        let before = grouped(digits, i);
        let sep = before.push(',');
        assert(sep.drop_last() =~= before);
        assert(sep.filter(not_comma()) =~= before.filter(not_comma()));
        let whole = grouped(digits, n);
        let head = if i > 0 && (digits.len() - i) % 3 == 0 {
            sep
        } else {
            before
        };
        assert(whole.drop_last() =~= head);
        assert(whole.filter(not_comma()) =~= head.filter(not_comma()).push(digits[i as int]));
        assert(digits.take(n as int) =~= digits.take(i as int).push(digits[i as int]));
    }
}

} // verus!
