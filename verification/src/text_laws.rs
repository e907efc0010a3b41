//! What the operations on texts promise, whatever the texts are.

use vstd::prelude::*;

verus! {

// ---------------------------------------------------------------------------
// numbers
// ---------------------------------------------------------------------------

/// The number that a row of decimal digits reads as.
pub open spec fn reads_as(s: Seq<char>) -> int
    decreases s.len(),
{
    if s.len() == 0 {
        0
    } else {
        10 * reads_as(s.drop_last()) + (s.last() as int - '0' as int)
    }
}

/// Decimal notation: digits and nothing else, no zero in front but in `0` itself, and they read
/// as the number.
pub proof fn law_decimal(n: nat)
    ensures
        crate::text::decimal(n).len() > 0,
        forall|i: int|
            0 <= i < crate::text::decimal(n).len() ==> '0' as int <= (
            #[trigger] crate::text::decimal(n)[i]) as int && crate::text::decimal(n)[i] as int
                <= '9' as int,
        crate::text::decimal(n)[0] == '0' ==> n == 0 && crate::text::decimal(n).len() == 1,
        reads_as(crate::text::decimal(n)) == n,
    decreases n,
{
    let s = crate::text::decimal(n);
    if n < 10 {
        assert(s.drop_last() =~= Seq::empty());
        assert(reads_as(s.drop_last()) == 0);
    } else {
        law_decimal(n / 10);
        assert(s.drop_last() =~= crate::text::decimal(n / 10));
        assert(s[0] == crate::text::decimal(n / 10)[0]);
    }
}

/// Two numbers with the same decimal notation are the same.
pub proof fn law_decimal_tells_apart(a: nat, b: nat)
    requires
        crate::text::decimal(a) == crate::text::decimal(b),
    ensures
        a == b,
{
    law_decimal(a);
    law_decimal(b);
}

/// The notation of a negative number is a minus sign and that of its opposite; the notation of
/// another one is its decimal digits. It tells integers apart and has no character but the sign
/// and digits.
pub proof fn law_int_decimal(a: int, b: int)
    ensures
        a < 0 ==> crate::text::int_decimal(a)[0] == '-' && reads_as(
            crate::text::int_decimal(a).drop_first(),
        ) == -a,
        a >= 0 ==> crate::text::int_decimal(a)[0] != '-' && reads_as(crate::text::int_decimal(a))
            == a,
        crate::text::int_decimal(a).len() > 0,
        forall|i: int|
            0 <= i < crate::text::int_decimal(a).len() ==> (#[trigger] crate::text::int_decimal(
                a,
            )[i] == '-' || '0' as int <= crate::text::int_decimal(a)[i] as int
                && crate::text::int_decimal(a)[i] as int <= '9' as int),
        crate::text::int_decimal(a) == crate::text::int_decimal(b) ==> a == b,
{
    lemma_int_decimal(a);
    lemma_int_decimal(b);
}

proof fn lemma_int_decimal(a: int)
    ensures
        a < 0 ==> crate::text::int_decimal(a)[0] == '-' && reads_as(
            crate::text::int_decimal(a).drop_first(),
        ) == -a,
        a >= 0 ==> crate::text::int_decimal(a)[0] != '-' && reads_as(crate::text::int_decimal(a))
            == a,
        crate::text::int_decimal(a).len() > 0,
        forall|i: int|
            0 <= i < crate::text::int_decimal(a).len() ==> (#[trigger] crate::text::int_decimal(
                a,
            )[i] == '-' || '0' as int <= crate::text::int_decimal(a)[i] as int
                && crate::text::int_decimal(a)[i] as int <= '9' as int),
{
    let s = crate::text::int_decimal(a);
    if a < 0 {
        law_decimal((-a) as nat);
        assert(s.drop_first() =~= crate::text::decimal((-a) as nat));
        assert forall|i: int| 0 <= i < s.len() implies (#[trigger] s[i] == '-' || '0' as int
            <= s[i] as int && s[i] as int <= '9' as int) by {
            if i > 0 {
                assert(s[i] == crate::text::decimal((-a) as nat)[i - 1]);
            }
        }
    } else {
        law_decimal(a as nat);
    }
}

proof fn lemma_reads(s: Seq<char>)
    requires
        crate::text::all_digits(s),
    ensures
        crate::text::digits_value(s) == reads_as(s),
    decreases s.len(),
{
    if s.len() > 0 {
        assert forall|i: int| 0 <= i < s.drop_last().len() implies '0' <= #[trigger] s.drop_last()[
            i
        ] <= '9' by {
            assert(s.drop_last()[i] == s[i]);
        }
        lemma_reads(s.drop_last());
        assert('0' <= s[s.len() - 1] <= '9');
    }
}

/// Whether every character is a decimal digit.
pub open spec fn only_digits(s: Seq<char>) -> bool {
    forall|i: int| 0 <= i < s.len() ==> '0' as int <= (#[trigger] s[i]) as int && s[i] as int
        <= '9' as int
}

/// A text reads as a number where and only where it is decimal digits, with a plus sign before
/// them or not, of a number within the limit; the number is what the digits read as.
pub proof fn law_unsigned_value(s: Seq<char>, max: nat)
    ensures
        ({
            let digits = if s.len() > 0 && s[0] == '+' {
                s.skip(1)
            } else {
                s
            };
            match crate::text::unsigned_value(s, max) {
                Some(n) => digits.len() > 0 && only_digits(digits) && reads_as(digits) <= max && n
                    == reads_as(digits),
                None => digits.len() == 0 || !only_digits(digits) || reads_as(digits) > max,
            }
        }),
{
    let digits = if s.len() > 0 && s[0] == '+' {
        s.skip(1)
    } else {
        s
    };
    if s.len() > 0 {
        assert(s.skip(1) =~= s.drop_first());
    }
    assert(only_digits(digits) == crate::text::all_digits(digits));
    if only_digits(digits) {
        lemma_reads(digits);
    }
}

/// What is written in decimal is read back.
pub proof fn law_number_read_back(n: nat, max: nat)
    ensures
        crate::text::unsigned_value(crate::text::decimal(n), max) == (if n <= max {
            Some(n)
        } else {
            None
        }),
{
    law_decimal(n);
    law_unsigned_value(crate::text::decimal(n), max);
    assert(crate::text::decimal(n)[0] != '+');
}

/// The hexadecimal digits are the ten decimal ones and the letters a to f in either case, and
/// count from zero to fifteen; no other character is one.
pub proof fn law_hex_digit(c: char)
    ensures
        ({
            let n = c as int;
            match crate::text::hex_digit(c) {
                Some(d) => d < 16 && (if d < 10 {
                    n == '0' as int + d
                } else {
                    n == 'a' as int + (d - 10) || n == 'A' as int + (d - 10)
                }),
                None => !('0' as int <= n && n <= '9' as int) && !('a' as int <= n && n
                    <= 'f' as int) && !('A' as int <= n && n <= 'F' as int),
            }
        }),
{
}

// ---------------------------------------------------------------------------
// white space
// ---------------------------------------------------------------------------

/// What is left of a text without the white space at its end: a prefix of the text that does
/// not end in white space, and all that is missing is white space.
pub proof fn law_trim_end(s: Seq<char>)
    ensures
        ({
            let t = crate::text::trim_end(s);
            &&& t.len() <= s.len()
            &&& t == s.take(t.len() as int)
            &&& forall|i: int| t.len() <= i < s.len() ==> crate::text::white(#[trigger] s[i])
            &&& t.len() > 0 ==> !crate::text::white(t.last())
        }),
    decreases s.len(),
{
    if s.len() > 0 && crate::text::white(s.last()) {
        law_trim_end(s.drop_last());
        let t = crate::text::trim_end(s);
        assert(t =~= s.take(t.len() as int));
        assert forall|i: int| t.len() <= i < s.len() implies crate::text::white(
            #[trigger] s[i],
        ) by {
            if i < s.len() - 1 {
                assert(s.drop_last()[i] == s[i]);
            }
        }
    } else {
        assert(s.take(s.len() as int) =~= s);
    }
}

/// What is left of a text without the white space before it: a suffix of the text that does not
/// begin with white space, and all that is missing is white space.
pub proof fn law_trim_start(s: Seq<char>)
    ensures
        ({
            let t = crate::text::trim_start(s);
            let cut = s.len() - t.len();
            &&& 0 <= cut
            &&& t == s.skip(cut)
            &&& forall|i: int| 0 <= i < cut ==> crate::text::white(#[trigger] s[i])
            &&& t.len() > 0 ==> !crate::text::white(t[0])
        }),
    decreases s.len(),
{
    if s.len() > 0 && crate::text::white(s[0]) {
        law_trim_start(s.drop_first());
        let t = crate::text::trim_start(s);
        let cut = s.len() - t.len();
        assert(t =~= s.skip(cut));
        assert forall|i: int| 0 <= i < cut implies crate::text::white(#[trigger] s[i]) by {
            if i > 0 {
                assert(s.drop_first()[i - 1] == s[i]);
            }
        }
    } else {
        assert(s.skip(0) =~= s);
    }
}

/// A trimmed text is what lies between the first and the last character that is not white
/// space, those two with it.
pub proof fn law_trim(s: Seq<char>, a: int, b: int)
    requires
        0 <= a <= b < s.len(),
        !crate::text::white(s[a]),
        !crate::text::white(s[b]),
        forall|i: int| 0 <= i < a ==> crate::text::white(#[trigger] s[i]),
        forall|i: int| b < i < s.len() ==> crate::text::white(#[trigger] s[i]),
    ensures
        crate::text::trim(s) == s.subrange(a, b + 1),
{
    let front = crate::text::trim_start(s);
    let t = crate::text::trim(s);
    law_trim_start(s);
    law_trim_end(front);
    let cut = s.len() - front.len();
    assert(cut <= a) by {
        if cut > a {
            assert(crate::text::white(s[a]));
        }
    }
    assert(front[0] == s[cut]);
    assert(cut == a);
    assert(front[b - cut] == s[b]);
    assert(b - cut < t.len());
    assert(t.last() == s[cut + t.len() - 1]);
    assert(t.len() == b + 1 - a);
    assert(t =~= s.subrange(a, b + 1));
}

/// A trimmed text is empty where and only where all of the text is white space.
pub proof fn law_trim_blank(s: Seq<char>)
    ensures
        crate::text::trim(s).len() == 0 <==> forall|i: int|
            0 <= i < s.len() ==> crate::text::white(#[trigger] s[i]),
{
    let front = crate::text::trim_start(s);
    let t = crate::text::trim(s);
    law_trim_start(s);
    law_trim_end(front);
    let cut = s.len() - front.len();
    if t.len() > 0 {
        assert(front[0] == s[cut]);
        assert(!crate::text::white(s[cut]));
    } else {
        assert forall|i: int| 0 <= i < s.len() implies crate::text::white(#[trigger] s[i]) by {
            if i >= cut {
                assert(front[i - cut] == s[i]);
            }
        }
    }
}

// ---------------------------------------------------------------------------
// searching and replacing
// ---------------------------------------------------------------------------

/// Whether a pattern is in a text from a place on.
pub open spec fn is_at(s: Seq<char>, pat: Seq<char>, i: int) -> bool {
    &&& 0 <= i
    &&& i + pat.len() <= s.len()
    &&& forall|k: int| 0 <= k < pat.len() ==> s[i + k] == #[trigger] pat[k]
}

proof fn lemma_is_at(s: Seq<char>, pat: Seq<char>, i: int)
    ensures
        crate::text::stands_at(s, pat, i) == is_at(s, pat, i),
{
    if 0 <= i && i + pat.len() <= s.len() {
        let cut = s.subrange(i, i + pat.len());
        if is_at(s, pat, i) {
            assert(cut =~= pat);
        }
        if cut == pat {
            assert forall|k: int| 0 <= k < pat.len() implies s[i + k] == #[trigger] pat[k] by {
                assert(cut[k] == s[i + k]);
            }
        }
    }
}

proof fn lemma_find_from(s: Seq<char>, pat: Seq<char>, from: int)
    requires
        0 <= from,
    ensures
        match crate::text::find_from(s, pat, from) {
            Some(i) => from <= i && is_at(s, pat, i) && forall|k: int|
                from <= k < i ==> !#[trigger] is_at(s, pat, k),
            None => forall|k: int| from <= k ==> !#[trigger] is_at(s, pat, k),
        },
    decreases s.len() + 1 - from,
{
    if from + pat.len() <= s.len() {
        lemma_is_at(s, pat, from);
        if !crate::text::stands_at(s, pat, from) {
            lemma_find_from(s, pat, from + 1);
        }
    }
}

/// A search finds the first place at which the pattern is, and fails only where it is nowhere.
pub proof fn law_find(s: Seq<char>, pat: Seq<char>)
    ensures
        match crate::text::find(s, pat) {
            Some(i) => is_at(s, pat, i) && forall|k: int| 0 <= k < i ==> !#[trigger] is_at(
                s,
                pat,
                k,
            ),
            None => forall|k: int| !#[trigger] is_at(s, pat, k),
        },
        crate::text::has_text(s, pat) <==> exists|k: int| #[trigger] is_at(s, pat, k),
{
    lemma_find_from(s, pat, 0);
    assert forall|k: int| k < 0 implies !#[trigger] is_at(s, pat, k) by {}
}

/// Replacing: a text without the pattern stays as it is; otherwise what stands before the first
/// place of the pattern stays, the pattern gives way to the other text, and what follows is
/// replaced in turn. A pattern replaced by itself leaves the text as it was.
pub proof fn law_replace_all(s: Seq<char>, pat: Seq<char>, with: Seq<char>)
    requires
        pat.len() > 0,
    ensures
        (forall|k: int| !#[trigger] is_at(s, pat, k)) ==> crate::text::replace_all(s, pat, with)
            == s,
        forall|i: int|
            #[trigger] is_at(s, pat, i) && (forall|k: int| 0 <= k < i ==> !#[trigger] is_at(s, pat, k))
                ==> crate::text::replace_all(s, pat, with) == s.take(i) + with
                + crate::text::replace_all(s.skip(i + pat.len()), pat, with),
        crate::text::replace_all(s, pat, pat) == s,
    decreases s.len(),
{
    law_find(s, pat);
    match crate::text::find(s, pat) {
        Some(at) => {
            let rest = s.skip(at + pat.len());
            law_replace_all(rest, pat, with);
            assert(crate::text::replace_all(s, pat, pat) == s.take(at) + pat + rest);
            assert(s.take(at) + pat + rest =~= s) by {
                assert forall|k: int| at <= k < at + pat.len() implies s[k] == (s.take(at) + pat
                    + rest)[k] by {
                    assert(s[at + (k - at)] == pat[k - at]);
                }
            }
            assert forall|i: int|
                #[trigger] is_at(s, pat, i) && (forall|k: int|
                    0 <= k < i ==> !#[trigger] is_at(s, pat, k)) implies i == at by {
                if i < at {
                    assert(!is_at(s, pat, i));
                }
                if at < i {
                    assert(!is_at(s, pat, at));
                }
            }
        },
        None => {},
    }
}

// ---------------------------------------------------------------------------
// lines and parts
// ---------------------------------------------------------------------------

/// Texts one behind the other.
pub open spec fn all_of(parts: Seq<Seq<char>>) -> Seq<char>
    decreases parts.len(),
{
    if parts.len() == 0 {
        Seq::empty()
    } else {
        parts[0] + all_of(parts.drop_first())
    }
}

/// Joining puts the separator between the texts and nowhere else: two lists joined make their
/// joint list, and a single text is joined to itself.
pub proof fn law_join(a: Seq<Seq<char>>, b: Seq<Seq<char>>, part: Seq<char>, between: Seq<char>)
    ensures
        a.len() > 0 && b.len() > 0 ==> crate::text::join_all(a + b, between)
            == crate::text::join_all(a, between) + between + crate::text::join_all(b, between),
        crate::text::join_all(seq![part], between) == part,
        crate::text::join_all(Seq::empty(), between).len() == 0,
    decreases b.len(),
{
    if a.len() > 0 && b.len() > 0 {
        assert((a + b).drop_last() =~= a + b.drop_last());
        assert((a + b).last() == b.last());
        if b.len() == 1 {
            assert(a + b.drop_last() =~= a);
        } else {
            law_join(a, b.drop_last(), part, between);
            assert(crate::text::join_all(a, between) + between + crate::text::join_all(
                b.drop_last(),
                between,
            ) + between + b.last() =~= crate::text::join_all(a, between) + between + (
            crate::text::join_all(b.drop_last(), between) + between + b.last()));
        }
    }
}

/// Splitting at a character: joined with that character again the parts are the text, and no
/// part has the character.
pub proof fn law_split(s: Seq<char>, c: char)
    ensures
        crate::text::split(s, c).len() > 0,
        crate::text::join_all(crate::text::split(s, c), seq![c]) == s,
        forall|k: int, i: int|
            0 <= k < crate::text::split(s, c).len() && 0 <= i < crate::text::split(s, c)[k].len()
                ==> #[trigger] crate::text::split(s, c)[k][i] != c,
    decreases s.len(),
{
    let p = crate::text::equal_to(c);
    let at = crate::seqs::first_index(s, p);
    crate::seqs::lemma_first_index_holds(s, p);
    let parts = crate::text::split(s, c);
    if 0 <= at < s.len() {
        let rest = s.skip(at + 1);
        law_split(rest, c);
        let tail = crate::text::split(rest, c);
        law_join(seq![s.take(at)], tail, s.take(at), seq![c]);
        assert(s =~= s.take(at) + seq![c] + rest);
        assert forall|k: int, i: int| 0 <= k < parts.len() && 0 <= i < parts[k].len() implies
            #[trigger] parts[k][i] != c by {
            if k > 0 {
                assert(parts[k] == tail[k - 1]);
                assert(tail[k - 1][i] != c);
            } else {
                assert(!p(s[i]));
            }
        }
    } else {
        law_join(parts, parts, s, seq![c]);
        assert forall|k: int, i: int| 0 <= k < parts.len() && 0 <= i < parts[k].len() implies
            #[trigger] parts[k][i] != c by {
            assert(!p(s[i]));
        }
    }
}

/// The lines of a text with their endings: one behind the other they are the text, none is
/// empty, a line feed is only ever the last character of a line, and every line but the last
/// ends in one.
pub proof fn law_lines_with_endings(s: Seq<char>)
    ensures
        ({
            let lines = crate::text::lines_with_endings(s);
            &&& all_of(lines) == s
            &&& forall|k: int| 0 <= k < lines.len() ==> (#[trigger] lines[k]).len() > 0
            &&& forall|k: int, i: int|
                0 <= k < lines.len() && 0 <= i < lines[k].len() - 1 ==> #[trigger] lines[k][i]
                    != '\n'
            &&& forall|k: int|
                0 <= k < lines.len() - 1 ==> (#[trigger] lines[k]).last() == '\n'
        }),
    decreases s.len(),
{
    let lines = crate::text::lines_with_endings(s);
    if s.len() > 0 {
        let p = crate::text::newline();
        crate::seqs::lemma_first_index_holds(s, p);
        let end = crate::text::line_end(s);
        let n = if end < s.len() {
            end + 1
        } else {
            s.len() as int
        };
        let rest = crate::text::lines_with_endings(s.skip(n));
        law_lines_with_endings(s.skip(n));
        assert(lines.drop_first() =~= rest);
        assert(lines[0] == s.take(n));
        assert(s.take(n) + s.skip(n) =~= s);
        assert forall|k: int, i: int|
            0 <= k < lines.len() && 0 <= i < lines[k].len() - 1 implies #[trigger] lines[k][i]
            != '\n' by {
            if k == 0 {
                assert(!p(s[i]));
            } else {
                assert(lines[k] == rest[k - 1]);
                assert(rest[k - 1][i] != '\n');
            }
        }
        assert forall|k: int| 0 <= k < lines.len() implies (#[trigger] lines[k]).len() > 0 by {
            if k > 0 {
                assert(lines[k] == rest[k - 1]);
            }
        }
        assert forall|k: int| 0 <= k < lines.len() - 1 implies (#[trigger] lines[k]).last()
            == '\n' by {
            if k > 0 {
                assert(lines[k] == rest[k - 1]);
            } else {
                assert(rest.len() > 0);
                if n == s.len() {
                    assert(s.skip(n) =~= Seq::empty());
                }
                assert(p(s[end]));
                assert(lines[0].last() == s[end]);
            }
        }
    }
}

/// The lines of a text are its lines with endings, each without the line feed that ended it and
/// a carriage return before that one; they have no line feed.
pub proof fn law_text_lines(s: Seq<char>)
    ensures
        ({
            let whole = crate::text::lines_with_endings(s);
            let lines = crate::text::text_lines(s);
            &&& lines.len() == whole.len()
            &&& forall|k: int|
                0 <= k < lines.len() ==> {
                    ||| whole[k] == #[trigger] lines[k] && whole[k].last() != '\n'
                    ||| whole[k] == lines[k] + seq!['\n'] && (lines[k].len() == 0
                        || lines[k].last() != '\r')
                    ||| whole[k] == lines[k] + seq!['\r', '\n']
                }
            &&& forall|k: int, i: int|
                0 <= k < lines.len() && 0 <= i < lines[k].len() ==> #[trigger] lines[k][i] != '\n'
        }),
{
    law_lines_with_endings(s);
    let whole = crate::text::lines_with_endings(s);
    let lines = crate::text::text_lines(s);
    assert forall|k: int| 0 <= k < lines.len() implies {
        ||| whole[k] == #[trigger] lines[k] && whole[k].last() != '\n'
        ||| whole[k] == lines[k] + seq!['\n'] && (lines[k].len() == 0 || lines[k].last() != '\r')
        ||| whole[k] == lines[k] + seq!['\r', '\n']
    } by {
        let line = whole[k];
        assert(line.len() > 0);
        if line.last() == '\n' {
            let body = line.drop_last();
            if body.len() > 0 && body.last() == '\r' {
                assert(line =~= lines[k] + seq!['\r', '\n']);
            } else {
                assert(line =~= lines[k] + seq!['\n']);
            }
        }
    }
    assert forall|k: int, i: int| 0 <= k < lines.len() && 0 <= i < lines[k].len() implies
        #[trigger] lines[k][i] != '\n' by {
        assert(whole[k].len() > 0);
        assert(lines[k][i] == whole[k][i]);
        if i == whole[k].len() - 1 {
            assert(whole[k] == lines[k]);
        }
    }
}

/// The letters in lower case: a text keeps its length, the letters A to Z become a to z, and
/// every other character stays.
pub proof fn law_lower_text(s: Seq<char>, i: int)
    requires
        0 <= i < s.len(),
    ensures
        crate::text::lower_text(s).len() == s.len(),
        'A' as int <= s[i] as int && s[i] as int <= 'Z' as int ==> crate::text::lower_text(
            s,
        )[i] as int - 'a' as int == s[i] as int - 'A' as int,
        !('A' as int <= s[i] as int && s[i] as int <= 'Z' as int) ==> crate::text::lower_text(s)[i]
            == s[i],
{
}

/// A path with a part appended ends in that part, begins with the path, and has one slash at
/// their seam where the path is not empty.
pub proof fn law_path_join(base: Seq<char>, rest: Seq<char>)
    ensures
        base.len() == 0 ==> crate::text::path_join(base, rest) == rest,
        base.len() > 0 && base.last() == '/' ==> crate::text::path_join(base, rest) == base + rest,
        base.len() > 0 && base.last() != '/' ==> crate::text::path_join(base, rest) == base
            + seq!['/'] + rest,
{
    reveal_strlit("/");
    assert("/"@ =~= seq!['/']);
}

} // verus!
