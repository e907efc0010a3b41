//! Text primitives: a string is reasoned about as its sequence of characters.

use vstd::prelude::*;

verus! {

/// `std::string::String::push`: the character is appended at the end.
pub assume_specification[ String::push ](s: &mut String, c: char)
    ensures
        final(s)@ == old(s)@.push(c),
;

/// Whether a character is Unicode white space: the characters with the White_Space property.
pub open spec fn white(c: char) -> bool {
    ||| '\u{9}' <= c <= '\u{d}'
    ||| c == ' '
    ||| c == '\u{85}'
    ||| c == '\u{a0}'
    ||| c == '\u{1680}'
    ||| '\u{2000}' <= c <= '\u{200a}'
    ||| c == '\u{2028}'
    ||| c == '\u{2029}'
    ||| c == '\u{202f}'
    ||| c == '\u{205f}'
    ||| c == '\u{3000}'
}

/// `char::is_whitespace`: whether the character has the White_Space property of Unicode, which
/// the characters of [`white`] have and no others.
#[verifier::external_body]
pub(crate) fn is_white(c: char) -> (r: bool)
    ensures
        r == white(c),
{
    c.is_whitespace()
}

/// The characters of a string, in order.
pub fn chars_of(s: &str) -> (r: Vec<char>)
    ensures
        r@ == s@,
{
    let mut out: Vec<char> = Vec::new();
    for c in iter: s.chars()
        invariant
            out@ == iter.seq().take(iter.index()),
            iter.seq() == s@,
    {
        out.push(c);
    }
    out
}

/// The string made of `chars`.
pub fn string_of(chars: &[char]) -> (r: String)
    ensures
        r@ == chars@,
{
    let mut out = String::new();
    let mut i: usize = 0;
    while i < chars.len()
        invariant
            i <= chars.len(),
            out@ == chars@.take(i as int),
        decreases chars.len() - i,
    {
        out.push(chars[i]);
        i = i + 1;
    }
    out
}

/// The views of the items of a sequence.
pub open spec fn views<T: View>(s: Seq<T>) -> Seq<T::V> {
    s.map_values(|x: T| x@)
}

/// The view of an optional value.
pub open spec fn opt_view<T: View>(o: Option<T>) -> Option<T::V> {
    match o {
        Some(x) => Some(x@),
        None => None,
    }
}

/// A value that can be copied so that the copy stands for the same thing.
pub trait Duplicate: View + Sized {
    fn duplicate(&self) -> (r: Self)
        ensures
            r@ == self@,
    ;
}

impl Duplicate for String {
    fn duplicate(&self) -> (r: Self) {
        self.clone()
    }
}

/// A copy of every item.
pub fn duplicate_all<T: Duplicate>(items: &Vec<T>) -> (r: Vec<T>)
    ensures
        views(r@) == views(items@),
{
    let mut out: Vec<T> = Vec::new();
    let mut i: usize = 0;
    while i < items.len()
        invariant
            i <= items.len(),
            views(out@) == views(items@.take(i as int)),
        decreases items.len() - i,
    {
        let copy = items[i].duplicate();
        proof {
            assert(items@.take(i + 1) =~= items@.take(i as int).push(items@[i as int]));
            assert(views(out@.push(copy)) =~= views(out@).push(copy@));
            assert(views(items@.take(i + 1)) =~= views(items@.take(i as int)).push(copy@));
        }
        out.push(copy);
        i = i + 1;
    }
    proof {
        assert(items@.take(i as int) =~= items@);
    }
    out
}

/// A copy of an optional value.
pub fn duplicate_opt<T: Duplicate>(item: &Option<T>) -> (r: Option<T>)
    ensures
        opt_view(r) == opt_view(*item),
{
    match item {
        Some(x) => Some(x.duplicate()),
        None => None,
    }
}

/// Whether two strings hold the same characters.
pub fn same(a: &str, b: &str) -> (r: bool)
    ensures
        r == (a@ == b@),
{
    a.to_owned() == b.to_owned()
}

/// `a` followed by `b`.
pub fn joined(a: &str, b: &str) -> (r: String)
    ensures
        r@ == a@ + b@,
{
    let mut out = a.to_owned();
    out.append(b);
    out
}

/// The decimal digit character of `d`.
pub open spec fn digit(d: nat) -> char {
    (48 + d) as char
}

/// The decimal notation of a natural number, without leading zeros.
pub open spec fn decimal(n: nat) -> Seq<char>
    decreases n,
{
    if n < 10 {
        seq![digit(n)]
    } else {
        decimal(n / 10).push(digit(n % 10))
    }
}

/// The decimal notation of an integer: a `-` sign before a negative one.
pub open spec fn int_decimal(n: int) -> Seq<char> {
    if n < 0 {
        seq!['-'] + decimal((-n) as nat)
    } else {
        decimal(n as nat)
    }
}

/// Appends the decimal notation of `n`.
fn push_decimal(out: &mut String, n: u64)
    ensures
        final(out)@ == old(out)@ + decimal(n as nat),
    decreases n,
{
    if n >= 10 {
        push_decimal(out, n / 10);
    }
    out.push((48u8 + (n % 10) as u8) as char);
}

/// The decimal notation of `n`.
pub fn u64_text(n: u64) -> (r: String)
    ensures
        r@ == decimal(n as nat),
{
    let mut out = String::new();
    push_decimal(&mut out, n);
    out
}

/// The decimal notation of `n`.
pub fn i64_text(n: i64) -> (r: String)
    ensures
        r@ == int_decimal(n as int),
{
    let mut out = String::new();
    if n < 0 {
        out.push('-');
        let m: u64 = if n == i64::MIN {
            9223372036854775808u64
        } else {
            (-n) as u64
        };
        push_decimal(&mut out, m);
    } else {
        push_decimal(&mut out, n as u64);
    }
    out
}

/// `s` without its leading white space.
pub open spec fn trim_start(s: Seq<char>) -> Seq<char>
    decreases s.len(),
{
    if s.len() > 0 && white(s[0]) {
        trim_start(s.drop_first())
    } else {
        s
    }
}

/// `s` without its trailing white space.
pub open spec fn trim_end(s: Seq<char>) -> Seq<char>
    decreases s.len(),
{
    if s.len() > 0 && white(s.last()) {
        trim_end(s.drop_last())
    } else {
        s
    }
}

/// `s` without its leading and trailing white space.
pub open spec fn trim(s: Seq<char>) -> Seq<char> {
    trim_end(trim_start(s))
}

/// The text without its leading and trailing white space.
pub fn trimmed(s: &str) -> (r: String)
    ensures
        r@ == trim(s@),
{
    let chars = chars_of(s);
    let mut start: usize = 0;
    proof {
        assert(chars@.skip(0) =~= chars@);
    }
    while start < chars.len() && is_white(chars[start])
        invariant
            start <= chars.len(),
            trim_start(chars@.skip(start as int)) == trim_start(chars@),
        decreases chars.len() - start,
    {
        proof {
            assert(chars@.skip(start as int).drop_first() =~= chars@.skip(start + 1));
        }
        start = start + 1;
    }
    let mut end: usize = chars.len();
    proof {
        assert(chars@.skip(start as int) =~= chars@.subrange(start as int, end as int));
    }
    while end > start && is_white(chars[end - 1])
        invariant
            start <= end <= chars.len(),
            trim_end(chars@.subrange(start as int, end as int)) == trim(chars@),
        decreases end,
    {
        proof {
            assert(chars@.subrange(start as int, end as int).drop_last()
                =~= chars@.subrange(start as int, end - 1));
        }
        end = end - 1;
    }
    let mut out = String::new();
    let mut i: usize = start;
    while i < end
        invariant
            start <= i <= end <= chars.len(),
            out@ == chars@.subrange(start as int, i as int),
        decreases end - i,
    {
        out.push(chars[i]);
        i = i + 1;
    }
    out
}

/// Whether `pat` stands in `s` at `i`.
pub open spec fn stands_at(s: Seq<char>, pat: Seq<char>, i: int) -> bool {
    0 <= i && i + pat.len() <= s.len() && s.subrange(i, i + pat.len()) == pat
}

/// The first place at or behind `i` at which `pat` stands in `s`.
pub open spec fn find_from(s: Seq<char>, pat: Seq<char>, i: int) -> Option<int>
    decreases s.len() + 1 - i,
{
    if i < 0 || i + pat.len() > s.len() {
        None
    } else if stands_at(s, pat, i) {
        Some(i)
    } else {
        find_from(s, pat, i + 1)
    }
}

/// The first place at which `pat` stands in `s`.
pub open spec fn find(s: Seq<char>, pat: Seq<char>) -> Option<int> {
    find_from(s, pat, 0)
}

/// Whether `pat` stands somewhere in `s`.
pub open spec fn has_text(s: Seq<char>, pat: Seq<char>) -> bool {
    find(s, pat) is Some
}

/// Whether `pat` stands in `s` at `i`.
fn stands(s: &Vec<char>, pat: &Vec<char>, i: usize) -> (r: bool)
    requires
        i + pat.len() <= s.len(),
    ensures
        r == stands_at(s@, pat@, i as int),
{
    let mut k: usize = 0;
    while k < pat.len()
        invariant
            k <= pat.len(),
            i + pat.len() <= s.len(),
            forall|j: int| 0 <= j < k ==> s@[i + j] == pat@[j],
        decreases pat.len() - k,
    {
        if s[i + k] != pat[k] {
            proof {
                assert(s@.subrange(i as int, i + pat@.len())[k as int] != pat@[k as int]);
            }
            return false;
        }
        k = k + 1;
    }
    proof {
        assert(s@.subrange(i as int, i + pat@.len()) =~= pat@);
    }
    true
}

/// The first place at which `pat` stands in `s`.
pub fn find_chars(s: &Vec<char>, pat: &str) -> (r: Option<usize>)
    ensures
        match r {
            Some(i) => find(s@, pat@) == Some(i as int) && i + pat@.len() <= s.len(),
            None => find(s@, pat@) is None,
        },
{
    let needle = chars_of(pat);
    if needle.len() > s.len() {
        return None;
    }
    let last = s.len() - needle.len();
    let mut i: usize = 0;
    while i <= last
        invariant
            needle@ == pat@,
            last == s.len() - needle.len(),
            i <= last + 1,
            find(s@, pat@) == find_from(s@, pat@, i as int),
        decreases last + 1 - i,
    {
        if stands(s, &needle, i) {
            return Some(i);
        }
        if i == last {
            return None;
        }
        i = i + 1;
    }
    None
}

/// Whether `pat` stands somewhere in `s`.
pub fn contains_text(s: &str, pat: &str) -> (r: bool)
    ensures
        r == has_text(s@, pat@),
{
    let chars = chars_of(s);
    find_chars(&chars, pat).is_some()
}

/// Whether `s` begins with `pat`.
pub fn begins_with(s: &str, pat: &str) -> (r: bool)
    ensures
        r == pat@.is_prefix_of(s@),
{
    let given = chars_of(s);
    let needle = chars_of(pat);
    if needle.len() > given.len() {
        return false;
    }
    let mut k: usize = 0;
    while k < needle.len()
        invariant
            given@ == s@,
            needle@ == pat@,
            k <= needle.len() <= given.len(),
            forall|j: int| 0 <= j < k ==> given@[j] == needle@[j],
        decreases needle.len() - k,
    {
        if given[k] != needle[k] {
            proof {
                assert(s@.subrange(0, pat@.len() as int)[k as int] != pat@[k as int]);
            }
            return false;
        }
        k = k + 1;
    }
    proof {
        assert(s@.subrange(0, pat@.len() as int) =~= pat@);
    }
    true
}

/// The characters of `chars` from `from` to `to`.
pub fn slice_text(chars: &Vec<char>, from: usize, to: usize) -> (r: String)
    requires
        from <= to <= chars@.len(),
    ensures
        r@ == chars@.subrange(from as int, to as int),
{
    let mut out = String::new();
    let mut i: usize = from;
    while i < to
        invariant
            from <= i <= to <= chars@.len(),
            out@ == chars@.subrange(from as int, i as int),
        decreases to - i,
    {
        out.push(chars[i]);
        i = i + 1;
    }
    out
}

/// A letter A to Z in lower case; any other character as it is.
pub open spec fn lower_ascii(c: char) -> char {
    if 'A' <= c <= 'Z' {
        (c as u32 + 32) as char
    } else {
        c
    }
}

/// A letter a to z in upper case; any other character as it is.
pub open spec fn upper_ascii(c: char) -> char {
    if 'a' <= c <= 'z' {
        (c as u32 - 32) as char
    } else {
        c
    }
}

/// The text with the letters A to Z in lower case.
pub open spec fn lower_text(s: Seq<char>) -> Seq<char> {
    s.map_values(|c: char| lower_ascii(c))
}

/// A letter A to Z in lower case.
pub fn to_lower(c: char) -> (r: char)
    ensures
        r == lower_ascii(c),
{
    if 'A' <= c && c <= 'Z' {
        ((c as u8) + 32) as char
    } else {
        c
    }
}

/// A letter a to z in upper case.
pub fn to_upper(c: char) -> (r: char)
    ensures
        r == upper_ascii(c),
{
    if 'a' <= c && c <= 'z' {
        ((c as u8) - 32) as char
    } else {
        c
    }
}

/// The text with the letters A to Z in lower case.
pub fn lowered(s: &str) -> (r: String)
    ensures
        r@ == lower_text(s@),
{
    let chars = chars_of(s);
    let mut out = String::new();
    let mut i: usize = 0;
    while i < chars.len()
        invariant
            i <= chars.len(),
            out@ == lower_text(chars@.take(i as int)),
        decreases chars.len() - i,
    {
        out.push(to_lower(chars[i]));
        i = i + 1;
        proof {
            assert(out@ =~= lower_text(chars@.take(i as int)));
        }
    }
    proof {
        assert(chars@.take(i as int) =~= chars@);
    }
    out
}

/// The value of a hexadecimal digit.
pub open spec fn hex_digit(c: char) -> Option<u8> {
    if '0' <= c <= '9' {
        Some((c as u32 - 48) as u8)
    } else if 'a' <= c <= 'f' {
        Some((c as u32 - 87) as u8)
    } else if 'A' <= c <= 'F' {
        Some((c as u32 - 55) as u8)
    } else {
        None
    }
}

/// The value of a hexadecimal digit.
pub fn hex_value(c: char) -> (r: Option<u8>)
    ensures
        r == hex_digit(c),
        r matches Some(v) ==> v < 16,
{
    if '0' <= c && c <= '9' {
        Some((c as u8) - 48)
    } else if 'a' <= c && c <= 'f' {
        Some((c as u8) - 87)
    } else if 'A' <= c && c <= 'F' {
        Some((c as u8) - 55)
    } else {
        None
    }
}

/// Whether every character is a decimal digit.
pub open spec fn all_digits(s: Seq<char>) -> bool {
    forall|i: int| 0 <= i < s.len() ==> '0' <= #[trigger] s[i] <= '9'
}

/// The number that decimal digits stand for.
pub open spec fn digits_value(s: Seq<char>) -> nat
    decreases s.len(),
{
    if s.len() == 0 {
        0
    } else {
        digits_value(s.drop_last()) * 10 + (s.last() as u32 - 48) as nat
    }
}

/// The number that a text stands for: decimal digits, with a `+` before them or not, at
/// most `max`.
pub open spec fn unsigned_value(s: Seq<char>, max: nat) -> Option<nat> {
    let digits = if s.len() > 0 && s[0] == '+' {
        s.drop_first()
    } else {
        s
    };
    if digits.len() > 0 && all_digits(digits) && digits_value(digits) <= max {
        Some(digits_value(digits))
    } else {
        None
    }
}

proof fn lemma_digits_grow(s: Seq<char>, n: int)
    requires
        0 <= n <= s.len(),
    ensures
        digits_value(s.take(n)) <= digits_value(s),
    decreases s.len() - n,
{
    if n < s.len() {
        lemma_digits_grow(s, n + 1);
        assert(s.take(n + 1).drop_last() =~= s.take(n));
    } else {
        assert(s.take(n) =~= s);
    }
}

/// The number that a text stands for, at most `max`.
pub fn parse_unsigned(s: &str, max: u64) -> (r: Option<u64>)
    ensures
        match r {
            Some(n) => unsigned_value(s@, max as nat) == Some(n as nat),
            None => unsigned_value(s@, max as nat) is None,
        },
{
    let chars = chars_of(s);
    let start: usize = if chars.len() > 0 && chars[0] == '+' {
        1
    } else {
        0
    };
    let ghost digits = s@.skip(start as int);
    proof {
        if start == 1 {
            assert(digits =~= s@.drop_first());
        } else {
            assert(digits =~= s@);
        }
    }
    if start == chars.len() {
        return None;
    }
    let mut value: u64 = 0;
    let mut i: usize = start;
    proof {
        assert(digits.take(0) =~= Seq::empty());
    }
    while i < chars.len()
        invariant
            start <= i <= chars.len(),
            chars@ == s@,
            digits == chars@.skip(start as int),
            unsigned_value(s@, max as nat) == (if digits.len() > 0 && all_digits(digits)
                && digits_value(digits) <= max {
                Some(digits_value(digits))
            } else {
                None
            }),
            value <= max,
            value == digits_value(digits.take(i - start)),
            forall|k: int| 0 <= k < i - start ==> '0' <= #[trigger] digits[k] <= '9',
        decreases chars.len() - i,
    {
        let c = chars[i];
        proof {
            assert(digits[i - start] == c);
            assert(digits.take(i + 1 - start).drop_last() =~= digits.take(i - start));
        }
        if c < '0' || '9' < c {
            return None;
        }
        let next: u128 = (value as u128) * 10 + ((c as u8) - 48) as u128;
        if next > max as u128 {
            proof {
                lemma_digits_grow(digits, i + 1 - start);
            }
            return None;
        }
        value = next as u64;
        i = i + 1;
    }
    proof {
        assert(digits.take(i - start) =~= digits);
    }
    Some(value)
}

/// The text with `with` in place of every `pat`, from left to right, without overlap.
pub open spec fn replace_all(s: Seq<char>, pat: Seq<char>, with: Seq<char>) -> Seq<char>
    decreases s.len(),
{
    if pat.len() == 0 {
        s
    } else {
        match find(s, pat) {
            Some(i) => if 0 <= i && i + pat.len() <= s.len() {
                s.take(i) + with + replace_all(s.skip(i + pat.len()), pat, with)
            } else {
                s
            },
            None => s,
        }
    }
}

/// The text with `with` in place of every `pat`.
pub fn replaced(s: &str, pat: &str, with: &str) -> (r: String)
    requires
        pat@.len() > 0,
    ensures
        r@ == replace_all(s@, pat@, with@),
{
    let mut rest = chars_of(s);
    let mut out = String::new();
    proof {
        assert(out@ + replace_all(rest@, pat@, with@) =~= replace_all(s@, pat@, with@));
    }
    loop
        invariant
            pat@.len() > 0,
            replace_all(s@, pat@, with@) == out@ + replace_all(rest@, pat@, with@),
        decreases rest@.len(),
    {
        match find_chars(&rest, pat) {
            None => {
                out.append(slice_text(&rest, 0, rest.len()).as_str());
                proof {
                    assert(rest@.subrange(0, rest@.len() as int) =~= rest@);
                }
                return out;
            },
            Some(i) => {
                let n = chars_of(pat).len();
                let ghost before = out@;
                out.append(slice_text(&rest, 0, i).as_str());
                out.append(with);
                let tail = slice_text(&rest, i + n, rest.len());
                proof {
                    assert(rest@.subrange(0, i as int) =~= rest@.take(i as int));
                    assert(rest@.subrange(i + n, rest@.len() as int) =~= rest@.skip(i + n));
                    let later = replace_all(rest@.skip(i + n), pat@, with@);
                    assert(before + (rest@.take(i as int) + with@ + later) =~= out@ + later);
                }
                rest = chars_of(tail.as_str());
            },
        }
    }
}

/// A path with `rest` appended as its last part.
pub open spec fn path_join(base: Seq<char>, rest: Seq<char>) -> Seq<char> {
    if base.len() == 0 {
        rest
    } else if base.last() == '/' {
        base + rest
    } else {
        base + "/"@ + rest
    }
}

/// A path with `rest` appended as its last part.
pub fn join_path(base: &str, rest: &str) -> (r: String)
    ensures
        r@ == path_join(base@, rest@),
{
    let chars = chars_of(base);
    if chars.len() == 0 {
        rest.to_owned()
    } else if chars[chars.len() - 1] == '/' {
        joined(base, rest)
    } else {
        let mut out = joined(base, "/");
        out.append(rest);
        out
    }
}

/// Whether a character ends a line.
pub open spec fn newline() -> spec_fn(char) -> bool {
    |c: char| c == '\n'
}

/// Where the first line of a text ends, its line feed not counted.
pub open spec fn line_end(s: Seq<char>) -> int {
    crate::seqs::first_index(s, newline())
}

/// The lines of a text, each with the line feed that ends it.
pub open spec fn lines_with_endings(s: Seq<char>) -> Seq<Seq<char>>
    decreases s.len(),
{
    if s.len() == 0 {
        Seq::empty()
    } else {
        let n = if line_end(s) < s.len() {
            line_end(s) + 1
        } else {
            s.len() as int
        };
        proof {
            crate::seqs::lemma_first_index_holds(s, newline());
        }
        seq![s.take(n)] + lines_with_endings(s.skip(n))
    }
}

/// A line without its line feed.
pub open spec fn without_newline(line: Seq<char>) -> Seq<char> {
    if line.len() > 0 && line.last() == '\n' {
        line.drop_last()
    } else {
        line
    }
}

/// A line without its line feed and the carriage return before that.
pub open spec fn without_ending(line: Seq<char>) -> Seq<char> {
    let body = without_newline(line);
    if body.len() < line.len() && body.len() > 0 && body.last() == '\r' {
        body.drop_last()
    } else {
        body
    }
}

/// The lines of a text, without their endings.
pub open spec fn text_lines(s: Seq<char>) -> Seq<Seq<char>> {
    lines_with_endings(s).map_values(|l: Seq<char>| without_ending(l))
}

/// The lines of a text, without their line feeds.
pub open spec fn raw_lines(s: Seq<char>) -> Seq<Seq<char>> {
    lines_with_endings(s).map_values(|l: Seq<char>| without_newline(l))
}

/// The lines of a text, each with the line feed that ends it.
pub fn split_endings(s: &str) -> (r: Vec<String>)
    ensures
        views(r@) == lines_with_endings(s@),
{
    let chars = chars_of(s);
    let mut out: Vec<String> = Vec::new();
    let mut start: usize = 0;
    proof {
        assert(chars@.skip(0) =~= chars@);
        assert(views(out@) + lines_with_endings(chars@) =~= lines_with_endings(chars@));
    }
    while start < chars.len()
        invariant
            start <= chars.len(),
            views(out@) + lines_with_endings(chars@.skip(start as int)) == lines_with_endings(
                chars@,
            ),
        decreases chars.len() - start,
    {
        let ghost rest = chars@.skip(start as int);
        let mut end: usize = start;
        while end < chars.len() && chars[end] != '\n'
            invariant
                start <= end <= chars.len(),
                rest == chars@.skip(start as int),
                forall|k: int| 0 <= k < end - start ==> !newline()(#[trigger] rest[k]),
            decreases chars.len() - end,
        {
            end = end + 1;
        }
        proof {
            crate::seqs::lemma_first_index(rest, newline(), end - start);
        }
        if end < chars.len() {
            end = end + 1;
        }
        let line = slice_text(&chars, start, end);
        proof {
            assert(rest.take(end - start) =~= line@);
            assert(rest.skip(end - start) =~= chars@.skip(end as int));
            assert(views(out@.push(line)) =~= views(out@).push(line@));
            assert(views(out@).push(line@) + lines_with_endings(chars@.skip(end as int))
                =~= views(out@) + (seq![line@] + lines_with_endings(chars@.skip(end as int))));
        }
        out.push(line);
        start = end;
    }
    proof {
        assert(views(out@) + lines_with_endings(chars@.skip(start as int)) =~= views(out@));
    }
    out
}

/// A line without its line feed.
pub fn strip_newline(line: &str) -> (r: String)
    ensures
        r@ == without_newline(line@),
{
    let chars = chars_of(line);
    if chars.len() > 0 && chars[chars.len() - 1] == '\n' {
        slice_text(&chars, 0, chars.len() - 1)
    } else {
        line.to_owned()
    }
}

/// A line without its line feed and the carriage return before that.
pub fn strip_ending(line: &str) -> (r: String)
    ensures
        r@ == without_ending(line@),
{
    let chars = chars_of(line);
    if chars.len() > 0 && chars[chars.len() - 1] == '\n' {
        if chars.len() > 1 && chars[chars.len() - 2] == '\r' {
            let r = slice_text(&chars, 0, chars.len() - 2);
            proof {
                assert(r@ =~= without_ending(line@));
            }
            r
        } else {
            slice_text(&chars, 0, chars.len() - 1)
        }
    } else {
        line.to_owned()
    }
}

/// The lines of a text, without their endings.
pub fn lines_of(s: &str) -> (r: Vec<String>)
    ensures
        views(r@) == text_lines(s@),
{
    let whole = split_endings(s);
    let mut out: Vec<String> = Vec::new();
    let mut i: usize = 0;
    while i < whole.len()
        invariant
            i <= whole.len(),
            out.len() == i,
            forall|k: int| 0 <= k < i ==> (#[trigger] out@[k])@ == without_ending(whole@[k]@),
        decreases whole.len() - i,
    {
        out.push(strip_ending(whole[i].as_str()));
        i = i + 1;
    }
    proof {
        assert forall|k: int| 0 <= k < out.len() implies #[trigger] views(out@)[k] == text_lines(
            s@,
        )[k] by {
            assert(views(whole@)[k] == whole@[k]@);
        }
        assert(text_lines(s@).len() == views(whole@).len());
        assert(views(out@) =~= text_lines(s@));
    }
    out
}

/// The lines of a text, without their line feeds.
pub fn raw_lines_of(s: &str) -> (r: Vec<String>)
    ensures
        views(r@) == raw_lines(s@),
{
    let whole = split_endings(s);
    let mut out: Vec<String> = Vec::new();
    let mut i: usize = 0;
    while i < whole.len()
        invariant
            i <= whole.len(),
            out.len() == i,
            forall|k: int| 0 <= k < i ==> (#[trigger] out@[k])@ == without_newline(whole@[k]@),
        decreases whole.len() - i,
    {
        out.push(strip_newline(whole[i].as_str()));
        i = i + 1;
    }
    proof {
        assert forall|k: int| 0 <= k < out.len() implies #[trigger] views(out@)[k] == raw_lines(
            s@,
        )[k] by {
            assert(views(whole@)[k] == whole@[k]@);
        }
        assert(raw_lines(s@).len() == views(whole@).len());
        assert(views(out@) =~= raw_lines(s@));
    }
    out
}

/// Whether a character is a given one.
pub open spec fn equal_to(c: char) -> spec_fn(char) -> bool {
    |x: char| x == c
}

/// The parts of a text between the occurrences of a character: at least one.
pub open spec fn split(s: Seq<char>, c: char) -> Seq<Seq<char>>
    decreases s.len(),
{
    let i = crate::seqs::first_index(s, equal_to(c));
    if 0 <= i < s.len() {
        seq![s.take(i)] + split(s.skip(i + 1), c)
    } else {
        seq![s]
    }
}

/// The parts of a text between the occurrences of a character: at least one.
pub fn split_text(s: &str, c: char) -> (r: Vec<String>)
    ensures
        views(r@) == split(s@, c),
        r@.len() >= 1,
{
    let chars = chars_of(s);
    let mut out: Vec<String> = Vec::new();
    let mut start: usize = 0;
    proof {
        assert(chars@.skip(0) =~= chars@);
        assert(views(out@) + split(chars@, c) =~= split(chars@, c));
    }
    loop
        invariant
            start <= chars.len(),
            views(out@) + split(chars@.skip(start as int), c) == split(chars@, c),
            chars@ == s@,
        decreases chars.len() - start,
    {
        let ghost rest = chars@.skip(start as int);
        let mut end: usize = start;
        while end < chars.len() && chars[end] != c
            invariant
                start <= end <= chars.len(),
                rest == chars@.skip(start as int),
                forall|k: int| 0 <= k < end - start ==> !equal_to(c)(#[trigger] rest[k]),
            decreases chars.len() - end,
        {
            end = end + 1;
        }
        proof {
            crate::seqs::lemma_first_index(rest, equal_to(c), end - start);
        }
        let part = slice_text(&chars, start, end);
        proof {
            assert(part@ =~= rest.take(end - start));
            assert(views(out@.push(part)) =~= views(out@).push(part@));
        }
        if end < chars.len() {
            proof {
                assert(rest.skip(end - start + 1) =~= chars@.skip(end + 1));
                assert(views(out@).push(part@) + split(chars@.skip(end + 1), c) =~= views(out@) + (
                seq![part@] + split(chars@.skip(end + 1), c)));
            }
            out.push(part);
            start = end + 1;
        } else {
            proof {
                assert(part@ =~= rest);
                assert(views(out@).push(part@) =~= views(out@) + seq![rest]);
            }
            out.push(part);
            return out;
        }
    }
}

/// Whether a character is upper case, as `char::is_uppercase` decides.
pub uninterp spec fn upper_case(c: char) -> bool;

/// `char::is_uppercase`: the Uppercase property of the character. The capital letters of ASCII
/// have it, and no other ASCII character has.
#[verifier::external_body]
pub(crate) fn is_upper_case(c: char) -> (r: bool)
    ensures
        r == upper_case(c),
        c < '\u{80}' ==> r == ('A' <= c && c <= 'Z'),
{
    c.is_uppercase()
}

/// A text without its trailing white space.
pub fn trimmed_end(s: &str) -> (r: String)
    ensures
        r@ == trim_end(s@),
{
    let chars = chars_of(s);
    let mut end: usize = chars.len();
    proof {
        assert(chars@.take(end as int) =~= chars@);
    }
    while end > 0 && is_white(chars[end - 1])
        invariant
            end <= chars@.len(),
            trim_end(chars@.take(end as int)) == trim_end(chars@),
        decreases end,
    {
        proof {
            assert(chars@.take(end as int).drop_last() =~= chars@.take(end - 1));
            assert(chars@.take(end as int).last() == chars@[end - 1]);
        }
        end = end - 1;
    }
    let r = slice_text(&chars, 0, end);
    proof {
        assert(r@ =~= chars@.take(end as int));
        if end > 0 {
            assert(r@.last() == chars@[end - 1]);
        }
    }
    r
}

/// The upper case of a character, as `char::to_uppercase` gives it: one character or several.
pub uninterp spec fn upper_forms(c: char) -> Seq<char>;

/// `char::to_uppercase`: the upper case of the character, by the tables of Unicode. Of an ASCII
/// character it is one: the capital of a letter `a` to `z`, any other character itself.
#[verifier::external_body]
pub(crate) fn to_upper_case(c: char) -> (r: String)
    ensures
        r@ == upper_forms(c),
        c < '\u{80}' ==> r@ == seq![
            if 'a' <= c && c <= 'z' {
                (c as u8 - 32) as char
            } else {
                c
            },
        ],
{
    c.to_uppercase().to_string()
}

/// Texts one behind the other, with a separator between them.
pub open spec fn join_all(parts: Seq<Seq<char>>, between: Seq<char>) -> Seq<char>
    decreases parts.len(),
{
    if parts.len() == 0 {
        Seq::empty()
    } else if parts.len() == 1 {
        parts[0]
    } else {
        join_all(parts.drop_last(), between) + between + parts.last()
    }
}

/// Texts one behind the other, with a separator between them.
pub fn join_texts(parts: &Vec<String>, between: &str) -> (r: String)
    ensures
        r@ == join_all(views(parts@), between@),
{
    let mut out = String::new();
    let ghost all = views(parts@);
    let mut i: usize = 0;
    proof {
        assert(out@ =~= join_all(all.take(0), between@));
    }
    while i < parts.len()
        invariant
            i <= parts@.len(),
            all == views(parts@),
            out@ == join_all(all.take(i as int), between@),
        decreases parts.len() - i,
    {
        proof {
            assert(all.take(i + 1).drop_last() =~= all.take(i as int));
            assert(all.take(i + 1).last() == parts@[i as int]@);
        }
        if i > 0 {
            out.append(between);
        }
        out.append(parts[i].as_str());
        proof {
            if i == 0 {
                assert(out@ =~= parts@[0]@);
            }
        }
        i = i + 1;
    }
    proof {
        assert(all.take(i as int) =~= all);
    }
    out
}

/// The length of a text in bytes of UTF-8.
pub open spec fn byte_count(s: Seq<char>) -> usize {
    vstd::utf8::encode_utf8(s).len() as usize
}

/// The length of a text in bytes of UTF-8.
pub fn bytes_of(s: &str) -> (r: usize)
    ensures
        r == byte_count(s@),
{
    s.len()
}

/// The digits of a number stand for it.
pub proof fn lemma_decimal_value(n: nat)
    ensures
        digits_value(decimal(n)) == n,
        all_digits(decimal(n)),
        decimal(n).len() > 0,
    decreases n,
{
    let s = decimal(n);
    if n < 10 {
        assert(s.drop_last() =~= Seq::empty());
        assert(digits_value(s.drop_last()) == 0);
    } else {
        lemma_decimal_value(n / 10);
        assert(s.drop_last() =~= decimal(n / 10));
        assert forall|i: int| 0 <= i < s.len() implies '0' <= #[trigger] s[i] <= '9' by {
            if i < s.len() - 1 {
                assert(s[i] == decimal(n / 10)[i]);
            }
        }
    }
}

} // verus!
