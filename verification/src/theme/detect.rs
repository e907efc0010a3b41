//! Light or dark: the terminal's background color, then environment signals, then desktop
//! settings. The first layer that says something decides.

use vstd::prelude::*;

use crate::text::{chars_of, contains_text, find_chars, hex_value, parse_unsigned, same, slice_text, trimmed};

verus! {

/// A color scheme.
#[derive(Debug, Clone, Copy, PartialEq, Eq, Structural)]
pub enum ColorMode {
    Light,
    Dark,
}

/// `std::str::from_utf8`: the text that the bytes encode, where they are valid UTF-8.
#[verifier::external_body]
pub(crate) fn utf8_text(bytes: &[u8]) -> (r: Option<String>)
    ensures
        match r {
            Some(text) => vstd::utf8::valid_utf8(bytes@) && text@ == vstd::utf8::decode_utf8(
                bytes@,
            ),
            None => !vstd::utf8::valid_utf8(bytes@),
        },
{
    std::str::from_utf8(bytes).ok().map(str::to_owned)
}

/// The number of hexadecimal digits that a text begins with.
pub open spec fn hex_prefix(s: Seq<char>) -> nat
    decreases s.len(),
{
    if s.len() > 0 && crate::text::hex_digit(s[0]) is Some {
        1 + hex_prefix(s.drop_first())
    } else {
        0
    }
}

/// The byte of two hexadecimal digits.
pub open spec fn hex_pair(a: char, b: char) -> u8 {
    (crate::text::hex_digit(a)->0 * 16 + crate::text::hex_digit(b)->0) as u8
}

/// A color channel: two hexadecimal digits, or four of which the first two count. What
/// follows the digits does not matter.
pub open spec fn channel(s: Seq<char>) -> Option<u8> {
    if hex_prefix(s) == 2 || hex_prefix(s) == 4 {
        Some(hex_pair(s[0], s[1]))
    } else {
        None
    }
}

/// What stands behind the first `/`.
pub open spec fn behind_slash(s: Seq<char>) -> Option<Seq<char>> {
    match crate::text::find(s, "/"@) {
        Some(i) => Some(s.skip(i + 1)),
        None => None,
    }
}

/// The color of an `rgb:` notation: three channels with a `/` between them.
pub open spec fn rgb_form(s: Seq<char>) -> Option<(u8, u8, u8)> {
    match (channel(s), behind_slash(s)) {
        (Some(r), Some(rest)) => match (channel(rest), behind_slash(rest)) {
            (Some(g), Some(last)) => match channel(last) {
                Some(b) => Some((r, g, b)),
                None => None,
            },
            _ => None,
        },
        _ => None,
    }
}

/// The color of a `#` notation: six hexadecimal digits.
pub open spec fn hash_form(s: Seq<char>) -> Option<(u8, u8, u8)> {
    if s.len() >= 6 && hex_prefix(s) >= 6 {
        Some((hex_pair(s[0], s[1]), hex_pair(s[2], s[3]), hex_pair(s[4], s[5])))
    } else {
        None
    }
}

/// The color that a text reports: behind the first `rgb:`, else behind the first `#`.
pub open spec fn reported_color(text: Seq<char>) -> Option<(u8, u8, u8)> {
    match crate::text::find(text, "rgb:"@) {
        Some(i) => rgb_form(text.skip(i + 4)),
        None => match crate::text::find(text, "#"@) {
            Some(i) => hash_form(text.skip(i + 1)),
            None => None,
        },
    }
}

/// The color that the bytes of an OSC 11 reply report.
pub open spec fn osc11_color(bytes: Seq<u8>) -> Option<(u8, u8, u8)> {
    if vstd::utf8::valid_utf8(bytes) {
        reported_color(vstd::utf8::decode_utf8(bytes))
    } else {
        None
    }
}

proof fn lemma_hex_prefix(s: Seq<char>, n: int)
    requires
        0 <= n <= s.len(),
        forall|k: int| 0 <= k < n ==> crate::text::hex_digit(#[trigger] s[k]) is Some,
        n < s.len() ==> crate::text::hex_digit(s[n]) is None,
    ensures
        hex_prefix(s) == n,
    decreases s.len(),
{
    if n > 0 {
        let rest = s.drop_first();
        assert forall|k: int| 0 <= k < n - 1 implies crate::text::hex_digit(
            #[trigger] rest[k],
        ) is Some by {
            assert(rest[k] == s[k + 1]);
        }
        lemma_hex_prefix(rest, n - 1);
    }
}

proof fn lemma_hex_prefix_holds(s: Seq<char>)
    ensures
        hex_prefix(s) <= s.len(),
        forall|k: int| 0 <= k < hex_prefix(s) ==> crate::text::hex_digit(#[trigger] s[k]) is Some,
    decreases s.len(),
{
    if s.len() > 0 && crate::text::hex_digit(s[0]) is Some {
        let rest = s.drop_first();
        lemma_hex_prefix_holds(rest);
        assert forall|k: int| 0 <= k < hex_prefix(s) implies crate::text::hex_digit(
            #[trigger] s[k],
        ) is Some by {
            if k > 0 {
                assert(rest[k - 1] == s[k]);
            }
        }
    }
}

/// The number of hexadecimal digits that `chars` has at `from`.
fn count_hex(chars: &Vec<char>, from: usize) -> (r: usize)
    requires
        from <= chars.len(),
    ensures
        r == hex_prefix(chars@.skip(from as int)),
        from + r <= chars.len(),
        forall|k: int| from <= k < from + r ==> crate::text::hex_digit(#[trigger] chars@[k]) is Some,
{
    let mut i: usize = from;
    let ghost s = chars@.skip(from as int);
    while i < chars.len()
        invariant
            from <= i <= chars.len(),
            s == chars@.skip(from as int),
            forall|k: int| from <= k < i ==> crate::text::hex_digit(#[trigger] chars@[k]) is Some,
        decreases chars.len() - i,
    {
        match hex_value(chars[i]) {
            Some(_) => {},
            None => {
                proof {
                    assert(s[i - from] == chars@[i as int]);
                    lemma_hex_prefix(s, i - from);
                }
                return i - from;
            },
        }
        i = i + 1;
    }
    proof {
        lemma_hex_prefix(s, i - from);
    }
    i - from
}

/// The byte of two hexadecimal digits.
fn pair_value(a: char, b: char) -> (r: u8)
    requires
        crate::text::hex_digit(a) is Some,
        crate::text::hex_digit(b) is Some,
    ensures
        r == hex_pair(a, b),
{
    let high = match hex_value(a) {
        Some(v) => v,
        None => 0,
    };
    let low = match hex_value(b) {
        Some(v) => v,
        None => 0,
    };
    high * 16 + low
}

/// The color channel that `chars` has at `from`.
fn channel_at(chars: &Vec<char>, from: usize) -> (r: Option<u8>)
    requires
        from <= chars.len(),
    ensures
        r == channel(chars@.skip(from as int)),
{
    let n = count_hex(chars, from);
    if n == 2 || n == 4 {
        proof {
            assert(chars@.skip(from as int)[0] == chars@[from as int]);
            assert(chars@.skip(from as int)[1] == chars@[from + 1]);
        }
        Some(pair_value(chars[from], chars[from + 1]))
    } else {
        None
    }
}

/// The characters from `from` on.
fn rest_of(chars: &Vec<char>, from: usize) -> (r: Vec<char>)
    requires
        from <= chars.len(),
    ensures
        r@ == chars@.skip(from as int),
{
    let text = slice_text(chars, from, chars.len());
    proof {
        assert(chars@.subrange(from as int, chars@.len() as int) =~= chars@.skip(from as int));
    }
    chars_of(text.as_str())
}

fn parse_rgb_form(chars: &Vec<char>) -> (r: Option<(u8, u8, u8)>)
    ensures
        r == rgb_form(chars@),
{
    proof {
        reveal_strlit("/");
        assert(chars@.skip(0) =~= chars@);
    }
    let red = match channel_at(chars, 0) {
        Some(v) => v,
        None => return None,
    };
    let green_part = match find_chars(chars, "/") {
        Some(i) => rest_of(chars, i + 1),
        None => return None,
    };
    proof {
        assert(green_part@.skip(0) =~= green_part@);
    }
    let green = match channel_at(&green_part, 0) {
        Some(v) => v,
        None => return None,
    };
    let blue_part = match find_chars(&green_part, "/") {
        Some(i) => rest_of(&green_part, i + 1),
        None => return None,
    };
    proof {
        assert(blue_part@.skip(0) =~= blue_part@);
    }
    match channel_at(&blue_part, 0) {
        Some(blue) => Some((red, green, blue)),
        None => None,
    }
}

fn parse_hash_form(chars: &Vec<char>) -> (r: Option<(u8, u8, u8)>)
    ensures
        r == hash_form(chars@),
{
    proof {
        assert(chars@.skip(0) =~= chars@);
    }
    let n = count_hex(chars, 0);
    if n >= 6 {
        Some(
            (
                pair_value(chars[0], chars[1]),
                pair_value(chars[2], chars[3]),
                pair_value(chars[4], chars[5]),
            ),
        )
    } else {
        proof {
            lemma_hex_prefix_holds(chars@);
        }
        None
    }
}

/// The color that an OSC 11 reply reports. The notations are `rgb:RRRR/GGGG/BBBB` (the
/// first two digits of a channel count), `rgb:RR/GG/BB` and `#RRGGBB`; what stands before
/// and behind them is ignored. Anything else is no reply.
pub fn parse_osc11_response(bytes: &[u8]) -> (r: Option<(u8, u8, u8)>)
    ensures
        r == osc11_color(bytes@),
{
    let text = match utf8_text(bytes) {
        Some(text) => text,
        None => return None,
    };
    let chars = chars_of(text.as_str());
    proof {
        reveal_strlit("rgb:");
        reveal_strlit("#");
    }
    match find_chars(&chars, "rgb:") {
        Some(i) => parse_rgb_form(&rest_of(&chars, i + 4)),
        None => match find_chars(&chars, "#") {
            Some(i) => parse_hash_form(&rest_of(&chars, i + 1)),
            None => None,
        },
    }
}

/// The scheme of a background color: light where its relative luminance (ITU-R BT.709,
/// `0.2126 R + 0.7152 G + 0.0722 B` with the channels between 0 and 1) is at least one
/// half.
pub open spec fn scheme_of(rgb: (u8, u8, u8)) -> ColorMode {
    if 2 * (2126 * rgb.0 + 7152 * rgb.1 + 722 * rgb.2) >= 10000 * 255 {
        ColorMode::Light
    } else {
        ColorMode::Dark
    }
}

/// The scheme of a background color.
pub fn classify(rgb: (u8, u8, u8)) -> (r: ColorMode)
    ensures
        r == scheme_of(rgb),
{
    let weighted: u32 = 2126 * rgb.0 as u32 + 7152 * rgb.1 as u32 + 722 * rgb.2 as u32;
    if 2 * weighted >= 2550000 {
        ColorMode::Light
    } else {
        ColorMode::Dark
    }
}

/// What a theme name says: a `:dark` or a `:light` in it.
pub open spec fn theme_name_signal(theme: Seq<char>) -> Option<ColorMode> {
    if crate::text::has_text(theme, ":dark"@) {
        Some(ColorMode::Dark)
    } else if crate::text::has_text(theme, ":light"@) {
        Some(ColorMode::Light)
    } else {
        None
    }
}

/// What stands behind the last `;`, the whole text where there is none.
pub open spec fn last_field(s: Seq<char>) -> Seq<char>
    decreases s.len(),
{
    if s.len() == 0 || s.last() == ';' {
        Seq::empty()
    } else {
        last_field(s.drop_last()).push(s.last())
    }
}

/// What `COLORFGBG` says: the last field is the background, dark below 128.
pub open spec fn colorfgbg_signal(value: Seq<char>) -> Option<ColorMode> {
    match crate::text::unsigned_value(last_field(value), 255) {
        Some(n) => Some(
            if n < 128 {
                ColorMode::Dark
            } else {
                ColorMode::Light
            },
        ),
        None => None,
    }
}

/// What the environment says: `GTK_THEME` first, then `COLORFGBG`.
pub open spec fn environment_signal(gtk_theme: Option<Seq<char>>, colorfgbg: Option<Seq<char>>) -> Option<
    ColorMode,
> {
    let by_theme = match gtk_theme {
        Some(theme) => theme_name_signal(theme),
        None => None,
    };
    match by_theme {
        Some(mode) => Some(mode),
        None => match colorfgbg {
            Some(value) => colorfgbg_signal(value),
            None => None,
        },
    }
}

/// What the name of the desktop theme says.
pub fn desktop_signal(theme: &str) -> (r: Option<ColorMode>)
    ensures
        r == theme_name_signal(theme@),
{
    if contains_text(theme, ":dark") {
        Some(ColorMode::Dark)
    } else if contains_text(theme, ":light") {
        Some(ColorMode::Light)
    } else {
        None
    }
}

/// What the interface style of a desktop says: `Dark` is dark, anything else says nothing.
pub fn interface_style_signal(style: &str) -> (r: Option<ColorMode>)
    ensures
        r == (if crate::text::trim(style@) == "Dark"@ {
            Some(ColorMode::Dark)
        } else {
            None
        }),
{
    if same(trimmed(style).as_str(), "Dark") {
        Some(ColorMode::Dark)
    } else {
        None
    }
}

/// The last `;`-separated field.
fn field_behind(value: &str) -> (r: String)
    ensures
        r@ == last_field(value@),
{
    let chars = chars_of(value);
    let ghost all = chars@;
    let mut start: usize = chars.len();
    proof {
        assert(all.take(start as int) =~= all);
        assert(last_field(all) + Seq::<char>::empty() =~= last_field(all));
        assert(all.skip(start as int) =~= Seq::empty());
    }
    while start > 0 && chars[start - 1] != ';'
        invariant
            start <= chars.len(),
            all == chars@,
            last_field(all) == last_field(all.take(start as int)) + all.skip(start as int),
        decreases start,
    {
        proof {
            let s = all.take(start as int);
            assert(s.last() == all[start - 1]);
            assert(s.drop_last() =~= all.take(start - 1));
            assert(last_field(all.take(start - 1)).push(s.last()) + all.skip(start as int)
                =~= last_field(all.take(start - 1)) + all.skip(start - 1));
        }
        start = start - 1;
    }
    proof {
        let s = all.take(start as int);
        if start > 0 {
            assert(s.last() == all[start - 1]);
        }
        assert(last_field(s) =~= Seq::empty());
        assert(Seq::<char>::empty() + all.skip(start as int) =~= all.subrange(
            start as int,
            all.len() as int,
        ));
    }
    slice_text(&chars, start, chars.len())
}

/// What the environment says, by the values of `GTK_THEME` and `COLORFGBG`.
pub fn env_signal(gtk_theme: Option<&str>, colorfgbg: Option<&str>) -> (r: Option<ColorMode>)
    ensures
        r == environment_signal(
            crate::text::opt_view(gtk_theme),
            crate::text::opt_view(colorfgbg),
        ),
{
    match gtk_theme {
        Some(theme) => match desktop_signal(theme) {
            Some(mode) => return Some(mode),
            None => {},
        },
        None => {},
    }
    match colorfgbg {
        Some(value) => match parse_unsigned(field_behind(value).as_str(), 255) {
            Some(n) => Some(
                if n < 128 {
                    ColorMode::Dark
                } else {
                    ColorMode::Light
                },
            ),
            None => None,
        },
        None => None,
    }
}

/// The scheme: the terminal's background decides, then the environment, then the desktop;
/// nothing where none of them says anything.
pub fn detect_color_mode(
    background: Option<(u8, u8, u8)>,
    environment: Option<ColorMode>,
    desktop: Option<ColorMode>,
) -> (r: Option<ColorMode>)
    ensures
        r == (match (background, environment) {
            (Some(rgb), _) => Some(scheme_of(rgb)),
            (None, Some(mode)) => Some(mode),
            (None, None) => desktop,
        }),
{
    match background {
        Some(rgb) => Some(classify(rgb)),
        None => match environment {
            Some(mode) => Some(mode),
            None => desktop,
        },
    }
}

/// What to do after a byte of a reply to the background query.
#[derive(Debug, Clone, Copy, PartialEq, Eq)]
pub enum PollStep {
    /// Read on.
    More,
    /// This is no reply: stop.
    Abort,
    /// The reply is complete.
    Done(Option<(u8, u8, u8)>),
}

/// Whether a reply is complete: a BEL stands in it, or it ends in `ESC \`.
pub open spec fn reply_ended(reply: Seq<u8>) -> bool {
    reply.contains(0x07) || (reply.len() >= 2 && reply[reply.len() - 2] == 0x1b && reply.last()
        == 0x5c)
}

/// What to do after `byte` came behind `reply`: only `ESC ]` may begin a reply.
pub open spec fn poll_step(reply: Seq<u8>, byte: u8) -> PollStep {
    if reply.len() == 0 && byte != 0x1b || reply.len() == 1 && byte != 0x5d {
        PollStep::Abort
    } else if reply_ended(reply.push(byte)) {
        PollStep::Done(osc11_color(reply.push(byte)))
    } else {
        PollStep::More
    }
}

/// Takes one byte of a reply to the background query.
pub fn take_reply_byte(reply: &mut Vec<u8>, byte: u8) -> (r: PollStep)
    ensures
        r == poll_step(old(reply)@, byte),
        final(reply)@ == (if r == PollStep::Abort {
            old(reply)@
        } else {
            old(reply)@.push(byte)
        }),
{
    if reply.len() == 0 && byte != 0x1b || reply.len() == 1 && byte != 0x5d {
        return PollStep::Abort;
    }
    reply.push(byte);
    let n = reply.len();
    let mut bell = false;
    let mut i: usize = 0;
    while i < reply.len()
        invariant
            i <= reply.len(),
            bell == exists|k: int| 0 <= k < i && reply@[k] == 0x07,
        decreases reply.len() - i,
    {
        if reply[i] == 0x07 {
            bell = true;
        }
        i = i + 1;
    }
    let ended = bell || (n >= 2 && reply[n - 2] == 0x1b && reply[n - 1] == 0x5c);
    if ended {
        PollStep::Done(parse_osc11_response(reply.as_slice()))
    } else {
        PollStep::More
    }
}

} // verus!
