//! What themes and their detection promise, whatever they are read from.

use vstd::prelude::*;

use crate::render::style::Color;
use crate::theme::detect::ColorMode;
use crate::theme::{ThemeTomlView, ThemeView};

verus! {

/// A hexadecimal digit in lower case.
pub open spec fn hex_char(d: int) -> char {
    if d < 10 {
        (48 + d) as char
    } else {
        (87 + d) as char
    }
}

/// A byte as two hexadecimal digits.
pub open spec fn hex_text(n: u8) -> Seq<char> {
    seq![hex_char(n as int / 16), hex_char(n as int % 16)]
}

proof fn lemma_hex(n: u8)
    ensures
        crate::text::hex_digit(hex_char(n as int / 16)) == Some((n as int / 16) as u8),
        crate::text::hex_digit(hex_char(n as int % 16)) == Some((n as int % 16) as u8),
        crate::theme::hex_pair(hex_char(n as int / 16), hex_char(n as int % 16)) == n,
        crate::theme::detect::hex_pair(hex_char(n as int / 16), hex_char(n as int % 16)) == n,
        !crate::text::white(hex_char(n as int / 16)),
        !crate::text::white(hex_char(n as int % 16)),
{
}

/// A color is read back from its hexadecimal notation, each channel from its own two digits.
pub proof fn law_color_read_back(r: u8, g: u8, b: u8)
    ensures
        crate::theme::hex_color(seq!['#'] + hex_text(r) + hex_text(g) + hex_text(b)) == Some(
            Color::Rgb(r, g, b),
        ),
{
    lemma_hex(r);
    lemma_hex(g);
    lemma_hex(b);
    let s = seq!['#'] + hex_text(r) + hex_text(g) + hex_text(b);
    assert(s.len() == 7);
    assert(!crate::text::white(s[0]));
    assert(s[6] == hex_char(b as int % 16));
    crate::text_laws::law_trim(s, 0, 6);
    assert(s.subrange(0, 7) =~= s);
    assert forall|i: int| 1 <= i < 7 implies crate::text::hex_digit(#[trigger] s[i]) is Some by {
        assert(s[1] == hex_char(r as int / 16) && s[2] == hex_char(r as int % 16));
        assert(s[3] == hex_char(g as int / 16) && s[4] == hex_char(g as int % 16));
        assert(s[5] == hex_char(b as int / 16) && s[6] == hex_char(b as int % 16));
    }
}

/// A text that is not a number sign and six hexadecimal digits, with white space around it or
/// not, is no color.
pub proof fn law_no_color(text: Seq<char>, at: int)
    ensures
        crate::text::trim(text).len() != 7 ==> crate::theme::hex_color(text) is None,
        crate::text::trim(text).len() == 7 && crate::text::trim(text)[0] != '#'
            ==> crate::theme::hex_color(text) is None,
        crate::text::trim(text).len() == 7 && 1 <= at < 7 && crate::text::hex_digit(
            crate::text::trim(text)[at],
        ) is None ==> crate::theme::hex_color(text) is None,
{
}

proof fn lemma_good_roles(roles: Seq<(Seq<char>, Seq<char>)>)
    ensures
        crate::theme::first_bad_role(roles) is None ==> forall|i: int|
            0 <= i < roles.len() ==> crate::theme::hex_color((#[trigger] roles[i]).1) is Some,
        crate::theme::first_bad_role(roles) is Some ==> exists|i: int|
            0 <= i < roles.len() && crate::theme::hex_color((#[trigger] roles[i]).1) is None,
    decreases roles.len(),
{
    if roles.len() > 0 && crate::theme::hex_color(roles[0].1) is Some {
        let rest = roles.drop_first();
        lemma_good_roles(rest);
        if crate::theme::first_bad_role(roles) is None {
            assert forall|i: int| 0 <= i < roles.len() implies crate::theme::hex_color(
                (#[trigger] roles[i]).1,
            ) is Some by {
                if i > 0 {
                    assert(rest[i - 1] == roles[i]);
                }
            }
        } else {
            let i = choose|i: int|
                0 <= i < rest.len() && crate::theme::hex_color((#[trigger] rest[i]).1) is None;
            assert(roles[i + 1] == rest[i]);
        }
    }
}

/// A theme that is read has the color of each role from that role's own text. A panel without a
/// color of its own has that of the background, a border that of muted text, and user messages
/// have none.
pub proof fn law_theme_roles(raw: ThemeTomlView, t: ThemeView)
    requires
        crate::theme::read_theme(raw) is Ok,
        crate::theme::read_theme(raw)->Ok_0 == t,
    ensures
        t.name == raw.name,
        Some(t.accent) == crate::theme::hex_color(raw.accent),
        Some(t.muted) == crate::theme::hex_color(raw.muted),
        Some(t.error) == crate::theme::hex_color(raw.error),
        Some(t.warning) == crate::theme::hex_color(raw.warning),
        Some(t.success) == crate::theme::hex_color(raw.success),
        Some(t.code) == crate::theme::hex_color(raw.code),
        Some(t.bg) == crate::theme::hex_color(raw.bg),
        Some(t.text) == crate::theme::hex_color(raw.text),
        raw.panel_bg matches Some(v) ==> Some(t.panel_bg) == crate::theme::hex_color(v),
        raw.panel_bg is None ==> t.panel_bg == t.bg,
        raw.border matches Some(v) ==> Some(t.border) == crate::theme::hex_color(v),
        raw.border is None ==> t.border == t.muted,
        raw.user_bg matches Some(v) ==> t.user_bg == crate::theme::hex_color(v),
        raw.user_bg is None ==> t.user_bg is None,
{
    let all = crate::theme::roles(raw);
    lemma_good_roles(all);
    assert(all[0].1 == raw.accent && all[1].1 == raw.muted && all[2].1 == raw.error && all[3].1
        == raw.warning && all[4].1 == raw.success && all[5].1 == raw.code && all[6].1 == raw.bg
        && all[7].1 == raw.text);
    let p: int = if raw.panel_bg is Some {
        1
    } else {
        0
    };
    let b: int = if raw.border is Some {
        1
    } else {
        0
    };
    if raw.panel_bg is Some {
        assert(all[8].1 == raw.panel_bg->0);
    }
    if raw.border is Some {
        assert(all[8 + p].1 == raw.border->0);
    }
    if raw.user_bg is Some {
        assert(all[8 + p + b].1 == raw.user_bg->0);
    }
}

/// A document gives each role the text that stands under the role's own name.
pub proof fn law_theme_texts(entries: Seq<crate::theme::TomlEntryView>)
    ensures
        ({
            let raw = crate::theme::theme_texts(entries);
            let said = |name: Seq<char>, text: Seq<char>|
                crate::theme::text_at(entries, name) is Some ==> crate::theme::text_at(entries, name)
                    == Some(text);
            &&& said("name"@, raw.name)
            &&& said("accent"@, raw.accent)
            &&& said("muted"@, raw.muted)
            &&& said("error"@, raw.error)
            &&& said("warning"@, raw.warning)
            &&& said("success"@, raw.success)
            &&& said("code"@, raw.code)
            &&& said("bg"@, raw.bg)
            &&& said("text"@, raw.text)
            &&& raw.panel_bg == crate::theme::text_at(entries, "panel_bg"@)
            &&& raw.border == crate::theme::text_at(entries, "border"@)
            &&& raw.user_bg == crate::theme::text_at(entries, "user_bg"@)
        }),
{
}

// ---------------------------------------------------------------------------
// light and dark
// ---------------------------------------------------------------------------

/// A gray background is light from the middle on; black is dark and white is light.
pub proof fn law_gray_scheme(n: u8)
    ensures
        crate::theme::detect::scheme_of((n, n, n)) == (if n >= 128 {
            ColorMode::Light
        } else {
            ColorMode::Dark
        }),
{
}

/// A brighter background is never darker: where a color counts as light, one that has as much of
/// every channel or more does too.
pub proof fn law_brighter_is_lighter(a: (u8, u8, u8), b: (u8, u8, u8))
    requires
        a.0 <= b.0,
        a.1 <= b.1,
        a.2 <= b.2,
        crate::theme::detect::scheme_of(a) == ColorMode::Light,
    ensures
        crate::theme::detect::scheme_of(b) == ColorMode::Light,
{
}

/// Green counts most for how light a background is, then red, then blue.
pub proof fn law_channels_weigh(n: u8)
    ensures
        crate::theme::detect::scheme_of((n, 0, 0)) == ColorMode::Light
            ==> crate::theme::detect::scheme_of((0, n, 0)) == ColorMode::Light,
        crate::theme::detect::scheme_of((0, 0, n)) == ColorMode::Light
            ==> crate::theme::detect::scheme_of((n, 0, 0)) == ColorMode::Light,
        crate::theme::detect::scheme_of((0, 255, 0)) == ColorMode::Light,
        crate::theme::detect::scheme_of((255, 0, 255)) == ColorMode::Dark,
{
}

proof fn lemma_hex_prefix(s: Seq<char>, n: nat)
    requires
        n <= s.len(),
        forall|i: int| 0 <= i < n ==> crate::text::hex_digit(#[trigger] s[i]) is Some,
        n < s.len() ==> crate::text::hex_digit(s[n as int]) is None,
    ensures
        crate::theme::detect::hex_prefix(s) == n,
    decreases n,
{
    if n > 0 {
        let rest = s.drop_first();
        assert forall|i: int| 0 <= i < n - 1 implies crate::text::hex_digit(#[trigger] rest[i])
            is Some by {
            assert(rest[i] == s[i + 1]);
        }
        assert(crate::text::hex_digit(s[0]) is Some);
        lemma_hex_prefix(rest, (n - 1) as nat);
    }
}

/// A channel of a report is the byte of its first two digits, whether it has two digits or four.
pub proof fn law_channel(n: u8, low: u8, rest: Seq<char>)
    requires
        rest.len() > 0 ==> crate::text::hex_digit(rest[0]) is None,
    ensures
        crate::theme::detect::channel(hex_text(n) + rest) == Some(n),
        crate::theme::detect::channel(hex_text(n) + hex_text(low) + rest) == Some(n),
{
    lemma_hex(n);
    lemma_hex(low);
    let two = hex_text(n) + rest;
    let four = hex_text(n) + hex_text(low) + rest;
    assert(two[0] == hex_char(n as int / 16) && two[1] == hex_char(n as int % 16));
    assert(four[0] == hex_char(n as int / 16) && four[1] == hex_char(n as int % 16));
    assert(four[2] == hex_char(low as int / 16) && four[3] == hex_char(low as int % 16));
    lemma_hex_prefix(two, 2);
    lemma_hex_prefix(four, 4);
}

/// The environment tells the scheme by the name of the desktop's theme first, and else by the
/// last field of the terminal's colors: below the middle of the palette is dark.
pub proof fn law_environment(theme: Seq<char>, fields: Seq<char>, n: nat)
    requires
        n <= 255,
    ensures
        crate::text::has_text(theme, ":dark"@) ==> crate::theme::detect::environment_signal(
            Some(theme),
            Some(fields),
        ) == Some(ColorMode::Dark),
        crate::text::has_text(theme, ":light"@) && !crate::text::has_text(theme, ":dark"@)
            ==> crate::theme::detect::environment_signal(Some(theme), Some(fields)) == Some(
            ColorMode::Light,
        ),
        crate::theme::detect::environment_signal(
            None,
            Some(fields + seq![';'] + crate::text::decimal(n)),
        ) == Some(
            if n < 128 {
                ColorMode::Dark
            } else {
                ColorMode::Light
            },
        ),
        crate::theme::detect::environment_signal(None, None) is None,
{
    crate::text_laws::law_decimal(n);
    crate::text_laws::law_number_read_back(n, 255);
    lemma_last_field(fields + seq![';'], crate::text::decimal(n));
}

proof fn lemma_last_field(front: Seq<char>, field: Seq<char>)
    requires
        front.len() > 0,
        front.last() == ';',
        forall|i: int| 0 <= i < field.len() ==> #[trigger] field[i] != ';',
    ensures
        crate::theme::detect::last_field(front + field) == field,
    decreases field.len(),
{
    let all = front + field;
    if field.len() == 0 {
        assert(all =~= front);
        assert(field =~= Seq::empty());
    } else {
        let less = field.drop_last();
        assert forall|i: int| 0 <= i < less.len() implies #[trigger] less[i] != ';' by {
            assert(less[i] == field[i]);
        }
        lemma_last_field(front, less);
        assert(all.drop_last() =~= front + less);
        assert(field[field.len() - 1] != ';');
        assert(all.last() == field.last());
        assert(less.push(field.last()) =~= field);
    }
}

} // verus!
