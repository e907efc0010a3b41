//! Themes: semantic colors, the registry of palettes, key bindings and configuration.

pub mod detect;
pub mod document_laws;
pub mod key_laws;
pub mod keymap;
pub mod theme_laws;

use serde::de::IgnoredAny;
use toml::de::ValueDeserializer;
use vstd::prelude::*;

use crate::render::style::Color;
use crate::text::{
    bytes_of, chars_of, hex_value, join_path, joined, same, slice_text, trimmed, Duplicate,
};
use crate::theme::keymap::Keymap;

verus! {

/// A theme: a color for each semantic role.
#[derive(Debug, PartialEq, Eq)]
pub struct Theme {
    pub name: String,
    pub accent: Color,
    pub muted: Color,
    pub error: Color,
    pub warning: Color,
    pub success: Color,
    pub code: Color,
    pub bg: Color,
    pub text: Color,
    /// The fill of panels, a shade of `bg`.
    pub panel_bg: Color,
    pub border: Color,
    /// The tint behind what the user wrote; `None` leaves it flat.
    pub user_bg: Option<Color>,
}

/// What a [`Theme`] stands for.
#[verifier::ext_equal]
pub struct ThemeView {
    pub name: Seq<char>,
    pub accent: Color,
    pub muted: Color,
    pub error: Color,
    pub warning: Color,
    pub success: Color,
    pub code: Color,
    pub bg: Color,
    pub text: Color,
    pub panel_bg: Color,
    pub border: Color,
    pub user_bg: Option<Color>,
}

impl View for Theme {
    type V = ThemeView;

    open spec fn view(&self) -> ThemeView {
        ThemeView {
            name: self.name@,
            accent: self.accent,
            muted: self.muted,
            error: self.error,
            warning: self.warning,
            success: self.success,
            code: self.code,
            bg: self.bg,
            text: self.text,
            panel_bg: self.panel_bg,
            border: self.border,
            user_bg: self.user_bg,
        }
    }
}

impl Duplicate for Theme {
    fn duplicate(&self) -> (r: Self) {
        Theme {
            name: self.name.clone(),
            accent: self.accent,
            muted: self.muted,
            error: self.error,
            warning: self.warning,
            success: self.success,
            code: self.code,
            bg: self.bg,
            text: self.text,
            panel_bg: self.panel_bg,
            border: self.border,
            user_bg: self.user_bg,
        }
    }
}

impl Clone for Theme {
    fn clone(&self) -> (r: Self)
        ensures
            r@ == self@,
    {
        self.duplicate()
    }
}

/// The theme that follows the terminal: no role has a color of its own.
pub open spec fn following_theme() -> ThemeView {
    ThemeView {
        name: "default"@,
        accent: Color::Reset,
        muted: Color::Reset,
        error: Color::Reset,
        warning: Color::Reset,
        success: Color::Reset,
        code: Color::Reset,
        bg: Color::Reset,
        text: Color::Reset,
        panel_bg: Color::Reset,
        border: Color::Reset,
        user_bg: None,
    }
}

impl Default for Theme {
    /// The theme that follows the terminal.
    fn default() -> (r: Self)
        ensures
            r@ == following_theme(),
    {
        Theme {
            name: "default".to_owned(),
            accent: Color::Reset,
            muted: Color::Reset,
            error: Color::Reset,
            warning: Color::Reset,
            success: Color::Reset,
            code: Color::Reset,
            bg: Color::Reset,
            text: Color::Reset,
            panel_bg: Color::Reset,
            border: Color::Reset,
            user_bg: None,
        }
    }
}

/// Why a theme or the configuration could not be had.
#[derive(Debug, PartialEq, Eq)]
pub enum ThemeError {
    Invalid(String),
    Config(String),
}

/// What a [`ThemeError`] stands for.
pub enum ThemeErrorView {
    Invalid(Seq<char>),
    Config(Seq<char>),
}

impl View for ThemeError {
    type V = ThemeErrorView;

    open spec fn view(&self) -> ThemeErrorView {
        match *self {
            ThemeError::Invalid(reason) => ThemeErrorView::Invalid(reason@),
            ThemeError::Config(reason) => ThemeErrorView::Config(reason@),
        }
    }
}

impl ThemeError {
    /// The error in words.
    pub fn message(&self) -> (r: String)
        ensures
            r@ == (match self@ {
                ThemeErrorView::Invalid(reason) => "invalid theme: "@ + reason,
                ThemeErrorView::Config(reason) => "config error: "@ + reason,
            }),
    {
        match self {
            ThemeError::Invalid(reason) => joined("invalid theme: ", reason.as_str()),
            ThemeError::Config(reason) => joined("config error: ", reason.as_str()),
        }
    }
}

/// The number of two hexadecimal digits.
pub open spec fn hex_pair(high: char, low: char) -> u8 {
    (crate::text::hex_digit(high)->0 * 16 + crate::text::hex_digit(low)->0) as u8
}

/// The color that `#rrggbb` stands for, white space around it ignored; the shorthand of three
/// digits stands for none.
pub open spec fn hex_color(hex: Seq<char>) -> Option<Color> {
    let s = crate::text::trim(hex);
    if s.len() == 7 && s[0] == '#' && (forall|i: int|
        1 <= i < 7 ==> crate::text::hex_digit(#[trigger] s[i]) is Some) {
        Some(Color::Rgb(hex_pair(s[1], s[2]), hex_pair(s[3], s[4]), hex_pair(s[5], s[6])))
    } else {
        None
    }
}

/// Why a text is no color.
pub open spec fn hex_reason(hex: Seq<char>) -> Seq<char> {
    "`"@ + crate::text::trim(hex) + "`: expected #rrggbb"@
}

fn pair(high: char, low: char) -> (r: u8)
    requires
        crate::text::hex_digit(high) is Some,
        crate::text::hex_digit(low) is Some,
    ensures
        r == hex_pair(high, low),
{
    match (hex_value(high), hex_value(low)) {
        (Some(h), Some(l)) => h * 16 + l,
        _ => 0,
    }
}

/// Parse `#rrggbb`; the error names the text.
pub fn parse_hex(hex: &str) -> (r: Result<Color, String>)
    ensures
        match r {
            Ok(color) => hex_color(hex@) == Some(color),
            Err(reason) => hex_color(hex@) is None && reason@ == hex_reason(hex@),
        },
{
    let s = trimmed(hex);
    let chars = chars_of(s.as_str());
    let mut good = chars.len() == 7 && chars[0] == '#';
    let mut i: usize = 1;
    while good && i < 7
        invariant
            1 <= i <= 7,
            good ==> chars@.len() == 7 && chars@[0] == '#',
            good ==> forall|k: int| 1 <= k < i ==> crate::text::hex_digit(#[trigger] chars@[k]) is Some,
            !good ==> chars@.len() != 7 || chars@[0] != '#' || exists|k: int|
                1 <= k < 7 && crate::text::hex_digit(#[trigger] chars@[k]) is None,
        decreases 7 - i + (if good { 1int } else { 0int }),
    {
        if hex_value(chars[i]).is_none() {
            good = false;
        } else {
            i = i + 1;
        }
    }
    if good {
        Ok(Color::Rgb(pair(chars[1], chars[2]), pair(chars[3], chars[4]), pair(chars[5], chars[6])))
    } else {
        let mut reason = joined("`", s.as_str());
        reason.append("`: expected #rrggbb");
        Err(reason)
    }
}

/// The text of a theme document: the name and a color for each role.
#[derive(Debug)]
pub struct ThemeToml {
    pub name: String,
    pub accent: String,
    pub muted: String,
    pub error: String,
    pub warning: String,
    pub success: String,
    pub code: String,
    pub bg: String,
    pub text: String,
    pub panel_bg: Option<String>,
    pub border: Option<String>,
    pub user_bg: Option<String>,
}

/// What a [`ThemeToml`] stands for.
#[verifier::ext_equal]
pub struct ThemeTomlView {
    pub name: Seq<char>,
    pub accent: Seq<char>,
    pub muted: Seq<char>,
    pub error: Seq<char>,
    pub warning: Seq<char>,
    pub success: Seq<char>,
    pub code: Seq<char>,
    pub bg: Seq<char>,
    pub text: Seq<char>,
    pub panel_bg: Option<Seq<char>>,
    pub border: Option<Seq<char>>,
    pub user_bg: Option<Seq<char>>,
}

impl View for ThemeToml {
    type V = ThemeTomlView;

    open spec fn view(&self) -> ThemeTomlView {
        ThemeTomlView {
            name: self.name@,
            accent: self.accent@,
            muted: self.muted@,
            error: self.error@,
            warning: self.warning@,
            success: self.success@,
            code: self.code@,
            bg: self.bg@,
            text: self.text@,
            panel_bg: crate::text::opt_view(self.panel_bg),
            border: crate::text::opt_view(self.border),
            user_bg: crate::text::opt_view(self.user_bg),
        }
    }
}

/// Why a role of a theme has no color.
pub open spec fn role_error(name: Seq<char>, role: Seq<char>, value: Seq<char>) -> ThemeErrorView {
    ThemeErrorView::Invalid("theme `"@ + name + "` "@ + role + ": "@ + hex_reason(value))
}

/// The roles of a theme with their texts, in the order in which they are read.
pub open spec fn roles(raw: ThemeTomlView) -> Seq<(Seq<char>, Seq<char>)> {
    let required = seq![
        ("accent"@, raw.accent),
        ("muted"@, raw.muted),
        ("error"@, raw.error),
        ("warning"@, raw.warning),
        ("success"@, raw.success),
        ("code"@, raw.code),
        ("bg"@, raw.bg),
        ("text"@, raw.text),
    ];
    let panel = match raw.panel_bg {
        Some(v) => seq![("panel_bg"@, v)],
        None => Seq::empty(),
    };
    let border = match raw.border {
        Some(v) => seq![("border"@, v)],
        None => Seq::empty(),
    };
    let user = match raw.user_bg {
        Some(v) => seq![("user_bg"@, v)],
        None => Seq::empty(),
    };
    required + panel + border + user
}

/// The first role whose text is no color.
pub open spec fn first_bad_role(roles: Seq<(Seq<char>, Seq<char>)>) -> Option<
    (Seq<char>, Seq<char>),
>
    decreases roles.len(),
{
    if roles.len() == 0 {
        None
    } else if hex_color(roles[0].1) is None {
        Some(roles[0])
    } else {
        first_bad_role(roles.drop_first())
    }
}

/// The theme of a document whose texts are all colors. The fill of panels falls back to `bg`,
/// the border to `muted`, the tint to none.
pub open spec fn theme_of(raw: ThemeTomlView) -> ThemeView {
    ThemeView {
        name: raw.name,
        accent: hex_color(raw.accent)->0,
        muted: hex_color(raw.muted)->0,
        error: hex_color(raw.error)->0,
        warning: hex_color(raw.warning)->0,
        success: hex_color(raw.success)->0,
        code: hex_color(raw.code)->0,
        bg: hex_color(raw.bg)->0,
        text: hex_color(raw.text)->0,
        panel_bg: match raw.panel_bg {
            Some(v) => hex_color(v)->0,
            None => hex_color(raw.bg)->0,
        },
        border: match raw.border {
            Some(v) => hex_color(v)->0,
            None => hex_color(raw.muted)->0,
        },
        user_bg: match raw.user_bg {
            Some(v) => Some(hex_color(v)->0),
            None => None,
        },
    }
}

/// The theme of a document, or why there is none.
pub open spec fn read_theme(raw: ThemeTomlView) -> Result<ThemeView, ThemeErrorView> {
    match first_bad_role(roles(raw)) {
        Some((role, value)) => Err(role_error(raw.name, role, value)),
        None => Ok(theme_of(raw)),
    }
}

/// The outcome of reading a theme, as what it stands for.
pub open spec fn outcome(r: Result<Theme, ThemeError>) -> Result<ThemeView, ThemeErrorView> {
    match r {
        Ok(t) => Ok(t@),
        Err(e) => Err(e@),
    }
}

fn role_color(name: &str, role: &str, value: &str) -> (r: Result<Color, ThemeError>)
    ensures
        match r {
            Ok(color) => hex_color(value@) == Some(color),
            Err(e) => hex_color(value@) is None && e@ == role_error(name@, role@, value@),
        },
{
    match parse_hex(value) {
        Ok(color) => Ok(color),
        Err(reason) => {
            let mut text = joined("theme `", name);
            text.append("` ");
            text.append(role);
            text.append(": ");
            text.append(reason.as_str());
            Err(ThemeError::Invalid(text))
        },
    }
}

proof fn lemma_bad_role(all: Seq<(Seq<char>, Seq<char>)>, n: int)
    requires
        0 <= n <= all.len(),
        forall|i: int| 0 <= i < n ==> hex_color((#[trigger] all[i]).1) is Some,
        n < all.len() ==> hex_color(all[n].1) is None,
    ensures
        first_bad_role(all) == (if n < all.len() {
            Some(all[n])
        } else {
            None
        }),
    decreases n,
{
    if n > 0 {
        let rest = all.drop_first();
        assert forall|i: int| 0 <= i < n - 1 implies hex_color((#[trigger] rest[i]).1) is Some by {
            assert(rest[i] == all[i + 1]);
        }
        lemma_bad_role(rest, n - 1);
    }
}

proof fn lemma_all_good(all: Seq<(Seq<char>, Seq<char>)>)
    requires
        first_bad_role(all) is None,
    ensures
        forall|i: int| 0 <= i < all.len() ==> hex_color((#[trigger] all[i]).1) is Some,
    decreases all.len(),
{
    if all.len() > 0 {
        let rest = all.drop_first();
        lemma_all_good(rest);
        assert forall|i: int| 0 <= i < all.len() implies hex_color((#[trigger] all[i]).1) is Some by {
            if i > 0 {
                assert(rest[i - 1] == all[i]);
            }
        }
    }
}

proof fn lemma_roles(raw: ThemeTomlView)
    ensures
        ({
            let all = roles(raw);
            &&& all.len() >= 8
            &&& all[0].1 == raw.accent
            &&& all[1].1 == raw.muted
            &&& all[2].1 == raw.error
            &&& all[3].1 == raw.warning
            &&& all[4].1 == raw.success
            &&& all[5].1 == raw.code
            &&& all[6].1 == raw.bg
            &&& all[7].1 == raw.text
            &&& raw.panel_bg is Some ==> all.len() > 8 && all[8].1 == raw.panel_bg->0
            &&& raw.border is Some ==> exists|i: int|
                0 <= i < all.len() && (#[trigger] all[i]).1 == raw.border->0
            &&& raw.user_bg is Some ==> all.last().1 == raw.user_bg->0
        }),
{
    let all = roles(raw);
    if raw.border is Some {
        let i = if raw.panel_bg is Some {
            9int
        } else {
            8int
        };
        assert(all[i].1 == raw.border->0);
    }
}

/// Roles with their texts, as what they stand for.
pub open spec fn role_views(list: Seq<(&str, &str)>) -> Seq<(Seq<char>, Seq<char>)> {
    list.map_values(|e: (&str, &str)| (e.0@, e.1@))
}

fn role_list<'a>(raw: &'a ThemeToml) -> (r: Vec<(&'a str, &'a str)>)
    ensures
        role_views(r@) == roles(raw@),
{
    let mut list: Vec<(&str, &str)> = Vec::new();
    list.push(("accent", raw.accent.as_str()));
    list.push(("muted", raw.muted.as_str()));
    list.push(("error", raw.error.as_str()));
    list.push(("warning", raw.warning.as_str()));
    list.push(("success", raw.success.as_str()));
    list.push(("code", raw.code.as_str()));
    list.push(("bg", raw.bg.as_str()));
    list.push(("text", raw.text.as_str()));
    match &raw.panel_bg {
        Some(v) => list.push(("panel_bg", v.as_str())),
        None => {},
    }
    match &raw.border {
        Some(v) => list.push(("border", v.as_str())),
        None => {},
    }
    match &raw.user_bg {
        Some(v) => list.push(("user_bg", v.as_str())),
        None => {},
    }
    proof {
        assert(role_views(list@) =~= roles(raw@));
    }
    list
}

fn check_roles(name: &str, list: &Vec<(&str, &str)>) -> (r: Result<(), ThemeError>)
    ensures
        match first_bad_role(role_views(list@)) {
            Some((role, value)) => r matches Err(e) && e@ == role_error(name@, role, value),
            None => r is Ok,
        },
{
    let ghost all = role_views(list@);
    let mut i: usize = 0;
    while i < list.len()
        invariant
            i <= list.len(),
            all == role_views(list@),
            forall|k: int| 0 <= k < i ==> hex_color((#[trigger] all[k]).1) is Some,
        decreases list.len() - i,
    {
        let (role, value) = list[i];
        proof {
            assert(all[i as int] == (role@, value@));
        }
        match role_color(name, role, value) {
            Ok(_) => {},
            Err(e) => {
                proof {
                    lemma_bad_role(all, i as int);
                }
                return Err(e);
            },
        }
        i = i + 1;
    }
    proof {
        lemma_bad_role(all, i as int);
    }
    Ok(())
}

fn good_color(value: &str) -> (r: Color)
    requires
        hex_color(value@) is Some,
    ensures
        hex_color(value@) == Some(r),
{
    match parse_hex(value) {
        Ok(color) => color,
        Err(_) => Color::Reset,
    }
}

/// An entry of the top level of a TOML document: its key, what its value is as a string or why it
/// is none, and what is wrong with a value that is passed over.
pub struct TomlEntry {
    pub key: String,
    pub text: Result<String, String>,
    pub passed: Option<String>,
}

/// What a [`TomlEntry`] stands for.
#[verifier::ext_equal]
pub struct TomlEntryView {
    pub key: Seq<char>,
    pub text: Result<Seq<char>, Seq<char>>,
    pub passed: Option<Seq<char>>,
}

impl View for TomlEntry {
    type V = TomlEntryView;

    open spec fn view(&self) -> TomlEntryView {
        TomlEntryView {
            key: self.key@,
            text: match self.text {
                Ok(text) => Ok(text@),
                Err(reason) => Err(reason@),
            },
            passed: crate::text::opt_view(self.passed),
        }
    }
}

/// The entries of a TOML document, in the order in which the `toml` crate hands them out, or why
/// it is none.
pub uninterp spec fn toml_entries(text: Seq<char>) -> Result<Seq<TomlEntryView>, Seq<char>>;

/// `toml::de::DeTable::parse`: the top level of the document. Each value is then deserialized as
/// a `String` and, to be passed over, as `serde::de::IgnoredAny`; an error is shown with its
/// place in the document.
#[verifier::external_body]
fn read_toml(text: &str) -> (r: Result<Vec<TomlEntry>, String>)
    ensures
        match r {
            Ok(entries) => toml_entries(text@) == Ok::<_, Seq<char>>(
                crate::text::views(entries@),
            ),
            Err(reason) => toml_entries(text@) == Err::<Seq<TomlEntryView>, _>(reason@),
        },
{
    let table = toml::de::DeTable::parse(text).map_err(|e| e.to_string())?.into_inner();
    let shown = |mut e: toml::de::Error| {
        e.set_input(Some(text));
        e.to_string()
    };
    let entries = table.into_iter().map(|(key, value)| {
        let (text, passed) = (ValueDeserializer::from(value.clone()), ValueDeserializer::from(value));
        TomlEntry {
            key: key.into_inner().into_owned(),
            text: <String as serde::Deserialize>::deserialize(text).map_err(shown),
            passed: <IgnoredAny as serde::Deserialize>::deserialize(passed).err().map(shown),
        }
    });
    Ok(entries.collect())
}

/// What the `toml` crate says of a whole document that is no string: the place of the document,
/// then what is wrong.
pub uninterp spec fn no_string(text: Seq<char>) -> Seq<char>;

/// What is wrong with a document that is read as a string.
pub open spec fn map_found() -> Seq<char> {
    "invalid type: map, expected a string\n"@
}

/// `toml::from_str` into a `String`, which no document is: the error as `toml` shows it. It ends
/// with what is wrong, on a line of its own; the lines before show the place in the document.
#[verifier::external_body]
fn refused_string(text: &str) -> (r: String)
    requires
        toml_entries(text@) is Ok,
    ensures
        r@ == no_string(text@),
        r@.len() >= map_found().len(),
        r@.skip(r@.len() - map_found().len()) == map_found(),
{
    match toml::from_str::<String>(text) {
        Ok(s) => s,
        Err(e) => e.to_string(),
    }
}

/// The lines that show the place of a whole document.
pub open spec fn document_place(text: Seq<char>) -> Seq<char> {
    no_string(text).take(no_string(text).len() - map_found().len())
}

fn place_of_document(text: &str) -> (r: String)
    requires
        toml_entries(text@) is Ok,
    ensures
        r@ == document_place(text@),
{
    let shown = chars_of(refused_string(text).as_str());
    let tail = chars_of("invalid type: map, expected a string\n");
    let r = slice_text(&shown, 0, shown.len() - tail.len());
    proof {
        assert(r@ =~= document_place(text@));
    }
    r
}

/// The first entry of a key.
pub open spec fn entry(entries: Seq<TomlEntryView>, key: Seq<char>) -> Option<TomlEntryView>
    decreases entries.len(),
{
    if entries.len() == 0 {
        None
    } else if entries[0].key == key {
        Some(entries[0])
    } else {
        entry(entries.drop_first(), key)
    }
}

/// The text of a key, where the document has it.
pub open spec fn text_at(entries: Seq<TomlEntryView>, key: Seq<char>) -> Option<Seq<char>> {
    match entry(entries, key) {
        Some(e) => match e.text {
            Ok(text) => Some(text),
            Err(_) => None,
        },
        None => None,
    }
}

/// The text of a key that has to be there.
pub open spec fn given_text(entries: Seq<TomlEntryView>, key: Seq<char>) -> Seq<char> {
    match text_at(entries, key) {
        Some(text) => text,
        None => ""@,
    }
}

/// The keys that a theme has to have, in their order.
pub open spec fn required_keys() -> Seq<Seq<char>> {
    seq![
        "name"@,
        "accent"@,
        "muted"@,
        "error"@,
        "warning"@,
        "success"@,
        "code"@,
        "bg"@,
        "text"@,
    ]
}

/// Whether a key is one of a theme.
pub open spec fn is_theme_key(key: Seq<char>) -> bool {
    required_keys().contains(key) || key == "panel_bg"@ || key == "border"@ || key == "user_bg"@
}

/// What is wrong with an entry: the value of a theme's key has to be a string, any other is
/// passed over.
pub open spec fn entry_fault(e: TomlEntryView) -> Option<Seq<char>> {
    if is_theme_key(e.key) {
        match e.text {
            Ok(_) => None,
            Err(reason) => Some(reason),
        }
    } else {
        e.passed
    }
}

/// The first entry with which something is wrong.
pub open spec fn entries_fault(entries: Seq<TomlEntryView>) -> Option<Seq<char>>
    decreases entries.len(),
{
    if entries.len() == 0 {
        None
    } else {
        match entry_fault(entries[0]) {
            Some(reason) => Some(reason),
            None => entries_fault(entries.drop_first()),
        }
    }
}

/// The first of some keys that the document lacks.
pub open spec fn missing_key(entries: Seq<TomlEntryView>, keys: Seq<Seq<char>>) -> Option<Seq<char>>
    decreases keys.len(),
{
    if keys.len() == 0 {
        None
    } else if entry(entries, keys[0]) is None {
        Some(keys[0])
    } else {
        missing_key(entries, keys.drop_first())
    }
}

/// What is wrong with a document as a theme: the first entry with which something is wrong, else
/// the first key that is missing, shown at the place of the document.
pub open spec fn document_fault(entries: Seq<TomlEntryView>, place: Seq<char>) -> Option<Seq<char>> {
    match entries_fault(entries) {
        Some(reason) => Some(reason),
        None => match missing_key(entries, required_keys()) {
            Some(key) => Some(place + "missing field `"@ + key + "`\n"@),
            None => None,
        },
    }
}

/// The texts of a document that has every text that a theme needs.
pub open spec fn theme_texts(entries: Seq<TomlEntryView>) -> ThemeTomlView {
    ThemeTomlView {
        name: given_text(entries, "name"@),
        accent: given_text(entries, "accent"@),
        muted: given_text(entries, "muted"@),
        error: given_text(entries, "error"@),
        warning: given_text(entries, "warning"@),
        success: given_text(entries, "success"@),
        code: given_text(entries, "code"@),
        bg: given_text(entries, "bg"@),
        text: given_text(entries, "text"@),
        panel_bg: text_at(entries, "panel_bg"@),
        border: text_at(entries, "border"@),
        user_bg: text_at(entries, "user_bg"@),
    }
}

fn find_entry<'a>(entries: &'a Vec<TomlEntry>, key: &str) -> (r: Option<&'a TomlEntry>)
    ensures
        crate::text::opt_view(r) == entry(crate::text::views(entries@), key@),
{
    let ghost all = crate::text::views(entries@);
    proof {
        assert(all.skip(0) =~= all);
    }
    let mut i: usize = 0;
    while i < entries.len()
        invariant
            i <= entries.len(),
            all == crate::text::views(entries@),
            entry(all, key@) == entry(all.skip(i as int), key@),
        decreases entries.len() - i,
    {
        proof {
            assert(all.skip(i as int)[0] == entries@[i as int]@);
            assert(all.skip(i as int).drop_first() =~= all.skip(i + 1));
        }
        if same(entries[i].key.as_str(), key) {
            return Some(&entries[i]);
        }
        i = i + 1;
    }
    None
}

fn allow(entries: &Vec<TomlEntry>, key: &str) -> (r: Option<String>)
    ensures
        crate::text::opt_view(r) == text_at(crate::text::views(entries@), key@),
{
    match find_entry(entries, key) {
        Some(e) => match &e.text {
            Ok(text) => Some(text.clone()),
            Err(_) => None,
        },
        None => None,
    }
}

fn need(entries: &Vec<TomlEntry>, key: &str) -> (r: String)
    ensures
        r@ == given_text(crate::text::views(entries@), key@),
{
    match allow(entries, key) {
        Some(text) => text,
        None => "".to_owned(),
    }
}

fn key_list() -> (r: Vec<&'static str>)
    ensures
        crate::text::views(r@) == required_keys(),
{
    let keys: Vec<&'static str> = vec![
        "name",
        "accent",
        "muted",
        "error",
        "warning",
        "success",
        "code",
        "bg",
        "text",
    ];
    proof {
        assert(crate::text::views(keys@) =~= required_keys());
    }
    keys
}

fn theme_key(keys: &Vec<&'static str>, key: &str) -> (r: bool)
    requires
        crate::text::views(keys@) == required_keys(),
    ensures
        r == is_theme_key(key@),
{
    let mut i: usize = 0;
    while i < keys.len()
        invariant
            i <= keys@.len(),
            crate::text::views(keys@) == required_keys(),
            forall|k: int| 0 <= k < i ==> #[trigger] required_keys()[k] != key@,
        decreases keys.len() - i,
    {
        proof {
            assert(required_keys()[i as int] == keys@[i as int]@);
        }
        if same(keys[i], key) {
            return true;
        }
        i = i + 1;
    }
    same(key, "panel_bg") || same(key, "border") || same(key, "user_bg")
}

fn check_entries(entries: &Vec<TomlEntry>, keys: &Vec<&'static str>) -> (r: Option<String>)
    requires
        crate::text::views(keys@) == required_keys(),
    ensures
        crate::text::opt_view(r) == entries_fault(crate::text::views(entries@)),
{
    let ghost all = crate::text::views(entries@);
    proof {
        assert(all.skip(0) =~= all);
    }
    let mut i: usize = 0;
    while i < entries.len()
        invariant
            i <= entries.len(),
            all == crate::text::views(entries@),
            crate::text::views(keys@) == required_keys(),
            entries_fault(all) == entries_fault(all.skip(i as int)),
        decreases entries.len() - i,
    {
        proof {
            assert(all.skip(i as int)[0] == entries@[i as int]@);
            assert(all.skip(i as int).drop_first() =~= all.skip(i + 1));
        }
        if theme_key(keys, entries[i].key.as_str()) {
            match &entries[i].text {
                Ok(_) => {},
                Err(reason) => return Some(reason.clone()),
            }
        } else {
            match &entries[i].passed {
                Some(reason) => return Some(reason.clone()),
                None => {},
            }
        }
        i = i + 1;
    }
    None
}

fn find_missing(entries: &Vec<TomlEntry>, keys: &Vec<&'static str>) -> (r: Option<&'static str>)
    ensures
        crate::text::opt_view(r) == missing_key(
            crate::text::views(entries@),
            crate::text::views(keys@),
        ),
{
    let ghost all = crate::text::views(entries@);
    let ghost wanted = crate::text::views(keys@);
    proof {
        assert(wanted.skip(0) =~= wanted);
    }
    let mut i: usize = 0;
    while i < keys.len()
        invariant
            i <= keys.len(),
            all == crate::text::views(entries@),
            wanted == crate::text::views(keys@),
            missing_key(all, wanted) == missing_key(all, wanted.skip(i as int)),
        decreases keys.len() - i,
    {
        proof {
            assert(wanted.skip(i as int)[0] == keys@[i as int]@);
            assert(wanted.skip(i as int).drop_first() =~= wanted.skip(i + 1));
        }
        if find_entry(entries, keys[i]).is_none() {
            return Some(keys[i]);
        }
        i = i + 1;
    }
    None
}

/// The texts of a theme document, or what is wrong with it. `place` are the lines that show the
/// place of the document.
pub fn theme_fields(entries: &Vec<TomlEntry>, place: &str) -> (r: Result<ThemeToml, String>)
    ensures
        match r {
            Ok(raw) => document_fault(crate::text::views(entries@), place@) is None && raw@
                == theme_texts(crate::text::views(entries@)),
            Err(reason) => document_fault(crate::text::views(entries@), place@) == Some(reason@),
        },
{
    let keys = key_list();
    match check_entries(entries, &keys) {
        Some(reason) => return Err(reason),
        None => {},
    }
    match find_missing(entries, &keys) {
        Some(key) => {
            let mut reason = joined(place, "missing field `");
            reason.append(key);
            reason.append("`\n");
            return Err(reason);
        },
        None => {},
    }
    Ok(
        ThemeToml {
            name: need(entries, "name"),
            accent: need(entries, "accent"),
            muted: need(entries, "muted"),
            error: need(entries, "error"),
            warning: need(entries, "warning"),
            success: need(entries, "success"),
            code: need(entries, "code"),
            bg: need(entries, "bg"),
            text: need(entries, "text"),
            panel_bg: allow(entries, "panel_bg"),
            border: allow(entries, "border"),
            user_bg: allow(entries, "user_bg"),
        },
    )
}

/// What holds of a color snapped to what a terminal can show: an RGB color is what `best`
/// gives for it, any other stays.
pub open spec fn snapped_to<F: Fn(u8, u8, u8) -> Color>(best: F, color: Color, to: Color) -> bool {
    match color {
        Color::Rgb(r, g, b) => call_ensures(best, (r, g, b), to),
        _ => to == color,
    }
}

fn snap<F: Fn(u8, u8, u8) -> Color>(best: &F, color: Color) -> (to: Color)
    requires
        forall|r: u8, g: u8, b: u8| call_requires(*best, (r, g, b)),
    ensures
        snapped_to(*best, color, to),
{
    match color {
        Color::Rgb(r, g, b) => best(r, g, b),
        _ => color,
    }
}

impl Theme {
    /// The theme of a document's texts; the error names the role whose text is no color.
    pub fn from_texts(raw: &ThemeToml) -> (r: Result<Theme, ThemeError>)
        ensures
            outcome(r) == read_theme(raw@),
    {
        let list = role_list(raw);
        let ghost all = roles(raw@);
        check_roles(raw.name.as_str(), &list)?;
        proof {
            lemma_all_good(all);
            lemma_roles(raw@);
        }
        let bg = good_color(raw.bg.as_str());
        let muted = good_color(raw.muted.as_str());
        Ok(
            Theme {
                name: raw.name.clone(),
                accent: good_color(raw.accent.as_str()),
                muted,
                error: good_color(raw.error.as_str()),
                warning: good_color(raw.warning.as_str()),
                success: good_color(raw.success.as_str()),
                code: good_color(raw.code.as_str()),
                bg,
                text: good_color(raw.text.as_str()),
                panel_bg: match &raw.panel_bg {
                    Some(v) => good_color(v.as_str()),
                    None => bg,
                },
                border: match &raw.border {
                    Some(v) => good_color(v.as_str()),
                    None => muted,
                },
                user_bg: match &raw.user_bg {
                    Some(v) => Some(good_color(v.as_str())),
                    None => None,
                },
            },
        )
    }

    /// The theme of a TOML document (`name` and the `#rrggbb` colors). `panel_bg` falls back to
    /// `bg`, `border` to `muted`, `user_bg` to no tint.
    pub fn from_toml_str(text: &str) -> (r: Result<Theme, ThemeError>)
        ensures
            outcome(r) == document_outcome(text@),
    {
        match read_toml(text) {
            Ok(entries) => match theme_fields(&entries, place_of_document(text).as_str()) {
                Ok(raw) => Theme::from_texts(&raw),
                Err(reason) => Err(
                    ThemeError::Invalid(joined("bad theme TOML: ", reason.as_str())),
                ),
            },
            Err(reason) => Err(ThemeError::Invalid(joined("bad theme TOML: ", reason.as_str()))),
        }
    }

    /// The theme with every RGB color snapped to what the terminal can show, and every other
    /// color as it is.
    pub fn snapped<F: Fn(u8, u8, u8) -> Color>(&self, best: F) -> (r: Theme)
        requires
            forall|r: u8, g: u8, b: u8| call_requires(best, (r, g, b)),
        ensures
            r.name@ == self.name@,
            snapped_to(best, self.accent, r.accent),
            snapped_to(best, self.muted, r.muted),
            snapped_to(best, self.error, r.error),
            snapped_to(best, self.warning, r.warning),
            snapped_to(best, self.success, r.success),
            snapped_to(best, self.code, r.code),
            snapped_to(best, self.bg, r.bg),
            snapped_to(best, self.text, r.text),
            snapped_to(best, self.panel_bg, r.panel_bg),
            snapped_to(best, self.border, r.border),
            match self.user_bg {
                Some(c) => r.user_bg is Some && snapped_to(best, c, r.user_bg->0),
                None => r.user_bg is None,
            },
    {
        Theme {
            name: self.name.clone(),
            accent: snap(&best, self.accent),
            muted: snap(&best, self.muted),
            error: snap(&best, self.error),
            warning: snap(&best, self.warning),
            success: snap(&best, self.success),
            code: snap(&best, self.code),
            bg: snap(&best, self.bg),
            text: snap(&best, self.text),
            panel_bg: snap(&best, self.panel_bg),
            border: snap(&best, self.border),
            user_bg: match self.user_bg {
                Some(c) => Some(snap(&best, c)),
                None => None,
            },
        }
    }
}

/// The available themes.
#[derive(Debug)]
pub struct ThemeRegistry {
    pub themes: Vec<Theme>,
}

/// Whether a theme has a name.
pub open spec fn called(name: Seq<char>) -> spec_fn(ThemeView) -> bool {
    |t: ThemeView| t.name == name
}

/// The themes with one more, which takes the place of the first of its name.
pub open spec fn with_theme(themes: Seq<ThemeView>, theme: ThemeView) -> Seq<ThemeView> {
    let i = crate::seqs::first_index(themes, called(theme.name));
    if 0 <= i < themes.len() {
        themes.update(i, theme)
    } else {
        themes.push(theme)
    }
}

/// The themes after a list of further ones, in order.
pub open spec fn with_themes(themes: Seq<ThemeView>, more: Seq<ThemeView>) -> Seq<ThemeView>
    decreases more.len(),
{
    if more.len() == 0 {
        themes
    } else {
        with_theme(with_themes(themes, more.drop_last()), more.last())
    }
}

impl View for ThemeRegistry {
    type V = Seq<ThemeView>;

    open spec fn view(&self) -> Seq<ThemeView> {
        crate::text::views(self.themes@)
    }
}

impl Default for ThemeRegistry {
    fn default() -> (r: Self)
        ensures
            r@ == Seq::<ThemeView>::empty(),
    {
        let r = ThemeRegistry { themes: Vec::new() };
        proof {
            assert(r@ =~= Seq::<ThemeView>::empty());
        }
        r
    }
}

impl ThemeRegistry {
    /// The position of a theme, the number of themes where there is none of that name.
    pub fn position(&self, name: &str) -> (r: usize)
        ensures
            r == crate::seqs::first_index(self@, called(name@)),
            r <= self.themes@.len(),
    {
        let mut i: usize = 0;
        while i < self.themes.len()
            invariant
                i <= self.themes@.len(),
                forall|k: int| 0 <= k < i ==> !called(name@)(#[trigger] self@[k]),
            decreases self.themes.len() - i,
        {
            if same(self.themes[i].name.as_str(), name) {
                proof {
                    crate::seqs::lemma_first_index(self@, called(name@), i as int);
                }
                return i;
            }
            i = i + 1;
        }
        proof {
            crate::seqs::lemma_first_index(self@, called(name@), i as int);
        }
        i
    }

    /// The first theme with a name.
    pub fn find(&self, name: &str) -> (r: Option<&Theme>)
        ensures
            match r {
                Some(t) => {
                    let i = crate::seqs::first_index(self@, called(name@));
                    0 <= i < self@.len() && t@ == self@[i] && t@.name == name@
                },
                None => forall|i: int| 0 <= i < self@.len() ==> (#[trigger] self@[i]).name != name@,
            },
    {
        let i = self.position(name);
        proof {
            crate::seqs::lemma_first_index_holds(self@, called(name@));
        }
        if i < self.themes.len() {
            Some(&self.themes[i])
        } else {
            proof {
                assert forall|k: int| 0 <= k < self@.len() implies (#[trigger] self@[k]).name
                    != name@ by {
                    assert(!called(name@)(self@[k]));
                }
            }
            None
        }
    }

    /// Add a theme; it takes the place of one of the same name.
    pub fn add_theme(&mut self, theme: Theme)
        ensures
            final(self)@ == with_theme(old(self)@, theme@),
    {
        let i = self.position(theme.name.as_str());
        let ghost before = self@;
        let ghost view = theme@;
        if i < self.themes.len() {
            self.themes.set(i, theme);
            proof {
                assert(self@ =~= before.update(i as int, view));
            }
        } else {
            self.themes.push(theme);
            proof {
                assert(self@ =~= before.push(view));
            }
        }
    }

    /// Add the themes of some documents, in order. A document that is no theme is passed over:
    /// it must not break the rest.
    pub fn load_documents(&mut self, documents: &Vec<String>)
        ensures
            final(self)@ == loaded(old(self)@, crate::text::views(documents@)),
    {
        let ghost before = self@;
        let ghost all = crate::text::views(documents@);
        proof {
            assert(all.take(0) =~= Seq::empty());
        }
        let mut i: usize = 0;
        while i < documents.len()
            invariant
                i <= documents.len(),
                all == crate::text::views(documents@),
                self@ == loaded(before, all.take(i as int)),
            decreases documents.len() - i,
        {
            proof {
                assert(all.take(i + 1).drop_last() =~= all.take(i as int));
                assert(all.take(i + 1).last() == documents@[i as int]@);
            }
            match Theme::from_toml_str(documents[i].as_str()) {
                Ok(theme) => self.add_theme(theme),
                Err(_) => {},
            }
            i = i + 1;
        }
        proof {
            assert(all.take(i as int) =~= all);
        }
    }

    /// The registry of the themes that come with the application, in order; the error of the
    /// first document that is no theme.
    pub fn bundled(documents: &Vec<String>) -> (r: Result<ThemeRegistry, ThemeError>)
        ensures
            match r {
                Ok(registry) => {
                    &&& registry@.len() == documents@.len()
                    &&& forall|i: int|
                        0 <= i < documents@.len() ==> document_theme(#[trigger] documents@[i]@)
                            == Some(registry@[i])
                },
                Err(e) => exists|i: int|
                    0 <= i < documents@.len() && document_outcome(#[trigger] documents@[i]@) == Err::<
                        ThemeView,
                        _,
                    >(e@) && forall|k: int|
                        0 <= k < i ==> document_theme(#[trigger] documents@[k]@) is Some,
            },
    {
        let mut registry = ThemeRegistry { themes: Vec::new() };
        let mut i: usize = 0;
        while i < documents.len()
            invariant
                i <= documents.len(),
                registry.themes@.len() == i,
                forall|k: int|
                    0 <= k < i ==> document_theme(#[trigger] documents@[k]@) == Some(registry@[k]),
            decreases documents.len() - i,
        {
            match Theme::from_toml_str(documents[i].as_str()) {
                Ok(theme) => {
                    let ghost before = registry@;
                    let ghost view = theme@;
                    registry.themes.push(theme);
                    proof {
                        assert(registry@ =~= before.push(view));
                    }
                },
                Err(e) => {
                    proof {
                        assert(document_outcome(documents@[i as int]@) == Err::<ThemeView, _>(e@));
                    }
                    return Err(e);
                },
            }
            i = i + 1;
        }
        Ok(registry)
    }
}

/// The theme of a document, or what is wrong with it.
pub open spec fn document_outcome(text: Seq<char>) -> Result<ThemeView, ThemeErrorView> {
    match toml_entries(text) {
        Ok(entries) => match document_fault(entries, document_place(text)) {
            None => read_theme(theme_texts(entries)),
            Some(reason) => Err(ThemeErrorView::Invalid("bad theme TOML: "@ + reason)),
        },
        Err(reason) => Err(ThemeErrorView::Invalid("bad theme TOML: "@ + reason)),
    }
}

/// The theme of a document, where it is one.
pub open spec fn document_theme(text: Seq<char>) -> Option<ThemeView> {
    match document_outcome(text) {
        Ok(theme) => Some(theme),
        Err(_) => None,
    }
}

/// The themes after some documents.
pub open spec fn loaded(themes: Seq<ThemeView>, documents: Seq<Seq<char>>) -> Seq<ThemeView>
    decreases documents.len(),
{
    if documents.len() == 0 {
        themes
    } else {
        let before = loaded(themes, documents.drop_last());
        match document_theme(documents.last()) {
            Some(theme) => with_theme(before, theme),
            None => before,
        }
    }
}

/// A theme that was added is the one found by its name, and no theme of another name is
/// touched; adding it again changes nothing.
pub proof fn law_added_is_found(themes: Seq<ThemeView>, theme: ThemeView, other: Seq<char>)
    ensures
        ({
            let after = with_theme(themes, theme);
            let i = crate::seqs::first_index(after, called(theme.name));
            &&& 0 <= i < after.len()
            &&& after[i] == theme
            &&& with_theme(after, theme) == after
            &&& other != theme.name ==> (forall|k: int|
                0 <= k < themes.len() && themes[k].name == other ==> #[trigger] after[k]
                    == themes[k])
        }),
{
    let after = with_theme(themes, theme);
    let p = called(theme.name);
    let i = crate::seqs::first_index(themes, p);
    crate::seqs::lemma_first_index_holds(themes, p);
    assert forall|k: int| 0 <= k < i implies !p(#[trigger] after[k]) by {
        assert(after[k] == themes[k]);
    }
    crate::seqs::lemma_first_index(after, p, i);
    assert(after.update(i, theme) =~= after);
}

/// Whether the terminal shows every color: `COLORTERM` says `truecolor` or `24bit`.
pub fn terminal_supports_color(colorterm: Option<&str>) -> (r: bool)
    ensures
        r == (colorterm is Some && (colorterm->0@ == "truecolor"@ || colorterm->0@ == "24bit"@)),
{
    match colorterm {
        Some(value) => same(value, "truecolor") || same(value, "24bit"),
        None => false,
    }
}

/// The application's directory among the user's configuration files.
pub open spec fn config_directory(base: Option<Seq<char>>) -> Option<Seq<char>> {
    match base {
        Some(dir) => Some(crate::text::path_join(dir, "dsh-tui"@)),
        None => None,
    }
}

/// The application's directory among the user's configuration files.
pub fn config_root(base: Option<&str>) -> (r: Option<String>)
    ensures
        crate::text::opt_view(r) == config_directory(crate::text::opt_view(base)),
{
    match base {
        Some(dir) => Some(join_path(dir, "dsh-tui")),
        None => None,
    }
}

/// Where the user's own themes lie.
pub fn user_themes_dir(base: Option<&str>) -> (r: Option<String>)
    ensures
        match config_directory(crate::text::opt_view(base)) {
            Some(dir) => crate::text::opt_view(r) == Some(crate::text::path_join(dir, "themes"@)),
            None => r is None,
        },
{
    match config_root(base) {
        Some(dir) => Some(join_path(dir.as_str(), "themes")),
        None => None,
    }
}

/// How the gateway is reached and started.
#[derive(Debug, Clone, Copy, PartialEq, Eq)]
pub struct GatewayConfig {
    /// The port; `None` leaves the default.
    pub port: Option<u16>,
    /// Whether a gateway that does not serve is started.
    pub auto_start: bool,
}

/// Whether a gateway that does not serve is started, where the configuration says nothing.
pub fn default_auto_start() -> (r: bool)
    ensures
        r,
{
    true
}

impl Default for GatewayConfig {
    fn default() -> (r: Self)
        ensures
            r == (GatewayConfig { port: None, auto_start: true }),
    {
        GatewayConfig { port: None, auto_start: default_auto_start() }
    }
}

/// The persisted configuration.
#[derive(Debug)]
pub struct Config {
    /// The name of the active theme; `None` follows the terminal.
    pub theme: Option<String>,
    /// The language; `None` follows the environment.
    pub locale: Option<String>,
    pub keymap: Keymap,
    pub gateway: GatewayConfig,
}

/// What a [`Config`] stands for.
#[verifier::ext_equal]
pub struct ConfigView {
    pub theme: Option<Seq<char>>,
    pub locale: Option<Seq<char>>,
    pub keymap: Map<Seq<char>, Seq<char>>,
    pub gateway: GatewayConfig,
}

impl View for Config {
    type V = ConfigView;

    open spec fn view(&self) -> ConfigView {
        ConfigView {
            theme: crate::text::opt_view(self.theme),
            locale: crate::text::opt_view(self.locale),
            keymap: self.keymap@,
            gateway: self.gateway,
        }
    }
}

impl Default for Config {
    fn default() -> (r: Self)
        ensures
            r.theme is None,
            r.locale is None,
            r.keymap@ == Map::<Seq<char>, Seq<char>>::empty(),
            r.gateway == (GatewayConfig { port: None, auto_start: true }),
    {
        Config {
            theme: None,
            locale: None,
            keymap: Keymap::default(),
            gateway: GatewayConfig::default(),
        }
    }
}

impl Config {
    /// Where the configuration lies.
    pub fn path(base: Option<&str>) -> (r: Option<String>)
        ensures
            match config_directory(crate::text::opt_view(base)) {
                Some(dir) => crate::text::opt_view(r) == Some(
                    crate::text::path_join(dir, "config.toml"@),
                ),
                None => r is None,
            },
    {
        match config_root(base) {
            Some(dir) => Some(join_path(dir.as_str(), "config.toml")),
            None => None,
        }
    }
}

/// The state of the theme picker.
#[derive(Debug, Clone, Copy, PartialEq, Eq, Structural)]
pub struct ThemePicker {
    pub open: bool,
    pub selected: usize,
}

impl Default for ThemePicker {
    fn default() -> (r: Self)
        ensures
            r == (ThemePicker { open: false, selected: 0 }),
    {
        ThemePicker { open: false, selected: 0 }
    }
}

/// One row of the theme picker: the theme at `index`, whether it is selected and whether it is
/// the current one.
#[derive(Debug, Clone, Copy, PartialEq, Eq, Structural)]
pub struct PickerRow {
    pub index: usize,
    pub selected: bool,
    pub current: bool,
}

/// The theme picker's list.
#[derive(Debug)]
pub struct ThemePopup<'a> {
    pub themes: &'a Vec<Theme>,
    pub selected: usize,
    pub current: &'a Theme,
}

/// The length of the longest name in bytes.
pub open spec fn longest_name(themes: Seq<ThemeView>) -> nat
    decreases themes.len(),
{
    if themes.len() == 0 {
        0
    } else {
        let before = longest_name(themes.drop_last());
        let last = crate::text::byte_count(themes.last().name) as nat;
        if last > before {
            last
        } else {
            before
        }
    }
}

/// The first theme that a list of some rows shows: the selection stays in view, at the bottom
/// edge where the list scrolls.
pub open spec fn first_shown(selected: nat, rows: nat) -> nat {
    if rows == 0 {
        selected
    } else if selected >= rows {
        (selected - (rows - 1)) as nat
    } else {
        0
    }
}

impl<'a> ThemePopup<'a> {
    /// The outer size of the list in a space of some width: as wide as the longest name asks,
    /// at least 16 columns and at most the space; at most ten rows and the border.
    pub fn size(&self, available: u16) -> (r: (u16, u16))
        ensures
            ({
                let text = ((longest_name(crate::text::views(self.themes@)) + 8) % 65536) as int;
                let wide = if text < 16 {
                    16
                } else {
                    text
                };
                let n = (self.themes@.len() % 65536) as int;
                &&& r.0 == (if wide < available {
                    wide
                } else {
                    available as int
                })
                &&& r.1 == (if n < 10 {
                    n
                } else {
                    10
                }) + 2
            }),
    {
        let ghost all = crate::text::views(self.themes@);
        let mut text: usize = 0;
        let mut i: usize = 0;
        while i < self.themes.len()
            invariant
                i <= self.themes@.len(),
                all == crate::text::views(self.themes@),
                text == longest_name(all.take(i as int)),
            decreases self.themes.len() - i,
        {
            proof {
                assert(all.take(i + 1).drop_last() =~= all.take(i as int));
                assert(all.take(i + 1).last() == self.themes@[i as int]@);
            }
            let n = bytes_of(self.themes[i].name.as_str());
            if n > text {
                text = n;
            }
            i = i + 1;
        }
        proof {
            assert(all.take(i as int) =~= all);
        }
        let width = (text % 65536 + 8) % 65536;
        let rows = self.themes.len() % 65536;
        let wide: u16 = if width < 16 {
            16
        } else {
            width as u16
        };
        (
            if wide < available {
                wide
            } else {
                available
            },
            (if rows < 10 {
                rows as u16
            } else {
                10
            }) + 2,
        )
    }

    /// The rows of the list in a space of `height` rows.
    pub fn rows(&self, height: u16) -> (r: Vec<PickerRow>)
        ensures
            ({
                let start = first_shown(self.selected as nat, height as nat);
                let n = self.themes@.len();
                let shown = if start >= n {
                    0
                } else if n - start <= height {
                    n - start
                } else {
                    height as int
                };
                &&& r@.len() == shown
                &&& forall|i: int|
                    0 <= i < shown ==> #[trigger] r@[i] == (PickerRow {
                        index: (start + i) as usize,
                        selected: start + i == self.selected,
                        current: self.themes@[start + i].name@ == self.current.name@,
                    })
            }),
    {
        let visible = height as usize;
        let start = if visible == 0 {
            self.selected
        } else {
            self.selected.saturating_sub(visible - 1)
        };
        let mut out: Vec<PickerRow> = Vec::new();
        let mut i: usize = start;
        while i < self.themes.len() && i - start < visible
            invariant
                start == first_shown(self.selected as nat, height as nat),
                visible == height,
                start <= i,
                i <= self.themes@.len() || i == start,
                i - start <= visible,
                out@.len() == i - start,
                forall|k: int|
                    0 <= k < i - start ==> #[trigger] out@[k] == (PickerRow {
                        index: (start + k) as usize,
                        selected: start + k == self.selected,
                        current: self.themes@[start + k].name@ == self.current.name@,
                    }),
            decreases self.themes.len() - i,
        {
            out.push(
                PickerRow {
                    index: i,
                    selected: i == self.selected,
                    current: same(self.themes[i].name.as_str(), self.current.name.as_str()),
                },
            );
            i = i + 1;
        }
        out
    }
}

} // verus!
