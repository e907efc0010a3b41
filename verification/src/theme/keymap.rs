//! Key bindings: which key triggers which action.

use vstd::prelude::*;

use crate::key::{KeyCode, KeyEvent};
use crate::table::Table;
use crate::text::{chars_of, is_upper_case, lowered, same, split_text, to_lower, to_upper};

verus! {

/// A parsed key spec (`ctrl+q`, `shift+enter`, `g`, `G`, `alt+up`).
#[derive(Debug, Clone, Copy, PartialEq, Eq, Structural)]
pub struct KeySpec {
    pub code: KeyCode,
    pub control: bool,
    pub alt: bool,
    pub shift: bool,
}

/// The modifiers of a key spec.
#[derive(Debug, Clone, Copy, PartialEq, Eq, Structural)]
pub struct Chord {
    pub control: bool,
    pub alt: bool,
    pub shift: bool,
}

/// The modifiers that some names stand for.
pub open spec fn chord_of(names: Seq<Seq<char>>) -> Option<Chord>
    decreases names.len(),
{
    if names.len() == 0 {
        Some(Chord { control: false, alt: false, shift: false })
    } else {
        let last = crate::text::lower_text(names.last());
        match chord_of(names.drop_last()) {
            Some(before) => if last == "ctrl"@ || last == "control"@ {
                Some(Chord { control: true, ..before })
            } else if last == "alt"@ {
                Some(Chord { alt: true, ..before })
            } else if last == "shift"@ {
                Some(Chord { shift: true, ..before })
            } else {
                None
            },
            None => None,
        }
    }
}

/// The key that a name of more than one letter stands for.
pub open spec fn named_key(name: Seq<char>) -> Option<KeyCode> {
    if name == "esc"@ {
        Some(KeyCode::Esc)
    } else if name == "enter"@ || name == "return"@ {
        Some(KeyCode::Enter)
    } else if name == "tab"@ {
        Some(KeyCode::Tab)
    } else if name == "backspace"@ {
        Some(KeyCode::Backspace)
    } else if name == "delete"@ || name == "del"@ {
        Some(KeyCode::Delete)
    } else if name == "up"@ {
        Some(KeyCode::Up)
    } else if name == "down"@ {
        Some(KeyCode::Down)
    } else if name == "left"@ {
        Some(KeyCode::Left)
    } else if name == "right"@ {
        Some(KeyCode::Right)
    } else if name == "home"@ {
        Some(KeyCode::Home)
    } else if name == "end"@ {
        Some(KeyCode::End)
    } else if name == "space"@ {
        Some(KeyCode::Char(' '))
    } else {
        None
    }
}

/// What a key spec stands for: modifiers and a key, joined by `+`. A capital letter without
/// control and alt stands for the letter with shift.
pub open spec fn key_spec(spec_text: Seq<char>) -> Option<KeySpec> {
    let parts = crate::text::split(spec_text, '+');
    let name = parts.last();
    match chord_of(parts.drop_last()) {
        Some(chord) => match named_key(name) {
            Some(code) => Some(
                KeySpec { code, control: chord.control, alt: chord.alt, shift: chord.shift },
            ),
            None => if name.len() == 1 {
                Some(
                    KeySpec {
                        code: KeyCode::Char(crate::text::lower_ascii(name[0])),
                        control: chord.control,
                        alt: chord.alt,
                        shift: chord.shift || (crate::text::upper_case(name[0]) && !chord.control
                            && !chord.alt),
                    },
                )
            } else {
                None
            },
        },
        None => None,
    }
}

fn key_named(name: &str) -> (r: Option<KeyCode>)
    ensures
        r == named_key(name@),
{
    if same(name, "esc") {
        Some(KeyCode::Esc)
    } else if same(name, "enter") || same(name, "return") {
        Some(KeyCode::Enter)
    } else if same(name, "tab") {
        Some(KeyCode::Tab)
    } else if same(name, "backspace") {
        Some(KeyCode::Backspace)
    } else if same(name, "delete") || same(name, "del") {
        Some(KeyCode::Delete)
    } else if same(name, "up") {
        Some(KeyCode::Up)
    } else if same(name, "down") {
        Some(KeyCode::Down)
    } else if same(name, "left") {
        Some(KeyCode::Left)
    } else if same(name, "right") {
        Some(KeyCode::Right)
    } else if same(name, "home") {
        Some(KeyCode::Home)
    } else if same(name, "end") {
        Some(KeyCode::End)
    } else if same(name, "space") {
        Some(KeyCode::Char(' '))
    } else {
        None
    }
}

/// Parse a key spec; `None` where it stands for no key.
pub fn parse_key_spec(spec_text: &str) -> (r: Option<KeySpec>)
    ensures
        r == key_spec(spec_text@),
{
    let parts = split_text(spec_text, '+');
    let ghost all = crate::text::views(parts@);
    let n = parts.len() - 1;
    let mut chord = Chord { control: false, alt: false, shift: false };
    let ghost names = all.drop_last();
    proof {
        assert(names.take(0) =~= Seq::empty());
    }
    let mut i: usize = 0;
    while i < n
        invariant
            i <= n,
            n == parts@.len() - 1,
            all == crate::text::views(parts@),
            names == all.drop_last(),
            chord_of(names.take(i as int)) == Some(chord),
            all == crate::text::split(spec_text@, '+'),
        decreases n - i,
    {
        let name = lowered(parts[i].as_str());
        proof {
            assert(names.take(i + 1).drop_last() =~= names.take(i as int));
            assert(names.take(i + 1).last() == parts@[i as int]@);
        }
        if same(name.as_str(), "ctrl") || same(name.as_str(), "control") {
            chord.control = true;
        } else if same(name.as_str(), "alt") {
            chord.alt = true;
        } else if same(name.as_str(), "shift") {
            chord.shift = true;
        } else {
            proof {
                lemma_chord_prefix(names, i + 1);
            }
            return None;
        }
        i = i + 1;
    }
    proof {
        assert(names.take(i as int) =~= names);
        assert(all.last() == parts@[n as int]@);
    }
    let name = parts[n].as_str();
    match key_named(name) {
        Some(code) => Some(
            KeySpec { code, control: chord.control, alt: chord.alt, shift: chord.shift },
        ),
        None => {
            let chars = chars_of(name);
            if chars.len() == 1 {
                let c = chars[0];
                let capital = is_upper_case(c) && !chord.control && !chord.alt;
                Some(
                    KeySpec {
                        code: KeyCode::Char(to_lower(c)),
                        control: chord.control,
                        alt: chord.alt,
                        shift: chord.shift || capital,
                    },
                )
            } else {
                None
            }
        },
    }
}

proof fn lemma_chord_prefix(names: Seq<Seq<char>>, n: int)
    requires
        0 <= n <= names.len(),
        chord_of(names.take(n)) is None,
    ensures
        chord_of(names) is None,
    decreases names.len(),
{
    if n == names.len() {
        assert(names.take(n) =~= names);
    } else {
        assert(names.drop_last().take(n) =~= names.take(n));
        lemma_chord_prefix(names.drop_last(), n);
    }
}

impl KeySpec {
    /// Whether a key press is the key of the spec with exactly its modifiers. With shift the
    /// letter may arrive as a capital.
    pub open spec fn accepts(self, key: KeyEvent) -> bool {
        &&& key.code == self.code || (self.shift && self.code is Char && key.code == KeyCode::Char(
            crate::text::upper_ascii(self.code->Char_0),
        ))
        &&& key.control == self.control
        &&& key.alt == self.alt
        &&& key.shift == self.shift
    }

    /// Whether a key press is the key of the spec.
    pub fn matches(&self, key: KeyEvent) -> (r: bool)
        ensures
            r == self.accepts(key),
    {
        let code_ok = match self.code {
            KeyCode::Char(c) => key.code == KeyCode::Char(c) || (self.shift && key.code
                == KeyCode::Char(to_upper(c))),
            other => key.code == other,
        };
        code_ok && key.control == self.control && key.alt == self.alt && key.shift == self.shift
    }
}

/// The built-in key spec of an action.
pub open spec fn built_in(action: Seq<char>) -> Option<Seq<char>> {
    if action == "quit"@ {
        Some("ctrl+q"@)
    } else if action == "cancel"@ {
        Some("ctrl+c"@)
    } else if action == "locale"@ {
        Some("ctrl+l"@)
    } else if action == "theme-picker"@ {
        Some("ctrl+t"@)
    } else if action == "settings"@ {
        Some("ctrl+,"@)
    } else if action == "launcher"@ {
        Some("ctrl+p"@)
    } else if action == "queue"@ {
        Some("alt+q"@)
    } else if action == "selection-toggle"@ {
        Some("v"@)
    } else if action == "image-viewer"@ {
        Some("i"@)
    } else if action == "drawer-toggle"@ {
        Some("s"@)
    } else if action == "composer.submit"@ {
        Some("enter"@)
    } else if action == "composer.newline"@ {
        Some("shift+enter"@)
    } else if action == "composer.backspace"@ {
        Some("backspace"@)
    } else if action == "composer.delete"@ {
        Some("delete"@)
    } else if action == "composer.left"@ {
        Some("left"@)
    } else if action == "composer.right"@ {
        Some("right"@)
    } else if action == "composer.home"@ {
        Some("home"@)
    } else if action == "composer.end"@ {
        Some("end"@)
    } else if action == "composer.up"@ {
        Some("up"@)
    } else if action == "composer.down"@ {
        Some("down"@)
    } else if action == "composer.quit-eof"@ {
        Some("ctrl+d"@)
    } else if action == "composer.focus-chat"@ {
        Some("esc"@)
    } else {
        None
    }
}

/// The built-in key spec of an action.
pub fn default_binding(action: &str) -> (r: Option<&'static str>)
    ensures
        crate::text::opt_view(r) == built_in(action@),
{
    if same(action, "quit") {
        Some("ctrl+q")
    } else if same(action, "cancel") {
        Some("ctrl+c")
    } else if same(action, "locale") {
        Some("ctrl+l")
    } else if same(action, "theme-picker") {
        Some("ctrl+t")
    } else if same(action, "settings") {
        Some("ctrl+,")
    } else if same(action, "launcher") {
        Some("ctrl+p")
    } else if same(action, "queue") {
        Some("alt+q")
    } else if same(action, "selection-toggle") {
        Some("v")
    } else if same(action, "image-viewer") {
        Some("i")
    } else if same(action, "drawer-toggle") {
        Some("s")
    } else if same(action, "composer.submit") {
        Some("enter")
    } else if same(action, "composer.newline") {
        Some("shift+enter")
    } else if same(action, "composer.backspace") {
        Some("backspace")
    } else if same(action, "composer.delete") {
        Some("delete")
    } else if same(action, "composer.left") {
        Some("left")
    } else if same(action, "composer.right") {
        Some("right")
    } else if same(action, "composer.home") {
        Some("home")
    } else if same(action, "composer.end") {
        Some("end")
    } else if same(action, "composer.up") {
        Some("up")
    } else if same(action, "composer.down") {
        Some("down")
    } else if same(action, "composer.quit-eof") {
        Some("ctrl+d")
    } else if same(action, "composer.focus-chat") {
        Some("esc")
    } else {
        None
    }
}

/// The key spec that an action has effect by: the configured one where it stands for a key,
/// else the built-in one; none for an action that is not known.
pub open spec fn effective(bindings: Map<Seq<char>, Seq<char>>, action: Seq<char>) -> Option<
    KeySpec,
> {
    match built_in(action) {
        Some(fallback) => if bindings.dom().contains(action) && bindings[action].len() > 0
            && key_spec(bindings[action]) is Some {
            key_spec(bindings[action])
        } else {
            key_spec(fallback)
        },
        None => None,
    }
}

/// Key bindings: key specs by action. What is missing, empty or stands for no key falls back
/// to the built-in binding, so that a broken configuration disables nothing.
#[derive(Debug)]
pub struct Keymap {
    bindings: Table<String>,
}

impl View for Keymap {
    type V = Map<Seq<char>, Seq<char>>;

    closed spec fn view(&self) -> Map<Seq<char>, Seq<char>> {
        self.bindings@
    }
}

impl Default for Keymap {
    fn default() -> (r: Self)
        ensures
            r@ == Map::<Seq<char>, Seq<char>>::empty(),
    {
        Keymap { bindings: Table::new() }
    }
}

impl Keymap {
    /// Whether a key press triggers an action.
    pub open spec fn triggers(self, action: Seq<char>, key: KeyEvent) -> bool {
        pressed(self@, action, key)
    }

    /// Whether a key press triggers an action.
    pub fn matches(&self, action: &str, key: KeyEvent) -> (r: bool)
        ensures
            r == self.triggers(action@, key),
    {
        match self.effective_spec(action) {
            Some(s) => s.matches(key),
            None => false,
        }
    }

    /// The key spec that an action has effect by.
    pub fn effective_spec(&self, action: &str) -> (r: Option<KeySpec>)
        ensures
            r == effective(self@, action@),
    {
        match default_binding(action) {
            Some(fallback) => {
                match self.bindings.get(action) {
                    Some(configured) => {
                        if !configured.as_str().is_empty() {
                            match parse_key_spec(configured.as_str()) {
                                Some(s) => return Some(s),
                                None => {},
                            }
                        }
                    },
                    None => {},
                }
                parse_key_spec(fallback)
            },
            None => None,
        }
    }

    /// Bind an action.
    pub fn set(&mut self, action: &str, spec_text: String)
        ensures
            final(self)@ == old(self)@.insert(action@, spec_text@),
    {
        self.bindings.insert(action.to_owned(), spec_text);
    }

    /// The configured key spec of an action, not the built-in one.
    pub fn configured(&self, action: &str) -> (r: Option<&str>)
        ensures
            match r {
                Some(s) => self@.dom().contains(action@) && self@[action@] == s@,
                None => !self@.dom().contains(action@),
            },
    {
        match self.bindings.get(action) {
            Some(s) => Some(s.as_str()),
            None => None,
        }
    }
}

/// Whether a key press triggers an action under some bindings.
pub open spec fn pressed(bindings: Map<Seq<char>, Seq<char>>, action: Seq<char>, key: KeyEvent) -> bool {
    match effective(bindings, action) {
        Some(s) => s.accepts(key),
        None => false,
    }
}

/// What is bound is what is configured, and no other action is touched.
pub proof fn law_set_read_back(
    bindings: Map<Seq<char>, Seq<char>>,
    action: Seq<char>,
    spec_text: Seq<char>,
    other: Seq<char>,
)
    ensures
        bindings.insert(action, spec_text)[action] == spec_text,
        other != action ==> effective(bindings.insert(action, spec_text), other) == effective(
            bindings,
            other,
        ),
        built_in(action) is Some && spec_text.len() > 0 && key_spec(spec_text) is Some
            ==> effective(bindings.insert(action, spec_text), action) == key_spec(spec_text),
{
}

/// A configured text that stands for no key changes nothing: the built-in key stays in effect.
pub proof fn law_bad_binding_falls_back(
    bindings: Map<Seq<char>, Seq<char>>,
    action: Seq<char>,
    spec_text: Seq<char>,
)
    requires
        spec_text.len() == 0 || key_spec(spec_text) is None,
    ensures
        effective(bindings.insert(action, spec_text), action) == effective(
            Map::<Seq<char>, Seq<char>>::empty(),
            action,
        ),
{
}

/// A key spec of a plain key never takes a chord: modifiers have to match exactly.
pub proof fn law_modifiers_exact(key_of: KeySpec, key: KeyEvent)
    requires
        key.control != key_of.control || key.alt != key_of.alt || key.shift != key_of.shift,
    ensures
        !key_of.accepts(key),
{
}

proof fn lemma_plain(s: Seq<char>)
    requires
        forall|i: int| 0 <= i < s.len() ==> #[trigger] s[i] != '+',
        s.len() == 1 || named_key(s) is Some,
    ensures
        key_spec(s) is Some,
{
    crate::seqs::lemma_first_index(s, crate::text::equal_to('+'), s.len() as int);
    assert(crate::text::split(s, '+') =~= seq![s]);
    assert(seq![s].drop_last() =~= Seq::empty());
}

proof fn lemma_chorded(s: Seq<char>, modifier: Seq<char>, name: Seq<char>)
    requires
        s == modifier + seq!['+'] + name,
        forall|i: int| 0 <= i < modifier.len() ==> #[trigger] modifier[i] != '+',
        forall|i: int| 0 <= i < name.len() ==> #[trigger] name[i] != '+',
        crate::text::lower_text(modifier) == modifier,
        modifier == "ctrl"@ || modifier == "alt"@ || modifier == "shift"@,
        name.len() == 1 || named_key(name) is Some,
    ensures
        key_spec(s) is Some,
{
    let n = modifier.len() as int;
    crate::seqs::lemma_first_index(s, crate::text::equal_to('+'), n);
    crate::seqs::lemma_first_index(name, crate::text::equal_to('+'), name.len() as int);
    assert(s.take(n) =~= modifier);
    assert(s.skip(n + 1) =~= name);
    let parts = crate::text::split(s, '+');
    assert(crate::text::split(name, '+') =~= seq![name]);
    assert(parts =~= seq![modifier, name]);
    assert(parts.drop_last() =~= seq![modifier]);
    assert(seq![modifier].drop_last() =~= Seq::<Seq<char>>::empty());
    assert(chord_of(seq![modifier]) is Some) by {
        reveal_with_fuel(chord_of, 2);
    }
}

proof fn lemma_control(s: Seq<char>)
    requires
        s.len() == 6,
        s[0] == 'c',
        s[1] == 't',
        s[2] == 'r',
        s[3] == 'l',
        s[4] == '+',
        s[5] != '+',
    ensures
        key_spec(s) is Some,
{
    reveal_strlit("ctrl");
    assert(s =~= "ctrl"@ + seq!['+'] + seq![s[5]]);
    assert(crate::text::lower_text("ctrl"@) =~= "ctrl"@);
    lemma_chorded(s, "ctrl"@, seq![s[5]]);
}

/// Every action with a built-in binding has a key in effect, whatever is configured.
pub proof fn law_known_actions_have_a_key(
    bindings: Map<Seq<char>, Seq<char>>,
    action: Seq<char>,
)
    ensures
        effective(bindings, action) is Some <==> built_in(action) is Some,
{
    if built_in(action) is Some {
        let s = built_in(action)->0;
        reveal_strlit("ctrl+q");
        reveal_strlit("ctrl+c");
        reveal_strlit("ctrl+l");
        reveal_strlit("ctrl+t");
        reveal_strlit("ctrl+,");
        reveal_strlit("ctrl+p");
        reveal_strlit("ctrl+d");
        reveal_strlit("alt+q");
        reveal_strlit("shift+enter");
        reveal_strlit("alt");
        reveal_strlit("shift");
        reveal_strlit("enter");
        reveal_strlit("v");
        reveal_strlit("i");
        reveal_strlit("s");
        reveal_strlit("backspace");
        reveal_strlit("delete");
        reveal_strlit("left");
        reveal_strlit("right");
        reveal_strlit("home");
        reveal_strlit("end");
        reveal_strlit("up");
        reveal_strlit("down");
        reveal_strlit("esc");
        if s == "alt+q"@ {
            assert(s =~= "alt"@ + seq!['+'] + seq!['q']);
            assert(crate::text::lower_text("alt"@) =~= "alt"@);
            lemma_chorded(s, "alt"@, seq!['q']);
        } else if s == "shift+enter"@ {
            assert(s =~= "shift"@ + seq!['+'] + "enter"@);
            assert(crate::text::lower_text("shift"@) =~= "shift"@);
            lemma_chorded(s, "shift"@, "enter"@);
        } else if s.len() == 6 && s[4] == '+' {
            lemma_control(s);
        } else {
            lemma_plain(s);
        }
    }
}

} // verus!
