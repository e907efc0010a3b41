//! Which key press a key spec stands for, however it is written.

use vstd::prelude::*;

use crate::key::{KeyCode, KeyEvent};

verus! {

/// The modifiers that a key spec is written with, in order.
pub open spec fn written(names: Seq<Seq<char>>, name: Seq<char>) -> Seq<char>
    decreases names.len(),
{
    if names.len() == 0 {
        name
    } else {
        names[0] + seq!['+'] + written(names.skip(1), name)
    }
}

/// Whether a text is free of the sign that joins the parts of a key spec.
pub open spec fn one_part(text: Seq<char>) -> bool {
    forall|i: int| 0 <= i < text.len() ==> #[trigger] text[i] != '+'
}

proof fn lemma_parts(names: Seq<Seq<char>>, name: Seq<char>)
    requires
        one_part(name),
        forall|i: int| 0 <= i < names.len() ==> one_part(#[trigger] names[i]),
    ensures
        crate::text::split(written(names, name), '+') == names.push(name),
    decreases names.len(),
{
    let s = written(names, name);
    if names.len() == 0 {
        crate::seqs::lemma_first_index(s, crate::text::equal_to('+'), s.len() as int);
        assert(names.push(name) =~= seq![s]);
    } else {
        let n = names[0].len() as int;
        let rest = names.skip(1);
        assert(one_part(names[0]));
        assert forall|i: int| 0 <= i < rest.len() implies one_part(#[trigger] rest[i]) by {
            assert(rest[i] == names[i + 1]);
        }
        lemma_parts(rest, name);
        crate::seqs::lemma_first_index(s, crate::text::equal_to('+'), n);
        assert(s.take(n) =~= names[0]);
        assert(s.skip(n + 1) =~= written(rest, name));
        assert(names.push(name) =~= seq![names[0]] + rest.push(name));
    }
}

proof fn lemma_modifiers(names: Seq<Seq<char>>)
    requires
        forall|i: int|
            0 <= i < names.len() ==> #[trigger] names[i] == "ctrl"@ || names[i] == "alt"@
                || names[i] == "shift"@,
    ensures
        crate::theme::keymap::chord_of(names) matches Some(chord) && {
            &&& chord.control == names.contains("ctrl"@)
            &&& chord.alt == names.contains("alt"@)
            &&& chord.shift == names.contains("shift"@)
        },
    decreases names.len(),
{
    reveal_strlit("ctrl");
    reveal_strlit("control");
    reveal_strlit("alt");
    reveal_strlit("shift");
    assert("ctrl"@[0] != "alt"@[0] && "ctrl"@[0] != "shift"@[0] && "alt"@[0] != "shift"@[0]);
    if names.len() > 0 {
        let front = names.drop_last();
        assert forall|i: int| 0 <= i < front.len() implies #[trigger] front[i] == "ctrl"@
            || front[i] == "alt"@ || front[i] == "shift"@ by {
            assert(front[i] == names[i]);
        }
        lemma_modifiers(front);
        let last = names.last();
        assert(names[names.len() - 1] == last);
        assert(crate::text::lower_text("ctrl"@) =~= "ctrl"@);
        assert(crate::text::lower_text("alt"@) =~= "alt"@);
        assert(crate::text::lower_text("shift"@) =~= "shift"@);
        assert("control"@.len() == 7 && "ctrl"@.len() == 4 && "alt"@.len() == 3 && "shift"@.len()
            == 5);
        assert forall|m: Seq<char>| #[trigger] names.contains(m) <==> front.contains(m) || m
            == last by {
            if names.contains(m) {
                let i = choose|i: int| 0 <= i < names.len() && names[i] == m;
                if i < front.len() {
                    assert(front[i] == m);
                }
            }
            if front.contains(m) {
                let i = choose|i: int| 0 <= i < front.len() && front[i] == m;
                assert(names[i] == m);
            }
        }
    }
}

/// A key spec of a letter takes that letter, with the modifiers that it is written with and no
/// others, whatever order they stand in and however often. With shift the capital is taken too,
/// and a letter that is a capital by itself is one with shift.
pub proof fn law_letter_spec(names: Seq<Seq<char>>, c: char, key: KeyEvent)
    requires
        'a' <= c <= 'z',
        forall|i: int|
            0 <= i < names.len() ==> #[trigger] names[i] == "ctrl"@ || names[i] == "alt"@
                || names[i] == "shift"@,
    ensures
        ({
            let control = names.contains("ctrl"@);
            let alt = names.contains("alt"@);
            let shift = names.contains("shift"@) || (crate::text::upper_case(c) && !control
                && !alt);
            crate::theme::keymap::key_spec(written(names, seq![c])) matches Some(read) && (
            read.accepts(key) <==> key.control == control && key.alt == alt && key.shift == shift
                && (key.code == KeyCode::Char(c) || (shift && key.code == KeyCode::Char(
                (c as u32 - 32) as char,
            ))))
        }),
{
    reveal_strlit("ctrl");
    reveal_strlit("alt");
    reveal_strlit("shift");
    assert forall|i: int| 0 <= i < names.len() implies one_part(#[trigger] names[i]) by {}
    lemma_parts(names, seq![c]);
    lemma_modifiers(names);
    assert(names.push(seq![c]).drop_last() =~= names);
    reveal_strlit("esc");
    reveal_strlit("enter");
    reveal_strlit("return");
    reveal_strlit("tab");
    reveal_strlit("backspace");
    reveal_strlit("delete");
    reveal_strlit("del");
    reveal_strlit("up");
    reveal_strlit("down");
    reveal_strlit("left");
    reveal_strlit("right");
    reveal_strlit("home");
    reveal_strlit("end");
    reveal_strlit("space");
    assert(seq![c].len() == 1);
    assert(crate::theme::keymap::named_key(seq![c]) is None);
}

/// The name of a key that has one.
pub open spec fn names_key(name: Seq<char>, code: KeyCode) -> bool {
    ||| name == "esc"@ && code == KeyCode::Esc
    ||| name == "enter"@ && code == KeyCode::Enter
    ||| name == "tab"@ && code == KeyCode::Tab
    ||| name == "backspace"@ && code == KeyCode::Backspace
    ||| name == "delete"@ && code == KeyCode::Delete
    ||| name == "up"@ && code == KeyCode::Up
    ||| name == "down"@ && code == KeyCode::Down
    ||| name == "left"@ && code == KeyCode::Left
    ||| name == "right"@ && code == KeyCode::Right
    ||| name == "home"@ && code == KeyCode::Home
    ||| name == "end"@ && code == KeyCode::End
}

proof fn lemma_named(name: Seq<char>, code: KeyCode)
    requires
        names_key(name, code),
    ensures
        crate::theme::keymap::named_key(name) == Some(code),
        one_part(name),
{
    reveal_strlit("esc");
    reveal_strlit("enter");
    reveal_strlit("return");
    reveal_strlit("tab");
    reveal_strlit("backspace");
    reveal_strlit("delete");
    reveal_strlit("del");
    reveal_strlit("up");
    reveal_strlit("down");
    reveal_strlit("left");
    reveal_strlit("right");
    reveal_strlit("home");
    reveal_strlit("end");
    reveal_strlit("space");
    assert("esc"@.len() == 3 && "esc"@[0] == 'e');
    assert("enter"@.len() == 5 && "enter"@[0] == 'e');
    assert("return"@.len() == 6 && "return"@[0] == 'r');
    assert("tab"@.len() == 3 && "tab"@[0] == 't');
    assert("backspace"@.len() == 9 && "backspace"@[0] == 'b');
    assert("delete"@.len() == 6 && "delete"@[0] == 'd');
    assert("del"@.len() == 3 && "del"@[0] == 'd');
    assert("up"@.len() == 2 && "up"@[0] == 'u');
    assert("down"@.len() == 4 && "down"@[0] == 'd');
    assert("left"@.len() == 4 && "left"@[0] == 'l');
    assert("right"@.len() == 5 && "right"@[0] == 'r');
    assert("home"@.len() == 4 && "home"@[0] == 'h');
    assert("end"@.len() == 3 && "end"@[0] == 'e');
    assert("space"@.len() == 5 && "space"@[0] == 's');
    assert("esc"@[1] == 's' && "end"@[1] == 'n');
}

/// A key spec of a named key takes that key, with the modifiers that it is written with and no
/// others.
pub proof fn law_named_spec(names: Seq<Seq<char>>, name: Seq<char>, code: KeyCode, key: KeyEvent)
    requires
        names_key(name, code),
        forall|i: int|
            0 <= i < names.len() ==> #[trigger] names[i] == "ctrl"@ || names[i] == "alt"@
                || names[i] == "shift"@,
    ensures
        crate::theme::keymap::key_spec(written(names, name)) matches Some(read) && (read.accepts(
            key,
        ) <==> key.code == code && key.control == names.contains("ctrl"@) && key.alt
            == names.contains("alt"@) && key.shift == names.contains("shift"@)),
{
    reveal_strlit("ctrl");
    reveal_strlit("alt");
    reveal_strlit("shift");
    assert forall|i: int| 0 <= i < names.len() implies one_part(#[trigger] names[i]) by {}
    lemma_named(name, code);
    lemma_parts(names, name);
    lemma_modifiers(names);
    assert(names.push(name).drop_last() =~= names);
    let read = crate::theme::keymap::key_spec(written(names, name));
    assert(read is Some && read->0.code == code);
    assert(!(code is Char));
}

} // verus!
