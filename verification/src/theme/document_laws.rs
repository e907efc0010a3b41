//! Which documents are themes, which themes there are and what the terminal's reply comes to,
//! whatever they hold.

use vstd::prelude::*;

use crate::theme::detect::PollStep;
use crate::theme::{ThemeView, TomlEntryView};

verus! {

/// Whether an entry stands under a key.
pub open spec fn stands_under(entries: Seq<TomlEntryView>, key: Seq<char>) -> bool {
    exists|i: int| 0 <= i < entries.len() && (#[trigger] entries[i]).key == key
}

/// Whether a key names a part of a theme that every theme has.
pub open spec fn needed(key: Seq<char>) -> bool {
    ||| key == "name"@
    ||| key == "accent"@
    ||| key == "muted"@
    ||| key == "error"@
    ||| key == "warning"@
    ||| key == "success"@
    ||| key == "code"@
    ||| key == "bg"@
    ||| key == "text"@
}

proof fn lemma_entry(entries: Seq<TomlEntryView>, key: Seq<char>)
    ensures
        crate::theme::entry(entries, key) is Some <==> stands_under(entries, key),
    decreases entries.len(),
{
    if entries.len() > 0 {
        let rest = entries.drop_first();
        lemma_entry(rest, key);
        if stands_under(rest, key) {
            let i = choose|i: int| 0 <= i < rest.len() && (#[trigger] rest[i]).key == key;
            assert(entries[i + 1].key == key);
        }
        if stands_under(entries, key) && entries[0].key != key {
            let i = choose|i: int| 0 <= i < entries.len() && (#[trigger] entries[i]).key == key;
            assert(rest[i - 1].key == key);
        }
    }
}

proof fn lemma_missing(entries: Seq<TomlEntryView>, keys: Seq<Seq<char>>)
    ensures
        crate::theme::missing_key(entries, keys) is None <==> forall|i: int|
            0 <= i < keys.len() ==> stands_under(entries, #[trigger] keys[i]),
        crate::theme::missing_key(entries, keys) matches Some(key) ==> keys.contains(key)
            && !stands_under(entries, key),
    decreases keys.len(),
{
    if keys.len() > 0 {
        let rest = keys.drop_first();
        lemma_missing(entries, rest);
        lemma_entry(entries, keys[0]);
        assert forall|i: int| 0 <= i < keys.len() && i > 0 implies #[trigger] keys[i] == rest[i
            - 1] by {}
        match crate::theme::missing_key(entries, rest) {
            Some(key) => {
                let i = choose|i: int| 0 <= i < rest.len() && rest[i] == key;
                assert(keys[i + 1] == key);
            },
            None => {
                if stands_under(entries, keys[0]) {
                    assert forall|i: int| 0 <= i < keys.len() implies stands_under(
                        entries,
                        #[trigger] keys[i],
                    ) by {
                        if i > 0 {
                            assert(stands_under(entries, rest[i - 1]));
                        }
                    }
                }
            },
        }
    }
}

/// Whether an entry may stand in a theme: a part of a theme is a text, anything else can be
/// passed over.
pub open spec fn sound(e: TomlEntryView) -> bool {
    if needed(e.key) || e.key == "panel_bg"@ || e.key == "border"@ || e.key == "user_bg"@ {
        e.text is Ok
    } else {
        e.passed is None
    }
}

proof fn lemma_needed(key: Seq<char>)
    ensures
        crate::theme::required_keys().contains(key) <==> needed(key),
{
    let keys = crate::theme::required_keys();
    if needed(key) {
        assert(keys[0] == "name"@);
        assert(keys[1] == "accent"@);
        assert(keys[2] == "muted"@);
        assert(keys[3] == "error"@);
        assert(keys[4] == "warning"@);
        assert(keys[5] == "success"@);
        assert(keys[6] == "code"@);
        assert(keys[7] == "bg"@);
        assert(keys[8] == "text"@);
    }
}

proof fn lemma_faults(entries: Seq<TomlEntryView>)
    ensures
        crate::theme::entries_fault(entries) is None <==> forall|i: int|
            0 <= i < entries.len() ==> sound(#[trigger] entries[i]),
    decreases entries.len(),
{
    if entries.len() > 0 {
        let rest = entries.drop_first();
        lemma_faults(rest);
        lemma_needed(entries[0].key);
        assert(crate::theme::entry_fault(entries[0]) is None <==> sound(entries[0]));
        if crate::theme::entries_fault(entries) is None {
            assert forall|i: int| 0 <= i < entries.len() implies sound(#[trigger] entries[i]) by {
                if i > 0 {
                    assert(sound(rest[i - 1]));
                }
            }
        } else if sound(entries[0]) {
            let i = choose|i: int| 0 <= i < rest.len() && !sound(#[trigger] rest[i]);
            assert(!sound(entries[i + 1]));
        }
    }
}

/// A document is a theme where every part that a theme has to have stands in it, each part is a
/// text, and anything else can be passed over; else something is wrong with it.
pub proof fn law_sound_document(entries: Seq<TomlEntryView>, place: Seq<char>)
    ensures
        crate::theme::document_fault(entries, place) is None <==> {
            &&& forall|i: int| 0 <= i < entries.len() ==> sound(#[trigger] entries[i])
            &&& forall|key: Seq<char>| #[trigger] needed(key) ==> stands_under(entries, key)
        },
{
    lemma_faults(entries);
    let keys = crate::theme::required_keys();
    lemma_missing(entries, keys);
    if crate::theme::missing_key(entries, keys) is None {
        assert forall|key: Seq<char>| #[trigger] needed(key) implies stands_under(entries, key) by {
            lemma_needed(key);
            let i = choose|i: int| 0 <= i < keys.len() && keys[i] == key;
            assert(stands_under(entries, keys[i]));
        }
    } else {
        let key = crate::theme::missing_key(entries, keys)->0;
        lemma_needed(key);
        assert(needed(key));
    }
}

/// A part that is told to be missing is missing, and is one that a theme has to have.
pub proof fn law_missing_part(entries: Seq<TomlEntryView>, place: Seq<char>) -> (key: Seq<char>)
    requires
        forall|i: int| 0 <= i < entries.len() ==> sound(#[trigger] entries[i]),
        crate::theme::document_fault(entries, place) is Some,
    ensures
        needed(key),
        !stands_under(entries, key),
        crate::theme::document_fault(entries, place) == Some(
            place + "missing field `"@ + key + "`\n"@,
        ),
{
    lemma_faults(entries);
    let keys = crate::theme::required_keys();
    lemma_missing(entries, keys);
    let key = crate::theme::missing_key(entries, keys)->0;
    lemma_needed(key);
    key
}

/// What is told of an entry is told of the first one with which something is wrong.
pub proof fn law_first_fault(entries: Seq<TomlEntryView>, place: Seq<char>, i: int)
    requires
        0 <= i < entries.len(),
        forall|k: int| 0 <= k < i ==> sound(#[trigger] entries[k]),
        !sound(entries[i]),
    ensures
        crate::theme::document_fault(entries, place) == (if entries[i].text is Err && (needed(
            entries[i].key,
        ) || entries[i].key == "panel_bg"@ || entries[i].key == "border"@ || entries[i].key
            == "user_bg"@) {
            Some(entries[i].text->Err_0)
        } else {
            entries[i].passed
        }),
    decreases i,
{
    lemma_needed(entries[0].key);
    if i > 0 {
        assert(sound(entries[0]));
        let rest = entries.drop_first();
        assert forall|k: int| 0 <= k < i - 1 implies sound(#[trigger] rest[k]) by {
            assert(rest[k] == entries[k + 1]);
        }
        law_first_fault(rest, place, i - 1);
        lemma_faults(rest);
        assert(!sound(rest[i - 1]));
    }
}

/// Themes that are added in two steps are those that are added in one.
pub proof fn law_themes_added(themes: Seq<ThemeView>, a: Seq<ThemeView>, b: Seq<ThemeView>)
    ensures
        crate::theme::with_themes(themes, a + b) == crate::theme::with_themes(
            crate::theme::with_themes(themes, a),
            b,
        ),
        crate::theme::with_themes(themes, Seq::empty()) == themes,
    decreases b.len(),
{
    if b.len() == 0 {
        assert(a + b =~= a);
    } else {
        law_themes_added(themes, a, b.drop_last());
        assert((a + b).drop_last() =~= a + b.drop_last());
        assert((a + b).last() == b.last());
    }
}

/// The document that comes last has the last word: its theme is among the themes; one that is no
/// theme changes nothing.
pub proof fn law_documents_loaded(
    themes: Seq<ThemeView>,
    documents: Seq<Seq<char>>,
    text: Seq<char>,
)
    ensures
        ({
            let before = crate::theme::loaded(themes, documents);
            let after = crate::theme::loaded(themes, documents.push(text));
            match crate::theme::document_outcome(text) {
                Ok(theme) => after.contains(theme) && after.len() <= before.len() + 1,
                Err(_) => after == before,
            }
        }),
{
    assert(documents.push(text).drop_last() =~= documents);
    let before = crate::theme::loaded(themes, documents);
    let after = crate::theme::loaded(themes, documents.push(text));
    match crate::theme::document_outcome(text) {
        Ok(theme) => {
            let i = crate::seqs::first_index(before, crate::theme::called(theme.name));
            if 0 <= i < before.len() {
                assert(after[i] == theme);
            } else {
                assert(after[before.len() as int] == theme);
            }
        },
        Err(_) => {},
    }
}

/// The names of the themes fit the longest of them, and one of them takes all of it.
pub proof fn law_longest_name(themes: Seq<ThemeView>) -> (at: int)
    requires
        themes.len() > 0,
    ensures
        forall|i: int|
            0 <= i < themes.len() ==> crate::text::byte_count((#[trigger] themes[i]).name)
                <= crate::theme::longest_name(themes),
        0 <= at < themes.len(),
        crate::text::byte_count(themes[at].name) == crate::theme::longest_name(themes),
    decreases themes.len(),
{
    let front = themes.drop_last();
    let last = themes.len() - 1;
    if front.len() == 0 {
        assert(crate::theme::longest_name(front) == 0);
        last
    } else {
        let at = law_longest_name(front);
        assert forall|i: int| 0 <= i < themes.len() implies crate::text::byte_count(
            (#[trigger] themes[i]).name,
        ) <= crate::theme::longest_name(themes) by {
            if i < last {
                assert(front[i] == themes[i]);
            }
        }
        if crate::text::byte_count(themes.last().name) as nat > crate::theme::longest_name(front) {
            last
        } else {
            assert(front[at] == themes[at]);
            at
        }
    }
}

/// The chosen theme is among those that the list shows, and the list begins at the first theme
/// as long as it can.
pub proof fn law_chosen_in_view(selected: nat, rows: nat)
    requires
        rows > 0,
    ensures
        ({
            let first = crate::theme::first_shown(selected, rows);
            &&& first <= selected < first + rows
            &&& first > 0 ==> selected == first + rows - 1
        }),
{
}

/// The terminal's reply is read byte by byte: it begins with escape and a bracket or not at all,
/// a bell ends it, and so does an escape with a backslash behind it; until then there is more.
pub proof fn law_reply_polled(reply: Seq<u8>, byte: u8)
    requires
        reply.len() >= 2,
        !reply.contains(0x07),
    ensures
        crate::theme::detect::poll_step(Seq::empty(), byte) is Abort <==> byte != 0x1b,
        crate::theme::detect::poll_step(reply, 0x07) is Done,
        crate::theme::detect::poll_step(reply, 0x5c) is Done <==> reply.last() == 0x1b,
        byte != 0x07 && byte != 0x5c ==> crate::theme::detect::poll_step(reply, byte)
            == PollStep::More,
        crate::theme::detect::poll_step(seq![0x1bu8], byte) is Abort <==> byte != 0x5d,
{
    let more = reply.push(byte);
    assert(reply.push(0x07)[reply.len() as int] == 0x07u8);
    assert(!reply.push(0x5c).contains(0x07)) by {
        if reply.push(0x5c).contains(0x07) {
            let i = choose|i: int| 0 <= i < reply.push(0x5c).len() && reply.push(0x5c)[i] == 0x07;
            assert(reply[i] == 0x07);
        }
    }
    if byte != 0x07 && more.contains(0x07) {
        let i = choose|i: int| 0 <= i < more.len() && more[i] == 0x07;
        assert(reply[i] == 0x07);
    }
}

} // verus!
