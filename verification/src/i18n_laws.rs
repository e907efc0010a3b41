//! What the texts of the client promise, whatever they are.

use vstd::prelude::*;

use crate::i18n::{Locale, StringsView};

verus! {

proof fn lemma_lookup(table: Seq<(Seq<char>, Seq<char>)>, key: Seq<char>, at: int)
    requires
        0 <= at < table.len(),
        table[at].0 == key,
        forall|i: int| 0 <= i < at ==> (#[trigger] table[i]).0 != key,
    ensures
        crate::i18n::lookup(table, key) == table[at].1,
    decreases table.len(),
{
    if at > 0 {
        let rest = table.drop_first();
        assert(table[0].0 != key);
        assert forall|i: int| 0 <= i < at - 1 implies (#[trigger] rest[i]).0 != key by {
            assert(rest[i] == table[i + 1]);
        }
        lemma_lookup(rest, key, at - 1);
    }
}

proof fn lemma_not_found(table: Seq<(Seq<char>, Seq<char>)>, key: Seq<char>)
    requires
        forall|i: int| 0 <= i < table.len() ==> (#[trigger] table[i]).0 != key,
    ensures
        crate::i18n::lookup(table, key) == key,
    decreases table.len(),
{
    if table.len() > 0 {
        let rest = table.drop_first();
        assert(table[0].0 != key);
        assert forall|i: int| 0 <= i < rest.len() implies (#[trigger] rest[i]).0 != key by {
            assert(rest[i] == table[i + 1]);
        }
        lemma_not_found(rest, key);
    }
}

/// A text is the one that the table of the locale has under its key; a key without a text is
/// shown itself. The table of the other locale does not matter.
pub proof fn law_text_found(strings: StringsView, key: Seq<char>, at: int)
    ensures
        0 <= at < strings.en.len() && strings.en[at].0 == key && (forall|i: int|
            0 <= i < at ==> (#[trigger] strings.en[i]).0 != key) ==> crate::i18n::text_of(
            strings,
            Locale::En,
            key,
        ) == strings.en[at].1,
        0 <= at < strings.zh.len() && strings.zh[at].0 == key && (forall|i: int|
            0 <= i < at ==> (#[trigger] strings.zh[i]).0 != key) ==> crate::i18n::text_of(
            strings,
            Locale::Zh,
            key,
        ) == strings.zh[at].1,
        (forall|i: int| 0 <= i < strings.en.len() ==> (#[trigger] strings.en[i]).0 != key)
            ==> crate::i18n::text_of(strings, Locale::En, key) == key,
        (forall|i: int| 0 <= i < strings.zh.len() ==> (#[trigger] strings.zh[i]).0 != key)
            ==> crate::i18n::text_of(strings, Locale::Zh, key) == key,
{
    if 0 <= at < strings.en.len() && strings.en[at].0 == key && (forall|i: int|
        0 <= i < at ==> (#[trigger] strings.en[i]).0 != key) {
        lemma_lookup(strings.en, key, at);
    }
    if 0 <= at < strings.zh.len() && strings.zh[at].0 == key && (forall|i: int|
        0 <= i < at ==> (#[trigger] strings.zh[i]).0 != key) {
        lemma_lookup(strings.zh, key, at);
    }
    if forall|i: int| 0 <= i < strings.en.len() ==> (#[trigger] strings.en[i]).0 != key {
        lemma_not_found(strings.en, key);
    }
    if forall|i: int| 0 <= i < strings.zh.len() ==> (#[trigger] strings.zh[i]).0 != key {
        lemma_not_found(strings.zh, key);
    }
}

/// The text of a text with its first placeholder filled in: what stands around the placeholder
/// stays, and the argument takes its place. A text without the placeholder stays as it is.
pub proof fn law_filled(text: Seq<char>, hole: Seq<char>, before: Seq<char>, after: Seq<char>, arg: Seq<char>)
    requires
        hole == seq!['{', '0', '}'],
        text == before + hole + after,
        forall|k: int| k != before.len() ==> !#[trigger] crate::text_laws::is_at(text, hole, k),
    ensures
        crate::i18n::filled(text, seq![arg]) == before + arg + after,
{
    reveal_strlit("{");
    reveal_strlit("}");
    assert(crate::text::decimal(0) =~= seq!['0']) by {
        assert(crate::text::digit(0) == '0');
    }
    assert(crate::i18n::placeholder(0) =~= hole);
    reveal_with_fuel(crate::i18n::filled, 2);
    assert(seq![arg].drop_last() =~= Seq::empty());
    let at = before.len() as int;
    assert(crate::text_laws::is_at(text, hole, at)) by {
        assert forall|k: int| 0 <= k < hole.len() implies text[at + k] == #[trigger] hole[k] by {}
    }
    crate::text_laws::law_replace_all(text, hole, arg);
    let rest = text.skip(at + hole.len());
    assert(rest =~= after);
    assert forall|k: int| !#[trigger] crate::text_laws::is_at(after, hole, k) by {
        if crate::text_laws::is_at(after, hole, k) {
            assert forall|j: int| 0 <= j < hole.len() implies text[at + 3 + k + j]
                == #[trigger] hole[j] by {
                assert(after[k + j] == hole[j]);
            }
            assert(crate::text_laws::is_at(text, hole, at + 3 + k));
        }
    }
    crate::text_laws::law_replace_all(after, hole, arg);
    assert(text.take(at) =~= before);
}

/// The locale is that of the first setting that names one, the configuration before the client's
/// own variable, that before the two of the system; where none does it is English.
pub proof fn law_locale_order(
    config: Option<Seq<char>>,
    own: Option<Seq<char>>,
    lc_all: Option<Seq<char>>,
    lang: Option<Seq<char>>,
    locale: Locale,
)
    ensures
        crate::i18n::locale_given(config) == Some(locale) ==> crate::i18n::first_locale(
            config,
            own,
            lc_all,
            lang,
        ) == locale,
        crate::i18n::locale_given(config) is None && crate::i18n::locale_given(own) == Some(locale)
            ==> crate::i18n::first_locale(config, own, lc_all, lang) == locale,
        crate::i18n::locale_given(config) is None && crate::i18n::locale_given(own) is None
            && crate::i18n::locale_given(lc_all) == Some(locale) ==> crate::i18n::first_locale(
            config,
            own,
            lc_all,
            lang,
        ) == locale,
        crate::i18n::locale_given(config) is None && crate::i18n::locale_given(own) is None
            && crate::i18n::locale_given(lc_all) is None && crate::i18n::locale_given(lang) == Some(
            locale,
        ) ==> crate::i18n::first_locale(config, own, lc_all, lang) == locale,
        crate::i18n::locale_given(config) is None && crate::i18n::locale_given(own) is None
            && crate::i18n::locale_given(lc_all) is None && crate::i18n::locale_given(lang) is None
            ==> crate::i18n::first_locale(config, own, lc_all, lang) == Locale::En,
{
}

/// A setting names a locale by its first two letters, in either case: anything may follow, as in
/// the name of a system locale.
pub proof fn law_locale_named(rest: Seq<char>)
    ensures
        crate::i18n::locale_named(seq!['e', 'n'] + rest) == Some(Locale::En),
        crate::i18n::locale_named(seq!['E', 'N'] + rest) == Some(Locale::En),
        crate::i18n::locale_named(seq!['z', 'h'] + rest) == Some(Locale::Zh),
        crate::i18n::locale_named(seq!['Z', 'H'] + rest) == Some(Locale::Zh),
        crate::i18n::locale_named(seq!['f', 'r'] + rest) is None,
        crate::i18n::locale_named(Seq::empty()) is None,
{
    reveal_strlit("en");
    reveal_strlit("zh");
    assert("en"@ =~= seq!['e', 'n']);
    assert("zh"@ =~= seq!['z', 'h']);
    let a = crate::text::lower_text(seq!['e', 'n'] + rest);
    let b = crate::text::lower_text(seq!['E', 'N'] + rest);
    let c = crate::text::lower_text(seq!['z', 'h'] + rest);
    let d = crate::text::lower_text(seq!['Z', 'H'] + rest);
    let e = crate::text::lower_text(seq!['f', 'r'] + rest);
    assert(a.subrange(0, 2) =~= "en"@);
    assert(b.subrange(0, 2) =~= "en"@);
    assert(c.subrange(0, 2) =~= "zh"@);
    assert(d.subrange(0, 2) =~= "zh"@);
    assert(c[0] == 'z' && d[0] == 'z');
    assert(e[0] == 'f');
    assert(!"en"@.is_prefix_of(c)) by {
        assert(c.subrange(0, 2)[0] == 'z');
    }
    assert(!"en"@.is_prefix_of(d)) by {
        assert(d.subrange(0, 2)[0] == 'z');
    }
    assert(!"en"@.is_prefix_of(e) && !"zh"@.is_prefix_of(e)) by {
        assert(e.subrange(0, 2)[0] == 'f');
    }
}

} // verus!
