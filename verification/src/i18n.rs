//! The two languages of the user interface.
//!
//! A string table maps keys (`sidebar.empty`, `marker.tool`) to texts; a key that a table
//! lacks shows as itself.

use vstd::prelude::*;

use crate::text::{begins_with, chars_of, joined, lowered, replaced, same, u64_text};

verus! {

/// The language of the user interface.
#[derive(Debug, Clone, Copy, PartialEq, Eq, Structural)]
pub enum Locale {
    En,
    Zh,
}

impl Default for Locale {
    fn default() -> (r: Self)
        ensures
            r == Locale::En,
    {
        Locale::En
    }
}

/// The locale that a name like `en-US` or `zh_CN` stands for.
pub open spec fn locale_named(value: Seq<char>) -> Option<Locale> {
    let lower = crate::text::lower_text(value);
    if "en"@.is_prefix_of(lower) {
        Some(Locale::En)
    } else if "zh"@.is_prefix_of(lower) {
        Some(Locale::Zh)
    } else {
        None
    }
}

/// The locale that an optional name stands for.
pub open spec fn locale_given(value: Option<Seq<char>>) -> Option<Locale> {
    match value {
        Some(v) => locale_named(v),
        None => None,
    }
}

/// The first of four names that stands for a locale, English where none does.
pub open spec fn first_locale(
    config: Option<Seq<char>>,
    own: Option<Seq<char>>,
    lc_all: Option<Seq<char>>,
    lang: Option<Seq<char>>,
) -> Locale {
    if locale_given(config) is Some {
        locale_given(config)->0
    } else if locale_given(own) is Some {
        locale_given(own)->0
    } else if locale_given(lc_all) is Some {
        locale_given(lc_all)->0
    } else if locale_given(lang) is Some {
        locale_given(lang)->0
    } else {
        Locale::En
    }
}

impl Locale {
    /// The other locale.
    pub open spec fn other(self) -> Locale {
        match self {
            Locale::En => Locale::Zh,
            Locale::Zh => Locale::En,
        }
    }

    /// The locale that a name stands for.
    pub fn parse(value: &str) -> (r: Option<Locale>)
        ensures
            r == locale_named(value@),
    {
        let lower = lowered(value);
        if begins_with(lower.as_str(), "en") {
            Some(Locale::En)
        } else if begins_with(lower.as_str(), "zh") {
            Some(Locale::Zh)
        } else {
            None
        }
    }

    fn parse_given(value: Option<&str>) -> (r: Option<Locale>)
        ensures
            r == locale_given(crate::text::opt_view(value)),
    {
        match value {
            Some(v) => Locale::parse(v),
            None => None,
        }
    }

    /// The locale to start with: that of the configuration, then of the application's own
    /// variable, then of `LC_ALL` and `LANG`, else English.
    pub fn detect(
        config: Option<&str>,
        own: Option<&str>,
        lc_all: Option<&str>,
        lang: Option<&str>,
    ) -> (r: Locale)
        ensures
            r == first_locale(
                crate::text::opt_view(config),
                crate::text::opt_view(own),
                crate::text::opt_view(lc_all),
                crate::text::opt_view(lang),
            ),
    {
        match Locale::parse_given(config) {
            Some(l) => return l,
            None => {},
        }
        match Locale::parse_given(own) {
            Some(l) => return l,
            None => {},
        }
        match Locale::parse_given(lc_all) {
            Some(l) => return l,
            None => {},
        }
        match Locale::parse_given(lang) {
            Some(l) => return l,
            None => {},
        }
        Locale::En
    }

    /// The other locale.
    pub fn next(self) -> (r: Locale)
        ensures
            r == self.other(),
    {
        match self {
            Locale::En => Locale::Zh,
            Locale::Zh => Locale::En,
        }
    }

    /// The locale's own name.
    pub fn native_name(self) -> (r: &'static str)
        ensures
            r@ == locale_name(self),
    {
        match self {
            Locale::En => "English",
            Locale::Zh => "中文",
        }
    }

    /// The name of the locale in the configuration.
    pub fn code(self) -> (r: &'static str)
        ensures
            r@ == locale_code(self),
    {
        match self {
            Locale::En => "en",
            Locale::Zh => "zh",
        }
    }
}

/// A locale's own name.
pub open spec fn locale_name(locale: Locale) -> Seq<char> {
    match locale {
        Locale::En => "English"@,
        Locale::Zh => "中文"@,
    }
}

/// The name of a locale in the configuration.
pub open spec fn locale_code(locale: Locale) -> Seq<char> {
    match locale {
        Locale::En => "en"@,
        Locale::Zh => "zh"@,
    }
}

/// The string tables: pairs of a key and its text.
#[derive(Debug)]
pub struct Strings {
    pub en: Vec<(String, String)>,
    pub zh: Vec<(String, String)>,
}

/// The string tables.
pub struct StringsView {
    pub en: Seq<(Seq<char>, Seq<char>)>,
    pub zh: Seq<(Seq<char>, Seq<char>)>,
}

/// The pairs of a table.
pub open spec fn pairs(table: Seq<(String, String)>) -> Seq<(Seq<char>, Seq<char>)> {
    table.map_values(|e: (String, String)| (e.0@, e.1@))
}

impl View for Strings {
    type V = StringsView;

    open spec fn view(&self) -> StringsView {
        StringsView { en: pairs(self.en@), zh: pairs(self.zh@) }
    }
}

/// The text of a key: that of its first entry, the key itself where it has none.
pub open spec fn lookup(table: Seq<(Seq<char>, Seq<char>)>, key: Seq<char>) -> Seq<char>
    decreases table.len(),
{
    if table.len() == 0 {
        key
    } else if table[0].0 == key {
        table[0].1
    } else {
        lookup(table.drop_first(), key)
    }
}

/// The table of a locale.
pub open spec fn table_of(strings: StringsView, locale: Locale) -> Seq<(Seq<char>, Seq<char>)> {
    match locale {
        Locale::En => strings.en,
        Locale::Zh => strings.zh,
    }
}

/// The text of a key in a locale.
pub open spec fn text_of(strings: StringsView, locale: Locale, key: Seq<char>) -> Seq<char> {
    lookup(table_of(strings, locale), key)
}

/// A placeholder: its number in braces.
pub open spec fn placeholder(index: nat) -> Seq<char> {
    "{"@ + crate::text::decimal(index) + "}"@
}

/// A text with its placeholders filled in, one after the other.
pub open spec fn filled(text: Seq<char>, args: Seq<Seq<char>>) -> Seq<char>
    decreases args.len(),
{
    if args.len() == 0 {
        text
    } else {
        crate::text::replace_all(
            filled(text, args.drop_last()),
            placeholder((args.len() - 1) as nat),
            args.last(),
        )
    }
}

/// The texts of the arguments.
pub open spec fn arg_texts(args: Seq<&str>) -> Seq<Seq<char>> {
    args.map_values(|a: &str| a@)
}

/// The text of a key in a locale, with its placeholders filled in.
pub open spec fn text_with(strings: StringsView, locale: Locale, key: Seq<char>, args: Seq<Seq<char>>) -> Seq<
    char,
> {
    filled(text_of(strings, locale, key), args)
}

/// Whether a text stands before another: at the first character in which they differ, or where
/// it ends first. This is the order of their bytes too.
pub open spec fn precedes(a: Seq<char>, b: Seq<char>) -> bool
    decreases a.len(),
{
    if b.len() == 0 {
        false
    } else if a.len() == 0 {
        true
    } else if a[0] != b[0] {
        a[0] < b[0]
    } else {
        precedes(a.drop_first(), b.drop_first())
    }
}

/// Whether texts stand in ascending order, none of them twice.
pub open spec fn ascending(keys: Seq<Seq<char>>) -> bool {
    forall|i: int, j: int|
        0 <= i < j < keys.len() ==> precedes(#[trigger] keys[i], #[trigger] keys[j])
}

/// Whether a table has a key.
pub open spec fn has_key(table: Seq<(Seq<char>, Seq<char>)>, key: Seq<char>) -> bool {
    exists|i: int| 0 <= i < table.len() && (#[trigger] table[i]).0 == key
}

proof fn lemma_precedes_through(a: Seq<char>, b: Seq<char>, c: Seq<char>)
    requires
        precedes(a, b),
        precedes(b, c),
    ensures
        precedes(a, c),
    decreases a.len(),
{
    if a.len() > 0 && a[0] == b[0] && b[0] == c[0] {
        lemma_precedes_through(a.drop_first(), b.drop_first(), c.drop_first());
    }
}

proof fn lemma_precedes_one_way(a: Seq<char>, b: Seq<char>)
    ensures
        a != b ==> precedes(a, b) || precedes(b, a),
        !precedes(a, a),
    decreases a.len(),
{
    if a.len() > 0 {
        lemma_precedes_one_way(a.drop_first(), a.drop_first());
        if b.len() > 0 && a[0] == b[0] {
            lemma_precedes_one_way(a.drop_first(), b.drop_first());
            if a.drop_first() == b.drop_first() {
                assert(a =~= seq![a[0]] + a.drop_first());
                assert(b =~= seq![b[0]] + b.drop_first());
            }
        }
    } else if b.len() == 0 {
        assert(a =~= b);
    }
}

fn comes_before(a: &str, b: &str) -> (r: bool)
    ensures
        r == precedes(a@, b@),
{
    let left = chars_of(a);
    let right = chars_of(b);
    let mut i: usize = 0;
    proof {
        assert(left@.skip(0) =~= left@);
        assert(right@.skip(0) =~= right@);
    }
    while i < left.len() && i < right.len() && left[i] == right[i]
        invariant
            i <= left@.len(),
            i <= right@.len(),
            precedes(a@, b@) == precedes(left@.skip(i as int), right@.skip(i as int)),
        decreases left.len() - i,
    {
        proof {
            assert(left@.skip(i as int).drop_first() =~= left@.skip(i + 1));
            assert(right@.skip(i as int).drop_first() =~= right@.skip(i + 1));
            assert(left@.skip(i as int)[0] == left@[i as int]);
            assert(right@.skip(i as int)[0] == right@[i as int]);
        }
        i = i + 1;
    }
    proof {
        if i < left@.len() {
            assert(left@.skip(i as int)[0] == left@[i as int]);
        }
        if i < right@.len() {
            assert(right@.skip(i as int)[0] == right@[i as int]);
        }
    }
    if i >= right.len() {
        false
    } else if i >= left.len() {
        true
    } else {
        left[i] < right[i]
    }
}

fn insert_key(keys: &mut Vec<String>, key: &String)
    requires
        ascending(crate::text::views(old(keys)@)),
    ensures
        ascending(crate::text::views(final(keys)@)),
        forall|k: Seq<char>| #[trigger]
            crate::text::views(final(keys)@).contains(k) <==> crate::text::views(
                old(keys)@,
            ).contains(k) || k == key@,
{
    let ghost before = crate::text::views(keys@);
    let mut i: usize = 0;
    while i < keys.len() && comes_before(keys[i].as_str(), key.as_str())
        invariant
            i <= keys@.len(),
            before == crate::text::views(keys@),
            forall|k: int| 0 <= k < i ==> precedes(#[trigger] before[k], key@),
        decreases keys.len() - i,
    {
        proof {
            assert(before[i as int] == keys@[i as int]@);
        }
        i = i + 1;
    }
    if i < keys.len() && same(keys[i].as_str(), key.as_str()) {
        proof {
            assert(before[i as int] == key@);
        }
        return;
    }
    keys.insert(i, key.clone());
    proof {
        let after = crate::text::views(keys@);
        assert(after =~= before.insert(i as int, key@));
        if i < before.len() {
            lemma_precedes_one_way(before[i as int], key@);
        }
        assert forall|a: int, b: int| 0 <= a < b < after.len() implies precedes(
            #[trigger] after[a],
            #[trigger] after[b],
        ) by {
            if a == i {
                assert(precedes(key@, before[i as int]));
                if b - 1 > i {
                    assert(precedes(before[i as int], before[b - 1]));
                    lemma_precedes_through(key@, before[i as int], before[b - 1]);
                }
            } else if b == i {
                assert(precedes(before[a], key@));
            } else {
                let x = if a < i {
                    a
                } else {
                    a - 1
                };
                let y = if b < i {
                    b
                } else {
                    b - 1
                };
                assert(after[a] == before[x] && after[b] == before[y]);
            }
        }
        assert forall|k: Seq<char>| #[trigger] after.contains(k) <==> before.contains(k) || k
            == key@ by {
            if after.contains(k) {
                let at = choose|at: int| 0 <= at < after.len() && after[at] == k;
                if at < i {
                    assert(before[at] == k);
                } else if at > i {
                    assert(before[at - 1] == k);
                }
            }
            if before.contains(k) {
                let at = choose|at: int| 0 <= at < before.len() && before[at] == k;
                if at < i {
                    assert(after[at] == k);
                } else {
                    assert(after[at + 1] == k);
                }
            }
            if k == key@ {
                assert(after[i as int] == k);
            }
        }
    }
}

fn keys_of(table: &Vec<(String, String)>) -> (r: Vec<String>)
    ensures
        ascending(crate::text::views(r@)),
        forall|k: Seq<char>| #[trigger]
            crate::text::views(r@).contains(k) <==> has_key(pairs(table@), k),
{
    let ghost all = pairs(table@);
    let mut out: Vec<String> = Vec::new();
    let mut i: usize = 0;
    while i < table.len()
        invariant
            i <= table.len(),
            all == pairs(table@),
            ascending(crate::text::views(out@)),
            forall|k: Seq<char>| #[trigger]
                crate::text::views(out@).contains(k) <==> has_key(all.take(i as int), k),
        decreases table.len() - i,
    {
        let ghost so_far = crate::text::views(out@);
        insert_key(&mut out, &table[i].0);
        proof {
            let now = crate::text::views(out@);
            let key = table@[i as int].0@;
            assert(all[i as int].0 == key);
            assert forall|k: Seq<char>| #[trigger] now.contains(k) <==> has_key(
                all.take(i + 1),
                k,
            ) by {
                assert(now.contains(k) <==> so_far.contains(k) || k == key);
                assert(so_far.contains(k) <==> has_key(all.take(i as int), k));
                if has_key(all.take(i as int), k) {
                    let at = choose|at: int|
                        0 <= at < i && (#[trigger] all.take(i as int)[at]).0 == k;
                    assert(all.take(i + 1)[at].0 == k);
                }
                if k == key {
                    assert(all.take(i + 1)[i as int].0 == k);
                }
                if has_key(all.take(i + 1), k) {
                    let at = choose|at: int|
                        0 <= at < i + 1 && (#[trigger] all.take(i + 1)[at]).0 == k;
                    if at < i {
                        assert(all.take(i as int)[at].0 == k);
                    }
                }
            }
        }
        i = i + 1;
    }
    proof {
        assert(all.take(i as int) =~= all);
    }
    out
}

/// Every key of the English table, once each, in ascending order.
pub fn en_keys(strings: &Strings) -> (r: Vec<String>)
    ensures
        ascending(crate::text::views(r@)),
        forall|k: Seq<char>| #[trigger]
            crate::text::views(r@).contains(k) <==> has_key(strings@.en, k),
{
    keys_of(&strings.en)
}

/// Every key of the Chinese table, once each, in ascending order.
pub fn zh_keys(strings: &Strings) -> (r: Vec<String>)
    ensures
        ascending(crate::text::views(r@)),
        forall|k: Seq<char>| #[trigger]
            crate::text::views(r@).contains(k) <==> has_key(strings@.zh, k),
{
    keys_of(&strings.zh)
}

/// The text of `key` in `locale`, the key itself where the table lacks it.
pub fn tr<'a>(strings: &'a Strings, locale: Locale, key: &'a str) -> (r: &'a str)
    ensures
        r@ == text_of(strings@, locale, key@),
{
    let table = match locale {
        Locale::En => &strings.en,
        Locale::Zh => &strings.zh,
    };
    let ghost all = pairs(table@);
    proof {
        assert(all.skip(0) =~= all);
    }
    let mut i: usize = 0;
    while i < table.len()
        invariant
            i <= table.len(),
            all == pairs(table@),
            lookup(all, key@) == lookup(all.skip(i as int), key@),
            all == table_of(strings@, locale),
        decreases table.len() - i,
    {
        proof {
            assert(all.skip(i as int)[0] == all[i as int]);
            assert(all.skip(i as int).drop_first() =~= all.skip(i + 1));
        }
        if same(table[i].0.as_str(), key) {
            return table[i].1.as_str();
        }
        i = i + 1;
    }
    key
}

/// The text of `key` in `locale` with the placeholders `{0}`, `{1}`, ... filled in. An
/// argument without a placeholder is ignored; a placeholder without an argument stays.
pub fn trf(strings: &Strings, locale: Locale, key: &str, args: &[&str]) -> (r: String)
    ensures
        r@ == text_with(strings@, locale, key@, arg_texts(args@)),
{
    let mut out = tr(strings, locale, key).to_owned();
    let ghost text = out@;
    let ghost all = arg_texts(args@);
    proof {
        assert(all.take(0) =~= Seq::empty());
    }
    let mut i: usize = 0;
    while i < args.len()
        invariant
            i <= args.len(),
            all == arg_texts(args@),
            out@ == filled(text, all.take(i as int)),
        decreases args.len() - i,
    {
        let mut mark = joined("{", u64_text(i as u64).as_str());
        mark.append("}");
        proof {
            assert(all.take(i + 1).drop_last() =~= all.take(i as int));
            assert(all.take(i + 1).last() == args@[i as int]@);
            reveal_strlit("{");
        }
        out = replaced(out.as_str(), mark.as_str(), args[i]);
        i = i + 1;
    }
    proof {
        assert(all.take(i as int) =~= all);
    }
    out
}

/// Two steps through the locales lead back.
pub proof fn law_locale_cycle(locale: Locale)
    ensures
        locale.other() != locale,
        locale.other().other() == locale,
{
}

/// The name of a locale in the configuration stands for that locale: what is written is
/// read back.
pub proof fn law_locale_code_read_back(locale: Locale)
    ensures
        locale_named(locale_code(locale)) == Some(locale),
{
    reveal_strlit("en");
    reveal_strlit("zh");
    let code = locale_code(locale);
    assert(crate::text::lower_text(code) =~= code);
    if locale == Locale::Zh {
        assert("en"@[0] != code[0]);
        assert(code.subrange(0, 2) =~= code);
    } else {
        assert(code.subrange(0, 2) =~= code);
    }
}

/// No text stands twice in a list that ascends: the keys are told apart.
pub proof fn law_ascending_keys_distinct(keys: Seq<Seq<char>>)
    requires
        ascending(keys),
    ensures
        keys.no_duplicates(),
{
    assert forall|i: int, j: int| 0 <= i < keys.len() && 0 <= j < keys.len() && i
        != j implies keys[i] != keys[j] by {
        lemma_precedes_one_way(keys[i], keys[i]);
    }
}

} // verus!
