//! How values are written down, whatever they are.

use vstd::prelude::*;

use crate::json::JsonView;

verus! {

/// What a written character stands for: the first character of an escaped text and the rest of
/// it.
pub open spec fn unescaped(s: Seq<char>) -> (char, Seq<char>) {
    if s[0] != '\\' {
        (s[0], s.skip(1))
    } else if s[1] == 'b' {
        ('\u{8}', s.skip(2))
    } else if s[1] == 't' {
        ('\t', s.skip(2))
    } else if s[1] == 'n' {
        ('\n', s.skip(2))
    } else if s[1] == 'f' {
        ('\u{c}', s.skip(2))
    } else if s[1] == 'r' {
        ('\r', s.skip(2))
    } else if s[1] == 'u' {
        (
            (16 * crate::text::hex_digit(s[4])->0 + crate::text::hex_digit(s[5])->0) as char,
            s.skip(6),
        )
    } else {
        (s[1], s.skip(2))
    }
}

/// A character is read back from how it is written, whatever follows it.
pub proof fn law_character_read_back(c: char, rest: Seq<char>)
    ensures
        unescaped(crate::json::escaped(c) + rest) == (c, rest),
{
    let e = crate::json::escaped(c);
    let s = e + rest;
    if e.len() == 6 {
        assert(s.skip(6) =~= rest);
        assert(s[4] == e[4] && s[5] == e[5] && s[1] == 'u' && s[0] == '\\');
    } else if e.len() == 2 {
        assert(s.skip(2) =~= rest);
        assert(s[0] == '\\' && s[1] == e[1]);
    } else {
        assert(s.skip(1) =~= rest);
        assert(s[0] == c);
    }
}

/// A written character holds no quote that is not escaped and no control character, so that a
/// text ends where its closing quote stands.
pub proof fn law_written_character(c: char, i: int)
    requires
        0 <= i < crate::json::escaped(c).len(),
    ensures
        crate::json::escaped(c)[i] as int >= 32,
        crate::json::escaped(c)[i] == '"' ==> i == 1 && crate::json::escaped(c)[0] == '\\',
{
}

/// The text of two texts put together is written as the first and then the second.
pub proof fn law_escaped_text(a: Seq<char>, b: Seq<char>, c: char)
    ensures
        crate::json::escaped_text(a + b) == crate::json::escaped_text(a)
            + crate::json::escaped_text(b),
        crate::json::escaped_text(seq![c]) == crate::json::escaped(c),
    decreases b.len(),
{
    reveal_with_fuel(crate::json::escaped_text, 2);
    assert(seq![c].drop_last() =~= Seq::empty());
    assert(Seq::<char>::empty() + crate::json::escaped(c) =~= crate::json::escaped(c));
    if b.len() == 0 {
        assert(a + b =~= a);
        assert(crate::json::escaped_text(a) + Seq::<char>::empty()
            =~= crate::json::escaped_text(a));
    } else {
        law_escaped_text(a, b.drop_last(), c);
        assert((a + b).drop_last() =~= a + b.drop_last());
        assert((a + b).last() == b.last());
        let x = crate::json::escaped_text(a);
        let y = crate::json::escaped_text(b.drop_last());
        let z = crate::json::escaped(b.last());
        assert(x + y + z =~= x + (y + z));
    }
}

/// The items of a list as they are written.
pub open spec fn item_texts(items: Seq<JsonView>) -> Seq<Seq<char>> {
    items.map_values(|v: JsonView| crate::json::json_text(v))
}

proof fn lemma_items(items: Seq<JsonView>, n: nat)
    requires
        n <= items.len(),
    ensures
        crate::json::items_text(items, n) == crate::text::join_all(
            item_texts(items.take(n as int)),
            seq![','],
        ),
    decreases n,
{
    reveal_strlit(",");
    assert(","@ =~= seq![',']);
    let some = item_texts(items.take(n as int));
    if n == 0 {
        assert(some =~= Seq::empty());
    } else {
        let m = (n - 1) as nat;
        lemma_items(items, m);
        assert(some.drop_last() =~= item_texts(items.take(m as int)));
        assert(some.last() == crate::json::json_text(items[n - 1]));
        if n == 1 {
            assert(crate::json::items_text(items, 0) =~= Seq::empty());
            assert(Seq::<char>::empty() + crate::json::json_text(items[0])
                =~= crate::json::json_text(items[0]));
        }
    }
}

/// A list is written as its items, all of them, in their order, with commas between them.
pub proof fn law_list_written(items: Seq<JsonView>)
    ensures
        crate::json::json_text(JsonView::Array(items)) == seq!['['] + crate::text::join_all(
            item_texts(items),
            seq![','],
        ) + seq![']'],
{
    reveal_strlit("[");
    reveal_strlit("]");
    assert("["@ =~= seq!['[']);
    assert("]"@ =~= seq![']']);
    lemma_items(items, items.len());
    assert(items.take(items.len() as int) =~= items);
}

/// The members of an object as they are written: the quoted name, a colon and the value.
pub open spec fn member_texts(members: Seq<(Seq<char>, JsonView)>) -> Seq<Seq<char>> {
    members.map_values(
        |m: (Seq<char>, JsonView)| crate::json::quoted(m.0) + seq![':'] + crate::json::json_text(m.1),
    )
}

proof fn lemma_members(members: Seq<(Seq<char>, JsonView)>, n: nat)
    requires
        n <= members.len(),
    ensures
        crate::json::members_text(members, n) == crate::text::join_all(
            member_texts(members.take(n as int)),
            seq![','],
        ),
    decreases n,
{
    reveal_strlit(",");
    assert(","@ =~= seq![',']);
    reveal_strlit(":");
    assert(":"@ =~= seq![':']);
    let some = member_texts(members.take(n as int));
    if n == 0 {
        assert(some =~= Seq::empty());
    } else {
        let m = (n - 1) as nat;
        lemma_members(members, m);
        assert(some.drop_last() =~= member_texts(members.take(m as int)));
        let name = crate::json::quoted(members[n - 1].0);
        let value = crate::json::json_text(members[n - 1].1);
        assert(some.last() == name + seq![':'] + value);
        let before = crate::json::members_text(members, m);
        if n == 1 {
            assert(before =~= Seq::empty());
            assert(before + name + seq![':'] + value =~= name + seq![':'] + value);
        } else {
            assert(before + seq![','] + name + seq![':'] + value =~= before + seq![','] + (name
                + seq![':'] + value));
        }
    }
}

/// An object is written as its members, all of them, in their order, each as its quoted name, a
/// colon and its value, with commas between them.
pub proof fn law_object_written(members: Seq<(Seq<char>, JsonView)>)
    ensures
        crate::json::json_text(JsonView::Object(members)) == seq!['{'] + crate::text::join_all(
            member_texts(members),
            seq![','],
        ) + seq!['}'],
{
    reveal_strlit("{");
    reveal_strlit("}");
    assert("{"@ =~= seq!['{']);
    assert("}"@ =~= seq!['}']);
    lemma_members(members, members.len());
    assert(members.take(members.len() as int) =~= members);
}

/// Two integers that are written alike are the same, and a truth value is not written as the
/// other one.
pub proof fn law_plain_values_differ(a: i64, b: i64)
    ensures
        crate::json::json_text(JsonView::Int(a)) == crate::json::json_text(JsonView::Int(b)) ==> a
            == b,
        crate::json::json_text(JsonView::Bool(true)) != crate::json::json_text(
            JsonView::Bool(false),
        ),
        crate::json::json_text(JsonView::Bool(true))[0] == 't',
        crate::json::json_text(JsonView::Bool(false))[0] == 'f',
        crate::json::json_text(JsonView::Null)[0] == 'n',
{
    crate::text_laws::law_int_decimal(a as int, b as int);
    reveal_strlit("true");
    reveal_strlit("false");
    reveal_strlit("null");
    assert("true"@[0] == 't' && "false"@[0] == 'f');
}

} // verus!
