//! How the skill list of a message is recognised and read, whatever it lists.

use vstd::prelude::*;

use crate::render::markdown_events::{MdEnd, MdEventView, MdTagView};
use crate::render::skill::{SkillItemView, WalkView};

verus! {

/// Whether a text has none of the marks that part a skill's name from its description.
pub open spec fn unparted(text: Seq<char>) -> bool {
    &&& !crate::text::has_text(text, " — "@)
    &&& !crate::text::has_text(text, " - "@)
    &&& !crate::text::has_text(text, "："@)
    &&& !crate::text::has_text(text, ": "@)
}

/// An item without a mark is the name of a skill, without a description; a blank item is none.
pub proof fn law_bare_skill(text: Seq<char>)
    ensures
        crate::text::trim(text).len() > 0 && unparted(crate::text::trim(text))
            ==> crate::render::skill::skill_item(text) == Some(
            SkillItemView { name: crate::text::trim(text), description: Seq::empty() },
        ),
        crate::text::trim(text).len() == 0 ==> crate::render::skill::skill_item(text) is None,
{
    let t = crate::text::trim(text);
    let all = crate::render::skill::separators();
    reveal_with_fuel(crate::render::skill::split_item, 5);
    assert(all.drop_first() =~= seq![" - "@, "："@, ": "@]);
    assert(all.drop_first().drop_first() =~= seq!["："@, ": "@]);
    assert(all.drop_first().drop_first().drop_first() =~= seq![": "@]);
    assert(all.drop_first().drop_first().drop_first().drop_first() =~= Seq::empty());
}

/// An item with a dash is parted at its first dash: the name stands before it, the description
/// behind it, both without the white space around them.
pub proof fn law_described_skill(t: Seq<char>, at: int)
    requires
        t.len() > 0,
        crate::text::trim(t) == t,
        crate::text::find(t, " — "@) == Some(at),
        crate::text::trim(t.take(at)).len() > 0,
    ensures
        crate::render::skill::skill_item(t) == Some(
            SkillItemView {
                name: crate::text::trim(t.take(at)),
                description: crate::text::trim(t.skip(at + 3)),
            },
        ),
{
    reveal_strlit(" — ");
    assert(" — "@.len() == 3);
}

/// A heading may carry the number of its skills in brackets at its end.
pub proof fn law_count_taken_off(heading: Seq<char>, n: nat)
    ensures
        crate::render::skill::without_count(
            heading + seq!['('] + crate::text::decimal(n) + seq![')'],
        ) == heading,
{
    let d = crate::text::decimal(n);
    let s = heading + seq!['('] + d + seq![')'];
    crate::text::lemma_decimal_value(n);
    let open = heading.len() as int;
    assert(s[open] == '(');
    assert forall|i: int| open < i < s.len() implies #[trigger] s[i] != '(' by {
        if i < s.len() - 1 {
            assert(s[i] == d[i - open - 1]);
        }
    }
    lemma_last_open(s, s.len() - 1, open);
    assert(s.subrange(open + 1, s.len() - 1) =~= d);
    assert(s.take(open) =~= heading);
}

proof fn lemma_last_open(s: Seq<char>, n: int, open: int)
    requires
        0 <= open <= n < s.len(),
        s[open] == '(',
        forall|i: int| open < i <= n ==> #[trigger] s[i] != '(',
    ensures
        crate::render::skill::last_open(s, n) == open,
    decreases n,
{
    if n > open {
        assert(s[n] != '(');
        lemma_last_open(s, n - 1, open);
    }
}

/// The headings that announce skills, in lower case, with the number of skills or without.
pub proof fn law_headings(n: nat)
    ensures
        crate::render::skill::announces("skills"@),
        crate::render::skill::announces("available skills"@),
        crate::render::skill::announces(
            "skills"@ + seq![' '] + seq!['('] + crate::text::decimal(n) + seq![')'],
        ),
{
    reveal_strlit("skills");
    reveal_strlit("available skills");
    let a = "skills"@;
    let b = "available skills"@;
    lemma_no_open(a, a.len() - 1);
    lemma_no_open(b, b.len() - 1);
    crate::text_laws::law_trim(a, 0, 5);
    assert(a.subrange(0, 6) =~= a);
    crate::text_laws::law_trim(b, 0, 15);
    assert(b.subrange(0, 16) =~= b);
    let c = a + seq![' '];
    law_count_taken_off(c, n);
    assert(c[0] == 's' && c[5] == 's' && c[6] == ' ');
    crate::text_laws::law_trim(c, 0, 5);
    assert(c.subrange(0, 6) =~= a);
}

proof fn lemma_no_open(s: Seq<char>, n: int)
    requires
        n < s.len(),
        forall|i: int| 0 <= i <= n ==> #[trigger] s[i] != '(',
    ensures
        crate::render::skill::last_open(s, n) == -1,
    decreases n + 1,
{
    if n >= 0 {
        assert(s[n] != '(');
        lemma_no_open(s, n - 1);
    }
}

// ---------------------------------------------------------------------------
// a list from end to end
// ---------------------------------------------------------------------------

/// The events of a message that is a heading and a bullet list of one-line items.
pub open spec fn skill_events(heading: Seq<char>, texts: Seq<Seq<char>>) -> Seq<MdEventView> {
    seq![
        MdEventView::Start(MdTagView::Heading(2)),
        MdEventView::Text(heading),
        MdEventView::End(MdEnd::Heading),
    ] + crate::render::list_laws::list_events(None, texts)
}

/// The skills that some items name, in their order.
pub open spec fn named_skills(texts: Seq<Seq<char>>) -> Seq<SkillItemView>
    decreases texts.len(),
{
    if texts.len() == 0 {
        Seq::empty()
    } else {
        let before = named_skills(texts.drop_last());
        match crate::render::skill::skill_item(crate::text::trim(texts.last())) {
            Some(item) => before.push(item),
            None => before,
        }
    }
}

proof fn lemma_item_count(texts: Seq<Seq<char>>)
    ensures
        crate::render::list_laws::item_events(None, texts).len() == 1 + 3 * texts.len(),
        crate::render::list_laws::item_events(None, texts)[0] == MdEventView::Start(
            MdTagView::List(None),
        ),
    decreases texts.len(),
{
    if texts.len() > 0 {
        lemma_item_count(texts.drop_last());
    }
}

proof fn lemma_item_at(texts: Seq<Seq<char>>, k: int)
    requires
        0 <= k < texts.len(),
    ensures
        ({
            let events = crate::render::list_laws::item_events(None, texts);
            &&& events[1 + 3 * k] == MdEventView::Start(MdTagView::Item)
            &&& events[2 + 3 * k] == MdEventView::Text(texts[k])
            &&& events[3 + 3 * k] == MdEventView::End(MdEnd::Item)
        }),
    decreases texts.len(),
{
    lemma_item_count(texts);
    lemma_item_count(texts.drop_last());
    if k < texts.len() - 1 {
        lemma_item_at(texts.drop_last(), k);
    }
}

proof fn lemma_walk(events: Seq<MdEventView>, base: int, texts: Seq<Seq<char>>, k: int, st: WalkView)
    requires
        0 <= base,
        0 <= k <= texts.len(),
        events.len() == base + 2 + 3 * texts.len(),
        events.skip(base) == crate::render::list_laws::list_events(None, texts),
        st.depth == 1,
        st.top.len() == 0,
        st.sub.len() == 0,
        st.items == named_skills(texts.take(k)),
    ensures
        ({
            let (done, end) = crate::render::skill::walk(events, base + 1 + 3 * k, st);
            &&& done.items == named_skills(texts)
            &&& end == events.len() - 1
        }),
    decreases texts.len() - k,
{
    let at = base + 1 + 3 * k;
    let all = crate::render::list_laws::list_events(None, texts);
    lemma_item_count(texts);
    assert forall|i: int| 0 <= i < all.len() implies events[base + i] == #[trigger] all[i] by {
        assert(events.skip(base)[i] == events[base + i]);
    }
    if k == texts.len() {
        assert(all[1 + 3 * k] == MdEventView::End(MdEnd::List));
        assert(events[base + (1 + 3 * k)] == all[1 + 3 * k]);
        assert(texts.take(k) =~= texts);
    } else {
        lemma_item_at(texts, k);
        let text = texts[k];
        assert(events[base + (1 + 3 * k)] == all[1 + 3 * k]);
        assert(events[base + (2 + 3 * k)] == all[2 + 3 * k]);
        assert(events[base + (3 + 3 * k)] == all[3 + 3 * k]);
        let s1 = st.after(events[at]);
        assert(s1 == st);
        let s2 = s1.after(events[at + 1]);
        assert(s2.top =~= text);
        let s3 = s2.after(events[at + 2]);
        assert(texts.take(k + 1).drop_last() =~= texts.take(k));
        assert(texts.take(k + 1).last() == text);
        assert(s3.items =~= named_skills(texts.take(k + 1)));
        reveal_with_fuel(crate::render::skill::walk, 4);
        lemma_walk(events, base, texts, k + 1, s3);
    }
}

/// A message that is a heading that announces skills and a bullet list of one-line items is
/// taken for a list of skills as a whole: one skill for each item that names one, in their order.
pub proof fn law_skill_list_read(heading: Seq<char>, texts: Seq<Seq<char>>)
    requires
        crate::render::skill::announces_skills(heading),
        named_skills(texts).len() > 0,
    ensures
        ({
            let events = skill_events(heading, texts);
            let block = crate::render::skill::skill_block(events);
            &&& block is Some
            &&& block->0.start == 0
            &&& block->0.end == events.len() - 1
            &&& block->0.items == named_skills(texts)
        }),
{
    let events = skill_events(heading, texts);
    lemma_item_count(texts);
    assert(events[0] == MdEventView::Start(MdTagView::Heading(2)));
    assert(events[1] == MdEventView::Text(heading));
    assert(events[2] == MdEventView::End(MdEnd::Heading));
    let none = Seq::<char>::empty();
    assert(none + heading =~= heading);
    reveal_with_fuel(crate::render::skill::heading_text, 3);
    assert(crate::render::skill::heading_text(events, 1, none) == (heading, 2int));
    let list = crate::render::list_laws::list_events(None, texts);
    assert(events.skip(3) =~= list);
    assert(list[0] == MdEventView::Start(MdTagView::List(None)));
    assert(events[3] == list[0]);
    let start = crate::render::skill::walk_start();
    let open = start.after(events[3]);
    assert(texts.take(0) =~= Seq::empty());
    assert(open.items =~= named_skills(texts.take(0)));
    lemma_walk(events, 3, texts, 0, open);
    assert(crate::render::skill::walk(events, 3, start) == crate::render::skill::walk(
        events,
        4,
        open,
    ));
}

} // verus!
