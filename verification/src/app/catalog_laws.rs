//! What the lists that are narrowed by typing hold, whatever is typed.

use vstd::prelude::*;

use crate::app::editor::PopupKind;
use crate::app::state::{AppView, CatalogEntryView, LauncherActionView, LauncherEntryView};

verus! {

/// The commands that are offered are those whose name holds what is typed behind the slash, and
/// all of those.
pub proof fn law_commands_offered(app: AppView, commands: Seq<CatalogEntryView>, i: int)
    requires
        app.composer.popup() == Some(PopupKind::Slash),
        0 <= i < commands.len(),
    ensures
        ({
            let typed = app.composer.editor.text.skip(1);
            &&& crate::text::has_text(commands[i].label, typed) ==> app.offered(commands).contains(
                commands[i],
            )
            &&& forall|k: int|
                0 <= k < app.offered(commands).len() ==> crate::text::has_text(
                    (#[trigger] app.offered(commands)[k]).label,
                    typed,
                ) && commands.contains(app.offered(commands)[k])
        }),
{
    let typed = app.composer.editor.text.drop_first();
    assert(typed =~= app.composer.editor.text.skip(1));
    let p = crate::app::catalog::has_text(typed);
    let kept = commands.filter(p);
    if crate::text::has_text(commands[i].label, typed) {
        assert(p(commands[i]));
        commands.lemma_filter_contains(p, i);
    }
    assert forall|k: int| 0 <= k < kept.len() implies crate::text::has_text(
        (#[trigger] kept[k]).label,
        typed,
    ) && commands.contains(kept[k]) by {
        lemma_filtered_from(commands, p, k);
    }
}

proof fn lemma_filtered_from<T>(s: Seq<T>, p: spec_fn(T) -> bool, k: int)
    requires
        0 <= k < s.filter(p).len(),
    ensures
        p(s.filter(p)[k]),
        s.contains(s.filter(p)[k]),
    decreases s.len(),
{
    reveal(Seq::filter);
    if s.len() > 0 {
        let front = s.drop_last();
        if k < front.filter(p).len() {
            lemma_filtered_from(front, p, k);
            let x = front.filter(p)[k];
            let i = choose|i: int| 0 <= i < front.len() && front[i] == x;
            assert(s[i] == x);
        } else {
            assert(s[s.len() - 1] == s.last());
        }
    }
}

/// The launcher offers commands, then skills, then actions; a command is launched with the text
/// it inserts, and its label begins with a slash, a skill's with an at sign.
pub proof fn law_launcher_entries(
    app: AppView,
    commands: Seq<CatalogEntryView>,
    actions: Seq<LauncherEntryView>,
)
    ensures
        ({
            let all = app.launcher_entries(commands, actions);
            let skills = if app.at_catalog is Some {
                app.at_catalog->0.skills.len()
            } else {
                0
            };
            &&& all.len() == commands.len() + skills + actions.len()
            &&& forall|i: int|
                0 <= i < commands.len() ==> {
                    &&& (#[trigger] all[i]).label == seq!['/'] + commands[i].label
                    &&& all[i].action == (LauncherActionView::Dispatch {
                        text: commands[i].insert,
                    })
                }
            &&& forall|i: int|
                0 <= i < skills ==> {
                    let name = app.at_catalog->0.skills[i].name;
                    &&& (#[trigger] all[commands.len() + i]).label == seq!['@'] + name
                    &&& all[commands.len() + i].action == (LauncherActionView::Dispatch {
                        text: seq!['@'] + name + seq![' '],
                    })
                }
            &&& forall|i: int|
                0 <= i < actions.len() ==> #[trigger] all[commands.len() + skills + i]
                    == actions[i]
        }),
{
    reveal_strlit("/");
    reveal_strlit("@");
    reveal_strlit(" ");
    assert("/"@ =~= seq!['/']);
    assert("@"@ =~= seq!['@']);
    assert(" "@ =~= seq![' ']);
}

/// A search matches where its characters stand in the label in their order, with anything
/// between them: what matches a part of a label matches the label, and nothing matches that is
/// longer than the label or has a character that the label lacks.
pub proof fn law_search_order(text: Seq<char>, wanted: Seq<char>, before: Seq<char>, c: char)
    ensures
        crate::app::catalog::in_order(text, wanted) ==> crate::app::catalog::in_order(
            before + text,
            wanted,
        ),
        crate::app::catalog::in_order(text, wanted) ==> wanted.len() <= text.len(),
        crate::app::catalog::in_order(text, wanted) && wanted.contains(c) ==> text.contains(c),
        crate::app::catalog::in_order(text, text),
{
    lemma_shorter(text, wanted);
    lemma_has(text, wanted, c);
    lemma_self(text);
    lemma_more(text, wanted, before);
}

proof fn lemma_self(text: Seq<char>)
    ensures
        crate::app::catalog::in_order(text, text),
    decreases text.len(),
{
    if text.len() > 0 {
        lemma_self(text.drop_first());
    }
}

proof fn lemma_shorter(text: Seq<char>, wanted: Seq<char>)
    ensures
        crate::app::catalog::in_order(text, wanted) ==> wanted.len() <= text.len(),
    decreases text.len(),
{
    if wanted.len() > 0 && text.len() > 0 {
        if text[0] == wanted[0] {
            lemma_shorter(text.drop_first(), wanted.drop_first());
        } else {
            lemma_shorter(text.drop_first(), wanted);
        }
    }
}

proof fn lemma_has(text: Seq<char>, wanted: Seq<char>, c: char)
    ensures
        crate::app::catalog::in_order(text, wanted) && wanted.contains(c) ==> text.contains(c),
    decreases text.len(),
{
    if wanted.len() > 0 && text.len() > 0 && wanted.contains(c)
        && crate::app::catalog::in_order(text, wanted) {
        let rest = text.drop_first();
        let k = choose|k: int| 0 <= k < wanted.len() && wanted[k] == c;
        if text[0] == wanted[0] {
            if k == 0 {
                assert(text[0] == c);
            } else {
                assert(wanted.drop_first()[k - 1] == c);
                lemma_has(rest, wanted.drop_first(), c);
                let i = choose|i: int| 0 <= i < rest.len() && rest[i] == c;
                assert(text[i + 1] == c);
            }
        } else {
            lemma_has(rest, wanted, c);
            let i = choose|i: int| 0 <= i < rest.len() && rest[i] == c;
            assert(text[i + 1] == c);
        }
    }
}


proof fn lemma_front(text: Seq<char>, wanted: Seq<char>)
    requires
        text.len() > 0,
        crate::app::catalog::in_order(text.drop_first(), wanted),
    ensures
        crate::app::catalog::in_order(text, wanted),
    decreases text.len(), 0nat,
{
    if wanted.len() > 0 && text[0] == wanted[0] {
        lemma_drop_wanted_of(text.drop_first(), wanted);
    }
}

proof fn lemma_drop_wanted_of(text: Seq<char>, wanted: Seq<char>)
    requires
        wanted.len() > 0,
        crate::app::catalog::in_order(text, wanted),
    ensures
        crate::app::catalog::in_order(text, wanted.drop_first()),
    decreases text.len(), 1nat,
{
    let rest = text.drop_first();
    if text[0] == wanted[0] {
        lemma_front(text, wanted.drop_first());
    } else {
        lemma_drop_wanted_of(rest, wanted);
        lemma_front(text, wanted.drop_first());
    }
}

proof fn lemma_more(text: Seq<char>, wanted: Seq<char>, before: Seq<char>)
    ensures
        crate::app::catalog::in_order(text, wanted) ==> crate::app::catalog::in_order(
            before + text,
            wanted,
        ),
    decreases before.len(),
{
    if before.len() == 0 {
        assert(before + text =~= text);
    } else if crate::app::catalog::in_order(text, wanted) {
        let rest = before.drop_first();
        lemma_more(text, wanted, rest);
        assert((before + text).drop_first() =~= rest + text);
        lemma_front(before + text, wanted);
    }
}

} // verus!
