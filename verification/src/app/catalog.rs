//! The lists that the composer and the launcher offer.
//!
//! A list is narrowed by what is typed: that of the composer to the entries that hold it, that
//! of the launcher to those that hold its characters in order.

use vstd::prelude::*;

use crate::app::editor::PopupKind;
use crate::app::state::{
    App, AppView, CatalogEntry, CatalogEntryView, LauncherAction, LauncherActionView,
    LauncherEntry, LauncherEntryView,
};
use crate::text::{chars_of, contains_text, joined, slice_text, Duplicate};
use crate::wire::{SkillEntry, SkillEntryView};

verus! {

/// The entry of a skill: its name, which is put in behind the sign of the list.
pub open spec fn skill_entry(skill: SkillEntryView) -> CatalogEntryView {
    CatalogEntryView { label: skill.name, insert: "@"@ + skill.name + " "@ }
}

/// The entries of some skills.
pub open spec fn skill_list(skills: Seq<SkillEntryView>) -> Seq<CatalogEntryView> {
    skills.map_values(|s: SkillEntryView| skill_entry(s))
}

/// The entry of the launcher for one of the composer: it is dispatched as it would be put in.
pub open spec fn launch_entry(sign: Seq<char>, entry: CatalogEntryView) -> LauncherEntryView {
    LauncherEntryView {
        label: sign + entry.label,
        action: LauncherActionView::Dispatch { text: entry.insert },
    }
}

/// The entries of the launcher for some of the composer.
pub open spec fn launch_list(sign: Seq<char>, entries: Seq<CatalogEntryView>) -> Seq<
    LauncherEntryView,
> {
    entries.map_values(|e: CatalogEntryView| launch_entry(sign, e))
}

/// Whether an entry holds a text.
pub open spec fn has_text(part: Seq<char>) -> spec_fn(CatalogEntryView) -> bool {
    |e: CatalogEntryView| crate::text::has_text(e.label, part)
}

/// Whether the characters of a text stand in another in order.
pub open spec fn in_order(text: Seq<char>, wanted: Seq<char>) -> bool
    decreases text.len(),
{
    if wanted.len() == 0 {
        true
    } else if text.len() == 0 {
        false
    } else if text[0] == wanted[0] {
        in_order(text.drop_first(), wanted.drop_first())
    } else {
        in_order(text.drop_first(), wanted)
    }
}

/// Whether an entry holds the characters of a text in order.
pub open spec fn matches_search(wanted: Seq<char>) -> spec_fn(LauncherEntryView) -> bool {
    |e: LauncherEntryView| in_order(e.label, wanted)
}

fn skill_entries(skills: &Vec<SkillEntry>) -> (r: Vec<CatalogEntry>)
    ensures
        crate::text::views(r@) == skill_list(crate::text::views(skills@)),
{
    let ghost all = crate::text::views(skills@);
    let mut out: Vec<CatalogEntry> = Vec::new();
    let mut i: usize = 0;
    proof {
        assert(crate::text::views(out@) =~= skill_list(all.take(0)));
    }
    while i < skills.len()
        invariant
            i <= skills@.len(),
            all == crate::text::views(skills@),
            crate::text::views(out@) == skill_list(all.take(i as int)),
        decreases skills.len() - i,
    {
        let mut insert = joined("@", skills[i].name.as_str());
        insert.append(" ");
        let entry = CatalogEntry { label: skills[i].name.clone(), insert };
        proof {
            assert(all[i as int] == skills@[i as int]@);
            assert(all.take(i + 1) =~= all.take(i as int).push(all[i as int]));
            assert(entry@ == skill_entry(all[i as int]));
            assert(skill_list(all.take(i as int).push(all[i as int])) =~= skill_list(
                all.take(i as int),
            ).push(entry@));
            assert(crate::text::views(out@.push(entry)) =~= crate::text::views(out@).push(entry@));
        }
        out.push(entry);
        i = i + 1;
    }
    proof {
        assert(all.take(i as int) =~= all);
    }
    out
}

fn add_launchable(out: &mut Vec<LauncherEntry>, sign: &str, entries: &Vec<CatalogEntry>)
    ensures
        crate::text::views(final(out)@) == crate::text::views(old(out)@) + launch_list(
            sign@,
            crate::text::views(entries@),
        ),
{
    let ghost all = crate::text::views(entries@);
    let ghost before = crate::text::views(out@);
    let mut i: usize = 0;
    proof {
        assert(before + launch_list(sign@, all.take(0)) =~= before);
    }
    while i < entries.len()
        invariant
            i <= entries@.len(),
            all == crate::text::views(entries@),
            crate::text::views(out@) == before + launch_list(sign@, all.take(i as int)),
        decreases entries.len() - i,
    {
        let entry = LauncherEntry {
            label: joined(sign, entries[i].label.as_str()),
            action: LauncherAction::Dispatch { text: entries[i].insert.clone() },
        };
        proof {
            assert(all[i as int] == entries@[i as int]@);
            assert(all.take(i + 1) =~= all.take(i as int).push(all[i as int]));
            assert(entry@ == launch_entry(sign@, all[i as int]));
            assert(before + launch_list(sign@, all.take(i + 1)) =~= (before + launch_list(
                sign@,
                all.take(i as int),
            )).push(entry@));
            assert(crate::text::views(out@.push(entry)) =~= crate::text::views(out@).push(entry@));
        }
        out.push(entry);
        i = i + 1;
    }
    proof {
        assert(all.take(i as int) =~= all);
    }
}

fn filter_entries(entries: &Vec<CatalogEntry>, part: &str) -> (r: Vec<CatalogEntry>)
    ensures
        crate::text::views(r@) == crate::text::views(entries@).filter(has_text(part@)),
{
    let ghost all = crate::text::views(entries@);
    let mut out: Vec<CatalogEntry> = Vec::new();
    let mut i: usize = 0;
    proof {
        reveal(Seq::filter);
        assert(crate::text::views(out@) =~= all.take(0).filter(has_text(part@)));
    }
    while i < entries.len()
        invariant
            i <= entries@.len(),
            all == crate::text::views(entries@),
            crate::text::views(out@) == all.take(i as int).filter(has_text(part@)),
        decreases entries.len() - i,
    {
        proof {
            assert(all[i as int] == entries@[i as int]@);
            assert(all.take(i + 1).drop_last() =~= all.take(i as int));
            assert(all.take(i + 1).last() == all[i as int]);
            reveal(Seq::filter);
        }
        if contains_text(entries[i].label.as_str(), part) {
            let entry = entries[i].duplicate();
            proof {
                assert(crate::text::views(out@.push(entry)) =~= crate::text::views(out@).push(
                    entry@,
                ));
            }
            out.push(entry);
        }
        i = i + 1;
    }
    proof {
        assert(all.take(i as int) =~= all);
    }
    out
}

fn stands_in_order(text: &str, wanted: &str) -> (r: bool)
    ensures
        r == in_order(text@, wanted@),
{
    let given = chars_of(text);
    let needle = chars_of(wanted);
    let mut i: usize = 0;
    let mut j: usize = 0;
    proof {
        assert(given@.skip(0) =~= given@);
        assert(needle@.skip(0) =~= needle@);
    }
    while i < given.len() && j < needle.len()
        invariant
            i <= given@.len(),
            j <= needle@.len(),
            in_order(text@, wanted@) == in_order(given@.skip(i as int), needle@.skip(j as int)),
        decreases given.len() - i,
    {
        proof {
            assert(given@.skip(i as int).drop_first() =~= given@.skip(i + 1));
            assert(needle@.skip(j as int).drop_first() =~= needle@.skip(j + 1));
            assert(given@.skip(i as int)[0] == given@[i as int]);
            assert(needle@.skip(j as int)[0] == needle@[j as int]);
        }
        if given[i] == needle[j] {
            j = j + 1;
        }
        i = i + 1;
    }
    j >= needle.len()
}

fn filter_launcher(entries: &Vec<LauncherEntry>, wanted: &str) -> (r: Vec<LauncherEntry>)
    ensures
        crate::text::views(r@) == crate::text::views(entries@).filter(matches_search(wanted@)),
{
    let ghost all = crate::text::views(entries@);
    let mut out: Vec<LauncherEntry> = Vec::new();
    let mut i: usize = 0;
    proof {
        reveal(Seq::filter);
        assert(crate::text::views(out@) =~= all.take(0).filter(matches_search(wanted@)));
    }
    while i < entries.len()
        invariant
            i <= entries@.len(),
            all == crate::text::views(entries@),
            crate::text::views(out@) == all.take(i as int).filter(matches_search(wanted@)),
        decreases entries.len() - i,
    {
        proof {
            assert(all[i as int] == entries@[i as int]@);
            assert(all.take(i + 1).drop_last() =~= all.take(i as int));
            assert(all.take(i + 1).last() == all[i as int]);
            reveal(Seq::filter);
        }
        if stands_in_order(entries[i].label.as_str(), wanted) {
            let entry = entries[i].duplicate();
            proof {
                assert(crate::text::views(out@.push(entry)) =~= crate::text::views(out@).push(
                    entry@,
                ));
            }
            out.push(entry);
        }
        i = i + 1;
    }
    proof {
        assert(all.take(i as int) =~= all);
    }
    out
}

impl AppView {
    /// The entries that the composer offers: of the commands behind a `/`, of the skills behind
    /// an `@`, those that hold what follows the sign.
    pub open spec fn offered(self, commands: Seq<CatalogEntryView>) -> Seq<CatalogEntryView> {
        let typed = self.composer.editor.text.drop_first();
        match self.composer.popup() {
            Some(PopupKind::Slash) => commands.filter(has_text(typed)),
            Some(PopupKind::At) => match self.at_catalog {
                Some(catalog) => skill_list(catalog.skills).filter(has_text(typed)),
                None => Seq::empty(),
            },
            None => Seq::empty(),
        }
    }

    /// What the launcher chooses from: the commands, the skills that are at hand and the
    /// settings actions.
    pub open spec fn launcher_entries(
        self,
        commands: Seq<CatalogEntryView>,
        actions: Seq<LauncherEntryView>,
    ) -> Seq<LauncherEntryView> {
        launch_list("/"@, commands) + launch_list(
            "@"@,
            match self.at_catalog {
                Some(catalog) => skill_list(catalog.skills),
                None => Seq::empty(),
            },
        ) + actions
    }

    /// The entries that the launcher offers: those that match its search.
    pub open spec fn launchable(
        self,
        commands: Seq<CatalogEntryView>,
        actions: Seq<LauncherEntryView>,
    ) -> Seq<LauncherEntryView> {
        match self.launcher {
            Some(state) => self.launcher_entries(commands, actions).filter(
                matches_search(state.search.text),
            ),
            None => Seq::empty(),
        }
    }
}

impl App {
    /// The entries that the composer offers, of some commands or of the skills.
    pub fn popup_entries(&self, commands: &Vec<CatalogEntry>) -> (r: Vec<CatalogEntry>)
        ensures
            crate::text::views(r@) == self@.offered(crate::text::views(commands@)),
    {
        let none: Vec<CatalogEntry> = Vec::new();
        proof {
            assert(crate::text::views(none@) =~= Seq::<CatalogEntryView>::empty());
        }
        let composer = self.composer();
        let text = &composer.editor.text;
        match composer.popup() {
            Some(kind) => {
                let typed = slice_text(text, 1, text.len());
                proof {
                    assert(typed@ =~= text@.drop_first());
                }
                match kind {
                    PopupKind::Slash => filter_entries(commands, typed.as_str()),
                    PopupKind::At => match self.at_catalog() {
                        Some(catalog) => filter_entries(
                            &skill_entries(&catalog.skills),
                            typed.as_str(),
                        ),
                        None => none,
                    },
                }
            },
            None => none,
        }
    }

    /// The entries that the launcher offers, of the commands, the skills at hand and some
    /// settings actions.
    pub fn launcher_entries_filtered(
        &self,
        commands: &Vec<CatalogEntry>,
        actions: &Vec<LauncherEntry>,
    ) -> (r: Vec<LauncherEntry>)
        ensures
            crate::text::views(r@) == self@.launchable(
                crate::text::views(commands@),
                crate::text::views(actions@),
            ),
    {
        let mut entries: Vec<LauncherEntry> = Vec::new();
        proof {
            assert(crate::text::views(entries@) =~= Seq::<LauncherEntryView>::empty());
        }
        match self.launcher() {
            Some(state) => {
                add_launchable(&mut entries, "/", commands);
                let skills: Vec<CatalogEntry> = match self.at_catalog() {
                    Some(catalog) => skill_entries(&catalog.skills),
                    None => Vec::new(),
                };
                proof {
                    assert(self@.at_catalog is None ==> crate::text::views(skills@)
                        =~= Seq::<CatalogEntryView>::empty());
                }
                add_launchable(&mut entries, "@", &skills);
                let ghost front = crate::text::views(entries@);
                let ghost last = crate::text::views(actions@);
                let mut i: usize = 0;
                proof {
                    assert(front + last.take(0) =~= front);
                }
                while i < actions.len()
                    invariant
                        i <= actions@.len(),
                        last == crate::text::views(actions@),
                        crate::text::views(entries@) == front + last.take(i as int),
                    decreases actions.len() - i,
                {
                    let entry = actions[i].duplicate();
                    proof {
                        assert(last[i as int] == actions@[i as int]@);
                        assert(front + last.take(i + 1) =~= (front + last.take(i as int)).push(
                            entry@,
                        ));
                        assert(crate::text::views(entries@.push(entry)) =~= crate::text::views(
                            entries@,
                        ).push(entry@));
                    }
                    entries.push(entry);
                    i = i + 1;
                }
                proof {
                    assert(last.take(i as int) =~= last);
                    assert(crate::text::views(entries@) =~= self@.launcher_entries(
                        crate::text::views(commands@),
                        last,
                    ));
                }
                filter_launcher(&entries, state.search.buffer().as_str())
            },
            None => entries,
        }
    }

    /// Bring the lists of the composer and the launcher up to date.
    pub fn refresh_lists(&mut self, commands: &Vec<CatalogEntry>, actions: &Vec<LauncherEntry>)
        ensures
            final(self)@ == old(self)@.with_popup_list(
                old(self)@.offered(crate::text::views(commands@)),
            ).with_launcher_list(
                old(self)@.launchable(crate::text::views(commands@), crate::text::views(actions@)),
            ),
    {
        let offered = self.popup_entries(commands);
        let launchable = self.launcher_entries_filtered(commands, actions);
        self.set_popup_list(offered);
        self.set_launcher_list(launchable);
    }
}

/// An empty search leaves everything in the list of the launcher.
pub proof fn law_empty_search(entries: Seq<LauncherEntryView>)
    ensures
        entries.filter(matches_search(Seq::empty())) == entries,
    decreases entries.len(),
{
    reveal(Seq::filter);
    if entries.len() > 0 {
        law_empty_search(entries.drop_last());
        assert(entries =~= entries.drop_last().push(entries.last()));
    }
}

/// An entry matches its own name.
pub proof fn law_name_matches(name: Seq<char>)
    ensures
        in_order(name, name),
    decreases name.len(),
{
    if name.len() > 0 {
        law_name_matches(name.drop_first());
    }
}

/// Every skill at hand can be launched: with the launcher open and nothing typed, the list holds
/// an entry that dispatches it.
pub proof fn law_skills_are_launchable(
    app: AppView,
    commands: Seq<CatalogEntryView>,
    actions: Seq<LauncherEntryView>,
    i: int,
)
    requires
        app.launcher matches Some(state) && state.search.text.len() == 0,
        app.at_catalog matches Some(catalog) && 0 <= i < catalog.skills.len(),
    ensures
        app.launchable(commands, actions).contains(
            launch_entry("@"@, skill_entry(app.at_catalog->0.skills[i])),
        ),
{
    let entries = app.launcher_entries(commands, actions);
    assert(app.launcher->0.search.text =~= Seq::empty());
    law_empty_search(entries);
    let skills = skill_list(app.at_catalog->0.skills);
    assert(entries[commands.len() + i] == launch_entry("@"@, skills[i]));
}

} // verus!
