//! The sidebar: the list of sessions, their groups, and the rows that are shown.

use vstd::prelude::*;

use crate::json::{Json, JsonView};
use crate::text::{join_texts, same, split_text, to_upper_case, Duplicate};
use crate::wire::{
    Projection, ProjectionView, Projections, ProjectionsView, SessionId, SessionSummary,
    SessionSummaryView,
};

verus! {

// ---------------------------------------------------------------------------
// the list of sessions
// ---------------------------------------------------------------------------

/// Whether a row is that of a session.
pub open spec fn of_session(id: Seq<char>) -> spec_fn(SessionSummaryView) -> bool {
    |s: SessionSummaryView| s.session_id == id
}

/// The position of a session's row, the length of the list where it has none.
pub open spec fn session_index(sessions: Seq<SessionSummaryView>, id: Seq<char>) -> int {
    crate::seqs::first_index(sessions, of_session(id))
}

/// The row of a session.
pub open spec fn session_row(sessions: Seq<SessionSummaryView>, id: Seq<char>) -> Option<
    SessionSummaryView,
> {
    let at = session_index(sessions, id);
    if at < sessions.len() {
        Some(sessions[at])
    } else {
        None
    }
}

/// Whether a session runs, as its row tells.
pub open spec fn runs(sessions: Seq<SessionSummaryView>, id: Seq<char>) -> bool {
    exists|i: int|
        0 <= i < sessions.len() && (#[trigger] sessions[i]).session_id == id && sessions[i].running
}

/// A row put in front of the list, unless the session has one.
pub open spec fn with_session_first(
    sessions: Seq<SessionSummaryView>,
    row: SessionSummaryView,
) -> Seq<SessionSummaryView> {
    if session_index(sessions, row.session_id) < sessions.len() {
        sessions
    } else {
        seq![row] + sessions
    }
}

/// Whether a row is that of another session.
pub open spec fn not_session(id: Seq<char>) -> spec_fn(SessionSummaryView) -> bool {
    |s: SessionSummaryView| s.session_id != id
}

/// The list with the running flag of a session set.
pub open spec fn with_status(
    sessions: Seq<SessionSummaryView>,
    id: Seq<char>,
    running: bool,
) -> Seq<SessionSummaryView> {
    let at = session_index(sessions, id);
    if at < sessions.len() {
        sessions.update(at, SessionSummaryView { running, ..sessions[at] })
    } else {
        sessions
    }
}

/// The position of a session's row, the length of the list where it has none.
pub fn find_session(sessions: &Vec<SessionSummary>, id: &SessionId) -> (r: usize)
    ensures
        r == session_index(crate::text::views(sessions@), id@),
        r <= sessions@.len(),
        r < sessions@.len() ==> sessions@[r as int]@.session_id == id@,
{
    let ghost all = crate::text::views(sessions@);
    let mut i: usize = 0;
    while i < sessions.len()
        invariant
            i <= sessions@.len(),
            all == crate::text::views(sessions@),
            forall|k: int| 0 <= k < i ==> !of_session(id@)(#[trigger] all[k]),
        decreases sessions.len() - i,
    {
        if same(sessions[i].session_id.0.as_str(), id.0.as_str()) {
            proof {
                crate::seqs::lemma_first_index(all, of_session(id@), i as int);
            }
            return i;
        }
        i = i + 1;
    }
    proof {
        crate::seqs::lemma_first_index(all, of_session(id@), i as int);
    }
    i
}

/// Whether a session runs, as its row tells.
pub fn session_runs(sessions: &Vec<SessionSummary>, id: &SessionId) -> (r: bool)
    ensures
        r == runs(crate::text::views(sessions@), id@),
{
    let ghost all = crate::text::views(sessions@);
    let mut i: usize = 0;
    while i < sessions.len()
        invariant
            i <= sessions@.len(),
            all == crate::text::views(sessions@),
            forall|k: int|
                0 <= k < i ==> !((#[trigger] all[k]).session_id == id@ && all[k].running),
        decreases sessions.len() - i,
    {
        proof {
            assert(all[i as int] == sessions@[i as int]@);
        }
        if sessions[i].running && same(sessions[i].session_id.0.as_str(), id.0.as_str()) {
            return true;
        }
        i = i + 1;
    }
    false
}

/// Put a row in front of the list, unless the session has one.
pub fn add_session(sessions: &mut Vec<SessionSummary>, row: SessionSummary)
    ensures
        crate::text::views(final(sessions)@) == with_session_first(
            crate::text::views(old(sessions)@),
            row@,
        ),
{
    if find_session(sessions, &row.session_id) < sessions.len() {
        return;
    }
    sessions.insert(0, row);
    proof {
        assert(crate::text::views(sessions@) =~= seq![row@] + crate::text::views(old(sessions)@));
    }
}

/// Take the rows of a session out.
pub fn drop_session(sessions: &mut Vec<SessionSummary>, id: &SessionId)
    ensures
        crate::text::views(final(sessions)@) == crate::text::views(old(sessions)@).filter(
            not_session(id@),
        ),
{
    let mut kept: Vec<SessionSummary> = Vec::new();
    let ghost all = crate::text::views(sessions@);
    let mut i: usize = 0;
    proof {
        reveal(Seq::filter);
        assert(crate::text::views(kept@) =~= all.take(0).filter(not_session(id@)));
    }
    while i < sessions.len()
        invariant
            i <= sessions@.len(),
            all == crate::text::views(sessions@),
            *sessions == *old(sessions),
            crate::text::views(kept@) == all.take(i as int).filter(not_session(id@)),
        decreases sessions.len() - i,
    {
        proof {
            assert(all[i as int] == sessions@[i as int]@);
            assert(all.take(i + 1).drop_last() =~= all.take(i as int));
            assert(all.take(i + 1).last() == all[i as int]);
            reveal(Seq::filter);
        }
        if !same(sessions[i].session_id.0.as_str(), id.0.as_str()) {
            let row = sessions[i].duplicate();
            proof {
                assert(crate::text::views(kept@.push(row)) =~= crate::text::views(kept@).push(row@));
            }
            kept.push(row);
        }
        i = i + 1;
    }
    proof {
        assert(all.take(i as int) =~= all);
    }
    *sessions = kept;
}

/// Set the running flag of a session.
pub fn set_status(sessions: &mut Vec<SessionSummary>, id: &SessionId, running: bool)
    ensures
        crate::text::views(final(sessions)@) == with_status(
            crate::text::views(old(sessions)@),
            id@,
            running,
        ),
{
    let at = find_session(sessions, id);
    if at < sessions.len() {
        let mut row = sessions[at].duplicate();
        row.running = running;
        sessions.set(at, row);
        proof {
            assert(crate::text::views(sessions@) =~= with_status(
                crate::text::views(old(sessions)@),
                id@,
                running,
            ));
        }
    }
}

// ---------------------------------------------------------------------------
// projections
// ---------------------------------------------------------------------------

/// Whether a projection has a name.
pub open spec fn projected_as(key: Seq<char>) -> spec_fn(ProjectionView) -> bool {
    |p: ProjectionView| p.key == key
}

/// A projected value of a session.
pub open spec fn projected(row: SessionSummaryView, key: Seq<char>) -> Option<JsonView> {
    match row.projections {
        Some(block) => {
            let at = crate::seqs::first_index(block.values, projected_as(key));
            if at < block.values.len() {
                Some(block.values[at].value)
            } else {
                None
            }
        },
        None => None,
    }
}

/// The projected title of a session: a text, or an object that holds one.
pub open spec fn title(row: SessionSummaryView) -> Option<Seq<char>> {
    match projected(row, "title"@) {
        Some(value) => match value.as_str() {
            Some(s) => Some(s),
            None => value.get_str("title"@),
        },
        None => None,
    }
}

/// The title that a session is shown by: its id where it has none.
pub open spec fn shown_title(row: SessionSummaryView) -> Seq<char> {
    match title(row) {
        Some(s) => s,
        None => row.session_id,
    }
}

fn find_projection(values: &Vec<Projection>, key: &str) -> (r: usize)
    ensures
        r == crate::seqs::first_index(crate::text::views(values@), projected_as(key@)),
        r <= values@.len(),
{
    let ghost all = crate::text::views(values@);
    let mut i: usize = 0;
    while i < values.len()
        invariant
            i <= values@.len(),
            all == crate::text::views(values@),
            forall|k: int| 0 <= k < i ==> !projected_as(key@)(#[trigger] all[k]),
        decreases values.len() - i,
    {
        if same(values[i].key.as_str(), key) {
            proof {
                crate::seqs::lemma_first_index(all, projected_as(key@), i as int);
            }
            return i;
        }
        i = i + 1;
    }
    proof {
        crate::seqs::lemma_first_index(all, projected_as(key@), i as int);
    }
    i
}

fn projection_of<'a>(row: &'a SessionSummary, key: &str) -> (r: Option<&'a Json>)
    ensures
        crate::text::opt_view(r) == projected(row@, key@),
{
    match &row.projections {
        Some(block) => {
            let at = find_projection(&block.values, key);
            if at < block.values.len() {
                Some(&block.values[at].value)
            } else {
                None
            }
        },
        None => None,
    }
}

/// The projected title of a session.
pub fn title_of(row: &SessionSummary) -> (r: Option<String>)
    ensures
        crate::text::opt_view(r) == title(row@),
{
    match projection_of(row, "title") {
        Some(value) => match value.as_str() {
            Some(s) => Some(s.to_owned()),
            None => match value.get_str("title") {
                Some(s) => Some(s.to_owned()),
                None => None,
            },
        },
        None => None,
    }
}

/// The title that a session is shown by.
pub fn label_of(row: &SessionSummary) -> (r: String)
    ensures
        r@ == shown_title(row@),
{
    match title_of(row) {
        Some(s) => s,
        None => row.session_id.0.clone(),
    }
}

/// A projected value set: in its place, or behind the others.
pub open spec fn with_value(values: Seq<ProjectionView>, key: Seq<char>, value: JsonView) -> Seq<
    ProjectionView,
> {
    let at = crate::seqs::first_index(values, projected_as(key));
    if at < values.len() {
        values.update(at, ProjectionView { key, value })
    } else {
        values.push(ProjectionView { key, value })
    }
}

/// A session under another title, as of an event where it had no projections yet.
pub open spec fn retitled(row: SessionSummaryView, title: Seq<char>, seq: i64) -> SessionSummaryView {
    let block = match row.projections {
        Some(block) => block,
        None => ProjectionsView { as_of_seq: seq, values: Seq::empty() },
    };
    SessionSummaryView {
        projections: Some(
            ProjectionsView {
                values: with_value(block.values, "title"@, JsonView::Str(title)),
                ..block
            },
        ),
        ..row
    }
}

/// The list with a session under another title.
pub open spec fn with_title(
    sessions: Seq<SessionSummaryView>,
    id: Seq<char>,
    title: Seq<char>,
    seq: i64,
) -> Seq<SessionSummaryView> {
    let at = session_index(sessions, id);
    if at < sessions.len() {
        sessions.update(at, retitled(sessions[at], title, seq))
    } else {
        sessions
    }
}

/// Give a session another title.
pub fn set_title(sessions: &mut Vec<SessionSummary>, id: &SessionId, title: &str, seq: i64)
    ensures
        crate::text::views(final(sessions)@) == with_title(
            crate::text::views(old(sessions)@),
            id@,
            title@,
            seq,
        ),
{
    let at = find_session(sessions, id);
    if at < sessions.len() {
        let mut row = sessions[at].duplicate();
        let ghost before = row@;
        let mut block = match row.projections {
            Some(block) => block,
            None => {
                let values: Vec<Projection> = Vec::new();
                proof {
                    assert(crate::text::views(values@) =~= Seq::<ProjectionView>::empty());
                }
                Projections { as_of_seq: seq, values }
            },
        };
        let ghost values = crate::text::views(block.values@);
        let place = find_projection(&block.values, "title");
        let entry = Projection { key: "title".to_owned(), value: Json::Str(title.to_owned()) };
        let ghost shown = entry@;
        if place < block.values.len() {
            block.values.set(place, entry);
        } else {
            block.values.push(entry);
        }
        proof {
            assert(shown == (ProjectionView { key: "title"@, value: JsonView::Str(title@) }));
            assert(crate::text::views(block.values@) =~= with_value(
                values,
                "title"@,
                JsonView::Str(title@),
            ));
        }
        row.projections = Some(block);
        proof {
            assert(row@ == retitled(before, title@, seq));
        }
        sessions.set(at, row);
        proof {
            assert(crate::text::views(sessions@) =~= with_title(
                crate::text::views(old(sessions)@),
                id@,
                title@,
                seq,
            ));
        }
    }
}

/// A session that was given a title is shown by it.
pub proof fn law_title_read_back(row: SessionSummaryView, text: Seq<char>, seq: i64)
    ensures
        shown_title(retitled(row, text, seq)) == text,
{
    let block = match row.projections {
        Some(block) => block,
        None => ProjectionsView { as_of_seq: seq, values: Seq::empty() },
    };
    let values = with_value(block.values, "title"@, JsonView::Str(text));
    let at = crate::seqs::first_index(block.values, projected_as("title"@));
    crate::seqs::lemma_first_index_holds(block.values, projected_as("title"@));
    assert forall|k: int| 0 <= k < at implies !projected_as("title"@)(#[trigger] values[k]) by {
        assert(values[k] == block.values[k]);
    }
    crate::seqs::lemma_first_index(values, projected_as("title"@), at);
}

// ---------------------------------------------------------------------------
// permissions
// ---------------------------------------------------------------------------

/// A word with its first character in upper case.
pub open spec fn capital(word: Seq<char>) -> Seq<char> {
    if word.len() == 0 {
        word
    } else {
        crate::text::upper_forms(word[0]) + word.skip(1)
    }
}

/// Whether a text holds something.
pub open spec fn not_empty() -> spec_fn(Seq<char>) -> bool {
    |s: Seq<char>| s.len() > 0
}

/// A permission mode as it is shown: `danger-full-access` is "Full access", any other mode is
/// its words, each with a capital.
pub open spec fn permission_text(value: Seq<char>) -> Seq<char> {
    if value == "danger-full-access"@ {
        "Full access"@
    } else {
        crate::text::join_all(
            crate::text::split(value, '-').filter(not_empty()).map_values(
                |word: Seq<char>| capital(word),
            ),
            " "@,
        )
    }
}

fn capitalised(word: &str) -> (r: String)
    ensures
        r@ == capital(word@),
{
    let chars = crate::text::chars_of(word);
    if chars.len() == 0 {
        return word.to_owned();
    }
    let mut out = to_upper_case(chars[0]);
    let rest = crate::text::slice_text(&chars, 1, chars.len());
    proof {
        assert(rest@ =~= word@.skip(1));
    }
    out.append(rest.as_str());
    out
}

/// A permission mode as it is shown.
pub fn permission_display(value: &str) -> (r: String)
    ensures
        r@ == permission_text(value@),
{
    if same(value, "danger-full-access") {
        return "Full access".to_owned();
    }
    let words = split_text(value, '-');
    let ghost all = crate::text::views(words@);
    let ghost capitals = |word: Seq<char>| capital(word);
    let mut out: Vec<String> = Vec::new();
    let mut i: usize = 0;
    proof {
        reveal(Seq::filter);
        assert(crate::text::views(out@) =~= all.take(0).filter(not_empty()).map_values(capitals));
    }
    while i < words.len()
        invariant
            i <= words@.len(),
            all == crate::text::views(words@),
            capitals == (|word: Seq<char>| capital(word)),
            crate::text::views(out@) == all.take(i as int).filter(not_empty()).map_values(capitals),
        decreases words.len() - i,
    {
        proof {
            assert(all[i as int] == words@[i as int]@);
            assert(all.take(i + 1).drop_last() =~= all.take(i as int));
            assert(all.take(i + 1).last() == all[i as int]);
            reveal(Seq::filter);
        }
        if !words[i].as_str().is_empty() {
            let word = capitalised(words[i].as_str());
            let ghost kept = all.take(i as int).filter(not_empty());
            proof {
                assert(kept.push(all[i as int]).map_values(capitals) =~= kept.map_values(
                    capitals,
                ).push(word@));
                assert(crate::text::views(out@.push(word)) =~= crate::text::views(out@).push(word@));
            }
            out.push(word);
        }
        i = i + 1;
    }
    proof {
        assert(all.take(i as int) =~= all);
    }
    join_texts(&out, " ")
}

/// The permission mode of a session as it is shown: nothing where it is unknown or empty.
pub open spec fn permission_of(row: SessionSummaryView) -> Option<Seq<char>> {
    match projected(row, "permissions"@) {
        Some(value) => match value.get_str("currentValue"@) {
            Some(mode) => if permission_text(mode).len() == 0 {
                None
            } else {
                Some(permission_text(mode))
            },
            None => None,
        },
        None => None,
    }
}

/// The permission mode of a session as it is shown.
pub fn permission_label(summary: &SessionSummary) -> (r: Option<String>)
    ensures
        crate::text::opt_view(r) == permission_of(summary@),
{
    match projection_of(summary, "permissions") {
        Some(value) => match value.get_str("currentValue") {
            Some(mode) => {
                let label = permission_display(mode);
                if label.as_str().is_empty() {
                    None
                } else {
                    Some(label)
                }
            },
            None => None,
        },
        None => None,
    }
}

} // verus!
