//! What the list of sessions shows, whatever the sessions and workspaces are.

use vstd::prelude::*;

use crate::app::groups::{DisplayRow, GroupView, ListView, Place};
use crate::json::JsonView;
use crate::wire::{SessionSummaryView, WorkspaceViewView};

verus! {

// ---------------------------------------------------------------------------
// the order of workspaces
// ---------------------------------------------------------------------------

/// How many of the first `n` names of an order are those of a workspace that is there.
pub open spec fn known_before(workspaces: Seq<WorkspaceViewView>, order: Seq<Seq<char>>, n: int) -> nat
    decreases n,
{
    if n <= 0 {
        0
    } else {
        known_before(workspaces, order, n - 1) + (if is_workspace(workspaces, order[n - 1]) {
            1nat
        } else {
            0
        })
    }
}

/// Whether a workspace with an id is there.
pub open spec fn is_workspace(workspaces: Seq<WorkspaceViewView>, id: Seq<char>) -> bool {
    exists|w: int| 0 <= w < workspaces.len() && (#[trigger] workspaces[w]).workspace_id == id
}

proof fn lemma_workspace_index(workspaces: Seq<WorkspaceViewView>, id: Seq<char>)
    ensures
        is_workspace(workspaces, id) <==> crate::app::groups::workspace_index(workspaces, id)
            < workspaces.len(),
        0 <= crate::app::groups::workspace_index(workspaces, id) <= workspaces.len(),
        is_workspace(workspaces, id) ==> workspaces[crate::app::groups::workspace_index(
            workspaces,
            id,
        )].workspace_id == id,
{
    let p = crate::app::groups::of_workspace(id);
    crate::seqs::lemma_first_index_holds(workspaces, p);
    let at = crate::app::groups::workspace_index(workspaces, id);
    if is_workspace(workspaces, id) {
        let w = choose|w: int|
            0 <= w < workspaces.len() && (#[trigger] workspaces[w]).workspace_id == id;
        assert(p(workspaces[w]));
    }
    if at < workspaces.len() {
        assert(p(workspaces[at]));
        assert(workspaces[at].workspace_id == id);
    }
}

proof fn lemma_ordered(workspaces: Seq<WorkspaceViewView>, order: Seq<Seq<char>>, n: nat)
    requires
        n <= order.len(),
    ensures
        ({
            let shown = crate::app::groups::ordered(workspaces, order.take(n as int));
            &&& shown.len() == known_before(workspaces, order, n as int)
            &&& forall|i: int| 0 <= i < shown.len() ==> 0 <= #[trigger] shown[i] < workspaces.len()
            &&& forall|k: int|
                0 <= k < n && is_workspace(workspaces, #[trigger] order[k]) ==> {
                    &&& known_before(workspaces, order, k) < shown.len()
                    &&& workspaces[shown[known_before(workspaces, order, k) as int]].workspace_id
                        == order[k]
                }
        }),
    decreases n,
{
    if n == 0 {
        assert(order.take(0) =~= Seq::empty());
    } else {
        let m = (n - 1) as nat;
        lemma_ordered(workspaces, order, m);
        lemma_workspace_index(workspaces, order[n - 1]);
        assert(order.take(n as int).drop_last() =~= order.take(m as int));
        assert(order.take(n as int).last() == order[n - 1]);
        let before = crate::app::groups::ordered(workspaces, order.take(m as int));
        let shown = crate::app::groups::ordered(workspaces, order.take(n as int));
        assert forall|k: int| 0 <= k < n && is_workspace(workspaces, #[trigger] order[k]) implies {
            &&& known_before(workspaces, order, k) < shown.len()
            &&& workspaces[shown[known_before(workspaces, order, k) as int]].workspace_id
                == order[k]
        } by {
            if k < m {
                let at = known_before(workspaces, order, k) as int;
                assert(shown[at] == before[at]);
            }
        }
    }
}

/// The workspaces stand in the order that the host keeps: the one that is named behind `k` other
/// known ones stands behind those. Workspaces that the order does not name follow all that it
/// names.
pub proof fn law_workspaces_ordered(workspaces: Seq<WorkspaceViewView>, order: Seq<Seq<char>>, k: int)
    requires
        0 <= k < order.len(),
        is_workspace(workspaces, order[k]),
    ensures
        ({
            let shown = crate::app::groups::display_order(workspaces, order);
            let at = known_before(workspaces, order, k) as int;
            &&& at < shown.len()
            &&& 0 <= shown[at] < workspaces.len()
            &&& workspaces[shown[at]].workspace_id == order[k]
            &&& forall|i: int|
                known_before(workspaces, order, order.len() as int) <= i < shown.len() ==> {
                    &&& 0 <= #[trigger] shown[i] < workspaces.len()
                    &&& !order.contains(workspaces[shown[i]].workspace_id)
                }
        }),
{
    assert(order.take(order.len() as int) =~= order);
    lemma_ordered(workspaces, order, order.len());
    lemma_unordered(workspaces, order, workspaces.len());
    let first = crate::app::groups::ordered(workspaces, order);
    let rest = crate::app::groups::unordered(workspaces, order, workspaces.len());
    let shown = crate::app::groups::display_order(workspaces, order);
    assert(first[known_before(workspaces, order, k) as int]
        == shown[known_before(workspaces, order, k) as int]);
    assert forall|i: int| first.len() <= i < shown.len() implies {
        &&& 0 <= #[trigger] shown[i] < workspaces.len()
        &&& !order.contains(workspaces[shown[i]].workspace_id)
    } by {
        assert(shown[i] == rest[i - first.len()]);
    }
}

proof fn lemma_unordered(workspaces: Seq<WorkspaceViewView>, order: Seq<Seq<char>>, n: nat)
    requires
        n <= workspaces.len(),
    ensures
        ({
            let rest = crate::app::groups::unordered(workspaces, order, n);
            &&& forall|i: int|
                0 <= i < rest.len() ==> 0 <= #[trigger] rest[i] < n && !order.contains(
                    workspaces[rest[i]].workspace_id,
                )
            &&& forall|i: int, j: int|
                0 <= i < j < rest.len() ==> #[trigger] rest[i] < #[trigger] rest[j]
        }),
    decreases n,
{
    if n > 0 {
        lemma_unordered(workspaces, order, (n - 1) as nat);
        let before = crate::app::groups::unordered(workspaces, order, (n - 1) as nat);
        let rest = crate::app::groups::unordered(workspaces, order, n);
        assert forall|i: int| 0 <= i < rest.len() implies 0 <= #[trigger] rest[i] < n
            && !order.contains(workspaces[rest[i]].workspace_id) by {
            if i < before.len() {
                assert(rest[i] == before[i]);
            }
        }
        assert forall|i: int, j: int| 0 <= i < j < rest.len() implies #[trigger] rest[i]
            < #[trigger] rest[j] by {
            assert(rest[i] == before[i]);
            if j < before.len() {
                assert(rest[j] == before[j]);
            }
        }
    }
}

/// Workspaces that the order does not name keep the order in which they came.
pub proof fn law_unnamed_workspaces_in_order(workspaces: Seq<WorkspaceViewView>, order: Seq<Seq<char>>)
    ensures
        ({
            let rest = crate::app::groups::unordered(workspaces, order, workspaces.len());
            forall|i: int, j: int|
                0 <= i < j < rest.len() ==> #[trigger] rest[i] < #[trigger] rest[j]
        }),
{
    lemma_unordered(workspaces, order, workspaces.len());
}

/// The sessions of a group stand in the order in which the list has them, each once.
pub proof fn law_members_in_order(list: ListView, place: Place, n: nat)
    requires
        n <= list.sessions.len() <= usize::MAX,
    ensures
        ({
            let rows = crate::app::groups::members(list, place, n);
            &&& forall|i: int| 0 <= i < rows.len() ==> (#[trigger] rows[i]) < n
            &&& forall|i: int, j: int|
                0 <= i < j < rows.len() ==> #[trigger] rows[i] < #[trigger] rows[j]
        }),
    decreases n,
{
    if n > 0 {
        law_members_in_order(list, place, (n - 1) as nat);
        let before = crate::app::groups::members(list, place, (n - 1) as nat);
        let rows = crate::app::groups::members(list, place, n);
        assert forall|i: int| 0 <= i < rows.len() implies (#[trigger] rows[i]) < n by {
            if i < before.len() {
                assert(rows[i] == before[i]);
            }
        }
        assert forall|i: int, j: int| 0 <= i < j < rows.len() implies #[trigger] rows[i]
            < #[trigger] rows[j] by {
            assert(rows[i] == before[i]);
            if j < before.len() {
                assert(rows[j] == before[j]);
            }
        }
    }
}

// ---------------------------------------------------------------------------
// the rows of the list
// ---------------------------------------------------------------------------

/// How many rows the first `n` groups take: a header each, and a row for each session of those
/// that are not collapsed.
pub open spec fn rows_taken(all: Seq<GroupView>, n: int) -> nat
    decreases n,
{
    if n <= 0 {
        0
    } else {
        rows_taken(all, n - 1) + 1 + (if all[n - 1].collapsed {
            0
        } else {
            all[n - 1].sessions.len()
        })
    }
}

proof fn lemma_rows(all: Seq<GroupView>, n: nat)
    requires
        n <= all.len(),
    ensures
        ({
            let rows = crate::app::groups::rows_of(all, n);
            &&& rows.len() == rows_taken(all, n as int)
            &&& forall|g: int|
                0 <= g < n ==> rows_taken(all, g) < rows.len() && #[trigger] rows[rows_taken(
                    all,
                    g,
                ) as int] == DisplayRow::Header(g as usize)
        }),
    decreases n,
{
    if n > 0 {
        let m = (n - 1) as nat;
        lemma_rows(all, m);
        let before = crate::app::groups::rows_of(all, m);
        let rows = crate::app::groups::rows_of(all, n);
        assert forall|g: int| 0 <= g < n implies rows_taken(all, g) < rows.len()
            && #[trigger] rows[rows_taken(all, g) as int] == DisplayRow::Header(g as usize) by {
            if g < m {
                assert(rows[rows_taken(all, g) as int] == before[rows_taken(all, g) as int]);
            }
        }
    }
}

/// Each group has its header below the rows of the groups before it, in the order of the groups,
/// and no row is left over.
pub proof fn law_group_headers(all: Seq<GroupView>, g: int)
    requires
        0 <= g < all.len(),
    ensures
        ({
            let rows = crate::app::groups::rows_of(all, all.len());
            &&& rows.len() == rows_taken(all, all.len() as int)
            &&& rows_taken(all, g) < rows.len()
            &&& rows[rows_taken(all, g) as int] == DisplayRow::Header(g as usize)
        }),
{
    lemma_rows(all, all.len());
    let rows = crate::app::groups::rows_of(all, all.len());
    assert(rows[rows_taken(all, g) as int] == DisplayRow::Header(g as usize));
}

proof fn lemma_row_sessions(all: Seq<GroupView>, n: nat, g: int, k: int)
    requires
        g < n <= all.len(),
        0 <= g,
        !all[g].collapsed,
        0 <= k < all[g].sessions.len(),
    ensures
        ({
            let rows = crate::app::groups::rows_of(all, n);
            let at = rows_taken(all, g) + 1 + k;
            &&& at < rows.len()
            &&& rows[at] matches DisplayRow::Session { index, .. }
            &&& index == all[g].sessions[k]
        }),
    decreases n,
{
    lemma_rows(all, n);
    lemma_rows(all, (n - 1) as nat);
    if g < n - 1 {
        lemma_row_sessions(all, (n - 1) as nat, g, k);
        let before = crate::app::groups::rows_of(all, (n - 1) as nat);
        let rows = crate::app::groups::rows_of(all, n);
        let at = rows_taken(all, g) + 1 + k;
        assert(rows[at] == before[at]);
    }
}

/// The sessions of a group that is not collapsed follow its header, one row each, in their
/// order.
pub proof fn law_group_rows(all: Seq<GroupView>, g: int, k: int)
    requires
        0 <= g < all.len(),
        !all[g].collapsed,
        0 <= k < all[g].sessions.len(),
    ensures
        ({
            let rows = crate::app::groups::rows_of(all, all.len());
            let at = rows_taken(all, g) + 1 + k;
            &&& at < rows.len()
            &&& rows[at] matches DisplayRow::Session { index, .. }
            &&& index == all[g].sessions[k]
        }),
{
    lemma_row_sessions(all, all.len(), g, k);
}

proof fn lemma_ordinals(all: Seq<GroupView>, n: nat)
    requires
        n <= all.len(),
        crate::app::groups::shown_sessions(all, all.len()).len() <= usize::MAX,
    ensures
        ({
            let shown = crate::app::groups::shown_sessions(all, n);
            let rows = crate::app::groups::rows_of(all, n);
            &&& shown.len() <= crate::app::groups::shown_sessions(all, all.len()).len()
            &&& forall|i: int|
                0 <= i < rows.len() ==> (#[trigger] rows[i] matches DisplayRow::Session {
                    index,
                    ordinal,
                } ==> ordinal < shown.len() && shown[ordinal as int] == index)
        }),
    decreases n,
{
    lemma_shown_grows(all, n, all.len());
    if n > 0 {
        let m = (n - 1) as nat;
        lemma_ordinals(all, m);
        let was = crate::app::groups::shown_sessions(all, m);
        let shown = crate::app::groups::shown_sessions(all, n);
        let before = crate::app::groups::rows_of(all, m);
        let rows = crate::app::groups::rows_of(all, n);
        assert forall|i: int| 0 <= i < rows.len() implies (
        #[trigger] rows[i] matches DisplayRow::Session { index, ordinal } ==> ordinal < shown.len()
            && shown[ordinal as int] == index) by {
            if i < before.len() {
                assert(rows[i] == before[i]);
            } else if i > before.len() {
                let k = i - before.len() - 1;
                assert(shown[was.len() + k] == all[n - 1].sessions[k]);
            }
        }
    }
}

proof fn lemma_shown_grows(all: Seq<GroupView>, n: nat, m: nat)
    requires
        n <= m <= all.len(),
    ensures
        crate::app::groups::shown_sessions(all, n).len() <= crate::app::groups::shown_sessions(
            all,
            m,
        ).len(),
    decreases m - n,
{
    if n < m {
        lemma_shown_grows(all, n, (m - 1) as nat);
    }
}

/// The row of a session carries the place at which the selection finds it: selecting by that
/// place selects the session of the row.
pub proof fn law_row_ordinals(all: Seq<GroupView>, i: int)
    requires
        crate::app::groups::visible(all).len() <= usize::MAX,
        0 <= i < crate::app::groups::rows_of(all, all.len()).len(),
    ensures
        crate::app::groups::rows_of(all, all.len())[i] matches DisplayRow::Session {
            index,
            ordinal,
        } ==> ordinal < crate::app::groups::visible(all).len() && crate::app::groups::visible(
            all,
        )[ordinal as int] == index,
{
    lemma_ordinals(all, all.len());
}

/// The rows that are shown hold the selected one: it stands at or below the first and above the
/// last that fits, where there is room for any.
pub proof fn law_selected_row_in_view(rows: Seq<DisplayRow>, selected: usize, height: u16, at: int)
    requires
        0 <= at < rows.len(),
        rows[at] matches DisplayRow::Session { ordinal, .. } && ordinal == selected,
        forall|i: int|
            0 <= i < at ==> !(#[trigger] rows[i] matches DisplayRow::Session { ordinal, .. }
                && ordinal == selected),
        height > 3,
    ensures
        0 <= crate::app::groups::first_row(rows, selected, height) <= at,
        at < crate::app::groups::first_row(rows, selected, height) + (height - 3),
{
    let p = crate::app::groups::is_selected(selected);
    assert(p(rows[at]));
    assert forall|i: int| 0 <= i < at implies !#[trigger] p(rows[i]) by {}
    crate::seqs::lemma_first_index(rows, p, at);
}

/// The selection moves by as much as it is asked to, as far as the list goes.
pub proof fn law_selection_moves(selected: usize, by: int, len: nat)
    requires
        0 < len <= usize::MAX,
    ensures
        0 <= selected + by < len ==> crate::app::groups::moved(selected, by, len) == selected + by,
        selected + by < 0 ==> crate::app::groups::moved(selected, by, len) == 0,
        selected + by >= len ==> crate::app::groups::moved(selected, by, len) == len - 1,
{
}

/// The picker of a new session offers every workspace of the list, in the list's order and by
/// its title, and at the end no workspace.
pub proof fn law_picker_entries(
    workspaces: Seq<WorkspaceViewView>,
    order: Seq<Seq<char>>,
    none: Seq<char>,
)
    ensures
        ({
            let shown = crate::app::groups::display_order(workspaces, order);
            let entries = crate::app::groups::picker_entries(workspaces, order, none);
            &&& entries.len() == shown.len() + 1
            &&& entries.last().workspace_id is None
            &&& entries.last().label == none
            &&& forall|i: int|
                0 <= i < shown.len() ==> (#[trigger] entries[i]).workspace_id == Some(
                    workspaces[shown[i]].workspace_id,
                ) && entries[i].label == workspaces[shown[i]].title
        }),
{
}

// ---------------------------------------------------------------------------
// the sessions
// ---------------------------------------------------------------------------

/// Whether a session is in the list.
pub open spec fn is_listed(sessions: Seq<SessionSummaryView>, id: Seq<char>) -> bool {
    exists|i: int| 0 <= i < sessions.len() && (#[trigger] sessions[i]).session_id == id
}

proof fn lemma_session_index(sessions: Seq<SessionSummaryView>, id: Seq<char>)
    ensures
        is_listed(sessions, id) <==> crate::app::sidebar::session_index(sessions, id)
            < sessions.len(),
        0 <= crate::app::sidebar::session_index(sessions, id) <= sessions.len(),
        is_listed(sessions, id) ==> sessions[crate::app::sidebar::session_index(
            sessions,
            id,
        )].session_id == id,
        forall|i: int|
            0 <= i < crate::app::sidebar::session_index(sessions, id) ==> (
            #[trigger] sessions[i]).session_id != id,
{
    let p = crate::app::sidebar::of_session(id);
    crate::seqs::lemma_first_index_holds(sessions, p);
    let at = crate::app::sidebar::session_index(sessions, id);
    if is_listed(sessions, id) {
        let i = choose|i: int|
            0 <= i < sessions.len() && (#[trigger] sessions[i]).session_id == id;
        assert(p(sessions[i]));
    }
    if at < sessions.len() {
        assert(p(sessions[at]));
        assert(sessions[at].session_id == id);
    }
    assert forall|i: int| 0 <= i < at implies (#[trigger] sessions[i]).session_id != id by {
        assert(!p(sessions[i]));
    }
}

/// A status is that of its session alone: the session's row runs or not as the frame says, all
/// else of the row and every other row stay, and a session that is not listed changes nothing.
pub proof fn law_status_is_local(sessions: Seq<SessionSummaryView>, id: Seq<char>, running: bool, at: int)
    requires
        0 <= at < sessions.len(),
        forall|i: int, j: int|
            0 <= i < j < sessions.len() ==> (#[trigger] sessions[i]).session_id != (
            #[trigger] sessions[j]).session_id,
    ensures
        ({
            let out = crate::app::sidebar::with_status(sessions, id, running);
            &&& out.len() == sessions.len()
            &&& sessions[at].session_id != id ==> out[at] == sessions[at]
            &&& sessions[at].session_id == id ==> out[at].running == running
                && out[at].session_id == id && out[at].projections == sessions[at].projections
        }),
{
    lemma_session_index(sessions, id);
    let k = crate::app::sidebar::session_index(sessions, id);
    if k < sessions.len() && k != at && sessions[at].session_id == id {
        if k < at {
            assert(sessions[k].session_id != sessions[at].session_id);
        } else {
            assert(sessions[at].session_id != sessions[k].session_id);
        }
    }
}

/// A session that is new stands first, and all others behind it as they were; one that is listed
/// changes nothing.
pub proof fn law_new_session_first(sessions: Seq<SessionSummaryView>, row: SessionSummaryView)
    ensures
        ({
            let out = crate::app::sidebar::with_session_first(sessions, row);
            &&& is_listed(sessions, row.session_id) ==> out == sessions
            &&& !is_listed(sessions, row.session_id) ==> out.len() == sessions.len() + 1 && out[0]
                == row && out.skip(1) == sessions
        }),
{
    lemma_session_index(sessions, row.session_id);
    let out = crate::app::sidebar::with_session_first(sessions, row);
    if !is_listed(sessions, row.session_id) {
        assert(out.skip(1) =~= sessions);
    }
}

/// A title is that of its session alone: every other row stays.
pub proof fn law_title_is_local(
    sessions: Seq<SessionSummaryView>,
    id: Seq<char>,
    title: Seq<char>,
    seq: i64,
    at: int,
)
    requires
        0 <= at < sessions.len(),
        sessions[at].session_id != id,
    ensures
        crate::app::sidebar::with_title(sessions, id, title, seq).len() == sessions.len(),
        crate::app::sidebar::with_title(sessions, id, title, seq)[at] == sessions[at],
{
    lemma_session_index(sessions, id);
}

/// A session without a title is shown by its id; a title is either a text of its own or the
/// member `title` of what is projected.
pub proof fn law_shown_title(row: SessionSummaryView, s: Seq<char>)
    ensures
        crate::app::sidebar::projected(row, "title"@) is None ==> crate::app::sidebar::shown_title(
            row,
        ) == row.session_id,
        crate::app::sidebar::projected(row, "title"@) == Some(JsonView::Str(s))
            ==> crate::app::sidebar::shown_title(row) == s,
{
}

/// A session runs where its row says so.
pub proof fn law_running(sessions: Seq<SessionSummaryView>, i: int)
    requires
        0 <= i < sessions.len(),
        sessions[i].running,
    ensures
        crate::app::sidebar::runs(sessions, sessions[i].session_id),
{
}

} // verus!
