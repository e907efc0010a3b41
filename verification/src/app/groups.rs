//! How the sessions are grouped in the sidebar, and which rows it shows.
//!
//! Workspaces come first, in their durable order, then the sessions that no workspace claims,
//! then the archived ones. An archived session stands in no other group.

use vstd::prelude::*;

use crate::text::{same, Duplicate};
use crate::wire::{
    SessionId, SessionSummary, SessionSummaryView, WorkspaceId, WorkspaceView, WorkspaceViewView,
};

verus! {

/// Whether a workspace has an id.
pub open spec fn of_workspace(id: Seq<char>) -> spec_fn(WorkspaceViewView) -> bool {
    |w: WorkspaceViewView| w.workspace_id == id
}

/// The position of a workspace, the length of the list where there is none.
pub open spec fn workspace_index(workspaces: Seq<WorkspaceViewView>, id: Seq<char>) -> int {
    crate::seqs::first_index(workspaces, of_workspace(id))
}

/// The workspaces that the durable order names, in its order.
pub open spec fn ordered(workspaces: Seq<WorkspaceViewView>, order: Seq<Seq<char>>) -> Seq<int>
    decreases order.len(),
{
    if order.len() == 0 {
        Seq::empty()
    } else {
        let before = ordered(workspaces, order.drop_last());
        let at = workspace_index(workspaces, order.last());
        if at < workspaces.len() {
            before.push(at)
        } else {
            before
        }
    }
}

/// The first `n` workspaces that the durable order does not name.
pub open spec fn unordered(workspaces: Seq<WorkspaceViewView>, order: Seq<Seq<char>>, n: nat) -> Seq<
    int,
>
    decreases n,
{
    if n == 0 || n > workspaces.len() {
        Seq::empty()
    } else {
        let before = unordered(workspaces, order, (n - 1) as nat);
        if order.contains(workspaces[n - 1].workspace_id) {
            before
        } else {
            before.push(n - 1)
        }
    }
}

/// The workspaces in the order that they are shown in: the durable order first, then those
/// that it does not name.
pub open spec fn display_order(workspaces: Seq<WorkspaceViewView>, order: Seq<Seq<char>>) -> Seq<
    int,
> {
    ordered(workspaces, order) + unordered(workspaces, order, workspaces.len())
}

/// Positions, as whole numbers.
pub open spec fn positions(s: Seq<usize>) -> Seq<int> {
    s.map_values(|i: usize| i as int)
}

/// The position of a workspace, the length of the list where there is none.
pub fn find_workspace(workspaces: &Vec<WorkspaceView>, id: &WorkspaceId) -> (r: usize)
    ensures
        r == workspace_index(crate::text::views(workspaces@), id@),
        r <= workspaces@.len(),
        r < workspaces@.len() ==> workspaces@[r as int]@.workspace_id == id@,
{
    let ghost all = crate::text::views(workspaces@);
    let mut i: usize = 0;
    while i < workspaces.len()
        invariant
            i <= workspaces@.len(),
            all == crate::text::views(workspaces@),
            forall|k: int| 0 <= k < i ==> !of_workspace(id@)(#[trigger] all[k]),
        decreases workspaces.len() - i,
    {
        if same(workspaces[i].workspace_id.0.as_str(), id.0.as_str()) {
            proof {
                crate::seqs::lemma_first_index(all, of_workspace(id@), i as int);
            }
            return i;
        }
        i = i + 1;
    }
    proof {
        crate::seqs::lemma_first_index(all, of_workspace(id@), i as int);
    }
    i
}

/// Whether a list of workspace ids has one.
pub fn names_workspace(order: &Vec<WorkspaceId>, id: &WorkspaceId) -> (r: bool)
    ensures
        r == crate::text::views(order@).contains(id@),
{
    let ghost all = crate::text::views(order@);
    let mut i: usize = 0;
    while i < order.len()
        invariant
            i <= order@.len(),
            all == crate::text::views(order@),
            forall|k: int| 0 <= k < i ==> #[trigger] all[k] != id@,
        decreases order.len() - i,
    {
        proof {
            assert(all[i as int] == order@[i as int]@);
        }
        if same(order[i].0.as_str(), id.0.as_str()) {
            return true;
        }
        i = i + 1;
    }
    false
}

/// Whether a list of session ids has one.
pub fn names_session(ids: &Vec<SessionId>, id: &SessionId) -> (r: bool)
    ensures
        r == crate::text::views(ids@).contains(id@),
{
    let ghost all = crate::text::views(ids@);
    let mut i: usize = 0;
    while i < ids.len()
        invariant
            i <= ids@.len(),
            all == crate::text::views(ids@),
            forall|k: int| 0 <= k < i ==> #[trigger] all[k] != id@,
        decreases ids.len() - i,
    {
        proof {
            assert(all[i as int] == ids@[i as int]@);
        }
        if same(ids[i].0.as_str(), id.0.as_str()) {
            return true;
        }
        i = i + 1;
    }
    false
}

/// The workspaces in the order that they are shown in.
pub fn shown_workspaces(workspaces: &Vec<WorkspaceView>, order: &Vec<WorkspaceId>) -> (r: Vec<usize>)
    ensures
        positions(r@) == display_order(crate::text::views(workspaces@), crate::text::views(order@)),
        forall|k: int| 0 <= k < r@.len() ==> #[trigger] r@[k] < workspaces@.len(),
{
    let ghost all = crate::text::views(workspaces@);
    let ghost ids = crate::text::views(order@);
    let mut out: Vec<usize> = Vec::new();
    let mut i: usize = 0;
    proof {
        assert(positions(out@) =~= ordered(all, ids.take(0)));
    }
    while i < order.len()
        invariant
            i <= order@.len(),
            all == crate::text::views(workspaces@),
            ids == crate::text::views(order@),
            positions(out@) == ordered(all, ids.take(i as int)),
            forall|k: int| 0 <= k < out@.len() ==> #[trigger] out@[k] < workspaces@.len(),
        decreases order.len() - i,
    {
        proof {
            assert(ids.take(i + 1).drop_last() =~= ids.take(i as int));
            assert(ids.take(i + 1).last() == order@[i as int]@);
        }
        let at = find_workspace(workspaces, &order[i]);
        if at < workspaces.len() {
            proof {
                assert(positions(out@.push(at)) =~= positions(out@).push(at as int));
            }
            out.push(at);
        }
        i = i + 1;
    }
    proof {
        assert(ids.take(i as int) =~= ids);
        assert(positions(out@) =~= ordered(all, ids) + unordered(all, ids, 0));
    }
    let mut k: usize = 0;
    while k < workspaces.len()
        invariant
            k <= workspaces@.len(),
            all == crate::text::views(workspaces@),
            ids == crate::text::views(order@),
            positions(out@) == ordered(all, ids) + unordered(all, ids, k as nat),
            forall|j: int| 0 <= j < out@.len() ==> #[trigger] out@[j] < workspaces@.len(),
        decreases workspaces.len() - k,
    {
        proof {
            assert(all[k as int] == workspaces@[k as int]@);
        }
        if !names_workspace(order, &workspaces[k].workspace_id) {
            proof {
                assert(positions(out@.push(k)) =~= positions(out@).push(k as int));
                assert(ordered(all, ids) + unordered(all, ids, k as nat).push(k as int) =~= (
                ordered(all, ids) + unordered(all, ids, k as nat)).push(k as int));
            }
            out.push(k);
        }
        k = k + 1;
    }
    out
}

// ---------------------------------------------------------------------------
// groups
// ---------------------------------------------------------------------------

/// A group of the sidebar: a workspace, the sessions without one, or the archived sessions.
/// `sessions` are positions in the list of sessions; those of a collapsed group are not shown.
#[derive(Debug)]
pub struct SidebarGroup {
    pub workspace: Option<usize>,
    pub is_archived: bool,
    pub collapsed: bool,
    pub sessions: Vec<usize>,
}

/// What a [`SidebarGroup`] stands for.
#[verifier::ext_equal]
pub struct GroupView {
    pub workspace: Option<usize>,
    pub is_archived: bool,
    pub collapsed: bool,
    pub sessions: Seq<usize>,
}

impl View for SidebarGroup {
    type V = GroupView;

    open spec fn view(&self) -> GroupView {
        GroupView {
            workspace: self.workspace,
            is_archived: self.is_archived,
            collapsed: self.collapsed,
            sessions: self.sessions@,
        }
    }
}

/// What the groups are made from.
#[verifier::ext_equal]
pub struct ListView {
    pub sessions: Seq<SessionSummaryView>,
    pub workspaces: Seq<WorkspaceViewView>,
    pub order: Seq<Seq<char>>,
    pub archived: Seq<Seq<char>>,
}

/// Whether a workspace claims a session.
pub open spec fn claims(workspace: WorkspaceViewView, id: Seq<char>) -> bool {
    workspace.session_ids.contains(id)
}

/// Whether some workspace claims a session.
pub open spec fn claimed(workspaces: Seq<WorkspaceViewView>, id: Seq<char>) -> bool {
    exists|i: int| 0 <= i < workspaces.len() && claims(#[trigger] workspaces[i], id)
}

/// Which group a session belongs to.
#[derive(Debug, Clone, Copy, PartialEq, Eq, Structural)]
pub enum Place {
    Workspace(usize),
    Ungrouped,
    Archived,
}

/// Whether a session stands in a group.
pub open spec fn stands_in(list: ListView, place: Place, i: int) -> bool {
    let id = list.sessions[i].session_id;
    match place {
        Place::Workspace(w) => !list.archived.contains(id) && claims(list.workspaces[w as int], id),
        Place::Ungrouped => !list.archived.contains(id) && !claimed(list.workspaces, id),
        Place::Archived => list.archived.contains(id),
    }
}

/// The first `n` sessions' positions in a group, in the order of the list.
pub open spec fn members(list: ListView, place: Place, n: nat) -> Seq<usize>
    decreases n,
{
    if n == 0 || n > list.sessions.len() {
        Seq::empty()
    } else {
        let before = members(list, place, (n - 1) as nat);
        if stands_in(list, place, n - 1) {
            before.push((n - 1) as usize)
        } else {
            before
        }
    }
}

/// The groups of some workspaces.
pub open spec fn workspace_groups(list: ListView, shown: Seq<int>) -> Seq<GroupView> {
    shown.map_values(
        |w: int|
            GroupView {
                workspace: Some(w as usize),
                is_archived: false,
                collapsed: false,
                sessions: members(list, Place::Workspace(w as usize), list.sessions.len()),
            },
    )
}

/// The groups of the sidebar. The group of the sessions without a workspace and that of the
/// archived ones are there only where they have a session.
pub open spec fn groups(list: ListView, expanded: bool) -> Seq<GroupView> {
    let free = members(list, Place::Ungrouped, list.sessions.len());
    let archived = members(list, Place::Archived, list.sessions.len());
    let first = workspace_groups(list, display_order(list.workspaces, list.order));
    let second = if free.len() > 0 {
        first.push(
            GroupView { workspace: None, is_archived: false, collapsed: false, sessions: free },
        )
    } else {
        first
    };
    if archived.len() > 0 {
        second.push(
            GroupView {
                workspace: None,
                is_archived: true,
                collapsed: !expanded,
                sessions: archived,
            },
        )
    } else {
        second
    }
}

/// The positions of the sessions that the first `n` groups show, one behind the other.
pub open spec fn shown_sessions(all: Seq<GroupView>, n: nat) -> Seq<usize>
    decreases n,
{
    if n == 0 || n > all.len() {
        Seq::empty()
    } else {
        let before = shown_sessions(all, (n - 1) as nat);
        if all[n - 1].collapsed {
            before
        } else {
            before + all[n - 1].sessions
        }
    }
}

/// The positions of the sessions that can be selected, in the order of the rows.
pub open spec fn visible(all: Seq<GroupView>) -> Seq<usize> {
    shown_sessions(all, all.len())
}

fn is_claimed(workspaces: &Vec<WorkspaceView>, id: &SessionId) -> (r: bool)
    ensures
        r == claimed(crate::text::views(workspaces@), id@),
{
    let ghost all = crate::text::views(workspaces@);
    let mut i: usize = 0;
    while i < workspaces.len()
        invariant
            i <= workspaces@.len(),
            all == crate::text::views(workspaces@),
            forall|k: int| 0 <= k < i ==> !claims(#[trigger] all[k], id@),
        decreases workspaces.len() - i,
    {
        proof {
            assert(all[i as int] == workspaces@[i as int]@);
        }
        if names_session(&workspaces[i].session_ids, id) {
            return true;
        }
        i = i + 1;
    }
    false
}

/// The list that some sessions, workspaces, their order and the archived ids make up.
pub open spec fn list_of(
    sessions: Seq<SessionSummary>,
    workspaces: Seq<WorkspaceView>,
    order: Seq<WorkspaceId>,
    archived: Seq<SessionId>,
) -> ListView {
    ListView {
        sessions: crate::text::views(sessions),
        workspaces: crate::text::views(workspaces),
        order: crate::text::views(order),
        archived: crate::text::views(archived),
    }
}

fn members_of(
    sessions: &Vec<SessionSummary>,
    workspaces: &Vec<WorkspaceView>,
    order: &Vec<WorkspaceId>,
    archived: &Vec<SessionId>,
    place: Place,
) -> (r: Vec<usize>)
    requires
        place matches Place::Workspace(w) ==> w < workspaces@.len(),
    ensures
        r@ == members(
            list_of(sessions@, workspaces@, order@, archived@),
            place,
            sessions@.len(),
        ),
{
    let ghost list = list_of(sessions@, workspaces@, order@, archived@);
    let mut out: Vec<usize> = Vec::new();
    let mut i: usize = 0;
    while i < sessions.len()
        invariant
            i <= sessions@.len(),
            list == list_of(sessions@, workspaces@, order@, archived@),
            place matches Place::Workspace(w) ==> w < workspaces@.len(),
            out@ == members(list, place, i as nat),
        decreases sessions.len() - i,
    {
        let id = &sessions[i].session_id;
        proof {
            assert(list.sessions[i as int] == sessions@[i as int]@);
        }
        let put_away = names_session(archived, id);
        let stands = match place {
            Place::Workspace(w) => {
                proof {
                    assert(list.workspaces[w as int] == workspaces@[w as int]@);
                }
                !put_away && names_session(&workspaces[w].session_ids, id)
            },
            Place::Ungrouped => !put_away && !is_claimed(workspaces, id),
            Place::Archived => put_away,
        };
        if stands {
            out.push(i);
        }
        i = i + 1;
    }
    out
}

/// The groups of the sidebar.
pub fn build_groups(
    sessions: &Vec<SessionSummary>,
    workspaces: &Vec<WorkspaceView>,
    order: &Vec<WorkspaceId>,
    archived: &Vec<SessionId>,
    expanded: bool,
) -> (r: Vec<SidebarGroup>)
    ensures
        crate::text::views(r@) == groups(
            list_of(sessions@, workspaces@, order@, archived@),
            expanded,
        ),
{
    let ghost list = list_of(sessions@, workspaces@, order@, archived@);
    let shown = shown_workspaces(workspaces, order);
    let ghost wanted = workspace_groups(list, positions(shown@));
    let mut out: Vec<SidebarGroup> = Vec::new();
    let mut i: usize = 0;
    while i < shown.len()
        invariant
            i <= shown@.len(),
            list == list_of(sessions@, workspaces@, order@, archived@),
            wanted == workspace_groups(list, positions(shown@)),
            forall|k: int| 0 <= k < shown@.len() ==> #[trigger] shown@[k] < workspaces@.len(),
            out@.len() == i,
            forall|k: int| 0 <= k < i ==> (#[trigger] out@[k])@ == wanted[k],
        decreases shown.len() - i,
    {
        let w = shown[i];
        let sessions_in = members_of(sessions, workspaces, order, archived, Place::Workspace(w));
        let group = SidebarGroup {
            workspace: Some(w),
            is_archived: false,
            collapsed: false,
            sessions: sessions_in,
        };
        proof {
            assert(positions(shown@)[i as int] == w);
            assert(group@ =~= wanted[i as int]);
        }
        out.push(group);
        i = i + 1;
    }
    proof {
        assert(crate::text::views(out@) =~= wanted);
    }
    let free = members_of(sessions, workspaces, order, archived, Place::Ungrouped);
    if free.len() > 0 {
        let group = SidebarGroup {
            workspace: None,
            is_archived: false,
            collapsed: false,
            sessions: free,
        };
        proof {
            assert(crate::text::views(out@.push(group)) =~= crate::text::views(out@).push(group@));
        }
        out.push(group);
    }
    let put_away = members_of(sessions, workspaces, order, archived, Place::Archived);
    if put_away.len() > 0 {
        let group = SidebarGroup {
            workspace: None,
            is_archived: true,
            collapsed: !expanded,
            sessions: put_away,
        };
        proof {
            assert(crate::text::views(out@.push(group)) =~= crate::text::views(out@).push(group@));
        }
        out.push(group);
    }
    out
}

/// The positions of the sessions that can be selected, in the order of the rows.
pub fn visible_sessions(all: &Vec<SidebarGroup>) -> (r: Vec<usize>)
    ensures
        r@ == visible(crate::text::views(all@)),
{
    let ghost views = crate::text::views(all@);
    let mut out: Vec<usize> = Vec::new();
    let mut i: usize = 0;
    while i < all.len()
        invariant
            i <= all@.len(),
            views == crate::text::views(all@),
            out@ == shown_sessions(views, i as nat),
        decreases all.len() - i,
    {
        proof {
            assert(views[i as int] == all@[i as int]@);
        }
        if !all[i].collapsed {
            let mut more = all[i].sessions.clone();
            out.append(&mut more);
        }
        i = i + 1;
    }
    out
}

// ---------------------------------------------------------------------------
// laws
// ---------------------------------------------------------------------------

proof fn lemma_members(list: ListView, place: Place, n: nat)
    requires
        n <= list.sessions.len() <= usize::MAX,
    ensures
        forall|k: int|
            0 <= k < members(list, place, n).len() ==> (#[trigger] members(list, place, n)[k]) < n
                && stands_in(list, place, members(list, place, n)[k] as int),
        forall|i: int|
            0 <= i < n && stands_in(list, place, i) ==> #[trigger] members(list, place, n).contains(
                i as usize,
            ),
    decreases n,
{
    if n > 0 {
        lemma_members(list, place, (n - 1) as nat);
        let before = members(list, place, (n - 1) as nat);
        let after = members(list, place, n);
        assert forall|i: int| 0 <= i < n && stands_in(list, place, i) implies #[trigger] after.contains(
            i as usize,
        ) by {
            if i < n - 1 {
                assert(before.contains(i as usize));
                let k = choose|k: int| 0 <= k < before.len() && before[k] == i as usize;
                assert(after[k] == i as usize);
            } else {
                assert(after[after.len() - 1] == i as usize);
            }
        }
    }
}

/// A session stands in a group exactly where the group's rule says so, and an archived
/// session stands in that of the archived ones alone.
pub proof fn law_group_members(list: ListView, place: Place, i: int)
    requires
        list.sessions.len() <= usize::MAX,
        0 <= i < list.sessions.len(),
    ensures
        members(list, place, list.sessions.len()).contains(i as usize) <==> stands_in(list, place, i),
        list.archived.contains(list.sessions[i].session_id) ==> (stands_in(list, place, i) <==> place
            == Place::Archived),
{
    let n = list.sessions.len();
    lemma_members(list, place, n);
    let all = members(list, place, n);
    if all.contains(i as usize) {
        let k = choose|k: int| 0 <= k < all.len() && all[k] == i as usize;
        assert(all[k] as int == i);
    }
}

proof fn lemma_shown(all: Seq<GroupView>, n: nat, g: int, k: int)
    requires
        n <= all.len(),
        0 <= g < n,
        !all[g].collapsed,
        0 <= k < all[g].sessions.len(),
    ensures
        shown_sessions(all, n).contains(all[g].sessions[k]),
    decreases n,
{
    let before = shown_sessions(all, (n - 1) as nat);
    let now = shown_sessions(all, n);
    if g == n - 1 {
        assert(now[before.len() + k] == all[g].sessions[k]);
    } else {
        lemma_shown(all, (n - 1) as nat, g, k);
        let j = choose|j: int| 0 <= j < before.len() && before[j] == all[g].sessions[k];
        assert(now[j] == all[g].sessions[k]);
    }
}

proof fn lemma_unordered(workspaces: Seq<WorkspaceViewView>, order: Seq<Seq<char>>, n: nat, w: int)
    requires
        n <= workspaces.len(),
        0 <= w < n,
        !order.contains(workspaces[w].workspace_id),
    ensures
        unordered(workspaces, order, n).contains(w),
    decreases n,
{
    let before = unordered(workspaces, order, (n - 1) as nat);
    let now = unordered(workspaces, order, n);
    if w == n - 1 {
        assert(now[now.len() - 1] == w);
    } else {
        lemma_unordered(workspaces, order, (n - 1) as nat, w);
        let j = choose|j: int| 0 <= j < before.len() && before[j] == w;
        assert(now[j] == w);
    }
}

/// A session that is not archived and that no workspace claims can be selected; an archived
/// one can while its group is expanded.
pub proof fn law_reachable(list: ListView, expanded: bool, i: int)
    requires
        list.sessions.len() <= usize::MAX,
        0 <= i < list.sessions.len(),
    ensures
        stands_in(list, Place::Ungrouped, i) || (expanded && stands_in(list, Place::Archived, i))
            ==> visible(groups(list, expanded)).contains(i as usize),
{
    let n = list.sessions.len();
    let all = groups(list, expanded);
    let first = workspace_groups(list, display_order(list.workspaces, list.order));
    if stands_in(list, Place::Ungrouped, i) {
        let free = members(list, Place::Ungrouped, n);
        lemma_members(list, Place::Ungrouped, n);
        assert(free.contains(i as usize));
        let k = choose|k: int| 0 <= k < free.len() && free[k] == i as usize;
        assert(all[first.len() as int].sessions == free);
        lemma_shown(all, all.len(), first.len() as int, k);
    } else if expanded && stands_in(list, Place::Archived, i) {
        let put_away = members(list, Place::Archived, n);
        lemma_members(list, Place::Archived, n);
        assert(put_away.contains(i as usize));
        let k = choose|k: int| 0 <= k < put_away.len() && put_away[k] == i as usize;
        assert(all.last().sessions == put_away);
        lemma_shown(all, all.len(), all.len() - 1, k);
    }
}

/// A session that is not archived and that a workspace on the screen claims can be selected.
pub proof fn law_workspace_reachable(list: ListView, expanded: bool, w: usize, i: int)
    requires
        list.sessions.len() <= usize::MAX,
        0 <= i < list.sessions.len(),
        display_order(list.workspaces, list.order).contains(w as int),
        stands_in(list, Place::Workspace(w), i),
    ensures
        visible(groups(list, expanded)).contains(i as usize),
{
    let n = list.sessions.len();
    let all = groups(list, expanded);
    let shown = display_order(list.workspaces, list.order);
    let g = choose|g: int| 0 <= g < shown.len() && shown[g] == w as int;
    let inside = members(list, Place::Workspace(w), n);
    lemma_members(list, Place::Workspace(w), n);
    assert(inside.contains(i as usize));
    let k = choose|k: int| 0 <= k < inside.len() && inside[k] == i as usize;
    assert(all[g] == workspace_groups(list, shown)[g]);
    assert(all[g].sessions == inside);
    lemma_shown(all, all.len(), g, k);
}

/// A workspace that the durable order does not name is shown all the same.
pub proof fn law_unnamed_workspace_shown(
    workspaces: Seq<WorkspaceViewView>,
    order: Seq<Seq<char>>,
    w: int,
)
    requires
        0 <= w < workspaces.len(),
        !order.contains(workspaces[w].workspace_id),
    ensures
        display_order(workspaces, order).contains(w),
{
    lemma_unordered(workspaces, order, workspaces.len(), w);
    let last = unordered(workspaces, order, workspaces.len());
    let j = choose|j: int| 0 <= j < last.len() && last[j] == w;
    let shown = display_order(workspaces, order);
    assert(shown[ordered(workspaces, order).len() + j] == w);
}

// ---------------------------------------------------------------------------
// rows
// ---------------------------------------------------------------------------

/// One row of the sidebar: the head of a group, or a session by its position in the list and
/// by its number among those that can be selected.
#[derive(Debug, Clone, Copy, PartialEq, Eq, Structural)]
pub enum DisplayRow {
    Header(usize),
    Session { index: usize, ordinal: usize },
}

/// The rows of the first `n` groups: each group's head, then its sessions unless it is
/// collapsed.
pub open spec fn rows_of(all: Seq<GroupView>, n: nat) -> Seq<DisplayRow>
    decreases n,
{
    if n == 0 || n > all.len() {
        Seq::empty()
    } else {
        let before = rows_of(all, (n - 1) as nat).push(DisplayRow::Header((n - 1) as usize));
        let count = shown_sessions(all, (n - 1) as nat).len();
        if all[n - 1].collapsed {
            before
        } else {
            before + Seq::new(
                all[n - 1].sessions.len(),
                |k: int|
                    DisplayRow::Session {
                        index: all[n - 1].sessions[k],
                        ordinal: (count + k) as usize,
                    },
            )
        }
    }
}

/// The rows of the sidebar.
pub fn display_rows(all: &Vec<SidebarGroup>) -> (r: Vec<DisplayRow>)
    requires
        visible(crate::text::views(all@)).len() <= usize::MAX,
    ensures
        r@ == rows_of(crate::text::views(all@), all@.len()),
{
    let ghost views = crate::text::views(all@);
    let mut out: Vec<DisplayRow> = Vec::new();
    let mut ordinal: usize = 0;
    let mut i: usize = 0;
    while i < all.len()
        invariant
            i <= all@.len(),
            views == crate::text::views(all@),
            visible(views).len() <= usize::MAX,
            ordinal == shown_sessions(views, i as nat).len(),
            out@ == rows_of(views, i as nat),
        decreases all.len() - i,
    {
        proof {
            assert(views[i as int] == all@[i as int]@);
            lemma_shown_grows(views, (i + 1) as nat, views.len());
        }
        out.push(DisplayRow::Header(i));
        if !all[i].collapsed {
            let ghost before = out@;
            let sessions = &all[i].sessions;
            let mut k: usize = 0;
            while k < sessions.len()
                invariant
                    k <= sessions@.len(),
                    ordinal + sessions@.len() <= usize::MAX,
                    out@ == before + Seq::new(
                        k as nat,
                        |j: int|
                            DisplayRow::Session {
                                index: sessions@[j],
                                ordinal: (ordinal + j) as usize,
                            },
                    ),
                decreases sessions.len() - k,
            {
                out.push(DisplayRow::Session { index: sessions[k], ordinal: ordinal + k });
                proof {
                    assert(out@ =~= before + Seq::new(
                        (k + 1) as nat,
                        |j: int|
                            DisplayRow::Session {
                                index: sessions@[j],
                                ordinal: (ordinal + j) as usize,
                            },
                    ));
                }
                k = k + 1;
            }
            proof {
                assert(out@ =~= rows_of(views, (i + 1) as nat));
            }
            ordinal = ordinal + sessions.len();
        }
        i = i + 1;
    }
    out
}

proof fn lemma_shown_grows(all: Seq<GroupView>, n: nat, m: nat)
    requires
        n <= m <= all.len(),
    ensures
        shown_sessions(all, n).len() <= shown_sessions(all, m).len(),
    decreases m,
{
    if n < m {
        lemma_shown_grows(all, n, (m - 1) as nat);
    }
}

/// The row of a selection.
pub open spec fn is_selected(ordinal: usize) -> spec_fn(DisplayRow) -> bool {
    |r: DisplayRow|
        match r {
            DisplayRow::Session { ordinal: o, .. } => o == ordinal,
            DisplayRow::Header(_) => false,
        }
}

/// How many rows fit a sidebar of some height: all but the head, the blank row and the foot.
pub open spec fn window(height: u16) -> int {
    if height > 3 {
        height - 3
    } else {
        0
    }
}

/// The first row that is shown: the selected row stays in view, at the bottom edge where the
/// list scrolls.
pub open spec fn first_row(rows: Seq<DisplayRow>, selected: usize, height: u16) -> int {
    let at = crate::seqs::first_index(rows, is_selected(selected));
    if at < rows.len() && at >= window(height) && window(height) > 0 {
        at - window(height) + 1
    } else {
        0
    }
}

fn selects(row: DisplayRow, selected: usize) -> (r: bool)
    ensures
        r == is_selected(selected)(row),
{
    match row {
        DisplayRow::Session { ordinal, .. } => ordinal == selected,
        DisplayRow::Header(_) => false,
    }
}

/// The first row that is shown.
pub fn scroll_start(rows: &Vec<DisplayRow>, selected: usize, height: u16) -> (r: usize)
    ensures
        r == first_row(rows@, selected, height),
{
    let mut at: usize = 0;
    while at < rows.len() && !selects(rows[at], selected)
        invariant
            at <= rows@.len(),
            forall|k: int| 0 <= k < at ==> !is_selected(selected)(#[trigger] rows@[k]),
        decreases rows.len() - at,
    {
        at = at + 1;
    }
    proof {
        crate::seqs::lemma_first_index(rows@, is_selected(selected), at as int);
    }
    let fits: usize = if height > 3 {
        (height - 3) as usize
    } else {
        0
    };
    if at < rows.len() && at >= fits && fits > 0 {
        at - fits + 1
    } else {
        0
    }
}

/// The selection of the sidebar, by its number among the rows that can be selected.
#[derive(Debug, Clone, Copy, PartialEq, Eq, Structural)]
pub struct SidebarState {
    pub selected: usize,
}

impl Default for SidebarState {
    fn default() -> (r: Self)
        ensures
            r.selected == 0,
    {
        SidebarState { selected: 0 }
    }
}

/// A selection moved by some rows, inside a list of some rows.
pub open spec fn moved(selected: usize, by: int, len: nat) -> usize {
    if len == 0 || len > usize::MAX || selected + by < 0 {
        0
    } else if selected + by >= len {
        (len - 1) as usize
    } else {
        (selected + by) as usize
    }
}

/// A selection inside a list of some rows.
pub open spec fn kept(selected: usize, len: nat) -> usize {
    moved(selected, 0, len)
}

impl SidebarState {
    /// Move the selection by some rows in a list of some rows.
    pub fn move_by(&mut self, by: i16, len: usize)
        ensures
            final(self).selected == moved(old(self).selected, by as int, len as nat),
    {
        let target: i128 = self.selected as i128 + by as i128;
        self.selected = if len == 0 || target < 0 {
            0
        } else if target >= len as i128 {
            len - 1
        } else {
            target as usize
        };
    }

    /// Select the first row.
    pub fn first(&mut self)
        ensures
            final(self).selected == 0,
    {
        self.selected = 0;
    }

    /// Select the last row of a list of some rows.
    pub fn last(&mut self, len: usize)
        ensures
            final(self).selected == (if len == 0 {
                0
            } else {
                len - 1
            }),
    {
        self.selected = if len == 0 {
            0
        } else {
            len - 1
        };
    }

    /// Keep the selection inside a list of some rows.
    pub fn clamp(&mut self, len: usize)
        ensures
            final(self).selected == kept(old(self).selected, len as nat),
    {
        self.move_by(0, len);
    }
}

/// Wherever it is moved, the selection stays inside a list that has rows.
pub proof fn law_selection_stays(selected: usize, by: int, len: nat)
    requires
        0 < len <= usize::MAX,
    ensures
        moved(selected, by, len) < len,
        selected < len ==> kept(selected, len) == selected,
{
}

// ---------------------------------------------------------------------------
// the new-session picker
// ---------------------------------------------------------------------------

/// One entry of the new-session picker: a workspace, or none.
#[derive(Debug)]
pub struct NewSessionEntry {
    pub workspace_id: Option<WorkspaceId>,
    pub label: String,
}

/// What a [`NewSessionEntry`] stands for.
#[verifier::ext_equal]
pub struct NewSessionEntryView {
    pub workspace_id: Option<Seq<char>>,
    pub label: Seq<char>,
}

impl View for NewSessionEntry {
    type V = NewSessionEntryView;

    open spec fn view(&self) -> NewSessionEntryView {
        NewSessionEntryView {
            workspace_id: crate::text::opt_view(self.workspace_id),
            label: self.label@,
        }
    }
}

/// The entries of the picker: the workspaces as they are shown, then that without one.
pub open spec fn picker_entries(
    workspaces: Seq<WorkspaceViewView>,
    order: Seq<Seq<char>>,
    no_workspace: Seq<char>,
) -> Seq<NewSessionEntryView> {
    display_order(workspaces, order).map_values(
        |w: int|
            NewSessionEntryView {
                workspace_id: Some(workspaces[w].workspace_id),
                label: workspaces[w].title,
            },
    ).push(NewSessionEntryView { workspace_id: None, label: no_workspace })
}

/// The entries of the picker.
pub fn entries_of(workspaces: &Vec<WorkspaceView>, order: &Vec<WorkspaceId>, no_workspace: &str) -> (r:
    Vec<NewSessionEntry>)
    ensures
        crate::text::views(r@) == picker_entries(
            crate::text::views(workspaces@),
            crate::text::views(order@),
            no_workspace@,
        ),
{
    let shown = shown_workspaces(workspaces, order);
    let ghost all = crate::text::views(workspaces@);
    let ghost wanted = picker_entries(all, crate::text::views(order@), no_workspace@);
    let mut out: Vec<NewSessionEntry> = Vec::new();
    let mut i: usize = 0;
    while i < shown.len()
        invariant
            i <= shown@.len(),
            all == crate::text::views(workspaces@),
            positions(shown@) == display_order(all, crate::text::views(order@)),
            wanted == picker_entries(all, crate::text::views(order@), no_workspace@),
            forall|k: int| 0 <= k < shown@.len() ==> #[trigger] shown@[k] < workspaces@.len(),
            out@.len() == i,
            forall|k: int| 0 <= k < i ==> (#[trigger] out@[k])@ == wanted[k],
        decreases shown.len() - i,
    {
        let workspace = &workspaces[shown[i]];
        let entry = NewSessionEntry {
            workspace_id: Some(workspace.workspace_id.duplicate()),
            label: workspace.title.clone(),
        };
        proof {
            assert(positions(shown@)[i as int] == shown@[i as int]);
            assert(all[shown@[i as int] as int] == workspace@);
            assert(entry@ =~= wanted[i as int]);
        }
        out.push(entry);
        i = i + 1;
    }
    let last = NewSessionEntry { workspace_id: None, label: no_workspace.to_owned() };
    proof {
        assert(positions(shown@).len() == shown@.len());
        assert(crate::text::views(out@.push(last)) =~= wanted);
    }
    out.push(last);
    out
}

} // verus!
