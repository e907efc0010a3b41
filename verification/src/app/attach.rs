//! Which session is opened at the start, and what the application knows then.
//!
//! A session bears the time that it was last updated as the bits of a floating point number.

use vstd::prelude::*;

use crate::app::state::{App, AppView};
use crate::text::Duplicate;
use crate::wire::{
    SessionId, SessionSummary, SessionSummaryView, WorkspaceId, WorkspaceView, WorkspaceViewView,
};

verus! {

/// The place of the bits of a floating point number in the order of these numbers: the negative
/// ones first, the largest of them first.
pub open spec fn rank(bits: u64) -> int {
    if bits >= 0x8000_0000_0000_0000 {
        u64::MAX - bits
    } else {
        bits + 0x8000_0000_0000_0000
    }
}

fn rank_of(bits: u64) -> (r: u64)
    ensures
        r == rank(bits),
{
    if bits >= 0x8000_0000_0000_0000 {
        u64::MAX - bits
    } else {
        bits + 0x8000_0000_0000_0000
    }
}

/// Whether a session is taken into account: a blank one only where all are.
pub open spec fn counts(row: SessionSummaryView, blanks: bool) -> bool {
    blanks || !row.blank
}

/// The session among the first `n` that was updated last; of several, the last in the list.
pub open spec fn latest(sessions: Seq<SessionSummaryView>, blanks: bool, n: nat) -> Option<int>
    decreases n,
{
    if n == 0 || n > sessions.len() {
        None
    } else {
        let row = sessions[n - 1];
        match latest(sessions, blanks, (n - 1) as nat) {
            Some(best) => if counts(row, blanks) && rank(sessions[best].updated_at) <= rank(
                row.updated_at,
            ) {
                Some(n - 1)
            } else {
                Some(best)
            },
            None => if counts(row, blanks) {
                Some(n - 1)
            } else {
                None
            },
        }
    }
}

/// The session to open: the one updated last that is not blank, else the one updated last.
pub open spec fn chosen(sessions: Seq<SessionSummaryView>) -> Option<int> {
    match latest(sessions, false, sessions.len()) {
        Some(at) => Some(at),
        None => latest(sessions, true, sessions.len()),
    }
}

/// A position as a whole number.
pub open spec fn position(at: Option<usize>) -> Option<int> {
    match at {
        Some(at) => Some(at as int),
        None => None,
    }
}

fn find_latest(sessions: &Vec<SessionSummary>, blanks: bool) -> (r: Option<usize>)
    ensures
        position(r) == latest(crate::text::views(sessions@), blanks, sessions@.len()),
        r matches Some(at) ==> at < sessions@.len(),
{
    let ghost all = crate::text::views(sessions@);
    let mut best: Option<usize> = None;
    let mut i: usize = 0;
    while i < sessions.len()
        invariant
            i <= sessions@.len(),
            all == crate::text::views(sessions@),
            position(best) == latest(all, blanks, i as nat),
            best matches Some(at) ==> at < i,
        decreases sessions.len() - i,
    {
        proof {
            assert(all[i as int] == sessions@[i as int]@);
        }
        if blanks || !sessions[i].blank {
            match best {
                Some(at) => {
                    proof {
                        assert(all[at as int] == sessions@[at as int]@);
                    }
                    if rank_of(sessions[at].updated_at) <= rank_of(sessions[i].updated_at) {
                        best = Some(i);
                    }
                },
                None => {
                    best = Some(i);
                },
            }
        }
        i = i + 1;
    }
    best
}

/// The session to open.
pub fn choose_session(sessions: &Vec<SessionSummary>) -> (r: Option<usize>)
    ensures
        position(r) == chosen(crate::text::views(sessions@)),
        r matches Some(at) ==> at < sessions@.len(),
{
    match find_latest(sessions, false) {
        Some(at) => Some(at),
        None => find_latest(sessions, true),
    }
}

/// The ids of some workspaces.
pub open spec fn ids_of(workspaces: Seq<WorkspaceViewView>) -> Seq<Seq<char>> {
    workspaces.map_values(|w: WorkspaceViewView| w.workspace_id)
}

fn workspace_ids(workspaces: &Vec<WorkspaceView>) -> (r: Vec<WorkspaceId>)
    ensures
        crate::text::views(r@) == ids_of(crate::text::views(workspaces@)),
{
    let ghost all = crate::text::views(workspaces@);
    let mut out: Vec<WorkspaceId> = Vec::new();
    let mut i: usize = 0;
    proof {
        assert(crate::text::views(out@) =~= ids_of(all.take(0)));
    }
    while i < workspaces.len()
        invariant
            i <= workspaces@.len(),
            all == crate::text::views(workspaces@),
            crate::text::views(out@) == ids_of(all.take(i as int)),
        decreases workspaces.len() - i,
    {
        let id = workspaces[i].workspace_id.duplicate();
        proof {
            assert(all[i as int] == workspaces@[i as int]@);
            assert(all.take(i + 1) =~= all.take(i as int).push(all[i as int]));
            assert(ids_of(all.take(i as int).push(all[i as int])) =~= ids_of(
                all.take(i as int),
            ).push(id@));
            assert(crate::text::views(out@.push(id)) =~= crate::text::views(out@).push(id@));
        }
        out.push(id);
        i = i + 1;
    }
    proof {
        assert(all.take(i as int) =~= all);
    }
    out
}

impl AppView {
    /// Attached to a gateway: what it told of its sessions and workspaces, and the session
    /// that was opened. That there is none is told as an error.
    pub open spec fn attached(
        self,
        opened: Option<Seq<char>>,
        sessions: Seq<SessionSummaryView>,
        workspaces: Seq<WorkspaceViewView>,
        archived: Seq<Seq<char>>,
    ) -> AppView {
        let there = self.with_active_session(opened).with_sessions(sessions).with_workspace_order(
            ids_of(workspaces),
        ).with_workspaces(workspaces).with_archived_session_ids(archived).with_connected(true);
        match opened {
            Some(_) => there,
            None => there.with_last_error(Some(there.text("main.no_sessions"@))),
        }
    }
}

impl App {
    /// Attach to a gateway.
    pub fn attach(
        &mut self,
        opened: Option<SessionId>,
        sessions: Vec<SessionSummary>,
        workspaces: Vec<WorkspaceView>,
        archived: Vec<SessionId>,
    )
        ensures
            final(self)@ == old(self)@.attached(
                crate::text::opt_view(opened),
                crate::text::views(sessions@),
                crate::text::views(workspaces@),
                crate::text::views(archived@),
            ),
    {
        let order = workspace_ids(&workspaces);
        let empty = opened.is_none();
        self.set_active_session(opened);
        self.set_sessions(sessions);
        self.set_workspace_order(order);
        self.set_workspaces(workspaces);
        self.set_archived_session_ids(archived);
        self.set_connected(true);
        if empty {
            let text = crate::i18n::tr(self.strings(), self.locale(), "main.no_sessions").to_owned();
            self.set_last_error(Some(text));
        }
    }
}

proof fn lemma_latest(sessions: Seq<SessionSummaryView>, blanks: bool, n: nat, i: int)
    requires
        0 <= i < n <= sessions.len(),
        counts(sessions[i], blanks),
    ensures
        latest(sessions, blanks, n) matches Some(at) && 0 <= at < n && counts(sessions[at], blanks)
            && rank(sessions[i].updated_at) <= rank(sessions[at].updated_at) && (rank(
            sessions[i].updated_at,
        ) == rank(sessions[at].updated_at) ==> i <= at),
    decreases n,
{
    if i < n - 1 {
        lemma_latest(sessions, blanks, (n - 1) as nat, i);
    } else {
        match latest(sessions, blanks, (n - 1) as nat) {
            Some(best) => {
                lemma_latest_counts(sessions, blanks, (n - 1) as nat);
            },
            None => {},
        }
    }
}

proof fn lemma_latest_counts(sessions: Seq<SessionSummaryView>, blanks: bool, n: nat)
    requires
        n <= sessions.len(),
    ensures
        latest(sessions, blanks, n) matches Some(at) ==> 0 <= at < n && counts(sessions[at], blanks),
    decreases n,
{
    if n > 0 {
        lemma_latest_counts(sessions, blanks, (n - 1) as nat);
    }
}

/// There is a session to open wherever there is a session. No other that is not blank was
/// updated later; a blank one is opened only where all are, and then the one updated last.
pub proof fn law_latest_opened(sessions: Seq<SessionSummaryView>, i: int)
    requires
        0 <= i < sessions.len(),
    ensures
        chosen(sessions) matches Some(at) && 0 <= at < sessions.len() && ((!sessions[i].blank
            || sessions[at].blank) ==> rank(sessions[i].updated_at) <= rank(
            sessions[at].updated_at,
        )) && (!sessions[i].blank ==> !sessions[at].blank),
{
    lemma_latest_counts(sessions, false, sessions.len());
    lemma_latest_counts(sessions, true, sessions.len());
    if !sessions[i].blank {
        lemma_latest(sessions, false, sessions.len(), i);
    } else {
        lemma_latest(sessions, true, sessions.len(), i);
    }
}

} // verus!
