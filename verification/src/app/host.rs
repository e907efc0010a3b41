//! What the host tells: sessions and workspaces that come, change and go, and the outcomes of
//! the changes that were asked for.

use vstd::prelude::*;

use crate::app::groups::{find_workspace, names_workspace};
use crate::app::sidebar::{add_session, drop_session, find_session, set_status, set_title};
use crate::app::state::{App, AppView, NewSessionState};
use crate::client::{ClientError, ClientErrorView};
use crate::text::{duplicate_all, duplicate_opt, same, Duplicate};
use crate::wire::{
    HostFrame, HostFrameView, SessionId, SessionIdView, SessionSummary, SessionSummaryView,
    WorkspaceId, WorkspaceView, WorkspaceViewView,
};

verus! {

// ---------------------------------------------------------------------------
// the list of workspaces
// ---------------------------------------------------------------------------

/// The list with a workspace in its place, or behind the others.
pub open spec fn with_workspace(list: Seq<WorkspaceViewView>, workspace: WorkspaceViewView) -> Seq<
    WorkspaceViewView,
> {
    let at = crate::app::groups::workspace_index(list, workspace.workspace_id);
    if at < list.len() {
        list.update(at, workspace)
    } else {
        list.push(workspace)
    }
}

/// The list with a workspace in its place, where it has one.
pub open spec fn with_known_workspace(
    list: Seq<WorkspaceViewView>,
    workspace: WorkspaceViewView,
) -> Seq<WorkspaceViewView> {
    let at = crate::app::groups::workspace_index(list, workspace.workspace_id);
    if at < list.len() {
        list.update(at, workspace)
    } else {
        list
    }
}

/// The list with a workspace behind the others, unless it has a place.
pub open spec fn with_new_workspace(
    list: Seq<WorkspaceViewView>,
    workspace: WorkspaceViewView,
) -> Seq<WorkspaceViewView> {
    if crate::app::groups::workspace_index(list, workspace.workspace_id) < list.len() {
        list
    } else {
        list.push(workspace)
    }
}

/// The list with a workspace under another title.
pub open spec fn with_workspace_title(
    list: Seq<WorkspaceViewView>,
    id: Seq<char>,
    title: Seq<char>,
) -> Seq<WorkspaceViewView> {
    let at = crate::app::groups::workspace_index(list, id);
    if at < list.len() {
        list.update(at, WorkspaceViewView { title, ..list[at] })
    } else {
        list
    }
}

/// Whether a workspace is another one.
pub open spec fn not_workspace(id: Seq<char>) -> spec_fn(WorkspaceViewView) -> bool {
    |w: WorkspaceViewView| w.workspace_id != id
}

/// Whether a text is another one.
pub open spec fn not_text(id: Seq<char>) -> spec_fn(Seq<char>) -> bool {
    |t: Seq<char>| t != id
}

/// The order with an id at its end, unless it has a place.
pub open spec fn with_last(order: Seq<Seq<char>>, id: Seq<char>) -> Seq<Seq<char>> {
    if order.contains(id) {
        order
    } else {
        order.push(id)
    }
}

fn put_workspace(list: &Vec<WorkspaceView>, workspace: WorkspaceView, known_only: bool) -> (r: Vec<
    WorkspaceView,
>)
    ensures
        crate::text::views(r@) == (if known_only {
            with_known_workspace(crate::text::views(list@), workspace@)
        } else {
            with_workspace(crate::text::views(list@), workspace@)
        }),
{
    let ghost all = crate::text::views(list@);
    let at = find_workspace(list, &workspace.workspace_id);
    let mut out = duplicate_all(list);
    if at < out.len() {
        out.set(at, workspace);
        proof {
            assert(crate::text::views(out@) =~= all.update(at as int, workspace@));
        }
    } else if !known_only {
        out.push(workspace);
        proof {
            assert(crate::text::views(out@) =~= all.push(workspace@));
        }
    }
    out
}

fn add_workspace(list: &Vec<WorkspaceView>, workspace: &WorkspaceView) -> (r: Vec<WorkspaceView>)
    ensures
        crate::text::views(r@) == with_new_workspace(crate::text::views(list@), workspace@),
{
    let ghost all = crate::text::views(list@);
    let mut out = duplicate_all(list);
    if find_workspace(list, &workspace.workspace_id) >= list.len() {
        let last = workspace.duplicate();
        out.push(last);
        proof {
            assert(crate::text::views(out@) =~= all.push(workspace@));
        }
    }
    out
}

fn retitle_workspace(list: &Vec<WorkspaceView>, id: &WorkspaceId, title: String) -> (r: Vec<
    WorkspaceView,
>)
    ensures
        crate::text::views(r@) == with_workspace_title(crate::text::views(list@), id@, title@),
{
    let ghost all = crate::text::views(list@);
    let at = find_workspace(list, id);
    let mut out = duplicate_all(list);
    if at < list.len() {
        let mut workspace = list[at].duplicate();
        workspace.title = title;
        proof {
            assert(all[at as int] == list@[at as int]@);
            assert(workspace@ == (WorkspaceViewView { title: title@, ..all[at as int] }));
        }
        out.set(at, workspace);
        proof {
            assert(crate::text::views(out@) =~= all.update(at as int, workspace@));
        }
    }
    out
}

fn drop_workspace(list: &Vec<WorkspaceView>, id: &WorkspaceId) -> (r: Vec<WorkspaceView>)
    ensures
        crate::text::views(r@) == crate::text::views(list@).filter(not_workspace(id@)),
{
    let ghost all = crate::text::views(list@);
    let mut kept: Vec<WorkspaceView> = Vec::new();
    let mut i: usize = 0;
    proof {
        reveal(Seq::filter);
        assert(crate::text::views(kept@) =~= all.take(0).filter(not_workspace(id@)));
    }
    while i < list.len()
        invariant
            i <= list@.len(),
            all == crate::text::views(list@),
            crate::text::views(kept@) == all.take(i as int).filter(not_workspace(id@)),
        decreases list.len() - i,
    {
        proof {
            assert(all[i as int] == list@[i as int]@);
            assert(all.take(i + 1).drop_last() =~= all.take(i as int));
            assert(all.take(i + 1).last() == all[i as int]);
            reveal(Seq::filter);
        }
        if !same(list[i].workspace_id.0.as_str(), id.0.as_str()) {
            let row = list[i].duplicate();
            proof {
                assert(crate::text::views(kept@.push(row)) =~= crate::text::views(kept@).push(row@));
            }
            kept.push(row);
        }
        i = i + 1;
    }
    proof {
        assert(all.take(i as int) =~= all);
    }
    kept
}

fn drop_workspace_id(list: &Vec<WorkspaceId>, id: &WorkspaceId) -> (r: Vec<WorkspaceId>)
    ensures
        crate::text::views(r@) == crate::text::views(list@).filter(not_text(id@)),
{
    let ghost all = crate::text::views(list@);
    let mut kept: Vec<WorkspaceId> = Vec::new();
    let mut i: usize = 0;
    proof {
        reveal(Seq::filter);
        assert(crate::text::views(kept@) =~= all.take(0).filter(not_text(id@)));
    }
    while i < list.len()
        invariant
            i <= list@.len(),
            all == crate::text::views(list@),
            crate::text::views(kept@) == all.take(i as int).filter(not_text(id@)),
        decreases list.len() - i,
    {
        proof {
            assert(all[i as int] == list@[i as int]@);
            assert(all.take(i + 1).drop_last() =~= all.take(i as int));
            assert(all.take(i + 1).last() == all[i as int]);
            reveal(Seq::filter);
        }
        if !same(list[i].0.as_str(), id.0.as_str()) {
            let row = list[i].duplicate();
            proof {
                assert(crate::text::views(kept@.push(row)) =~= crate::text::views(kept@).push(row@));
            }
            kept.push(row);
        }
        i = i + 1;
    }
    proof {
        assert(all.take(i as int) =~= all);
    }
    kept
}

fn order_with(list: &Vec<WorkspaceId>, id: &WorkspaceId) -> (r: Vec<WorkspaceId>)
    ensures
        crate::text::views(r@) == with_last(crate::text::views(list@), id@),
{
    let ghost all = crate::text::views(list@);
    let mut out = duplicate_all(list);
    if !names_workspace(list, id) {
        let last = id.duplicate();
        out.push(last);
        proof {
            assert(crate::text::views(out@) =~= all.push(id@));
        }
    }
    out
}

// ---------------------------------------------------------------------------
// outcomes
// ---------------------------------------------------------------------------

/// A session under its new title, as of an event.
#[derive(Debug)]
pub struct Renamed {
    pub title: String,
    pub seq: i64,
}

/// What a [`Renamed`] stands for.
#[verifier::ext_equal]
pub struct RenamedView {
    pub title: Seq<char>,
    pub seq: i64,
}

impl View for Renamed {
    type V = RenamedView;

    open spec fn view(&self) -> RenamedView {
        RenamedView {
            title: self.title@,
            seq: self.seq,
        }
    }
}

impl Duplicate for Renamed {
    fn duplicate(&self) -> (r: Self) {
        Renamed {
            title: self.title.clone(),
            seq: self.seq,
        }
    }
}

impl Clone for Renamed {
    fn clone(&self) -> (r: Self)
        ensures
            r@ == self@,
    {
        self.duplicate()
    }
}

/// A workspace that was asked for. Where `created` does not hold, it was there before.
#[derive(Debug)]
pub struct CreatedWorkspace {
    pub workspace: WorkspaceView,
    pub created: bool,
}

/// What a [`CreatedWorkspace`] stands for.
#[verifier::ext_equal]
pub struct CreatedWorkspaceView {
    pub workspace: WorkspaceViewView,
    pub created: bool,
}

impl View for CreatedWorkspace {
    type V = CreatedWorkspaceView;

    open spec fn view(&self) -> CreatedWorkspaceView {
        CreatedWorkspaceView {
            workspace: self.workspace@,
            created: self.created,
        }
    }
}

impl Duplicate for CreatedWorkspace {
    fn duplicate(&self) -> (r: Self) {
        CreatedWorkspace {
            workspace: self.workspace.duplicate(),
            created: self.created,
        }
    }
}

impl Clone for CreatedWorkspace {
    fn clone(&self) -> (r: Self)
        ensures
            r@ == self@,
    {
        self.duplicate()
    }
}

/// A session that was made.
#[derive(Debug)]
pub struct CreatedSession {
    pub session_id: SessionId,
    pub agent_preset: Option<String>,
}

/// What a [`CreatedSession`] stands for.
#[verifier::ext_equal]
pub struct CreatedSessionView {
    pub session_id: SessionIdView,
    pub agent_preset: Option<Seq<char>>,
}

impl View for CreatedSession {
    type V = CreatedSessionView;

    open spec fn view(&self) -> CreatedSessionView {
        CreatedSessionView {
            session_id: self.session_id@,
            agent_preset: crate::text::opt_view(self.agent_preset),
        }
    }
}

impl Duplicate for CreatedSession {
    fn duplicate(&self) -> (r: Self) {
        CreatedSession {
            session_id: self.session_id.duplicate(),
            agent_preset: duplicate_opt(&self.agent_preset),
        }
    }
}

impl Clone for CreatedSession {
    fn clone(&self) -> (r: Self)
        ensures
            r@ == self@,
    {
        self.duplicate()
    }
}

/// What an outcome stands for.
pub open spec fn outcome<T: View>(result: Result<T, ClientError>) -> Result<T::V, ClientErrorView> {
    match result {
        Ok(value) => Ok(value@),
        Err(error) => Err(error@),
    }
}

impl AppView {
    /// The list of sessions.
    pub open spec fn listing(self, sessions: Seq<SessionSummaryView>) -> AppView {
        self.with_sessions(sessions)
    }

    /// The workspaces and their order.
    pub open spec fn ordering(
        self,
        workspaces: Seq<WorkspaceViewView>,
        order: Seq<Seq<char>>,
    ) -> AppView {
        self.with_workspaces(workspaces).with_workspace_order(order)
    }

    /// After a frame of the host, which came at `stamp`.
    pub open spec fn hosted(self, frame: HostFrameView, stamp: u64) -> AppView {
        match frame {
            HostFrameView::HostSessionAdded {
                session_id,
                blank,
                parent_session_id,
                origin,
                cwd,
                agent_preset,
            } => if crate::app::sidebar::session_index(self.sessions, session_id)
                < self.sessions.len() {
                self
            } else {
                self.listing(
                    crate::app::sidebar::with_session_first(
                        self.sessions,
                        SessionSummaryView {
                            session_id,
                            updated_at: stamp,
                            running: false,
                            blank,
                            parent_session_id,
                            origin,
                            cwd,
                            agent_preset,
                            projections: None,
                        },
                    ),
                ).selection_kept()
            },
            HostFrameView::HostSessionRemoved { session_id } => {
                let left = self.listing(
                    self.sessions.filter(crate::app::sidebar::not_session(session_id)),
                );
                if self.active_session == Some(session_id) {
                    left.with_active_session(None).invalidated().selection_kept()
                } else {
                    left.selection_kept()
                }
            },
            HostFrameView::HostSessionStatus { session_id, running } => self.listing(
                crate::app::sidebar::with_status(self.sessions, session_id, running),
            ).selection_kept(),
            HostFrameView::HostWorkspaceChanged { workspace } => self.with_workspaces(
                with_workspace(self.workspaces, workspace),
            ).selection_kept(),
            HostFrameView::HostWorkspaceRemoved { workspace_id } => self.ordering(
                self.workspaces.filter(not_workspace(workspace_id)),
                self.workspace_order.filter(not_text(workspace_id)),
            ).selection_kept(),
            HostFrameView::HostWorkspaceOrderChanged { workspace_ids } => self.with_workspace_order(
                workspace_ids,
            ).selection_kept(),
            HostFrameView::HostArchivedSessionsChanged { archived_session_ids } =>
                self.with_archived_session_ids(archived_session_ids).selection_kept(),
            HostFrameView::Other => self.selection_kept(),
        }
    }

    /// A change of the list may be asked for again.
    pub open spec fn list_free(self) -> AppView {
        self.with_sidebar_action_sending(false)
    }

    /// A change of the list that failed.
    pub open spec fn list_failed(self, error: ClientErrorView) -> AppView {
        self.noted_with("toast.sidebar_action_failed"@, crate::client::error_text(error))
    }

    /// After the outcome of a renaming.
    pub open spec fn after_rename(
        self,
        id: Seq<char>,
        result: Result<RenamedView, ClientErrorView>,
    ) -> AppView {
        match result {
            Ok(value) => self.list_free().listing(
                crate::app::sidebar::with_title(self.sessions, id, value.title, value.seq),
            ).noted("toast.renamed"@),
            Err(error) => self.list_free().list_failed(error),
        }
    }

    /// After the outcome of a fork: its row comes by itself.
    pub open spec fn after_fork(self, result: Result<SessionIdView, ClientErrorView>) -> AppView {
        match result {
            Ok(id) => self.list_free().noted_with("toast.forked"@, id),
            Err(error) => self.list_free().list_failed(error),
        }
    }

    /// After the outcome of an archiving, which tells all archived sessions.
    pub open spec fn after_archive(self, result: Result<Seq<Seq<char>>, ClientErrorView>) -> AppView {
        match result {
            Ok(ids) => self.list_free().with_archived_session_ids(ids).selection_kept().noted(
                "toast.archived"@,
            ),
            Err(error) => self.list_free().list_failed(error),
        }
    }

    /// After the outcome of a new workspace. The editor closes either way.
    pub open spec fn after_workspace_create(
        self,
        result: Result<CreatedWorkspaceView, ClientErrorView>,
    ) -> AppView {
        let closed = self.list_free().with_workspace_editor(None);
        match result {
            Ok(value) => if value.created {
                closed.ordering(
                    with_new_workspace(self.workspaces, value.workspace),
                    with_last(self.workspace_order, value.workspace.workspace_id),
                ).selection_kept()
            } else {
                closed.with_workspaces(
                    with_known_workspace(self.workspaces, value.workspace),
                ).selection_kept()
            },
            Err(error) => closed.list_failed(error),
        }
    }

    /// After the outcome of a renaming of a workspace.
    pub open spec fn after_workspace_rename(
        self,
        result: Result<WorkspaceViewView, ClientErrorView>,
    ) -> AppView {
        match result {
            Ok(workspace) => self.list_free().with_workspaces(
                with_workspace_title(self.workspaces, workspace.workspace_id, workspace.title),
            ).noted("toast.renamed"@),
            Err(error) => self.list_free().list_failed(error),
        }
    }

    /// After the outcome of a deletion of a workspace. Its sessions are in no workspace then.
    pub open spec fn after_workspace_delete(
        self,
        id: Seq<char>,
        failure: Option<ClientErrorView>,
    ) -> AppView {
        match failure {
            None => self.list_free().ordering(
                self.workspaces.filter(not_workspace(id)),
                self.workspace_order.filter(not_text(id)),
            ).selection_kept().noted("toast.workspace_deleted"@),
            Some(error) => self.list_free().list_failed(error),
        }
    }

    /// The picker, ready for another try.
    pub open spec fn picker_free(self) -> AppView {
        match self.new_session {
            Some(state) => self.choosing(Some(NewSessionState { sending: false, ..state })),
            None => self,
        }
    }

    /// After the outcome of a new session, which came at `stamp`: it has a row, and it is the
    /// active one. After a failure the picker stays open.
    pub open spec fn after_session_create(
        self,
        result: Result<CreatedSessionView, ClientErrorView>,
        stamp: u64,
    ) -> AppView {
        match result {
            Ok(value) => self.choosing(None).noted_with(
                "toast.session_created"@,
                value.session_id,
            ).listing(
                crate::app::sidebar::with_session_first(
                    self.sessions,
                    SessionSummaryView {
                        session_id: value.session_id,
                        updated_at: stamp,
                        running: false,
                        blank: true,
                        parent_session_id: None,
                        origin: None,
                        cwd: None,
                        agent_preset: value.agent_preset,
                        projections: None,
                    },
                ),
            ).activated(value.session_id),
            Err(error) => self.picker_free().noted_with(
                "toast.create_failed"@,
                crate::client::error_text(error),
            ),
        }
    }
}

impl App {
    /// Take in a frame of the host. `stamp` is the time that a row made from it bears.
    pub fn handle_host_frame(&mut self, frame: HostFrame, stamp: u64)
        ensures
            final(self)@ == old(self)@.hosted(frame@, stamp),
    {
        match frame {
            HostFrame::HostSessionAdded {
                session_id,
                blank,
                parent_session_id,
                origin,
                cwd,
                agent_preset,
            } => {
                if find_session(self.sessions(), &session_id) < self.sessions().len() {
                    return;
                }
                let mut sessions = duplicate_all(self.sessions());
                add_session(
                    &mut sessions,
                    SessionSummary {
                        session_id,
                        updated_at: stamp,
                        running: false,
                        blank,
                        parent_session_id,
                        origin,
                        cwd,
                        agent_preset,
                        projections: None,
                    },
                );
                self.set_sessions(sessions);
            },
            HostFrame::HostSessionRemoved { session_id } => {
                let mut sessions = duplicate_all(self.sessions());
                drop_session(&mut sessions, &session_id);
                let active = self.is_active(&session_id);
                self.set_sessions(sessions);
                if active {
                    self.set_active_session(None);
                    self.invalidate();
                }
            },
            HostFrame::HostSessionStatus { session_id, running } => {
                let mut sessions = duplicate_all(self.sessions());
                set_status(&mut sessions, &session_id, running);
                self.set_sessions(sessions);
            },
            HostFrame::HostWorkspaceChanged { workspace } => {
                let workspaces = put_workspace(self.workspaces(), workspace, false);
                self.set_workspaces(workspaces);
            },
            HostFrame::HostWorkspaceRemoved { workspace_id } => {
                self.forget_workspace(&workspace_id);
            },
            HostFrame::HostWorkspaceOrderChanged { workspace_ids } => {
                self.set_workspace_order(workspace_ids);
            },
            HostFrame::HostArchivedSessionsChanged { archived_session_ids } => {
                self.set_archived_session_ids(archived_session_ids);
            },
            HostFrame::Other => {},
        }
        self.keep_selection();
    }

    /// Whether a session is the active one.
    pub fn is_active(&self, id: &SessionId) -> (r: bool)
        ensures
            r == (self@.active_session == Some(id@)),
    {
        match self.active_session() {
            Some(active) => same(active.0.as_str(), id.0.as_str()),
            None => false,
        }
    }

    fn forget_workspace(&mut self, id: &WorkspaceId)
        ensures
            final(self)@ == old(self)@.ordering(
                old(self)@.workspaces.filter(not_workspace(id@)),
                old(self)@.workspace_order.filter(not_text(id@)),
            ),
    {
        let workspaces = drop_workspace(self.workspaces(), id);
        let order = drop_workspace_id(self.workspace_order(), id);
        self.set_workspaces(workspaces);
        self.set_workspace_order(order);
    }

    fn note_list_failure(&mut self, error: &ClientError)
        ensures
            final(self)@ == old(self)@.list_failed(error@),
    {
        let text = error.message();
        self.toast_with("toast.sidebar_action_failed", text.as_str());
    }

    /// Take in the outcome of a renaming.
    pub fn on_rename_done(&mut self, id: &SessionId, result: Result<Renamed, ClientError>)
        ensures
            final(self)@ == old(self)@.after_rename(id@, outcome(result)),
    {
        match result {
            Ok(value) => {
                let mut sessions = duplicate_all(self.sessions());
                set_title(&mut sessions, id, value.title.as_str(), value.seq);
                self.set_sidebar_action_sending(false);
                self.set_sessions(sessions);
                self.toast_key("toast.renamed");
            },
            Err(error) => {
                self.set_sidebar_action_sending(false);
                self.note_list_failure(&error);
            },
        }
    }

    /// Take in the outcome of a fork.
    pub fn on_fork_done(&mut self, result: Result<SessionId, ClientError>)
        ensures
            final(self)@ == old(self)@.after_fork(outcome(result)),
    {
        self.set_sidebar_action_sending(false);
        match result {
            Ok(id) => self.toast_with("toast.forked", id.0.as_str()),
            Err(error) => self.note_list_failure(&error),
        }
    }

    /// Take in the outcome of an archiving.
    pub fn on_archive_done(&mut self, result: Result<Vec<SessionId>, ClientError>)
        ensures
            final(self)@ == old(self)@.after_archive(
                match result {
                    Ok(ids) => Ok(crate::text::views(ids@)),
                    Err(error) => Err(error@),
                },
            ),
    {
        self.set_sidebar_action_sending(false);
        match result {
            Ok(ids) => {
                self.set_archived_session_ids(ids);
                self.keep_selection();
                self.toast_key("toast.archived");
            },
            Err(error) => self.note_list_failure(&error),
        }
    }

    /// Take in the outcome of a new workspace.
    pub fn on_workspace_create_done(&mut self, result: Result<CreatedWorkspace, ClientError>)
        ensures
            final(self)@ == old(self)@.after_workspace_create(outcome(result)),
    {
        match result {
            Ok(value) => {
                if value.created {
                    let workspaces = add_workspace(self.workspaces(), &value.workspace);
                    let order = order_with(self.workspace_order(), &value.workspace.workspace_id);
                    self.set_sidebar_action_sending(false);
                    self.set_workspace_editor(None);
                    self.set_workspaces(workspaces);
                    self.set_workspace_order(order);
                } else {
                    let workspaces = put_workspace(self.workspaces(), value.workspace, true);
                    self.set_sidebar_action_sending(false);
                    self.set_workspace_editor(None);
                    self.set_workspaces(workspaces);
                }
                self.keep_selection();
            },
            Err(error) => {
                self.set_sidebar_action_sending(false);
                self.set_workspace_editor(None);
                self.note_list_failure(&error);
            },
        }
    }

    /// Take in the outcome of a renaming of a workspace.
    pub fn on_workspace_rename_done(&mut self, result: Result<WorkspaceView, ClientError>)
        ensures
            final(self)@ == old(self)@.after_workspace_rename(outcome(result)),
    {
        match result {
            Ok(workspace) => {
                let workspaces = retitle_workspace(
                    self.workspaces(),
                    &workspace.workspace_id,
                    workspace.title,
                );
                self.set_sidebar_action_sending(false);
                self.set_workspaces(workspaces);
                self.toast_key("toast.renamed");
            },
            Err(error) => {
                self.set_sidebar_action_sending(false);
                self.note_list_failure(&error);
            },
        }
    }

    /// Take in the outcome of a deletion of a workspace.
    pub fn on_workspace_delete_done(&mut self, id: &WorkspaceId, failure: Option<ClientError>)
        ensures
            final(self)@ == old(self)@.after_workspace_delete(id@, crate::text::opt_view(failure)),
    {
        match failure {
            None => {
                let workspaces = drop_workspace(self.workspaces(), id);
                let order = drop_workspace_id(self.workspace_order(), id);
                self.set_sidebar_action_sending(false);
                self.set_workspaces(workspaces);
                self.set_workspace_order(order);
                self.keep_selection();
                self.toast_key("toast.workspace_deleted");
            },
            Some(error) => {
                self.set_sidebar_action_sending(false);
                self.note_list_failure(&error);
            },
        }
    }

    /// Take in the outcome of a new session.
    pub fn on_session_create_done(
        &mut self,
        result: Result<CreatedSession, ClientError>,
        stamp: u64,
    )
        ensures
            final(self)@ == old(self)@.after_session_create(outcome(result), stamp),
    {
        match result {
            Ok(value) => {
                let mut sessions = duplicate_all(self.sessions());
                add_session(
                    &mut sessions,
                    SessionSummary {
                        session_id: value.session_id.duplicate(),
                        updated_at: stamp,
                        running: false,
                        blank: true,
                        parent_session_id: None,
                        origin: None,
                        cwd: None,
                        agent_preset: value.agent_preset,
                        projections: None,
                    },
                );
                self.set_new_session(None);
                self.toast_with("toast.session_created", value.session_id.0.as_str());
                self.set_sessions(sessions);
                self.activate(&value.session_id);
            },
            Err(error) => {
                let text = error.message();
                match self.new_session() {
                    Some(state) => self.set_new_session(
                        Some(NewSessionState { selected: state.selected, sending: false }),
                    ),
                    None => {},
                }
                self.toast_with("toast.create_failed", text.as_str());
            },
        }
    }
}

/// A session that is known comes only once: the frame that announces it again changes nothing.
pub proof fn law_added_once(app: AppView, frame: HostFrameView, stamp: u64)
    requires
        frame is HostSessionAdded,
        crate::app::sidebar::session_index(app.sessions, frame->HostSessionAdded_session_id)
            < app.sessions.len(),
    ensures
        app.hosted(frame, stamp) == app,
{
}

/// A session that was made and is announced by the host as well has one row.
pub proof fn law_created_once(
    sessions: Seq<SessionSummaryView>,
    a: SessionSummaryView,
    b: SessionSummaryView,
)
    requires
        a.session_id == b.session_id,
    ensures
        crate::app::sidebar::with_session_first(
            crate::app::sidebar::with_session_first(sessions, a),
            b,
        ) == crate::app::sidebar::with_session_first(sessions, a),
{
    let once = crate::app::sidebar::with_session_first(sessions, a);
    if crate::app::sidebar::session_index(sessions, a.session_id) >= sessions.len() {
        assert(once[0] == a);
        crate::seqs::lemma_first_index(once, crate::app::sidebar::of_session(b.session_id), 0);
    }
}

/// A session that was removed has no row, and it is not the active one.
pub proof fn law_removed_is_gone(app: AppView, id: Seq<char>, stamp: u64)
    ensures
        ({
            let after = app.hosted(HostFrameView::HostSessionRemoved { session_id: id }, stamp);
            &&& forall|i: int|
                0 <= i < after.sessions.len() ==> (#[trigger] after.sessions[i]).session_id != id
            &&& after.active_session != Some(id)
        }),
{
    reveal(AppView::with_sessions);
    reveal(AppView::with_active_session);
    reveal(AppView::with_row_cache);
    reveal(AppView::with_sidebar);
    let left = app.sessions.filter(crate::app::sidebar::not_session(id));
    assert forall|i: int| 0 <= i < left.len() implies (#[trigger] left[i]).session_id != id by {
        app.sessions.lemma_filter_pred(crate::app::sidebar::not_session(id), i);
    }
}

/// A workspace that was removed is in neither list. Its sessions are not touched.
pub proof fn law_removed_workspace(app: AppView, id: Seq<char>, stamp: u64)
    ensures
        ({
            let after = app.hosted(HostFrameView::HostWorkspaceRemoved { workspace_id: id }, stamp);
            &&& forall|i: int|
                0 <= i < after.workspaces.len() ==> (#[trigger] after.workspaces[i]).workspace_id
                    != id
            &&& !after.workspace_order.contains(id)
            &&& after.sessions == app.sessions
        }),
{
    reveal(AppView::with_workspaces);
    reveal(AppView::with_workspace_order);
    reveal(AppView::with_sidebar);
    let left = app.workspaces.filter(not_workspace(id));
    let order = app.workspace_order.filter(not_text(id));
    assert forall|i: int| 0 <= i < left.len() implies (#[trigger] left[i]).workspace_id != id by {
        app.workspaces.lemma_filter_pred(not_workspace(id), i);
    }
    assert forall|i: int| 0 <= i < order.len() implies #[trigger] order[i] != id by {
        app.workspace_order.lemma_filter_pred(not_text(id), i);
    }
}

/// After every frame that changes the list, the selection is a row, where there is any.
pub proof fn law_selection_valid(app: AppView)
    ensures
        ({
            let after = app.selection_kept();
            after.rows().len() > 0 ==> after.sidebar.selected < after.rows().len()
        }),
{
    reveal(AppView::with_sidebar);
}

/// A change of the list that failed leaves the sessions, the workspaces and the archive as they
/// were, and the next change may be asked for.
pub proof fn law_failed_change(app: AppView, id: Seq<char>, error: ClientErrorView)
    ensures
        ({
            let renamed = app.after_rename(id, Err(error));
            let forked = app.after_fork(Err(error));
            let archived = app.after_archive(Err(error));
            let created = app.after_workspace_create(Err(error));
            let retitled = app.after_workspace_rename(Err(error));
            let deleted = app.after_workspace_delete(id, Some(error));
            &&& renamed == forked
            &&& renamed == archived
            &&& renamed == retitled
            &&& renamed == deleted
            &&& !renamed.sidebar_action_sending && !created.sidebar_action_sending
            &&& renamed.list() == app.list() && created.list() == app.list()
        }),
{
    reveal(AppView::with_sidebar_action_sending);
    reveal(AppView::with_workspace_editor);
    reveal(AppView::with_toast);
}

/// A session that was made has a row, is the active one and has a state; the picker is closed.
pub proof fn law_created_is_active(app: AppView, value: CreatedSessionView, stamp: u64)
    ensures
        ({
            let after = app.after_session_create(Ok(value), stamp);
            &&& after.active_session == Some(value.session_id)
            &&& after.store.sessions.dom().contains(value.session_id)
            &&& after.new_session is None
            &&& crate::app::sidebar::session_index(after.sessions, value.session_id)
                < after.sessions.len()
        }),
{
    reveal(AppView::with_new_session);
    reveal(AppView::with_toast);
    reveal(AppView::with_sessions);
    reveal(AppView::with_store);
    reveal(AppView::with_row_cache);
    reveal(AppView::with_active_session);
    reveal(AppView::with_session_model);
    reveal(AppView::with_view);
    reveal(AppView::with_hint);
    let after = app.after_session_create(Ok(value), stamp);
    let wanted = crate::app::sidebar::of_session(value.session_id);
    if crate::app::sidebar::session_index(app.sessions, value.session_id) >= app.sessions.len() {
        assert(wanted(after.sessions[0]));
        crate::seqs::lemma_first_index(after.sessions, wanted, 0);
    }
}

} // verus!
