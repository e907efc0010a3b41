//! What the frames of the host and the replies of the gateway change, whatever they say.

use vstd::prelude::*;

use crate::app::state::AppView;
use crate::client::ClientErrorView;
use crate::wire::{
    HostFrameView, ModelSelectionView, SessionSummaryView, SkillEntryView, WorkspaceViewView,
};

verus! {

proof fn lemma_kept(app: AppView)
    ensures
        app.selection_kept().sessions == app.sessions,
        app.selection_kept().workspaces == app.workspaces,
        app.selection_kept().workspace_order == app.workspace_order,
        app.selection_kept().archived_session_ids == app.archived_session_ids,
        app.selection_kept().active_session == app.active_session,
        app.selection_kept().store == app.store,
        app.selection_kept().sidebar_action_sending == app.sidebar_action_sending,
{
    reveal(AppView::with_sidebar);
}

/// A session that the host announces has a row, the first of the list, with what the frame says
/// of it; it does not run yet, and the rows of the others stay behind it in their order.
pub proof fn law_session_announced(app: AppView, frame: HostFrameView, stamp: u64)
    requires
        frame is HostSessionAdded,
        !crate::app::list_laws::is_listed(app.sessions, frame->HostSessionAdded_session_id),
    ensures
        ({
            let out = app.hosted(frame, stamp).sessions;
            &&& out.len() == app.sessions.len() + 1
            &&& out.skip(1) == app.sessions
            &&& out[0].session_id == frame->HostSessionAdded_session_id
            &&& out[0].blank == frame->HostSessionAdded_blank
            &&& out[0].parent_session_id == frame->HostSessionAdded_parent_session_id
            &&& out[0].origin == frame->HostSessionAdded_origin
            &&& out[0].cwd == frame->HostSessionAdded_cwd
            &&& out[0].agent_preset == frame->HostSessionAdded_agent_preset
            &&& !out[0].running
            &&& out[0].updated_at == stamp
        }),
{
    reveal(AppView::with_sessions);
    let id = frame->HostSessionAdded_session_id;
    let row = (SessionSummaryView {
        session_id: id,
        updated_at: stamp,
        running: false,
        blank: frame->HostSessionAdded_blank,
        parent_session_id: frame->HostSessionAdded_parent_session_id,
        origin: frame->HostSessionAdded_origin,
        cwd: frame->HostSessionAdded_cwd,
        agent_preset: frame->HostSessionAdded_agent_preset,
        projections: None,
    });
    crate::app::list_laws::law_new_session_first(app.sessions, row);
    let p = crate::app::sidebar::of_session(id);
    crate::seqs::lemma_first_index_holds(app.sessions, p);
    let at = crate::app::sidebar::session_index(app.sessions, id);
    if at < app.sessions.len() {
        assert(p(app.sessions[at]));
        assert(app.sessions[at].session_id == id);
    }
    lemma_kept(app.listing(crate::app::sidebar::with_session_first(app.sessions, row)));
}

/// A session that the host removes takes its row with it and no other: every other session is
/// still listed.
pub proof fn law_session_removed(app: AppView, session_id: Seq<char>, stamp: u64, i: int)
    requires
        0 <= i < app.sessions.len(),
    ensures
        ({
            let out = app.hosted((HostFrameView::HostSessionRemoved { session_id }), stamp);
            &&& app.sessions[i].session_id != session_id ==> out.sessions.contains(app.sessions[i])
            &&& forall|k: int|
                0 <= k < out.sessions.len() ==> (#[trigger] out.sessions[k]).session_id
                    != session_id && app.sessions.contains(out.sessions[k])
            &&& app.active_session != Some(session_id) ==> out.active_session == app.active_session
            &&& app.active_session == Some(session_id) ==> out.active_session is None
            &&& out.workspaces == app.workspaces
        }),
{
    reveal(AppView::with_sessions);
    reveal(AppView::with_active_session);
    reveal(AppView::with_row_cache);
    let p = crate::app::sidebar::not_session(session_id);
    let kept = app.sessions.filter(p);
    let left = app.listing(kept);
    lemma_kept(left);
    lemma_kept(left.with_active_session(None).invalidated());
    if app.sessions[i].session_id != session_id {
        assert(p(app.sessions[i]));
        app.sessions.lemma_filter_contains(p, i);
    }
    assert forall|k: int| 0 <= k < kept.len() implies (#[trigger] kept[k]).session_id != session_id
        && app.sessions.contains(kept[k]) by {
        lemma_filtered(app.sessions, p, k);
    }
}

proof fn lemma_filtered<T>(s: Seq<T>, p: spec_fn(T) -> bool, k: int)
    requires
        0 <= k < s.filter(p).len(),
    ensures
        p(s.filter(p)[k]),
        s.contains(s.filter(p)[k]),
    decreases s.len(),
{
    reveal(Seq::filter);
    if s.len() > 0 {
        let front = s.drop_last();
        if k < front.filter(p).len() {
            lemma_filtered(front, p, k);
            let x = front.filter(p)[k];
            let i = choose|i: int| 0 <= i < front.len() && front[i] == x;
            assert(s[i] == x);
        } else {
            assert(s[s.len() - 1] == s.last());
        }
    }
}

/// The status of a session that the host tells is that of its row, and of no other.
pub proof fn law_session_status(app: AppView, session_id: Seq<char>, running: bool, stamp: u64, i: int)
    requires
        0 <= i < app.sessions.len(),
        forall|a: int, b: int|
            0 <= a < b < app.sessions.len() ==> (#[trigger] app.sessions[a]).session_id != (
            #[trigger] app.sessions[b]).session_id,
    ensures
        ({
            let out = app.hosted(
                (HostFrameView::HostSessionStatus { session_id, running }),
                stamp,
            ).sessions;
            &&& out.len() == app.sessions.len()
            &&& app.sessions[i].session_id == session_id ==> out[i].running == running
            &&& app.sessions[i].session_id != session_id ==> out[i] == app.sessions[i]
        }),
{
    reveal(AppView::with_sessions);
    crate::app::list_laws::law_status_is_local(app.sessions, session_id, running, i);
    lemma_kept(app.listing(crate::app::sidebar::with_status(app.sessions, session_id, running)));
}

/// A workspace that changed takes the place of the one with its id; one that is new comes last.
/// The other workspaces stay as they are.
pub proof fn law_workspace_changed(app: AppView, workspace: WorkspaceViewView, stamp: u64, i: int)
    requires
        0 <= i < app.workspaces.len(),
    ensures
        ({
            let out = app.hosted((HostFrameView::HostWorkspaceChanged { workspace }), stamp).workspaces;
            &&& app.workspaces[i].workspace_id != workspace.workspace_id ==> i < out.len() && out[i]
                == app.workspaces[i]
            &&& out.contains(workspace)
            &&& crate::app::list_laws::is_workspace(app.workspaces, workspace.workspace_id)
                ==> out.len() == app.workspaces.len()
            &&& !crate::app::list_laws::is_workspace(app.workspaces, workspace.workspace_id)
                ==> out == app.workspaces.push(workspace)
        }),
{
    reveal(AppView::with_workspaces);
    let p = crate::app::groups::of_workspace(workspace.workspace_id);
    crate::seqs::lemma_first_index_holds(app.workspaces, p);
    let at = crate::app::groups::workspace_index(app.workspaces, workspace.workspace_id);
    let list = crate::app::host::with_workspace(app.workspaces, workspace);
    lemma_kept(app.with_workspaces(list));
    if at < app.workspaces.len() {
        assert(p(app.workspaces[at]));
        assert(app.workspaces[at].workspace_id == workspace.workspace_id);
        assert(list[at] == workspace);
    } else {
        if crate::app::list_laws::is_workspace(app.workspaces, workspace.workspace_id) {
            let w = choose|w: int|
                0 <= w < app.workspaces.len() && (#[trigger] app.workspaces[w]).workspace_id
                    == workspace.workspace_id;
            assert(p(app.workspaces[w]));
        }
        assert(list[list.len() - 1] == workspace);
    }
}

/// The order of the workspaces and the archive are what the host last said.
pub proof fn law_order_and_archive(app: AppView, ids: Seq<Seq<char>>, stamp: u64)
    ensures
        app.hosted(
            (HostFrameView::HostWorkspaceOrderChanged { workspace_ids: ids }),
            stamp,
        ).workspace_order == ids,
        app.hosted(
            (HostFrameView::HostArchivedSessionsChanged { archived_session_ids: ids }),
            stamp,
        ).archived_session_ids == ids,
{
    reveal(AppView::with_workspace_order);
    reveal(AppView::with_archived_session_ids);
    lemma_kept(app.with_workspace_order(ids));
    lemma_kept(app.with_archived_session_ids(ids));
}

/// A session that was renamed is shown by the title that the gateway settled on, and no other
/// row changes; the next change may then be asked for.
pub proof fn law_rename_shown(app: AppView, id: Seq<char>, value: crate::app::host::RenamedView, i: int)
    requires
        0 <= i < app.sessions.len(),
    ensures
        ({
            let out = app.after_rename(id, Ok(value));
            &&& out.sessions.len() == app.sessions.len()
            &&& app.sessions[i].session_id != id ==> out.sessions[i] == app.sessions[i]
            &&& app.sessions[i].session_id == id && (forall|k: int|
                0 <= k < i ==> (#[trigger] app.sessions[k]).session_id != id)
                ==> crate::app::sidebar::shown_title(out.sessions[i]) == value.title
            &&& !out.sidebar_action_sending
        }),
{
    reveal(AppView::with_sessions);
    reveal(AppView::with_sidebar_action_sending);
    reveal(AppView::with_toast);
    let p = crate::app::sidebar::of_session(id);
    crate::seqs::lemma_first_index_holds(app.sessions, p);
    let at = crate::app::sidebar::session_index(app.sessions, id);
    if at < app.sessions.len() {
        assert(p(app.sessions[at]));
        assert(app.sessions[at].session_id == id);
    }
    if app.sessions[i].session_id == id && (forall|k: int|
        0 <= k < i ==> (#[trigger] app.sessions[k]).session_id != id) {
        assert(p(app.sessions[i]));
        assert forall|k: int| 0 <= k < i implies !#[trigger] p(app.sessions[k]) by {}
        crate::seqs::lemma_first_index(app.sessions, p, i);
        crate::app::sidebar::law_title_read_back(app.sessions[i], value.title, value.seq);
    }
}

/// The model of the session on the screen is what the gateway says of that session.
pub proof fn law_models_told(app: AppView, id: Seq<char>, model: ModelSelectionView)
    ensures
        app.active_session == Some(id) ==> app.after_models(id, Ok(model)).session_model == Some(
            model,
        ),
        app.active_session != Some(id) ==> app.after_models(id, Ok(model)) == app,
{
    reveal(AppView::with_session_model);
}

/// The skills at hand are those that the gateway listed last; a listing that failed keeps those
/// that were there. Either way another listing may be asked for.
pub proof fn law_catalog_told(app: AppView, skills: Seq<SkillEntryView>, error: ClientErrorView)
    ensures
        ({
            let out = app.after_catalog(Ok(skills));
            &&& out.at_catalog is Some
            &&& out.at_catalog->0.skills == skills
            &&& !out.at_catalog->0.loading
        }),
        ({
            let out = app.after_catalog(Err(error));
            &&& out.at_catalog is Some
            &&& !out.at_catalog->0.loading
            &&& app.at_catalog is Some ==> out.at_catalog->0.skills == app.at_catalog->0.skills
        }),
{
    reveal(AppView::with_at_catalog);
    reveal(AppView::with_toast);
}

/// Once a change of the queue was answered, the next may be asked for, whether it failed or not.
pub proof fn law_queue_answered(
    app: AppView,
    kind: crate::app::state::QueueActionKind,
    failure: Option<ClientErrorView>,
)
    ensures
        !app.after_queue_action(kind, failure).queue_action_sending,
        app.after_queue_action(kind, failure).store == app.store,
{
    reveal(AppView::with_queue_action_sending);
    reveal(AppView::with_toast);
}

/// Settings that were saved close the view; settings that could not be keep it open, with what
/// was changed, ready for another try.
pub proof fn law_save_answered(app: AppView, ns: Seq<char>, value: crate::json::JsonView, error: ClientErrorView)
    requires
        app.mode is Settings,
        !crate::app::outcomes::is_conflict(error),
    ensures
        app.after_save(ns, Ok(value)).0.mode is Chat,
        ({
            let out = app.after_save(ns, Err(error)).0;
            &&& out.mode is Settings
            &&& !out.mode->Settings_0.saving
            &&& out.mode->Settings_0.sections == app.mode->Settings_0.sections
        }),
{
    reveal(AppView::with_mode);
    reveal(AppView::with_hint);
    reveal(AppView::with_toast);
}

} // verus!
