//! What the application asks of the gateway.

use vstd::prelude::*;

use crate::app::settings::{SettingsChange, SettingsChangeView};
use crate::app::takeover::{QuestionAnswerItem, QuestionAnswerItemView};
use crate::text::{duplicate_all, duplicate_opt, Duplicate};
use crate::wire::{
    ApprovalRequestId, ApprovalRequestIdView, ApprovalResponseOutcome, RpcId, RpcIdView, SessionId,
    SessionIdView, WorkspaceId, WorkspaceIdView,
};

verus! {

/// What is asked of a queue item.
#[derive(Debug)]
pub enum QueueUpdate {
    Remove,
    Steer,
    Edit { text: String },
}

/// What a [`QueueUpdate`] stands for.
#[verifier::ext_equal]
pub enum QueueUpdateView {
    Remove,
    Steer,
    Edit { text: Seq<char> },
}

impl View for QueueUpdate {
    type V = QueueUpdateView;

    open spec fn view(&self) -> QueueUpdateView {
        match *self {
            QueueUpdate::Remove => QueueUpdateView::Remove,
            QueueUpdate::Steer => QueueUpdateView::Steer,
            QueueUpdate::Edit { text } => QueueUpdateView::Edit {
                text: text@,
            },
        }
    }
}

impl Duplicate for QueueUpdate {
    fn duplicate(&self) -> (r: Self) {
        match self {
            QueueUpdate::Remove => QueueUpdate::Remove,
            QueueUpdate::Steer => QueueUpdate::Steer,
            QueueUpdate::Edit { text } => QueueUpdate::Edit {
                text: text.clone(),
            },
        }
    }
}

impl Clone for QueueUpdate {
    fn clone(&self) -> (r: Self)
        ensures
            r@ == self@,
    {
        self.duplicate()
    }
}

/// A request to the gateway. Its outcome comes back as an event.
#[derive(Debug)]
pub enum Command {
    Prompt { session_id: SessionId, text: String },
    RespondApproval { rpc_id: RpcId, session_id: SessionId, approval_id: ApprovalRequestId, outcome: ApprovalResponseOutcome },
    RespondQuestion { rpc_id: RpcId, session_id: SessionId, answers: Vec<QuestionAnswerItem> },
    CancelTurn { session_id: SessionId },
    DescribeSettings,
    UpdateSettings { ns: String, revision: i64, patch: Vec<SettingsChange> },
    History { session_id: SessionId, limit: i64 },
    Models { session_id: SessionId },
    UpdateQueue { session_id: SessionId, item_id: String, update: QueueUpdate },
    ListSkills { session_id: SessionId },
    RenameSession { session_id: SessionId, title: String },
    RenameWorkspace { workspace_id: WorkspaceId, title: String },
    DeleteWorkspace { workspace_id: WorkspaceId },
    CreateWorkspace { path: String },
    ForkSession { session_id: SessionId },
    ArchiveSession { session_id: SessionId },
    CreateSession { workspace_id: Option<WorkspaceId> },
    Search { query: String },
    Attachment { session_id: SessionId, attachment_id: String },
}

/// What a [`Command`] stands for.
#[verifier::ext_equal]
pub enum CommandView {
    Prompt { session_id: SessionIdView, text: Seq<char> },
    RespondApproval { rpc_id: RpcIdView, session_id: SessionIdView, approval_id: ApprovalRequestIdView, outcome: ApprovalResponseOutcome },
    RespondQuestion { rpc_id: RpcIdView, session_id: SessionIdView, answers: Seq<QuestionAnswerItemView> },
    CancelTurn { session_id: SessionIdView },
    DescribeSettings,
    UpdateSettings { ns: Seq<char>, revision: i64, patch: Seq<SettingsChangeView> },
    History { session_id: SessionIdView, limit: i64 },
    Models { session_id: SessionIdView },
    UpdateQueue { session_id: SessionIdView, item_id: Seq<char>, update: QueueUpdateView },
    ListSkills { session_id: SessionIdView },
    RenameSession { session_id: SessionIdView, title: Seq<char> },
    RenameWorkspace { workspace_id: WorkspaceIdView, title: Seq<char> },
    DeleteWorkspace { workspace_id: WorkspaceIdView },
    CreateWorkspace { path: Seq<char> },
    ForkSession { session_id: SessionIdView },
    ArchiveSession { session_id: SessionIdView },
    CreateSession { workspace_id: Option<WorkspaceIdView> },
    Search { query: Seq<char> },
    Attachment { session_id: SessionIdView, attachment_id: Seq<char> },
}

impl View for Command {
    type V = CommandView;

    open spec fn view(&self) -> CommandView {
        match *self {
            Command::Prompt { session_id, text } => CommandView::Prompt {
                session_id: session_id@,
                text: text@,
            },
            Command::RespondApproval { rpc_id, session_id, approval_id, outcome } => CommandView::RespondApproval {
                rpc_id: rpc_id@,
                session_id: session_id@,
                approval_id: approval_id@,
                outcome,
            },
            Command::RespondQuestion { rpc_id, session_id, answers } => CommandView::RespondQuestion {
                rpc_id: rpc_id@,
                session_id: session_id@,
                answers: crate::text::views(answers@),
            },
            Command::CancelTurn { session_id } => CommandView::CancelTurn {
                session_id: session_id@,
            },
            Command::DescribeSettings => CommandView::DescribeSettings,
            Command::UpdateSettings { ns, revision, patch } => CommandView::UpdateSettings {
                ns: ns@,
                revision,
                patch: crate::text::views(patch@),
            },
            Command::History { session_id, limit } => CommandView::History {
                session_id: session_id@,
                limit,
            },
            Command::Models { session_id } => CommandView::Models {
                session_id: session_id@,
            },
            Command::UpdateQueue { session_id, item_id, update } => CommandView::UpdateQueue {
                session_id: session_id@,
                item_id: item_id@,
                update: update@,
            },
            Command::ListSkills { session_id } => CommandView::ListSkills {
                session_id: session_id@,
            },
            Command::RenameSession { session_id, title } => CommandView::RenameSession {
                session_id: session_id@,
                title: title@,
            },
            Command::RenameWorkspace { workspace_id, title } => CommandView::RenameWorkspace {
                workspace_id: workspace_id@,
                title: title@,
            },
            Command::DeleteWorkspace { workspace_id } => CommandView::DeleteWorkspace {
                workspace_id: workspace_id@,
            },
            Command::CreateWorkspace { path } => CommandView::CreateWorkspace {
                path: path@,
            },
            Command::ForkSession { session_id } => CommandView::ForkSession {
                session_id: session_id@,
            },
            Command::ArchiveSession { session_id } => CommandView::ArchiveSession {
                session_id: session_id@,
            },
            Command::CreateSession { workspace_id } => CommandView::CreateSession {
                workspace_id: crate::text::opt_view(workspace_id),
            },
            Command::Search { query } => CommandView::Search {
                query: query@,
            },
            Command::Attachment { session_id, attachment_id } => CommandView::Attachment {
                session_id: session_id@,
                attachment_id: attachment_id@,
            },
        }
    }
}

impl Duplicate for Command {
    fn duplicate(&self) -> (r: Self) {
        match self {
            Command::Prompt { session_id, text } => Command::Prompt {
                session_id: session_id.duplicate(),
                text: text.clone(),
            },
            Command::RespondApproval { rpc_id, session_id, approval_id, outcome } => Command::RespondApproval {
                rpc_id: rpc_id.duplicate(),
                session_id: session_id.duplicate(),
                approval_id: approval_id.duplicate(),
                outcome: *outcome,
            },
            Command::RespondQuestion { rpc_id, session_id, answers } => Command::RespondQuestion {
                rpc_id: rpc_id.duplicate(),
                session_id: session_id.duplicate(),
                answers: duplicate_all(answers),
            },
            Command::CancelTurn { session_id } => Command::CancelTurn {
                session_id: session_id.duplicate(),
            },
            Command::DescribeSettings => Command::DescribeSettings,
            Command::UpdateSettings { ns, revision, patch } => Command::UpdateSettings {
                ns: ns.clone(),
                revision: *revision,
                patch: duplicate_all(patch),
            },
            Command::History { session_id, limit } => Command::History {
                session_id: session_id.duplicate(),
                limit: *limit,
            },
            Command::Models { session_id } => Command::Models {
                session_id: session_id.duplicate(),
            },
            Command::UpdateQueue { session_id, item_id, update } => Command::UpdateQueue {
                session_id: session_id.duplicate(),
                item_id: item_id.clone(),
                update: update.duplicate(),
            },
            Command::ListSkills { session_id } => Command::ListSkills {
                session_id: session_id.duplicate(),
            },
            Command::RenameSession { session_id, title } => Command::RenameSession {
                session_id: session_id.duplicate(),
                title: title.clone(),
            },
            Command::RenameWorkspace { workspace_id, title } => Command::RenameWorkspace {
                workspace_id: workspace_id.duplicate(),
                title: title.clone(),
            },
            Command::DeleteWorkspace { workspace_id } => Command::DeleteWorkspace {
                workspace_id: workspace_id.duplicate(),
            },
            Command::CreateWorkspace { path } => Command::CreateWorkspace {
                path: path.clone(),
            },
            Command::ForkSession { session_id } => Command::ForkSession {
                session_id: session_id.duplicate(),
            },
            Command::ArchiveSession { session_id } => Command::ArchiveSession {
                session_id: session_id.duplicate(),
            },
            Command::CreateSession { workspace_id } => Command::CreateSession {
                workspace_id: duplicate_opt(workspace_id),
            },
            Command::Search { query } => Command::Search {
                query: query.clone(),
            },
            Command::Attachment { session_id, attachment_id } => Command::Attachment {
                session_id: session_id.duplicate(),
                attachment_id: attachment_id.clone(),
            },
        }
    }
}

impl Clone for Command {
    fn clone(&self) -> (r: Self)
        ensures
            r@ == self@,
    {
        self.duplicate()
    }
}

} // verus!
