//! Wire values that the conversation store reads.

use vstd::prelude::*;

use crate::json::{Json, JsonView};
use crate::text::{duplicate_all, duplicate_opt, Duplicate};

verus! {

/// A durable image attachment, by reference.
#[derive(Debug, PartialEq)]
pub struct ImageAttachmentRef {
    pub attachment_id: String,
    pub name: Option<String>,
}

/// What a [`ImageAttachmentRef`] stands for.
pub struct ImageAttachmentRefView {
    pub attachment_id: Seq<char>,
    pub name: Option<Seq<char>>,
}

impl View for ImageAttachmentRef {
    type V = ImageAttachmentRefView;

    open spec fn view(&self) -> ImageAttachmentRefView {
        ImageAttachmentRefView {
            attachment_id: self.attachment_id@,
            name: crate::text::opt_view(self.name),
        }
    }
}

impl Duplicate for ImageAttachmentRef {
    fn duplicate(&self) -> (r: Self) {
        ImageAttachmentRef {
            attachment_id: self.attachment_id.clone(),
            name: duplicate_opt(&self.name),
        }
    }
}

impl Clone for ImageAttachmentRef {
    fn clone(&self) -> (r: Self)
        ensures
            r@ == self@,
    {
        self.duplicate()
    }
}

/// How the gateway wants a tool event shown: for the call or for the result.
#[derive(Debug, PartialEq)]
pub enum ToolEventView {
    Call { view: Json },
    Result { view: Json },
}

/// What a [`ToolEventView`] stands for.
pub enum ToolEventViewView {
    Call { view: JsonView },
    Result { view: JsonView },
}

impl View for ToolEventView {
    type V = ToolEventViewView;

    open spec fn view(&self) -> ToolEventViewView {
        match *self {
            ToolEventView::Call { view } => ToolEventViewView::Call {
                view: view@,
            },
            ToolEventView::Result { view } => ToolEventViewView::Result {
                view: view@,
            },
        }
    }
}

impl Duplicate for ToolEventView {
    fn duplicate(&self) -> (r: Self) {
        match self {
            ToolEventView::Call { view } => ToolEventView::Call {
                view: view.duplicate(),
            },
            ToolEventView::Result { view } => ToolEventView::Result {
                view: view.duplicate(),
            },
        }
    }
}

impl Clone for ToolEventView {
    fn clone(&self) -> (r: Self)
        ensures
            r@ == self@,
    {
        self.duplicate()
    }
}

/// One session event as it arrives on the wire.
#[derive(Debug, PartialEq)]
pub struct SessionEvent {
    pub seq: i64,
    /// The event type name (`turn/start`, `user/message`, ...).
    pub kind: String,
    /// The wall-clock stamp: the bit pattern of the seconds on the wire.
    pub time: u64,
    pub data: Json,
    pub surface_op: Option<Json>,
    pub ignorable: Option<bool>,
}

/// What a [`SessionEvent`] stands for.
pub struct SessionEventView {
    pub seq: i64,
    pub kind: Seq<char>,
    pub time: u64,
    pub data: JsonView,
    pub surface_op: Option<JsonView>,
    pub ignorable: Option<bool>,
}

impl View for SessionEvent {
    type V = SessionEventView;

    open spec fn view(&self) -> SessionEventView {
        SessionEventView {
            seq: self.seq,
            kind: self.kind@,
            time: self.time,
            data: self.data@,
            surface_op: crate::text::opt_view(self.surface_op),
            ignorable: self.ignorable,
        }
    }
}

impl Duplicate for SessionEvent {
    fn duplicate(&self) -> (r: Self) {
        SessionEvent {
            seq: self.seq,
            kind: self.kind.clone(),
            time: self.time,
            data: self.data.duplicate(),
            surface_op: duplicate_opt(&self.surface_op),
            ignorable: self.ignorable,
        }
    }
}

impl Clone for SessionEvent {
    fn clone(&self) -> (r: Self)
        ensures
            r@ == self@,
    {
        self.duplicate()
    }
}

/// The id of a session.
#[derive(Debug, PartialEq, Eq, Hash)]
pub struct SessionId(pub String);

/// It stands for its text.
pub type SessionIdView = Seq<char>;

impl View for SessionId {
    type V = SessionIdView;

    open spec fn view(&self) -> SessionIdView {
        self.0@
    }
}

impl Duplicate for SessionId {
    fn duplicate(&self) -> (r: Self) {
        SessionId(self.0.clone())
    }
}

impl Clone for SessionId {
    fn clone(&self) -> (r: Self)
        ensures
            r@ == self@,
    {
        self.duplicate()
    }
}

/// The id of an RPC envelope: the answer to a frame echoes it.
#[derive(Debug, PartialEq, Eq, Hash)]
pub struct RpcId(pub String);

/// It stands for its text.
pub type RpcIdView = Seq<char>;

impl View for RpcId {
    type V = RpcIdView;

    open spec fn view(&self) -> RpcIdView {
        self.0@
    }
}

impl Duplicate for RpcId {
    fn duplicate(&self) -> (r: Self) {
        RpcId(self.0.clone())
    }
}

impl Clone for RpcId {
    fn clone(&self) -> (r: Self)
        ensures
            r@ == self@,
    {
        self.duplicate()
    }
}

/// The id of an approval request.
#[derive(Debug, PartialEq, Eq, Hash)]
pub struct ApprovalRequestId(pub String);

/// It stands for its text.
pub type ApprovalRequestIdView = Seq<char>;

impl View for ApprovalRequestId {
    type V = ApprovalRequestIdView;

    open spec fn view(&self) -> ApprovalRequestIdView {
        self.0@
    }
}

impl Duplicate for ApprovalRequestId {
    fn duplicate(&self) -> (r: Self) {
        ApprovalRequestId(self.0.clone())
    }
}

impl Clone for ApprovalRequestId {
    fn clone(&self) -> (r: Self)
        ensures
            r@ == self@,
    {
        self.duplicate()
    }
}

/// The branches of an RPC error.
#[derive(Debug, Clone, Copy, PartialEq, Eq, Structural)]
pub enum RpcErrorKind {
    BadRequest,
    Cancelled,
    SessionNotFound,
    ModelUnavailable,
    SessionConflict,
    InvalidTimeZone,
    WorkspaceAttachFailed,
    WorkspaceNotFound,
    WorkspaceInvalidPath,
    WorkspaceNameConflict,
    WorkspaceMoveInvalid,
    DirectoryUnreadable,
    DirectoryExists,
    DirectoryCreateFailed,
    DirectoryPickerUnavailable,
    AgentPresetReadOnly,
    AgentPresetLocked,
    AgentPresetConflict,
    AgentPresetNotFound,
    AgentPresetInvalid,
    AgentBusy,
    AttachmentError,
    QueueItemNotFound,
    SteerUnavailable,
    CommandError,
    UnknownCommand,
    SettingsRejected,
    SettingsNotExposed,
    SettingsConflict,
    CredentialRejected,
    ModelDiscoveryFailed,
    TitleInvalid,
    ForkUnavailable,
    SubagentParentUnavailable,
    SubagentNotFound,
    SubagentCatalogDiagnostic,
    SubagentNotResumable,
    SubagentUnauthorized,
    SubagentDeliveryUnavailable,
    Internal,
}

/// The code of an error branch on the wire.
pub open spec fn rpc_code(kind: RpcErrorKind) -> Seq<char> {
    match kind {
        RpcErrorKind::BadRequest => "bad-request"@,
        RpcErrorKind::Cancelled => "cancelled"@,
        RpcErrorKind::SessionNotFound => "session-not-found"@,
        RpcErrorKind::ModelUnavailable => "model-unavailable"@,
        RpcErrorKind::SessionConflict => "session-conflict"@,
        RpcErrorKind::InvalidTimeZone => "invalid-time-zone"@,
        RpcErrorKind::WorkspaceAttachFailed => "workspace-attach-failed"@,
        RpcErrorKind::WorkspaceNotFound => "workspace-not-found"@,
        RpcErrorKind::WorkspaceInvalidPath => "workspace-invalid-path"@,
        RpcErrorKind::WorkspaceNameConflict => "workspace-name-conflict"@,
        RpcErrorKind::WorkspaceMoveInvalid => "workspace-move-invalid"@,
        RpcErrorKind::DirectoryUnreadable => "directory-unreadable"@,
        RpcErrorKind::DirectoryExists => "directory-exists"@,
        RpcErrorKind::DirectoryCreateFailed => "directory-create-failed"@,
        RpcErrorKind::DirectoryPickerUnavailable => "directory-picker-unavailable"@,
        RpcErrorKind::AgentPresetReadOnly => "agent-preset-read-only"@,
        RpcErrorKind::AgentPresetLocked => "agent-preset-locked"@,
        RpcErrorKind::AgentPresetConflict => "agent-preset-conflict"@,
        RpcErrorKind::AgentPresetNotFound => "agent-preset-not-found"@,
        RpcErrorKind::AgentPresetInvalid => "agent-preset-invalid"@,
        RpcErrorKind::AgentBusy => "agent-busy"@,
        RpcErrorKind::AttachmentError => "attachment-error"@,
        RpcErrorKind::QueueItemNotFound => "queue-item-not-found"@,
        RpcErrorKind::SteerUnavailable => "steer-unavailable"@,
        RpcErrorKind::CommandError => "command-error"@,
        RpcErrorKind::UnknownCommand => "unknown-command"@,
        RpcErrorKind::SettingsRejected => "settings-rejected"@,
        RpcErrorKind::SettingsNotExposed => "settings-not-exposed"@,
        RpcErrorKind::SettingsConflict => "settings-conflict"@,
        RpcErrorKind::CredentialRejected => "credential-rejected"@,
        RpcErrorKind::ModelDiscoveryFailed => "model-discovery-failed"@,
        RpcErrorKind::TitleInvalid => "title-invalid"@,
        RpcErrorKind::ForkUnavailable => "fork-unavailable"@,
        RpcErrorKind::SubagentParentUnavailable => "subagent-parent-unavailable"@,
        RpcErrorKind::SubagentNotFound => "subagent-not-found"@,
        RpcErrorKind::SubagentCatalogDiagnostic => "subagent-catalog-diagnostic"@,
        RpcErrorKind::SubagentNotResumable => "subagent-not-resumable"@,
        RpcErrorKind::SubagentUnauthorized => "subagent-unauthorized"@,
        RpcErrorKind::SubagentDeliveryUnavailable => "subagent-delivery-unavailable"@,
        RpcErrorKind::Internal => "internal"@,
    }
}

impl RpcErrorKind {
    /// The code of the branch on the wire.
    pub fn code(self) -> (r: &'static str)
        ensures
            r@ == rpc_code(self),
    {
        match self {
            RpcErrorKind::BadRequest => "bad-request",
            RpcErrorKind::Cancelled => "cancelled",
            RpcErrorKind::SessionNotFound => "session-not-found",
            RpcErrorKind::ModelUnavailable => "model-unavailable",
            RpcErrorKind::SessionConflict => "session-conflict",
            RpcErrorKind::InvalidTimeZone => "invalid-time-zone",
            RpcErrorKind::WorkspaceAttachFailed => "workspace-attach-failed",
            RpcErrorKind::WorkspaceNotFound => "workspace-not-found",
            RpcErrorKind::WorkspaceInvalidPath => "workspace-invalid-path",
            RpcErrorKind::WorkspaceNameConflict => "workspace-name-conflict",
            RpcErrorKind::WorkspaceMoveInvalid => "workspace-move-invalid",
            RpcErrorKind::DirectoryUnreadable => "directory-unreadable",
            RpcErrorKind::DirectoryExists => "directory-exists",
            RpcErrorKind::DirectoryCreateFailed => "directory-create-failed",
            RpcErrorKind::DirectoryPickerUnavailable => "directory-picker-unavailable",
            RpcErrorKind::AgentPresetReadOnly => "agent-preset-read-only",
            RpcErrorKind::AgentPresetLocked => "agent-preset-locked",
            RpcErrorKind::AgentPresetConflict => "agent-preset-conflict",
            RpcErrorKind::AgentPresetNotFound => "agent-preset-not-found",
            RpcErrorKind::AgentPresetInvalid => "agent-preset-invalid",
            RpcErrorKind::AgentBusy => "agent-busy",
            RpcErrorKind::AttachmentError => "attachment-error",
            RpcErrorKind::QueueItemNotFound => "queue-item-not-found",
            RpcErrorKind::SteerUnavailable => "steer-unavailable",
            RpcErrorKind::CommandError => "command-error",
            RpcErrorKind::UnknownCommand => "unknown-command",
            RpcErrorKind::SettingsRejected => "settings-rejected",
            RpcErrorKind::SettingsNotExposed => "settings-not-exposed",
            RpcErrorKind::SettingsConflict => "settings-conflict",
            RpcErrorKind::CredentialRejected => "credential-rejected",
            RpcErrorKind::ModelDiscoveryFailed => "model-discovery-failed",
            RpcErrorKind::TitleInvalid => "title-invalid",
            RpcErrorKind::ForkUnavailable => "fork-unavailable",
            RpcErrorKind::SubagentParentUnavailable => "subagent-parent-unavailable",
            RpcErrorKind::SubagentNotFound => "subagent-not-found",
            RpcErrorKind::SubagentCatalogDiagnostic => "subagent-catalog-diagnostic",
            RpcErrorKind::SubagentNotResumable => "subagent-not-resumable",
            RpcErrorKind::SubagentUnauthorized => "subagent-unauthorized",
            RpcErrorKind::SubagentDeliveryUnavailable => "subagent-delivery-unavailable",
            RpcErrorKind::Internal => "internal",
        }
    }
}

/// An RPC error: its branch and its message.
#[derive(Debug, PartialEq)]
pub struct RpcError {
    pub kind: RpcErrorKind,
    pub message: String,
}

/// What a [`RpcError`] stands for.
pub struct RpcErrorView {
    pub kind: RpcErrorKind,
    pub message: Seq<char>,
}

impl View for RpcError {
    type V = RpcErrorView;

    open spec fn view(&self) -> RpcErrorView {
        RpcErrorView {
            kind: self.kind,
            message: self.message@,
        }
    }
}

impl Duplicate for RpcError {
    fn duplicate(&self) -> (r: Self) {
        RpcError {
            kind: self.kind,
            message: self.message.clone(),
        }
    }
}

impl Clone for RpcError {
    fn clone(&self) -> (r: Self)
        ensures
            r@ == self@,
    {
        self.duplicate()
    }
}

/// Where a queue item stands: only a queued one is the user's to change.
#[derive(Debug, Clone, Copy, PartialEq, Eq, Structural)]
pub enum QueuePlacement {
    Queued,
    Steering,
    Context,
}

/// One item of a session queue: its id, where it stands and the texts of its message.
#[derive(Debug, PartialEq)]
pub struct QueueItem {
    pub id: String,
    pub placement: QueuePlacement,
    pub texts: Vec<String>,
}

/// What a [`QueueItem`] stands for.
pub struct QueueItemView {
    pub id: Seq<char>,
    pub placement: QueuePlacement,
    pub texts: Seq<Seq<char>>,
}

impl View for QueueItem {
    type V = QueueItemView;

    open spec fn view(&self) -> QueueItemView {
        QueueItemView {
            id: self.id@,
            placement: self.placement,
            texts: crate::text::views(self.texts@),
        }
    }
}

impl Duplicate for QueueItem {
    fn duplicate(&self) -> (r: Self) {
        QueueItem {
            id: self.id.clone(),
            placement: self.placement,
            texts: duplicate_all(&self.texts),
        }
    }
}

impl Clone for QueueItem {
    fn clone(&self) -> (r: Self)
        ensures
            r@ == self@,
    {
        self.duplicate()
    }
}

/// One question of a question frame: the labels of its options, and whether several of them
/// may be chosen.
#[derive(Debug, PartialEq)]
pub struct AskUserQuestionItem {
    pub id: String,
    pub options: Vec<String>,
    pub multi: bool,
    pub body: Json,
}

/// What a [`AskUserQuestionItem`] stands for.
pub struct AskUserQuestionItemView {
    pub id: Seq<char>,
    pub options: Seq<Seq<char>>,
    pub multi: bool,
    pub body: JsonView,
}

impl View for AskUserQuestionItem {
    type V = AskUserQuestionItemView;

    open spec fn view(&self) -> AskUserQuestionItemView {
        AskUserQuestionItemView {
            id: self.id@,
            options: crate::text::views(self.options@),
            multi: self.multi,
            body: self.body@,
        }
    }
}

impl Duplicate for AskUserQuestionItem {
    fn duplicate(&self) -> (r: Self) {
        AskUserQuestionItem {
            id: self.id.clone(),
            options: duplicate_all(&self.options),
            multi: self.multi,
            body: self.body.duplicate(),
        }
    }
}

impl Clone for AskUserQuestionItem {
    fn clone(&self) -> (r: Self)
        ensures
            r@ == self@,
    {
        self.duplicate()
    }
}

/// How an approval was resolved.
#[derive(Debug, Clone, Copy, PartialEq, Eq, Structural)]
pub enum ApprovalOutcome {
    AllowedOnce,
    Rejected,
    Cancelled,
    Unavailable,
}

/// How a question was resolved.
#[derive(Debug, Clone, Copy, PartialEq, Eq, Structural)]
pub enum QuestionOutcome {
    Answered,
    Cancelled,
}

/// One frame of the mux downlink.
#[derive(Debug, PartialEq)]
pub enum MuxFrame {
    SessionEvent { session_id: SessionId, event: SessionEvent, view: Option<ToolEventView> },
    SessionSubscribed { session_id: SessionId, last_seq: i64 },
    SessionProjection { session_id: SessionId, key: String, value: Json, seq: i64 },
    SessionQueue { session_id: SessionId, items: Vec<QueueItem> },
    StreamError { error: RpcError },
    ApprovalRequested { session_id: SessionId, approval_id: ApprovalRequestId, tool_name: String, call_id: Option<String>, reason: Option<String> },
    QuestionRequested { session_id: SessionId, questions: Vec<AskUserQuestionItem> },
    ApprovalResolved { session_id: SessionId, approval_id: ApprovalRequestId, outcome: ApprovalOutcome },
    QuestionResolved { session_id: SessionId, question_rpc_id: RpcId, outcome: QuestionOutcome },
    /// A frame that leaves no trace in the store.
    Other,
}

/// What a [`MuxFrame`] stands for.
pub enum MuxFrameView {
    SessionEvent { session_id: SessionIdView, event: SessionEventView, view: Option<ToolEventViewView> },
    SessionSubscribed { session_id: SessionIdView, last_seq: i64 },
    SessionProjection { session_id: SessionIdView, key: Seq<char>, value: JsonView, seq: i64 },
    SessionQueue { session_id: SessionIdView, items: Seq<QueueItemView> },
    StreamError { error: RpcErrorView },
    ApprovalRequested { session_id: SessionIdView, approval_id: ApprovalRequestIdView, tool_name: Seq<char>, call_id: Option<Seq<char>>, reason: Option<Seq<char>> },
    QuestionRequested { session_id: SessionIdView, questions: Seq<AskUserQuestionItemView> },
    ApprovalResolved { session_id: SessionIdView, approval_id: ApprovalRequestIdView, outcome: ApprovalOutcome },
    QuestionResolved { session_id: SessionIdView, question_rpc_id: RpcIdView, outcome: QuestionOutcome },
    Other,
}

impl View for MuxFrame {
    type V = MuxFrameView;

    open spec fn view(&self) -> MuxFrameView {
        match *self {
            MuxFrame::SessionEvent { session_id, event, view } => MuxFrameView::SessionEvent {
                session_id: session_id@,
                event: event@,
                view: crate::text::opt_view(view),
            },
            MuxFrame::SessionSubscribed { session_id, last_seq } => MuxFrameView::SessionSubscribed {
                session_id: session_id@,
                last_seq,
            },
            MuxFrame::SessionProjection { session_id, key, value, seq } => MuxFrameView::SessionProjection {
                session_id: session_id@,
                key: key@,
                value: value@,
                seq,
            },
            MuxFrame::SessionQueue { session_id, items } => MuxFrameView::SessionQueue {
                session_id: session_id@,
                items: crate::text::views(items@),
            },
            MuxFrame::StreamError { error } => MuxFrameView::StreamError {
                error: error@,
            },
            MuxFrame::ApprovalRequested { session_id, approval_id, tool_name, call_id, reason } => MuxFrameView::ApprovalRequested {
                session_id: session_id@,
                approval_id: approval_id@,
                tool_name: tool_name@,
                call_id: crate::text::opt_view(call_id),
                reason: crate::text::opt_view(reason),
            },
            MuxFrame::QuestionRequested { session_id, questions } => MuxFrameView::QuestionRequested {
                session_id: session_id@,
                questions: crate::text::views(questions@),
            },
            MuxFrame::ApprovalResolved { session_id, approval_id, outcome } => MuxFrameView::ApprovalResolved {
                session_id: session_id@,
                approval_id: approval_id@,
                outcome,
            },
            MuxFrame::QuestionResolved { session_id, question_rpc_id, outcome } => MuxFrameView::QuestionResolved {
                session_id: session_id@,
                question_rpc_id: question_rpc_id@,
                outcome,
            },
            MuxFrame::Other => MuxFrameView::Other,
        }
    }
}

impl Duplicate for MuxFrame {
    fn duplicate(&self) -> (r: Self) {
        match self {
            MuxFrame::SessionEvent { session_id, event, view } => MuxFrame::SessionEvent {
                session_id: session_id.duplicate(),
                event: event.duplicate(),
                view: duplicate_opt(view),
            },
            MuxFrame::SessionSubscribed { session_id, last_seq } => MuxFrame::SessionSubscribed {
                session_id: session_id.duplicate(),
                last_seq: *last_seq,
            },
            MuxFrame::SessionProjection { session_id, key, value, seq } => MuxFrame::SessionProjection {
                session_id: session_id.duplicate(),
                key: key.clone(),
                value: value.duplicate(),
                seq: *seq,
            },
            MuxFrame::SessionQueue { session_id, items } => MuxFrame::SessionQueue {
                session_id: session_id.duplicate(),
                items: duplicate_all(items),
            },
            MuxFrame::StreamError { error } => MuxFrame::StreamError {
                error: error.duplicate(),
            },
            MuxFrame::ApprovalRequested { session_id, approval_id, tool_name, call_id, reason } => MuxFrame::ApprovalRequested {
                session_id: session_id.duplicate(),
                approval_id: approval_id.duplicate(),
                tool_name: tool_name.clone(),
                call_id: duplicate_opt(call_id),
                reason: duplicate_opt(reason),
            },
            MuxFrame::QuestionRequested { session_id, questions } => MuxFrame::QuestionRequested {
                session_id: session_id.duplicate(),
                questions: duplicate_all(questions),
            },
            MuxFrame::ApprovalResolved { session_id, approval_id, outcome } => MuxFrame::ApprovalResolved {
                session_id: session_id.duplicate(),
                approval_id: approval_id.duplicate(),
                outcome: *outcome,
            },
            MuxFrame::QuestionResolved { session_id, question_rpc_id, outcome } => MuxFrame::QuestionResolved {
                session_id: session_id.duplicate(),
                question_rpc_id: question_rpc_id.duplicate(),
                outcome: *outcome,
            },
            MuxFrame::Other => MuxFrame::Other,
        }
    }
}

impl Clone for MuxFrame {
    fn clone(&self) -> (r: Self)
        ensures
            r@ == self@,
    {
        self.duplicate()
    }
}

/// The id of a workspace.
#[derive(Debug, PartialEq, Eq, Hash)]
pub struct WorkspaceId(pub String);

/// It stands for its text.
pub type WorkspaceIdView = Seq<char>;

impl View for WorkspaceId {
    type V = WorkspaceIdView;

    open spec fn view(&self) -> WorkspaceIdView {
        self.0@
    }
}

impl Duplicate for WorkspaceId {
    fn duplicate(&self) -> (r: Self) {
        WorkspaceId(self.0.clone())
    }
}

impl Clone for WorkspaceId {
    fn clone(&self) -> (r: Self)
        ensures
            r@ == self@,
    {
        self.duplicate()
    }
}

/// The answer to an approval request.
#[derive(Debug, Clone, Copy, PartialEq, Eq, Structural)]
pub enum ApprovalResponseOutcome {
    AllowedOnce,
    Rejected,
}

/// One projected value of a session.
#[derive(Debug, PartialEq)]
pub struct Projection {
    pub key: String,
    pub value: Json,
}

/// What a [`Projection`] stands for.
pub struct ProjectionView {
    pub key: Seq<char>,
    pub value: JsonView,
}

impl View for Projection {
    type V = ProjectionView;

    open spec fn view(&self) -> ProjectionView {
        ProjectionView {
            key: self.key@,
            value: self.value@,
        }
    }
}

impl Duplicate for Projection {
    fn duplicate(&self) -> (r: Self) {
        Projection {
            key: self.key.clone(),
            value: self.value.duplicate(),
        }
    }
}

impl Clone for Projection {
    fn clone(&self) -> (r: Self)
        ensures
            r@ == self@,
    {
        self.duplicate()
    }
}

/// The projected values of a session, as of an event.
#[derive(Debug, PartialEq)]
pub struct Projections {
    pub as_of_seq: i64,
    pub values: Vec<Projection>,
}

/// What a [`Projections`] stands for.
pub struct ProjectionsView {
    pub as_of_seq: i64,
    pub values: Seq<ProjectionView>,
}

impl View for Projections {
    type V = ProjectionsView;

    open spec fn view(&self) -> ProjectionsView {
        ProjectionsView {
            as_of_seq: self.as_of_seq,
            values: crate::text::views(self.values@),
        }
    }
}

impl Duplicate for Projections {
    fn duplicate(&self) -> (r: Self) {
        Projections {
            as_of_seq: self.as_of_seq,
            values: duplicate_all(&self.values),
        }
    }
}

impl Clone for Projections {
    fn clone(&self) -> (r: Self)
        ensures
            r@ == self@,
    {
        self.duplicate()
    }
}

/// One row of the session list. `updated_at` orders the rows: the bit pattern of the seconds on
/// the wire, which for times since the epoch is ordered as they are.
#[derive(Debug, PartialEq)]
pub struct SessionSummary {
    pub session_id: SessionId,
    pub updated_at: u64,
    pub running: bool,
    pub blank: bool,
    pub parent_session_id: Option<SessionId>,
    pub origin: Option<Json>,
    pub cwd: Option<String>,
    pub agent_preset: Option<String>,
    pub projections: Option<Projections>,
}

/// What a [`SessionSummary`] stands for.
pub struct SessionSummaryView {
    pub session_id: SessionIdView,
    pub updated_at: u64,
    pub running: bool,
    pub blank: bool,
    pub parent_session_id: Option<SessionIdView>,
    pub origin: Option<JsonView>,
    pub cwd: Option<Seq<char>>,
    pub agent_preset: Option<Seq<char>>,
    pub projections: Option<ProjectionsView>,
}

impl View for SessionSummary {
    type V = SessionSummaryView;

    open spec fn view(&self) -> SessionSummaryView {
        SessionSummaryView {
            session_id: self.session_id@,
            updated_at: self.updated_at,
            running: self.running,
            blank: self.blank,
            parent_session_id: crate::text::opt_view(self.parent_session_id),
            origin: crate::text::opt_view(self.origin),
            cwd: crate::text::opt_view(self.cwd),
            agent_preset: crate::text::opt_view(self.agent_preset),
            projections: crate::text::opt_view(self.projections),
        }
    }
}

impl Duplicate for SessionSummary {
    fn duplicate(&self) -> (r: Self) {
        SessionSummary {
            session_id: self.session_id.duplicate(),
            updated_at: self.updated_at,
            running: self.running,
            blank: self.blank,
            parent_session_id: duplicate_opt(&self.parent_session_id),
            origin: duplicate_opt(&self.origin),
            cwd: duplicate_opt(&self.cwd),
            agent_preset: duplicate_opt(&self.agent_preset),
            projections: duplicate_opt(&self.projections),
        }
    }
}

impl Clone for SessionSummary {
    fn clone(&self) -> (r: Self)
        ensures
            r@ == self@,
    {
        self.duplicate()
    }
}

/// One workspace: its title and the sessions that it claims.
#[derive(Debug, PartialEq)]
pub struct WorkspaceView {
    pub workspace_id: WorkspaceId,
    pub title: String,
    pub session_ids: Vec<SessionId>,
}

/// What a [`WorkspaceView`] stands for.
pub struct WorkspaceViewView {
    pub workspace_id: WorkspaceIdView,
    pub title: Seq<char>,
    pub session_ids: Seq<SessionIdView>,
}

impl View for WorkspaceView {
    type V = WorkspaceViewView;

    open spec fn view(&self) -> WorkspaceViewView {
        WorkspaceViewView {
            workspace_id: self.workspace_id@,
            title: self.title@,
            session_ids: crate::text::views(self.session_ids@),
        }
    }
}

impl Duplicate for WorkspaceView {
    fn duplicate(&self) -> (r: Self) {
        WorkspaceView {
            workspace_id: self.workspace_id.duplicate(),
            title: self.title.clone(),
            session_ids: duplicate_all(&self.session_ids),
        }
    }
}

impl Clone for WorkspaceView {
    fn clone(&self) -> (r: Self)
        ensures
            r@ == self@,
    {
        self.duplicate()
    }
}

/// One result of a session search.
#[derive(Debug, PartialEq)]
pub struct SessionSearchItem {
    pub session_id: SessionId,
    pub title: String,
}

/// What a [`SessionSearchItem`] stands for.
pub struct SessionSearchItemView {
    pub session_id: SessionIdView,
    pub title: Seq<char>,
}

impl View for SessionSearchItem {
    type V = SessionSearchItemView;

    open spec fn view(&self) -> SessionSearchItemView {
        SessionSearchItemView {
            session_id: self.session_id@,
            title: self.title@,
        }
    }
}

impl Duplicate for SessionSearchItem {
    fn duplicate(&self) -> (r: Self) {
        SessionSearchItem {
            session_id: self.session_id.duplicate(),
            title: self.title.clone(),
        }
    }
}

impl Clone for SessionSearchItem {
    fn clone(&self) -> (r: Self)
        ensures
            r@ == self@,
    {
        self.duplicate()
    }
}

/// One skill of the catalog.
#[derive(Debug, PartialEq)]
pub struct SkillEntry {
    pub name: String,
    pub description: String,
}

/// What a [`SkillEntry`] stands for.
pub struct SkillEntryView {
    pub name: Seq<char>,
    pub description: Seq<char>,
}

impl View for SkillEntry {
    type V = SkillEntryView;

    open spec fn view(&self) -> SkillEntryView {
        SkillEntryView {
            name: self.name@,
            description: self.description@,
        }
    }
}

impl Duplicate for SkillEntry {
    fn duplicate(&self) -> (r: Self) {
        SkillEntry {
            name: self.name.clone(),
            description: self.description.clone(),
        }
    }
}

impl Clone for SkillEntry {
    fn clone(&self) -> (r: Self)
        ensures
            r@ == self@,
    {
        self.duplicate()
    }
}

/// The model of a session, and how hard it thinks.
#[derive(Debug, PartialEq)]
pub struct ModelSelection {
    pub model: String,
    pub reasoning_effort: Option<String>,
}

/// What a [`ModelSelection`] stands for.
pub struct ModelSelectionView {
    pub model: Seq<char>,
    pub reasoning_effort: Option<Seq<char>>,
}

impl View for ModelSelection {
    type V = ModelSelectionView;

    open spec fn view(&self) -> ModelSelectionView {
        ModelSelectionView {
            model: self.model@,
            reasoning_effort: crate::text::opt_view(self.reasoning_effort),
        }
    }
}

impl Duplicate for ModelSelection {
    fn duplicate(&self) -> (r: Self) {
        ModelSelection {
            model: self.model.clone(),
            reasoning_effort: duplicate_opt(&self.reasoning_effort),
        }
    }
}

impl Clone for ModelSelection {
    fn clone(&self) -> (r: Self)
        ensures
            r@ == self@,
    {
        self.duplicate()
    }
}

/// One frame of the host downlink: what happens to the list of sessions.
#[derive(Debug, PartialEq)]
pub enum HostFrame {
    HostSessionAdded { session_id: SessionId, blank: bool, parent_session_id: Option<SessionId>, origin: Option<Json>, cwd: Option<String>, agent_preset: Option<String> },
    HostSessionRemoved { session_id: SessionId },
    HostSessionStatus { session_id: SessionId, running: bool },
    HostWorkspaceChanged { workspace: WorkspaceView },
    HostWorkspaceRemoved { workspace_id: WorkspaceId },
    HostWorkspaceOrderChanged { workspace_ids: Vec<WorkspaceId> },
    HostArchivedSessionsChanged { archived_session_ids: Vec<SessionId> },
    /// A frame without a place on the screen.
    Other,
}

/// What a [`HostFrame`] stands for.
pub enum HostFrameView {
    HostSessionAdded { session_id: SessionIdView, blank: bool, parent_session_id: Option<SessionIdView>, origin: Option<JsonView>, cwd: Option<Seq<char>>, agent_preset: Option<Seq<char>> },
    HostSessionRemoved { session_id: SessionIdView },
    HostSessionStatus { session_id: SessionIdView, running: bool },
    HostWorkspaceChanged { workspace: WorkspaceViewView },
    HostWorkspaceRemoved { workspace_id: WorkspaceIdView },
    HostWorkspaceOrderChanged { workspace_ids: Seq<WorkspaceIdView> },
    HostArchivedSessionsChanged { archived_session_ids: Seq<SessionIdView> },
    Other,
}

impl View for HostFrame {
    type V = HostFrameView;

    open spec fn view(&self) -> HostFrameView {
        match *self {
            HostFrame::HostSessionAdded { session_id, blank, parent_session_id, origin, cwd, agent_preset } => HostFrameView::HostSessionAdded {
                session_id: session_id@,
                blank,
                parent_session_id: crate::text::opt_view(parent_session_id),
                origin: crate::text::opt_view(origin),
                cwd: crate::text::opt_view(cwd),
                agent_preset: crate::text::opt_view(agent_preset),
            },
            HostFrame::HostSessionRemoved { session_id } => HostFrameView::HostSessionRemoved {
                session_id: session_id@,
            },
            HostFrame::HostSessionStatus { session_id, running } => HostFrameView::HostSessionStatus {
                session_id: session_id@,
                running,
            },
            HostFrame::HostWorkspaceChanged { workspace } => HostFrameView::HostWorkspaceChanged {
                workspace: workspace@,
            },
            HostFrame::HostWorkspaceRemoved { workspace_id } => HostFrameView::HostWorkspaceRemoved {
                workspace_id: workspace_id@,
            },
            HostFrame::HostWorkspaceOrderChanged { workspace_ids } => HostFrameView::HostWorkspaceOrderChanged {
                workspace_ids: crate::text::views(workspace_ids@),
            },
            HostFrame::HostArchivedSessionsChanged { archived_session_ids } => HostFrameView::HostArchivedSessionsChanged {
                archived_session_ids: crate::text::views(archived_session_ids@),
            },
            HostFrame::Other => HostFrameView::Other,
        }
    }
}

impl Duplicate for HostFrame {
    fn duplicate(&self) -> (r: Self) {
        match self {
            HostFrame::HostSessionAdded { session_id, blank, parent_session_id, origin, cwd, agent_preset } => HostFrame::HostSessionAdded {
                session_id: session_id.duplicate(),
                blank: *blank,
                parent_session_id: duplicate_opt(parent_session_id),
                origin: duplicate_opt(origin),
                cwd: duplicate_opt(cwd),
                agent_preset: duplicate_opt(agent_preset),
            },
            HostFrame::HostSessionRemoved { session_id } => HostFrame::HostSessionRemoved {
                session_id: session_id.duplicate(),
            },
            HostFrame::HostSessionStatus { session_id, running } => HostFrame::HostSessionStatus {
                session_id: session_id.duplicate(),
                running: *running,
            },
            HostFrame::HostWorkspaceChanged { workspace } => HostFrame::HostWorkspaceChanged {
                workspace: workspace.duplicate(),
            },
            HostFrame::HostWorkspaceRemoved { workspace_id } => HostFrame::HostWorkspaceRemoved {
                workspace_id: workspace_id.duplicate(),
            },
            HostFrame::HostWorkspaceOrderChanged { workspace_ids } => HostFrame::HostWorkspaceOrderChanged {
                workspace_ids: duplicate_all(workspace_ids),
            },
            HostFrame::HostArchivedSessionsChanged { archived_session_ids } => HostFrame::HostArchivedSessionsChanged {
                archived_session_ids: duplicate_all(archived_session_ids),
            },
            HostFrame::Other => HostFrame::Other,
        }
    }
}

impl Clone for HostFrame {
    fn clone(&self) -> (r: Self)
        ensures
            r@ == self@,
    {
        self.duplicate()
    }
}

} // verus!
