//! The state of the application.

use vstd::prelude::*;

use image::DynamicImage;

use crate::app::editor::{Composer, ComposerView, Editor, EditorView};
use crate::app::groups::SidebarState;
use crate::app::settings::{SettingsState, SettingsStateView};
use crate::app::takeover::{
    ApprovalTakeover, ApprovalTakeoverView, ImageViewer, ImageViewerView, QuestionTakeover,
    QuestionTakeoverView,
};
use crate::client::{ClientError, ClientErrorView};
use crate::i18n::{tr, trf, Locale, Strings, StringsView};
use crate::render::inline_image::ImageCache;
use crate::render::row_cache::{RowCache, RowCacheView};
use crate::store::session::SessionState;
use crate::store::{SessionStore, StoreError, StoreErrorView, StoreView};
use crate::table::Table;
use crate::text::{duplicate_all, duplicate_opt, joined, Duplicate};
use crate::theme::{Config, ConfigView, Theme, ThemePicker, ThemeRegistry, ThemeView};
use crate::wire::{
    ApprovalRequestId, ApprovalRequestIdView, ApprovalResponseOutcome, AskUserQuestionItem,
    AskUserQuestionItemView, ModelSelection, ModelSelectionView, RpcId, RpcIdView, SessionId,
    SessionIdView, SessionSearchItem, SessionSearchItemView, SessionSummary, SessionSummaryView,
    SkillEntry, SkillEntryView, WorkspaceId, WorkspaceIdView, WorkspaceView, WorkspaceViewView,
};

verus! {

/// How often the screen is drawn at most, in milliseconds.
pub const DRAW_INTERVAL_MS: u64 = 16;

/// How long a toast stays, in milliseconds.
pub const TOAST_TTL_MS: u64 = 3000;

/// How long the note of a copied text stays, in milliseconds.
pub const COPY_FLASH_TTL_MS: u64 = 2000;

/// Below this width the screen only says that it is too small.
pub const TOO_SMALL_WIDTH: u16 = 32;

/// Below this width the sidebar is a drawer.
pub const WIDE_WIDTH: u16 = 80;

/// Below this width the left half of the status line is hidden.
pub const HINT_WIDTH: u16 = 40;

/// Which surface has the keys. Tab goes from the chat to the composer, to the sidebar and back
/// to the chat.
#[derive(Debug, Clone, Copy, PartialEq, Eq, Structural)]
pub enum Focus {
    Chat,
    Composer,
    Sidebar,
}

/// What the chat area shows.
#[derive(Debug, Clone, Copy, PartialEq, Eq, Structural)]
pub enum ViewMode {
    Chat,
    Trajectory,
}

/// What part of the chat is on the screen.
#[derive(Debug, Clone, Copy, PartialEq, Eq, Structural)]
pub struct ViewState {
    /// The first line that is shown.
    pub offset: usize,
    /// Stay at the bottom as lines arrive.
    pub follow: bool,
    /// The height of the chat in rows.
    pub viewport_height: u16,
}

/// A cell of the chat's content: row 0 is its first row, column 0 its first column.
#[derive(Debug, Clone, Copy, PartialEq, Eq, Structural)]
pub struct CellPos {
    pub row: u16,
    pub col: u16,
}

/// A rectangle of cells.
#[derive(Debug, Clone, Copy, PartialEq, Eq, Structural)]
pub struct Area {
    pub x: u16,
    pub y: u16,
    pub width: u16,
    pub height: u16,
}

/// The new-session picker. While `sending`, a session is being made.
#[derive(Debug, Clone, Copy, PartialEq, Eq, Structural)]
pub struct NewSessionState {
    pub selected: usize,
    pub sending: bool,
}

/// That the configuration is to be written, and whether a failure is shown.
#[derive(Debug, Clone, Copy, PartialEq, Eq, Structural)]
pub enum SaveKind {
    Quiet,
    Reported,
}

/// What was asked of a queue item.
#[derive(Debug, Clone, Copy, PartialEq, Eq, Structural)]
pub enum QueueActionKind {
    Remove,
    Steer,
    Edit,
}

/// What a key comes to.
#[derive(Debug)]
pub enum Action {
    Quit,
    /// The chat scrolled by some lines; `i64::MIN` is the top, `i64::MAX` the bottom.
    Scroll(i64),
    /// Another surface has the keys.
    Focus(Focus),
    /// A text, a caret or a choice changed.
    Input,
    /// A prompt for the active session.
    Submit(String),
    /// The running turn of the active session is to be cancelled.
    CancelTurn,
    QueueRemove,
    QueueSteer,
    QueueEdit(String),
    /// The catalog of skills is needed.
    RequestCatalog,
    SearchSessions(String),
    /// The selection of the sidebar moved.
    Select,
    SwitchSession(SessionId),
    RenameSession { session_id: SessionId, title: String },
    RenameWorkspace { workspace_id: WorkspaceId, title: String },
    DeleteWorkspace(WorkspaceId),
    CreateWorkspace(String),
    ForkSession(SessionId),
    ArchiveSession(SessionId),
    CreateSession { workspace_id: Option<WorkspaceId> },
    AnswerApproval(ApprovalResponseOutcome),
    AnswerQuestion,
    FetchSettings,
    SaveSettings,
    /// The key was taken, and nothing follows.
    Nothing,
}

/// What a [`Action`] stands for.
#[verifier::ext_equal]
pub enum ActionView {
    Quit,
    Scroll(i64),
    Focus(Focus),
    Input,
    Submit(Seq<char>),
    CancelTurn,
    QueueRemove,
    QueueSteer,
    QueueEdit(Seq<char>),
    RequestCatalog,
    SearchSessions(Seq<char>),
    Select,
    SwitchSession(SessionIdView),
    RenameSession { session_id: SessionIdView, title: Seq<char> },
    RenameWorkspace { workspace_id: WorkspaceIdView, title: Seq<char> },
    DeleteWorkspace(WorkspaceIdView),
    CreateWorkspace(Seq<char>),
    ForkSession(SessionIdView),
    ArchiveSession(SessionIdView),
    CreateSession { workspace_id: Option<WorkspaceIdView> },
    AnswerApproval(ApprovalResponseOutcome),
    AnswerQuestion,
    FetchSettings,
    SaveSettings,
    Nothing,
}

impl View for Action {
    type V = ActionView;

    open spec fn view(&self) -> ActionView {
        match *self {
            Action::Quit => ActionView::Quit,
            Action::Scroll(x) => ActionView::Scroll(x),
            Action::Focus(x) => ActionView::Focus(x),
            Action::Input => ActionView::Input,
            Action::Submit(x) => ActionView::Submit(x@),
            Action::CancelTurn => ActionView::CancelTurn,
            Action::QueueRemove => ActionView::QueueRemove,
            Action::QueueSteer => ActionView::QueueSteer,
            Action::QueueEdit(x) => ActionView::QueueEdit(x@),
            Action::RequestCatalog => ActionView::RequestCatalog,
            Action::SearchSessions(x) => ActionView::SearchSessions(x@),
            Action::Select => ActionView::Select,
            Action::SwitchSession(x) => ActionView::SwitchSession(x@),
            Action::RenameSession { session_id, title } => ActionView::RenameSession {
                session_id: session_id@,
                title: title@,
            },
            Action::RenameWorkspace { workspace_id, title } => ActionView::RenameWorkspace {
                workspace_id: workspace_id@,
                title: title@,
            },
            Action::DeleteWorkspace(x) => ActionView::DeleteWorkspace(x@),
            Action::CreateWorkspace(x) => ActionView::CreateWorkspace(x@),
            Action::ForkSession(x) => ActionView::ForkSession(x@),
            Action::ArchiveSession(x) => ActionView::ArchiveSession(x@),
            Action::CreateSession { workspace_id } => ActionView::CreateSession {
                workspace_id: crate::text::opt_view(workspace_id),
            },
            Action::AnswerApproval(x) => ActionView::AnswerApproval(x),
            Action::AnswerQuestion => ActionView::AnswerQuestion,
            Action::FetchSettings => ActionView::FetchSettings,
            Action::SaveSettings => ActionView::SaveSettings,
            Action::Nothing => ActionView::Nothing,
        }
    }
}

impl Duplicate for Action {
    fn duplicate(&self) -> (r: Self) {
        match self {
            Action::Quit => Action::Quit,
            Action::Scroll(x) => Action::Scroll(*x),
            Action::Focus(x) => Action::Focus(*x),
            Action::Input => Action::Input,
            Action::Submit(x) => Action::Submit(x.clone()),
            Action::CancelTurn => Action::CancelTurn,
            Action::QueueRemove => Action::QueueRemove,
            Action::QueueSteer => Action::QueueSteer,
            Action::QueueEdit(x) => Action::QueueEdit(x.clone()),
            Action::RequestCatalog => Action::RequestCatalog,
            Action::SearchSessions(x) => Action::SearchSessions(x.clone()),
            Action::Select => Action::Select,
            Action::SwitchSession(x) => Action::SwitchSession(x.duplicate()),
            Action::RenameSession { session_id, title } => Action::RenameSession {
                session_id: session_id.duplicate(),
                title: title.clone(),
            },
            Action::RenameWorkspace { workspace_id, title } => Action::RenameWorkspace {
                workspace_id: workspace_id.duplicate(),
                title: title.clone(),
            },
            Action::DeleteWorkspace(x) => Action::DeleteWorkspace(x.duplicate()),
            Action::CreateWorkspace(x) => Action::CreateWorkspace(x.clone()),
            Action::ForkSession(x) => Action::ForkSession(x.duplicate()),
            Action::ArchiveSession(x) => Action::ArchiveSession(x.duplicate()),
            Action::CreateSession { workspace_id } => Action::CreateSession {
                workspace_id: duplicate_opt(workspace_id),
            },
            Action::AnswerApproval(x) => Action::AnswerApproval(*x),
            Action::AnswerQuestion => Action::AnswerQuestion,
            Action::FetchSettings => Action::FetchSettings,
            Action::SaveSettings => Action::SaveSettings,
            Action::Nothing => Action::Nothing,
        }
    }
}

impl Clone for Action {
    fn clone(&self) -> (r: Self)
        ensures
            r@ == self@,
    {
        self.duplicate()
    }
}

/// Which takeover an answer belongs to.
#[derive(Debug)]
pub enum AnswerTag {
    Approval { approval_id: ApprovalRequestId, outcome: ApprovalResponseOutcome },
    Question(RpcId),
}

/// What a [`AnswerTag`] stands for.
#[verifier::ext_equal]
pub enum AnswerTagView {
    Approval { approval_id: ApprovalRequestIdView, outcome: ApprovalResponseOutcome },
    Question(RpcIdView),
}

impl View for AnswerTag {
    type V = AnswerTagView;

    open spec fn view(&self) -> AnswerTagView {
        match *self {
            AnswerTag::Approval { approval_id, outcome } => AnswerTagView::Approval {
                approval_id: approval_id@,
                outcome,
            },
            AnswerTag::Question(x) => AnswerTagView::Question(x@),
        }
    }
}

impl Duplicate for AnswerTag {
    fn duplicate(&self) -> (r: Self) {
        match self {
            AnswerTag::Approval { approval_id, outcome } => AnswerTag::Approval {
                approval_id: approval_id.duplicate(),
                outcome: *outcome,
            },
            AnswerTag::Question(x) => AnswerTag::Question(x.duplicate()),
        }
    }
}

impl Clone for AnswerTag {
    fn clone(&self) -> (r: Self)
        ensures
            r@ == self@,
    {
        self.duplicate()
    }
}

/// An approval request that is open. The answer echoes `rpc_id`; the request that came last has
/// the highest `seq`.
#[derive(Debug)]
pub struct ApprovalPending {
    pub rpc_id: RpcId,
    pub session_id: SessionId,
    pub approval_id: ApprovalRequestId,
    pub tool_name: String,
    pub call_id: Option<String>,
    pub reason: Option<String>,
    pub seq: u64,
}

/// What a [`ApprovalPending`] stands for.
#[verifier::ext_equal]
pub struct ApprovalPendingView {
    pub rpc_id: RpcIdView,
    pub session_id: SessionIdView,
    pub approval_id: ApprovalRequestIdView,
    pub tool_name: Seq<char>,
    pub call_id: Option<Seq<char>>,
    pub reason: Option<Seq<char>>,
    pub seq: u64,
}

impl View for ApprovalPending {
    type V = ApprovalPendingView;

    open spec fn view(&self) -> ApprovalPendingView {
        ApprovalPendingView {
            rpc_id: self.rpc_id@,
            session_id: self.session_id@,
            approval_id: self.approval_id@,
            tool_name: self.tool_name@,
            call_id: crate::text::opt_view(self.call_id),
            reason: crate::text::opt_view(self.reason),
            seq: self.seq,
        }
    }
}

impl Duplicate for ApprovalPending {
    fn duplicate(&self) -> (r: Self) {
        ApprovalPending {
            rpc_id: self.rpc_id.duplicate(),
            session_id: self.session_id.duplicate(),
            approval_id: self.approval_id.duplicate(),
            tool_name: self.tool_name.clone(),
            call_id: duplicate_opt(&self.call_id),
            reason: duplicate_opt(&self.reason),
            seq: self.seq,
        }
    }
}

impl Clone for ApprovalPending {
    fn clone(&self) -> (r: Self)
        ensures
            r@ == self@,
    {
        self.duplicate()
    }
}

/// A question frame that is open. The answer echoes `rpc_id`.
#[derive(Debug)]
pub struct QuestionPending {
    pub rpc_id: RpcId,
    pub session_id: SessionId,
    pub questions: Vec<AskUserQuestionItem>,
    pub seq: u64,
}

/// What a [`QuestionPending`] stands for.
#[verifier::ext_equal]
pub struct QuestionPendingView {
    pub rpc_id: RpcIdView,
    pub session_id: SessionIdView,
    pub questions: Seq<AskUserQuestionItemView>,
    pub seq: u64,
}

impl View for QuestionPending {
    type V = QuestionPendingView;

    open spec fn view(&self) -> QuestionPendingView {
        QuestionPendingView {
            rpc_id: self.rpc_id@,
            session_id: self.session_id@,
            questions: crate::text::views(self.questions@),
            seq: self.seq,
        }
    }
}

impl Duplicate for QuestionPending {
    fn duplicate(&self) -> (r: Self) {
        QuestionPending {
            rpc_id: self.rpc_id.duplicate(),
            session_id: self.session_id.duplicate(),
            questions: duplicate_all(&self.questions),
            seq: self.seq,
        }
    }
}

impl Clone for QuestionPending {
    fn clone(&self) -> (r: Self)
        ensures
            r@ == self@,
    {
        self.duplicate()
    }
}

/// The catalog of skills. While `loading`, it is on its way.
#[derive(Debug)]
pub struct AtCatalog {
    pub skills: Vec<SkillEntry>,
    pub loading: bool,
}

/// What a [`AtCatalog`] stands for.
#[verifier::ext_equal]
pub struct AtCatalogView {
    pub skills: Seq<SkillEntryView>,
    pub loading: bool,
}

impl View for AtCatalog {
    type V = AtCatalogView;

    open spec fn view(&self) -> AtCatalogView {
        AtCatalogView {
            skills: crate::text::views(self.skills@),
            loading: self.loading,
        }
    }
}

impl Duplicate for AtCatalog {
    fn duplicate(&self) -> (r: Self) {
        AtCatalog {
            skills: duplicate_all(&self.skills),
            loading: self.loading,
        }
    }
}

impl Clone for AtCatalog {
    fn clone(&self) -> (r: Self)
        ensures
            r@ == self@,
    {
        self.duplicate()
    }
}

/// One entry of the list that a composer offers: what it is called and what it puts in.
#[derive(Debug)]
pub struct CatalogEntry {
    pub label: String,
    pub insert: String,
}

/// What a [`CatalogEntry`] stands for.
#[verifier::ext_equal]
pub struct CatalogEntryView {
    pub label: Seq<char>,
    pub insert: Seq<char>,
}

impl View for CatalogEntry {
    type V = CatalogEntryView;

    open spec fn view(&self) -> CatalogEntryView {
        CatalogEntryView {
            label: self.label@,
            insert: self.insert@,
        }
    }
}

impl Duplicate for CatalogEntry {
    fn duplicate(&self) -> (r: Self) {
        CatalogEntry {
            label: self.label.clone(),
            insert: self.insert.clone(),
        }
    }
}

impl Clone for CatalogEntry {
    fn clone(&self) -> (r: Self)
        ensures
            r@ == self@,
    {
        self.duplicate()
    }
}

/// What an entry of the launcher does.
#[derive(Debug)]
pub enum LauncherAction {
    Dispatch { text: String },
    OpenSettings,
    OpenThemePicker,
    CycleLocale,
    Quit,
}

/// What a [`LauncherAction`] stands for.
#[verifier::ext_equal]
pub enum LauncherActionView {
    Dispatch { text: Seq<char> },
    OpenSettings,
    OpenThemePicker,
    CycleLocale,
    Quit,
}

impl View for LauncherAction {
    type V = LauncherActionView;

    open spec fn view(&self) -> LauncherActionView {
        match *self {
            LauncherAction::Dispatch { text } => LauncherActionView::Dispatch {
                text: text@,
            },
            LauncherAction::OpenSettings => LauncherActionView::OpenSettings,
            LauncherAction::OpenThemePicker => LauncherActionView::OpenThemePicker,
            LauncherAction::CycleLocale => LauncherActionView::CycleLocale,
            LauncherAction::Quit => LauncherActionView::Quit,
        }
    }
}

impl Duplicate for LauncherAction {
    fn duplicate(&self) -> (r: Self) {
        match self {
            LauncherAction::Dispatch { text } => LauncherAction::Dispatch {
                text: text.clone(),
            },
            LauncherAction::OpenSettings => LauncherAction::OpenSettings,
            LauncherAction::OpenThemePicker => LauncherAction::OpenThemePicker,
            LauncherAction::CycleLocale => LauncherAction::CycleLocale,
            LauncherAction::Quit => LauncherAction::Quit,
        }
    }
}

impl Clone for LauncherAction {
    fn clone(&self) -> (r: Self)
        ensures
            r@ == self@,
    {
        self.duplicate()
    }
}

/// One entry of the launcher.
#[derive(Debug)]
pub struct LauncherEntry {
    pub label: String,
    pub action: LauncherAction,
}

/// What a [`LauncherEntry`] stands for.
#[verifier::ext_equal]
pub struct LauncherEntryView {
    pub label: Seq<char>,
    pub action: LauncherActionView,
}

impl View for LauncherEntry {
    type V = LauncherEntryView;

    open spec fn view(&self) -> LauncherEntryView {
        LauncherEntryView {
            label: self.label@,
            action: self.action@,
        }
    }
}

impl Duplicate for LauncherEntry {
    fn duplicate(&self) -> (r: Self) {
        LauncherEntry {
            label: self.label.clone(),
            action: self.action.duplicate(),
        }
    }
}

impl Clone for LauncherEntry {
    fn clone(&self) -> (r: Self)
        ensures
            r@ == self@,
    {
        self.duplicate()
    }
}

/// The launcher: what is searched for, and the selected entry.
#[derive(Debug)]
pub struct LauncherState {
    pub search: Editor,
    pub selected: usize,
}

/// What a [`LauncherState`] stands for.
#[verifier::ext_equal]
pub struct LauncherStateView {
    pub search: EditorView,
    pub selected: usize,
}

impl View for LauncherState {
    type V = LauncherStateView;

    open spec fn view(&self) -> LauncherStateView {
        LauncherStateView {
            search: self.search@,
            selected: self.selected,
        }
    }
}

impl Duplicate for LauncherState {
    fn duplicate(&self) -> (r: Self) {
        LauncherState {
            search: self.search.duplicate(),
            selected: self.selected,
        }
    }
}

impl Clone for LauncherState {
    fn clone(&self) -> (r: Self)
        ensures
            r@ == self@,
    {
        self.duplicate()
    }
}

/// The search in the sidebar. While `sending`, a search is on its way.
#[derive(Debug)]
pub struct SidebarSearchState {
    pub query: Editor,
    pub results: Vec<SessionSearchItem>,
    pub selected: usize,
    pub sending: bool,
}

/// What a [`SidebarSearchState`] stands for.
#[verifier::ext_equal]
pub struct SidebarSearchStateView {
    pub query: EditorView,
    pub results: Seq<SessionSearchItemView>,
    pub selected: usize,
    pub sending: bool,
}

impl View for SidebarSearchState {
    type V = SidebarSearchStateView;

    open spec fn view(&self) -> SidebarSearchStateView {
        SidebarSearchStateView {
            query: self.query@,
            results: crate::text::views(self.results@),
            selected: self.selected,
            sending: self.sending,
        }
    }
}

impl Duplicate for SidebarSearchState {
    fn duplicate(&self) -> (r: Self) {
        SidebarSearchState {
            query: self.query.duplicate(),
            results: duplicate_all(&self.results),
            selected: self.selected,
            sending: self.sending,
        }
    }
}

impl Clone for SidebarSearchState {
    fn clone(&self) -> (r: Self)
        ensures
            r@ == self@,
    {
        self.duplicate()
    }
}

/// The editor of a session's title.
#[derive(Debug)]
pub struct RenameEditor {
    pub session_id: SessionId,
    pub editor: Editor,
}

/// What a [`RenameEditor`] stands for.
#[verifier::ext_equal]
pub struct RenameEditorView {
    pub session_id: SessionIdView,
    pub editor: EditorView,
}

impl View for RenameEditor {
    type V = RenameEditorView;

    open spec fn view(&self) -> RenameEditorView {
        RenameEditorView {
            session_id: self.session_id@,
            editor: self.editor@,
        }
    }
}

impl Duplicate for RenameEditor {
    fn duplicate(&self) -> (r: Self) {
        RenameEditor {
            session_id: self.session_id.duplicate(),
            editor: self.editor.duplicate(),
        }
    }
}

impl Clone for RenameEditor {
    fn clone(&self) -> (r: Self)
        ensures
            r@ == self@,
    {
        self.duplicate()
    }
}

/// A note and when it was made.
#[derive(Debug)]
pub struct Toast {
    pub text: String,
    pub at: u64,
}

/// What a [`Toast`] stands for.
#[verifier::ext_equal]
pub struct ToastView {
    pub text: Seq<char>,
    pub at: u64,
}

impl View for Toast {
    type V = ToastView;

    open spec fn view(&self) -> ToastView {
        ToastView {
            text: self.text@,
            at: self.at,
        }
    }
}

impl Duplicate for Toast {
    fn duplicate(&self) -> (r: Self) {
        Toast {
            text: self.text.clone(),
            at: self.at,
        }
    }
}

impl Clone for Toast {
    fn clone(&self) -> (r: Self)
        ensures
            r@ == self@,
    {
        self.duplicate()
    }
}

/// A tool call that runs: the key of its node, and since when.
#[derive(Debug)]
pub struct RunningTool {
    pub key: String,
    pub since: u64,
}

/// What a [`RunningTool`] stands for.
#[verifier::ext_equal]
pub struct RunningToolView {
    pub key: Seq<char>,
    pub since: u64,
}

impl View for RunningTool {
    type V = RunningToolView;

    open spec fn view(&self) -> RunningToolView {
        RunningToolView {
            key: self.key@,
            since: self.since,
        }
    }
}

impl Duplicate for RunningTool {
    fn duplicate(&self) -> (r: Self) {
        RunningTool {
            key: self.key.clone(),
            since: self.since,
        }
    }
}

impl Clone for RunningTool {
    fn clone(&self) -> (r: Self)
        ensures
            r@ == self@,
    {
        self.duplicate()
    }
}

/// What has the screen.
#[derive(Debug)]
pub enum Mode {
    Chat,
    Approval(ApprovalTakeover),
    Question(QuestionTakeover),
    Settings(SettingsState),
    Image(ImageViewer),
}

/// What a [`Mode`] stands for.
#[verifier::ext_equal]
pub enum ModeView {
    Chat,
    Approval(ApprovalTakeoverView),
    Question(QuestionTakeoverView),
    Settings(SettingsStateView),
    Image(ImageViewerView),
}

impl View for Mode {
    type V = ModeView;

    open spec fn view(&self) -> ModeView {
        match *self {
            Mode::Chat => ModeView::Chat,
            Mode::Approval(x) => ModeView::Approval(x@),
            Mode::Question(x) => ModeView::Question(x@),
            Mode::Settings(x) => ModeView::Settings(x@),
            Mode::Image(x) => ModeView::Image(x@),
        }
    }
}

impl Duplicate for Mode {
    fn duplicate(&self) -> (r: Self) {
        match self {
            Mode::Chat => Mode::Chat,
            Mode::Approval(x) => Mode::Approval(x.duplicate()),
            Mode::Question(x) => Mode::Question(x.duplicate()),
            Mode::Settings(x) => Mode::Settings(x.duplicate()),
            Mode::Image(x) => Mode::Image(x.duplicate()),
        }
    }
}

impl Clone for Mode {
    fn clone(&self) -> (r: Self)
        ensures
            r@ == self@,
    {
        self.duplicate()
    }
}

/// The application: everything that it shows and decides by.
pub struct App {
    /// The texts of the user interface.
    pub strings: Strings,
    /// The time of the event at hand, in milliseconds.
    pub clock: u64,
    /// A gateway is attached.
    pub connected: bool,
    pub running: bool,
    pub store: SessionStore,
    pub row_cache: RowCache,
    pub view: ViewState,
    pub view_mode: ViewMode,
    pub active_session: Option<SessionId>,
    pub sessions: Vec<SessionSummary>,
    pub workspaces: Vec<WorkspaceView>,
    pub workspace_order: Vec<WorkspaceId>,
    pub archived_session_ids: Vec<SessionId>,
    pub archived_expanded: bool,
    pub focus: Focus,
    /// Ctrl+W was pressed: the next key may move the focus.
    pub pane_prefix: bool,
    pub composer: Composer,
    pub sidebar: SidebarState,
    pub sidebar_collapsed: bool,
    pub theme: Theme,
    pub locale: Locale,
    pub themes: ThemeRegistry,
    pub theme_picker: ThemePicker,
    pub config: Config,
    pub pending_save: Option<SaveKind>,
    /// The session whose history is on its way.
    pub history_loading: Option<SessionId>,
    pub queue_popup_open: bool,
    pub queue_scroll: usize,
    pub queue_action_sending: bool,
    pub queue_editor: Option<Editor>,
    pub rename_editor: Option<RenameEditor>,
    pub workspace_rename: Option<Editor>,
    pub workspace_editor: Option<Editor>,
    pub view_options: Option<usize>,
    /// A change of the session list is on its way; no other is asked for.
    pub sidebar_action_sending: bool,
    pub new_session: Option<NewSessionState>,
    pub sidebar_search: Option<SidebarSearchState>,
    pub at_catalog: Option<AtCatalog>,
    pub launcher: Option<LauncherState>,
    /// What the composer offers for its text.
    pub popup_list: Vec<CatalogEntry>,
    /// What the launcher offers for its search.
    pub launcher_list: Vec<LauncherEntry>,
    pub last_error: Option<String>,
    pub pending_approvals: Vec<ApprovalPending>,
    pub pending_questions: Vec<QuestionPending>,
    pub pending_seq: u64,
    pub mode: Mode,
    /// The terminal shows images.
    pub graphics: bool,
    pub image_cache: ImageCache,
    /// The attachments that are on their way.
    pub pending_attachments: Vec<String>,
    pub toast: Option<Toast>,
    pub hint: Option<String>,
    pub copied_flash: Option<Toast>,
    /// A text to be put on the clipboard.
    pub clipboard: Option<String>,
    pub needs_draw: bool,
    pub last_draw: Option<u64>,
    pub draws: usize,
    pub sidebar_area: Area,
    pub chat_area: Area,
    pub composer_area: Area,
    pub selection: Option<(CellPos, CellPos)>,
    pub select_mode: bool,
    pub drawer_open: bool,
    pub drawer_prior_focus: Focus,
    pub drawer_prior_hint: Option<String>,
    pub drawer_hint_shown: bool,
    pub terminal_width: u16,
    pub spinner_frame: usize,
    pub session_model: Option<ModelSelection>,
    pub busy_since: Option<u64>,
    pub running_tools: Vec<RunningTool>,
    pub skill_folds: Table<bool>,
}

/// What an [`App`] stands for.
pub struct AppView {
    pub strings: StringsView,
    pub clock: u64,
    pub connected: bool,
    pub running: bool,
    pub store: StoreView,
    pub row_cache: RowCacheView,
    pub view: ViewState,
    pub view_mode: ViewMode,
    pub active_session: Option<SessionIdView>,
    pub sessions: Seq<SessionSummaryView>,
    pub workspaces: Seq<WorkspaceViewView>,
    pub workspace_order: Seq<WorkspaceIdView>,
    pub archived_session_ids: Seq<SessionIdView>,
    pub archived_expanded: bool,
    pub focus: Focus,
    pub pane_prefix: bool,
    pub composer: ComposerView,
    pub sidebar: SidebarState,
    pub sidebar_collapsed: bool,
    pub theme: ThemeView,
    pub locale: Locale,
    pub themes: Seq<ThemeView>,
    pub theme_picker: ThemePicker,
    pub config: ConfigView,
    pub pending_save: Option<SaveKind>,
    pub history_loading: Option<SessionIdView>,
    pub queue_popup_open: bool,
    pub queue_scroll: usize,
    pub queue_action_sending: bool,
    pub queue_editor: Option<EditorView>,
    pub rename_editor: Option<RenameEditorView>,
    pub workspace_rename: Option<EditorView>,
    pub workspace_editor: Option<EditorView>,
    pub view_options: Option<usize>,
    pub sidebar_action_sending: bool,
    pub new_session: Option<NewSessionState>,
    pub sidebar_search: Option<SidebarSearchStateView>,
    pub at_catalog: Option<AtCatalogView>,
    pub launcher: Option<LauncherStateView>,
    pub popup_list: Seq<CatalogEntryView>,
    pub launcher_list: Seq<LauncherEntryView>,
    pub last_error: Option<Seq<char>>,
    pub pending_approvals: Seq<ApprovalPendingView>,
    pub pending_questions: Seq<QuestionPendingView>,
    pub pending_seq: u64,
    pub mode: ModeView,
    pub graphics: bool,
    pub image_cache: Map<Seq<char>, DynamicImage>,
    pub pending_attachments: Seq<Seq<char>>,
    pub toast: Option<ToastView>,
    pub hint: Option<Seq<char>>,
    pub copied_flash: Option<ToastView>,
    pub clipboard: Option<Seq<char>>,
    pub needs_draw: bool,
    pub last_draw: Option<u64>,
    pub draws: usize,
    pub sidebar_area: Area,
    pub chat_area: Area,
    pub composer_area: Area,
    pub selection: Option<(CellPos, CellPos)>,
    pub select_mode: bool,
    pub drawer_open: bool,
    pub drawer_prior_focus: Focus,
    pub drawer_prior_hint: Option<Seq<char>>,
    pub drawer_hint_shown: bool,
    pub terminal_width: u16,
    pub spinner_frame: usize,
    pub session_model: Option<ModelSelectionView>,
    pub busy_since: Option<u64>,
    pub running_tools: Seq<RunningToolView>,
    pub skill_folds: Map<Seq<char>, bool>,
}

/// What an application stands for, field by field.
#[verifier::opaque]
pub open spec fn app_view(app: App) -> AppView {
    AppView {
        strings: app.strings@,
        clock: app.clock,
        connected: app.connected,
        running: app.running,
        store: app.store@,
        row_cache: app.row_cache@,
        view: app.view,
        view_mode: app.view_mode,
        active_session: crate::text::opt_view(app.active_session),
        sessions: crate::text::views(app.sessions@),
        workspaces: crate::text::views(app.workspaces@),
        workspace_order: crate::text::views(app.workspace_order@),
        archived_session_ids: crate::text::views(app.archived_session_ids@),
        archived_expanded: app.archived_expanded,
        focus: app.focus,
        pane_prefix: app.pane_prefix,
        composer: app.composer@,
        sidebar: app.sidebar,
        sidebar_collapsed: app.sidebar_collapsed,
        theme: app.theme@,
        locale: app.locale,
        themes: app.themes@,
        theme_picker: app.theme_picker,
        config: app.config@,
        pending_save: app.pending_save,
        history_loading: crate::text::opt_view(app.history_loading),
        queue_popup_open: app.queue_popup_open,
        queue_scroll: app.queue_scroll,
        queue_action_sending: app.queue_action_sending,
        queue_editor: crate::text::opt_view(app.queue_editor),
        rename_editor: crate::text::opt_view(app.rename_editor),
        workspace_rename: crate::text::opt_view(app.workspace_rename),
        workspace_editor: crate::text::opt_view(app.workspace_editor),
        view_options: app.view_options,
        sidebar_action_sending: app.sidebar_action_sending,
        new_session: app.new_session,
        sidebar_search: crate::text::opt_view(app.sidebar_search),
        at_catalog: crate::text::opt_view(app.at_catalog),
        launcher: crate::text::opt_view(app.launcher),
        popup_list: crate::text::views(app.popup_list@),
        launcher_list: crate::text::views(app.launcher_list@),
        last_error: crate::text::opt_view(app.last_error),
        pending_approvals: crate::text::views(app.pending_approvals@),
        pending_questions: crate::text::views(app.pending_questions@),
        pending_seq: app.pending_seq,
        mode: app.mode@,
        graphics: app.graphics,
        image_cache: app.image_cache@,
        pending_attachments: crate::text::views(app.pending_attachments@),
        toast: crate::text::opt_view(app.toast),
        hint: crate::text::opt_view(app.hint),
        copied_flash: crate::text::opt_view(app.copied_flash),
        clipboard: crate::text::opt_view(app.clipboard),
        needs_draw: app.needs_draw,
        last_draw: app.last_draw,
        draws: app.draws,
        sidebar_area: app.sidebar_area,
        chat_area: app.chat_area,
        composer_area: app.composer_area,
        selection: app.selection,
        select_mode: app.select_mode,
        drawer_open: app.drawer_open,
        drawer_prior_focus: app.drawer_prior_focus,
        drawer_prior_hint: crate::text::opt_view(app.drawer_prior_hint),
        drawer_hint_shown: app.drawer_hint_shown,
        terminal_width: app.terminal_width,
        spinner_frame: app.spinner_frame,
        session_model: crate::text::opt_view(app.session_model),
        busy_since: app.busy_since,
        running_tools: crate::text::views(app.running_tools@),
        skill_folds: app.skill_folds@,
    }
}

impl View for App {
    type V = AppView;

    open spec fn view(&self) -> AppView {
        app_view(*self)
    }
}

impl AppView {
    /// With the field `clock` set.
    #[verifier::opaque]
    pub open spec fn with_clock(self, clock: u64) -> AppView {
        AppView { clock, ..self }
    }

    /// With the field `connected` set.
    #[verifier::opaque]
    pub open spec fn with_connected(self, connected: bool) -> AppView {
        AppView { connected, ..self }
    }

    /// With the field `running` set.
    #[verifier::opaque]
    pub open spec fn with_running(self, running: bool) -> AppView {
        AppView { running, ..self }
    }

    /// With the field `store` set.
    #[verifier::opaque]
    pub open spec fn with_store(self, store: StoreView) -> AppView {
        AppView { store, ..self }
    }

    /// With the field `row_cache` set.
    #[verifier::opaque]
    pub open spec fn with_row_cache(self, row_cache: RowCacheView) -> AppView {
        AppView { row_cache, ..self }
    }

    /// With the field `view` set.
    #[verifier::opaque]
    pub open spec fn with_view(self, view: ViewState) -> AppView {
        AppView { view, ..self }
    }

    /// With the field `view_mode` set.
    #[verifier::opaque]
    pub open spec fn with_view_mode(self, view_mode: ViewMode) -> AppView {
        AppView { view_mode, ..self }
    }

    /// With the field `active_session` set.
    #[verifier::opaque]
    pub open spec fn with_active_session(self, active_session: Option<SessionIdView>) -> AppView {
        AppView { active_session, ..self }
    }

    /// With the field `sessions` set.
    #[verifier::opaque]
    pub open spec fn with_sessions(self, sessions: Seq<SessionSummaryView>) -> AppView {
        AppView { sessions, ..self }
    }

    /// With the field `workspaces` set.
    #[verifier::opaque]
    pub open spec fn with_workspaces(self, workspaces: Seq<WorkspaceViewView>) -> AppView {
        AppView { workspaces, ..self }
    }

    /// With the field `workspace_order` set.
    #[verifier::opaque]
    pub open spec fn with_workspace_order(self, workspace_order: Seq<WorkspaceIdView>) -> AppView {
        AppView { workspace_order, ..self }
    }

    /// With the field `archived_session_ids` set.
    #[verifier::opaque]
    pub open spec fn with_archived_session_ids(self, archived_session_ids: Seq<SessionIdView>) -> AppView {
        AppView { archived_session_ids, ..self }
    }

    /// With the field `archived_expanded` set.
    #[verifier::opaque]
    pub open spec fn with_archived_expanded(self, archived_expanded: bool) -> AppView {
        AppView { archived_expanded, ..self }
    }

    /// With the field `focus` set.
    #[verifier::opaque]
    pub open spec fn with_focus(self, focus: Focus) -> AppView {
        AppView { focus, ..self }
    }

    /// With the field `pane_prefix` set.
    #[verifier::opaque]
    pub open spec fn with_pane_prefix(self, pane_prefix: bool) -> AppView {
        AppView { pane_prefix, ..self }
    }

    /// With the field `composer` set.
    #[verifier::opaque]
    pub open spec fn with_composer(self, composer: ComposerView) -> AppView {
        AppView { composer, ..self }
    }

    /// With the field `sidebar` set.
    #[verifier::opaque]
    pub open spec fn with_sidebar(self, sidebar: SidebarState) -> AppView {
        AppView { sidebar, ..self }
    }

    /// With the field `sidebar_collapsed` set.
    #[verifier::opaque]
    pub open spec fn with_sidebar_collapsed(self, sidebar_collapsed: bool) -> AppView {
        AppView { sidebar_collapsed, ..self }
    }

    /// With the field `theme` set.
    #[verifier::opaque]
    pub open spec fn with_theme(self, theme: ThemeView) -> AppView {
        AppView { theme, ..self }
    }

    /// With the field `locale` set.
    #[verifier::opaque]
    pub open spec fn with_locale(self, locale: Locale) -> AppView {
        AppView { locale, ..self }
    }

    /// With the field `themes` set.
    #[verifier::opaque]
    pub open spec fn with_themes(self, themes: Seq<ThemeView>) -> AppView {
        AppView { themes, ..self }
    }

    /// With the field `theme_picker` set.
    #[verifier::opaque]
    pub open spec fn with_theme_picker(self, theme_picker: ThemePicker) -> AppView {
        AppView { theme_picker, ..self }
    }

    /// With the field `config` set.
    #[verifier::opaque]
    pub open spec fn with_config(self, config: ConfigView) -> AppView {
        AppView { config, ..self }
    }

    /// With the field `pending_save` set.
    #[verifier::opaque]
    pub open spec fn with_pending_save(self, pending_save: Option<SaveKind>) -> AppView {
        AppView { pending_save, ..self }
    }

    /// With the field `history_loading` set.
    #[verifier::opaque]
    pub open spec fn with_history_loading(self, history_loading: Option<SessionIdView>) -> AppView {
        AppView { history_loading, ..self }
    }

    /// With the field `queue_popup_open` set.
    #[verifier::opaque]
    pub open spec fn with_queue_popup_open(self, queue_popup_open: bool) -> AppView {
        AppView { queue_popup_open, ..self }
    }

    /// With the field `queue_scroll` set.
    #[verifier::opaque]
    pub open spec fn with_queue_scroll(self, queue_scroll: usize) -> AppView {
        AppView { queue_scroll, ..self }
    }

    /// With the field `queue_action_sending` set.
    #[verifier::opaque]
    pub open spec fn with_queue_action_sending(self, queue_action_sending: bool) -> AppView {
        AppView { queue_action_sending, ..self }
    }

    /// With the field `queue_editor` set.
    #[verifier::opaque]
    pub open spec fn with_queue_editor(self, queue_editor: Option<EditorView>) -> AppView {
        AppView { queue_editor, ..self }
    }

    /// With the field `rename_editor` set.
    #[verifier::opaque]
    pub open spec fn with_rename_editor(self, rename_editor: Option<RenameEditorView>) -> AppView {
        AppView { rename_editor, ..self }
    }

    /// With the field `workspace_rename` set.
    #[verifier::opaque]
    pub open spec fn with_workspace_rename(self, workspace_rename: Option<EditorView>) -> AppView {
        AppView { workspace_rename, ..self }
    }

    /// With the field `workspace_editor` set.
    #[verifier::opaque]
    pub open spec fn with_workspace_editor(self, workspace_editor: Option<EditorView>) -> AppView {
        AppView { workspace_editor, ..self }
    }

    /// With the field `view_options` set.
    #[verifier::opaque]
    pub open spec fn with_view_options(self, view_options: Option<usize>) -> AppView {
        AppView { view_options, ..self }
    }

    /// With the field `sidebar_action_sending` set.
    #[verifier::opaque]
    pub open spec fn with_sidebar_action_sending(self, sidebar_action_sending: bool) -> AppView {
        AppView { sidebar_action_sending, ..self }
    }

    /// With the field `new_session` set.
    #[verifier::opaque]
    pub open spec fn with_new_session(self, new_session: Option<NewSessionState>) -> AppView {
        AppView { new_session, ..self }
    }

    /// With the field `sidebar_search` set.
    #[verifier::opaque]
    pub open spec fn with_sidebar_search(self, sidebar_search: Option<SidebarSearchStateView>) -> AppView {
        AppView { sidebar_search, ..self }
    }

    /// With the field `at_catalog` set.
    #[verifier::opaque]
    pub open spec fn with_at_catalog(self, at_catalog: Option<AtCatalogView>) -> AppView {
        AppView { at_catalog, ..self }
    }

    /// With the field `launcher` set.
    #[verifier::opaque]
    pub open spec fn with_launcher(self, launcher: Option<LauncherStateView>) -> AppView {
        AppView { launcher, ..self }
    }

    /// With the field `popup_list` set.
    #[verifier::opaque]
    pub open spec fn with_popup_list(self, popup_list: Seq<CatalogEntryView>) -> AppView {
        AppView { popup_list, ..self }
    }

    /// With the field `launcher_list` set.
    #[verifier::opaque]
    pub open spec fn with_launcher_list(self, launcher_list: Seq<LauncherEntryView>) -> AppView {
        AppView { launcher_list, ..self }
    }

    /// With the field `last_error` set.
    #[verifier::opaque]
    pub open spec fn with_last_error(self, last_error: Option<Seq<char>>) -> AppView {
        AppView { last_error, ..self }
    }

    /// With the field `pending_approvals` set.
    #[verifier::opaque]
    pub open spec fn with_pending_approvals(self, pending_approvals: Seq<ApprovalPendingView>) -> AppView {
        AppView { pending_approvals, ..self }
    }

    /// With the field `pending_questions` set.
    #[verifier::opaque]
    pub open spec fn with_pending_questions(self, pending_questions: Seq<QuestionPendingView>) -> AppView {
        AppView { pending_questions, ..self }
    }

    /// With the field `pending_seq` set.
    #[verifier::opaque]
    pub open spec fn with_pending_seq(self, pending_seq: u64) -> AppView {
        AppView { pending_seq, ..self }
    }

    /// With the field `mode` set.
    #[verifier::opaque]
    pub open spec fn with_mode(self, mode: ModeView) -> AppView {
        AppView { mode, ..self }
    }

    /// With the field `graphics` set.
    #[verifier::opaque]
    pub open spec fn with_graphics(self, graphics: bool) -> AppView {
        AppView { graphics, ..self }
    }

    /// With the field `image_cache` set.
    #[verifier::opaque]
    pub open spec fn with_image_cache(self, image_cache: Map<Seq<char>, DynamicImage>) -> AppView {
        AppView { image_cache, ..self }
    }

    /// With the field `pending_attachments` set.
    #[verifier::opaque]
    pub open spec fn with_pending_attachments(self, pending_attachments: Seq<Seq<char>>) -> AppView {
        AppView { pending_attachments, ..self }
    }

    /// With the field `toast` set.
    #[verifier::opaque]
    pub open spec fn with_toast(self, toast: Option<ToastView>) -> AppView {
        AppView { toast, ..self }
    }

    /// With the field `hint` set.
    #[verifier::opaque]
    pub open spec fn with_hint(self, hint: Option<Seq<char>>) -> AppView {
        AppView { hint, ..self }
    }

    /// With the field `copied_flash` set.
    #[verifier::opaque]
    pub open spec fn with_copied_flash(self, copied_flash: Option<ToastView>) -> AppView {
        AppView { copied_flash, ..self }
    }

    /// With the field `clipboard` set.
    #[verifier::opaque]
    pub open spec fn with_clipboard(self, clipboard: Option<Seq<char>>) -> AppView {
        AppView { clipboard, ..self }
    }

    /// With the field `needs_draw` set.
    #[verifier::opaque]
    pub open spec fn with_needs_draw(self, needs_draw: bool) -> AppView {
        AppView { needs_draw, ..self }
    }

    /// With the field `last_draw` set.
    #[verifier::opaque]
    pub open spec fn with_last_draw(self, last_draw: Option<u64>) -> AppView {
        AppView { last_draw, ..self }
    }

    /// With the field `draws` set.
    #[verifier::opaque]
    pub open spec fn with_draws(self, draws: usize) -> AppView {
        AppView { draws, ..self }
    }

    /// With the field `sidebar_area` set.
    #[verifier::opaque]
    pub open spec fn with_sidebar_area(self, sidebar_area: Area) -> AppView {
        AppView { sidebar_area, ..self }
    }

    /// With the field `chat_area` set.
    #[verifier::opaque]
    pub open spec fn with_chat_area(self, chat_area: Area) -> AppView {
        AppView { chat_area, ..self }
    }

    /// With the field `composer_area` set.
    #[verifier::opaque]
    pub open spec fn with_composer_area(self, composer_area: Area) -> AppView {
        AppView { composer_area, ..self }
    }

    /// With the field `selection` set.
    #[verifier::opaque]
    pub open spec fn with_selection(self, selection: Option<(CellPos, CellPos)>) -> AppView {
        AppView { selection, ..self }
    }

    /// With the field `select_mode` set.
    #[verifier::opaque]
    pub open spec fn with_select_mode(self, select_mode: bool) -> AppView {
        AppView { select_mode, ..self }
    }

    /// With the field `drawer_open` set.
    #[verifier::opaque]
    pub open spec fn with_drawer_open(self, drawer_open: bool) -> AppView {
        AppView { drawer_open, ..self }
    }

    /// With the field `drawer_prior_focus` set.
    #[verifier::opaque]
    pub open spec fn with_drawer_prior_focus(self, drawer_prior_focus: Focus) -> AppView {
        AppView { drawer_prior_focus, ..self }
    }

    /// With the field `drawer_prior_hint` set.
    #[verifier::opaque]
    pub open spec fn with_drawer_prior_hint(self, drawer_prior_hint: Option<Seq<char>>) -> AppView {
        AppView { drawer_prior_hint, ..self }
    }

    /// With the field `drawer_hint_shown` set.
    #[verifier::opaque]
    pub open spec fn with_drawer_hint_shown(self, drawer_hint_shown: bool) -> AppView {
        AppView { drawer_hint_shown, ..self }
    }

    /// With the field `terminal_width` set.
    #[verifier::opaque]
    pub open spec fn with_terminal_width(self, terminal_width: u16) -> AppView {
        AppView { terminal_width, ..self }
    }

    /// With the field `spinner_frame` set.
    #[verifier::opaque]
    pub open spec fn with_spinner_frame(self, spinner_frame: usize) -> AppView {
        AppView { spinner_frame, ..self }
    }

    /// With the field `session_model` set.
    #[verifier::opaque]
    pub open spec fn with_session_model(self, session_model: Option<ModelSelectionView>) -> AppView {
        AppView { session_model, ..self }
    }

    /// With the field `busy_since` set.
    #[verifier::opaque]
    pub open spec fn with_busy_since(self, busy_since: Option<u64>) -> AppView {
        AppView { busy_since, ..self }
    }

    /// With the field `running_tools` set.
    #[verifier::opaque]
    pub open spec fn with_running_tools(self, running_tools: Seq<RunningToolView>) -> AppView {
        AppView { running_tools, ..self }
    }

    /// With the field `skill_folds` set.
    #[verifier::opaque]
    pub open spec fn with_skill_folds(self, skill_folds: Map<Seq<char>, bool>) -> AppView {
        AppView { skill_folds, ..self }
    }
}

impl App {
    /// The field `strings`.
    pub fn strings(&self) -> (r: &Strings)
        ensures
            (*r)@ == self@.strings,
    {
        proof {
            reveal(app_view);
        }
        &self.strings
    }

    /// The field `clock`.
    pub fn clock(&self) -> (r: u64)
        ensures
            r == self@.clock,
    {
        proof {
            reveal(app_view);
        }
        self.clock
    }

    /// Set the field `clock`.
    pub fn set_clock(&mut self, clock: u64)
        ensures
            final(self)@ == old(self)@.with_clock(clock),
    {
        self.clock = clock;
        proof {
            reveal(app_view);
            reveal(AppView::with_clock);
            assert(self@ == old(self)@.with_clock(clock));
        }
    }

    /// The field `connected`.
    pub fn connected(&self) -> (r: bool)
        ensures
            r == self@.connected,
    {
        proof {
            reveal(app_view);
        }
        self.connected
    }

    /// Set the field `connected`.
    pub fn set_connected(&mut self, connected: bool)
        ensures
            final(self)@ == old(self)@.with_connected(connected),
    {
        self.connected = connected;
        proof {
            reveal(app_view);
            reveal(AppView::with_connected);
            assert(self@ == old(self)@.with_connected(connected));
        }
    }

    /// The field `running`.
    pub fn running(&self) -> (r: bool)
        ensures
            r == self@.running,
    {
        proof {
            reveal(app_view);
        }
        self.running
    }

    /// Set the field `running`.
    pub fn set_running(&mut self, running: bool)
        ensures
            final(self)@ == old(self)@.with_running(running),
    {
        self.running = running;
        proof {
            reveal(app_view);
            reveal(AppView::with_running);
            assert(self@ == old(self)@.with_running(running));
        }
    }

    /// The field `store`.
    pub fn store(&self) -> (r: &SessionStore)
        ensures
            (*r)@ == self@.store,
    {
        proof {
            reveal(app_view);
        }
        &self.store
    }

    /// The field `row_cache`.
    pub fn row_cache(&self) -> (r: &RowCache)
        ensures
            (*r)@ == self@.row_cache,
    {
        proof {
            reveal(app_view);
        }
        &self.row_cache
    }

    /// The field `view`.
    pub fn viewport(&self) -> (r: ViewState)
        ensures
            r == self@.view,
    {
        proof {
            reveal(app_view);
        }
        self.view
    }

    /// Set the field `view`.
    pub fn set_view(&mut self, view: ViewState)
        ensures
            final(self)@ == old(self)@.with_view(view),
    {
        self.view = view;
        proof {
            reveal(app_view);
            reveal(AppView::with_view);
            assert(self@ == old(self)@.with_view(view));
        }
    }

    /// The field `view_mode`.
    pub fn view_mode(&self) -> (r: ViewMode)
        ensures
            r == self@.view_mode,
    {
        proof {
            reveal(app_view);
        }
        self.view_mode
    }

    /// Set the field `view_mode`.
    pub fn set_view_mode(&mut self, view_mode: ViewMode)
        ensures
            final(self)@ == old(self)@.with_view_mode(view_mode),
    {
        self.view_mode = view_mode;
        proof {
            reveal(app_view);
            reveal(AppView::with_view_mode);
            assert(self@ == old(self)@.with_view_mode(view_mode));
        }
    }

    /// The field `active_session`.
    pub fn active_session(&self) -> (r: &Option<SessionId>)
        ensures
            crate::text::opt_view((*r)) == self@.active_session,
    {
        proof {
            reveal(app_view);
        }
        &self.active_session
    }

    /// Set the field `active_session`.
    pub fn set_active_session(&mut self, active_session: Option<SessionId>)
        ensures
            final(self)@ == old(self)@.with_active_session(crate::text::opt_view(active_session)),
    {
        self.active_session = active_session;
        proof {
            reveal(app_view);
            reveal(AppView::with_active_session);
            assert(self@ == old(self)@.with_active_session(crate::text::opt_view(active_session)));
        }
    }

    /// The field `sessions`.
    pub fn sessions(&self) -> (r: &Vec<SessionSummary>)
        ensures
            crate::text::views((*r)@) == self@.sessions,
    {
        proof {
            reveal(app_view);
        }
        &self.sessions
    }

    /// Set the field `sessions`.
    pub fn set_sessions(&mut self, sessions: Vec<SessionSummary>)
        ensures
            final(self)@ == old(self)@.with_sessions(crate::text::views(sessions@)),
    {
        self.sessions = sessions;
        proof {
            reveal(app_view);
            reveal(AppView::with_sessions);
            assert(self@ == old(self)@.with_sessions(crate::text::views(sessions@)));
        }
    }

    /// The field `workspaces`.
    pub fn workspaces(&self) -> (r: &Vec<WorkspaceView>)
        ensures
            crate::text::views((*r)@) == self@.workspaces,
    {
        proof {
            reveal(app_view);
        }
        &self.workspaces
    }

    /// Set the field `workspaces`.
    pub fn set_workspaces(&mut self, workspaces: Vec<WorkspaceView>)
        ensures
            final(self)@ == old(self)@.with_workspaces(crate::text::views(workspaces@)),
    {
        self.workspaces = workspaces;
        proof {
            reveal(app_view);
            reveal(AppView::with_workspaces);
            assert(self@ == old(self)@.with_workspaces(crate::text::views(workspaces@)));
        }
    }

    /// The field `workspace_order`.
    pub fn workspace_order(&self) -> (r: &Vec<WorkspaceId>)
        ensures
            crate::text::views((*r)@) == self@.workspace_order,
    {
        proof {
            reveal(app_view);
        }
        &self.workspace_order
    }

    /// Set the field `workspace_order`.
    pub fn set_workspace_order(&mut self, workspace_order: Vec<WorkspaceId>)
        ensures
            final(self)@ == old(self)@.with_workspace_order(crate::text::views(workspace_order@)),
    {
        self.workspace_order = workspace_order;
        proof {
            reveal(app_view);
            reveal(AppView::with_workspace_order);
            assert(self@ == old(self)@.with_workspace_order(crate::text::views(workspace_order@)));
        }
    }

    /// The field `archived_session_ids`.
    pub fn archived_session_ids(&self) -> (r: &Vec<SessionId>)
        ensures
            crate::text::views((*r)@) == self@.archived_session_ids,
    {
        proof {
            reveal(app_view);
        }
        &self.archived_session_ids
    }

    /// Set the field `archived_session_ids`.
    pub fn set_archived_session_ids(&mut self, archived_session_ids: Vec<SessionId>)
        ensures
            final(self)@ == old(self)@.with_archived_session_ids(crate::text::views(archived_session_ids@)),
    {
        self.archived_session_ids = archived_session_ids;
        proof {
            reveal(app_view);
            reveal(AppView::with_archived_session_ids);
            assert(self@ == old(self)@.with_archived_session_ids(crate::text::views(archived_session_ids@)));
        }
    }

    /// The field `archived_expanded`.
    pub fn archived_expanded(&self) -> (r: bool)
        ensures
            r == self@.archived_expanded,
    {
        proof {
            reveal(app_view);
        }
        self.archived_expanded
    }

    /// Set the field `archived_expanded`.
    pub fn set_archived_expanded(&mut self, archived_expanded: bool)
        ensures
            final(self)@ == old(self)@.with_archived_expanded(archived_expanded),
    {
        self.archived_expanded = archived_expanded;
        proof {
            reveal(app_view);
            reveal(AppView::with_archived_expanded);
            assert(self@ == old(self)@.with_archived_expanded(archived_expanded));
        }
    }

    /// The field `focus`.
    pub fn focus(&self) -> (r: Focus)
        ensures
            r == self@.focus,
    {
        proof {
            reveal(app_view);
        }
        self.focus
    }

    /// Set the field `focus`.
    pub fn set_focus(&mut self, focus: Focus)
        ensures
            final(self)@ == old(self)@.with_focus(focus),
    {
        self.focus = focus;
        proof {
            reveal(app_view);
            reveal(AppView::with_focus);
            assert(self@ == old(self)@.with_focus(focus));
        }
    }

    /// The field `pane_prefix`.
    pub fn pane_prefix(&self) -> (r: bool)
        ensures
            r == self@.pane_prefix,
    {
        proof {
            reveal(app_view);
        }
        self.pane_prefix
    }

    /// Set the field `pane_prefix`.
    pub fn set_pane_prefix(&mut self, pane_prefix: bool)
        ensures
            final(self)@ == old(self)@.with_pane_prefix(pane_prefix),
    {
        self.pane_prefix = pane_prefix;
        proof {
            reveal(app_view);
            reveal(AppView::with_pane_prefix);
            assert(self@ == old(self)@.with_pane_prefix(pane_prefix));
        }
    }

    /// The field `composer`.
    pub fn composer(&self) -> (r: &Composer)
        ensures
            (*r)@ == self@.composer,
    {
        proof {
            reveal(app_view);
        }
        &self.composer
    }

    /// Set the field `composer`.
    pub fn set_composer(&mut self, composer: Composer)
        ensures
            final(self)@ == old(self)@.with_composer(composer@),
    {
        self.composer = composer;
        proof {
            reveal(app_view);
            reveal(AppView::with_composer);
            assert(self@ == old(self)@.with_composer(composer@));
        }
    }

    /// The field `sidebar`.
    pub fn sidebar(&self) -> (r: SidebarState)
        ensures
            r == self@.sidebar,
    {
        proof {
            reveal(app_view);
        }
        self.sidebar
    }

    /// Set the field `sidebar`.
    pub fn set_sidebar(&mut self, sidebar: SidebarState)
        ensures
            final(self)@ == old(self)@.with_sidebar(sidebar),
    {
        self.sidebar = sidebar;
        proof {
            reveal(app_view);
            reveal(AppView::with_sidebar);
            assert(self@ == old(self)@.with_sidebar(sidebar));
        }
    }

    /// The field `sidebar_collapsed`.
    pub fn sidebar_collapsed(&self) -> (r: bool)
        ensures
            r == self@.sidebar_collapsed,
    {
        proof {
            reveal(app_view);
        }
        self.sidebar_collapsed
    }

    /// Set the field `sidebar_collapsed`.
    pub fn set_sidebar_collapsed(&mut self, sidebar_collapsed: bool)
        ensures
            final(self)@ == old(self)@.with_sidebar_collapsed(sidebar_collapsed),
    {
        self.sidebar_collapsed = sidebar_collapsed;
        proof {
            reveal(app_view);
            reveal(AppView::with_sidebar_collapsed);
            assert(self@ == old(self)@.with_sidebar_collapsed(sidebar_collapsed));
        }
    }

    /// The field `theme`.
    pub fn theme(&self) -> (r: &Theme)
        ensures
            (*r)@ == self@.theme,
    {
        proof {
            reveal(app_view);
        }
        &self.theme
    }

    /// Set the field `theme`.
    pub fn set_theme(&mut self, theme: Theme)
        ensures
            final(self)@ == old(self)@.with_theme(theme@),
    {
        self.theme = theme;
        proof {
            reveal(app_view);
            reveal(AppView::with_theme);
            assert(self@ == old(self)@.with_theme(theme@));
        }
    }

    /// The field `locale`.
    pub fn locale(&self) -> (r: Locale)
        ensures
            r == self@.locale,
    {
        proof {
            reveal(app_view);
        }
        self.locale
    }

    /// Set the field `locale`.
    pub fn set_locale(&mut self, locale: Locale)
        ensures
            final(self)@ == old(self)@.with_locale(locale),
    {
        self.locale = locale;
        proof {
            reveal(app_view);
            reveal(AppView::with_locale);
            assert(self@ == old(self)@.with_locale(locale));
        }
    }

    /// The field `themes`.
    pub fn themes(&self) -> (r: &ThemeRegistry)
        ensures
            (*r)@ == self@.themes,
    {
        proof {
            reveal(app_view);
        }
        &self.themes
    }

    /// The field `theme_picker`.
    pub fn theme_picker(&self) -> (r: ThemePicker)
        ensures
            r == self@.theme_picker,
    {
        proof {
            reveal(app_view);
        }
        self.theme_picker
    }

    /// Set the field `theme_picker`.
    pub fn set_theme_picker(&mut self, theme_picker: ThemePicker)
        ensures
            final(self)@ == old(self)@.with_theme_picker(theme_picker),
    {
        self.theme_picker = theme_picker;
        proof {
            reveal(app_view);
            reveal(AppView::with_theme_picker);
            assert(self@ == old(self)@.with_theme_picker(theme_picker));
        }
    }

    /// The field `config`.
    pub fn config(&self) -> (r: &Config)
        ensures
            (*r)@ == self@.config,
    {
        proof {
            reveal(app_view);
        }
        &self.config
    }

    /// Set the field `config`.
    pub fn set_config(&mut self, config: Config)
        ensures
            final(self)@ == old(self)@.with_config(config@),
    {
        self.config = config;
        proof {
            reveal(app_view);
            reveal(AppView::with_config);
            assert(self@ == old(self)@.with_config(config@));
        }
    }

    /// The field `pending_save`.
    pub fn pending_save(&self) -> (r: Option<SaveKind>)
        ensures
            r == self@.pending_save,
    {
        proof {
            reveal(app_view);
        }
        self.pending_save
    }

    /// Set the field `pending_save`.
    pub fn set_pending_save(&mut self, pending_save: Option<SaveKind>)
        ensures
            final(self)@ == old(self)@.with_pending_save(pending_save),
    {
        self.pending_save = pending_save;
        proof {
            reveal(app_view);
            reveal(AppView::with_pending_save);
            assert(self@ == old(self)@.with_pending_save(pending_save));
        }
    }

    /// The field `history_loading`.
    pub fn history_loading(&self) -> (r: &Option<SessionId>)
        ensures
            crate::text::opt_view((*r)) == self@.history_loading,
    {
        proof {
            reveal(app_view);
        }
        &self.history_loading
    }

    /// Set the field `history_loading`.
    pub fn set_history_loading(&mut self, history_loading: Option<SessionId>)
        ensures
            final(self)@ == old(self)@.with_history_loading(crate::text::opt_view(history_loading)),
    {
        self.history_loading = history_loading;
        proof {
            reveal(app_view);
            reveal(AppView::with_history_loading);
            assert(self@ == old(self)@.with_history_loading(crate::text::opt_view(history_loading)));
        }
    }

    /// The field `queue_popup_open`.
    pub fn queue_popup_open(&self) -> (r: bool)
        ensures
            r == self@.queue_popup_open,
    {
        proof {
            reveal(app_view);
        }
        self.queue_popup_open
    }

    /// Set the field `queue_popup_open`.
    pub fn set_queue_popup_open(&mut self, queue_popup_open: bool)
        ensures
            final(self)@ == old(self)@.with_queue_popup_open(queue_popup_open),
    {
        self.queue_popup_open = queue_popup_open;
        proof {
            reveal(app_view);
            reveal(AppView::with_queue_popup_open);
            assert(self@ == old(self)@.with_queue_popup_open(queue_popup_open));
        }
    }

    /// The field `queue_scroll`.
    pub fn queue_scroll(&self) -> (r: usize)
        ensures
            r == self@.queue_scroll,
    {
        proof {
            reveal(app_view);
        }
        self.queue_scroll
    }

    /// Set the field `queue_scroll`.
    pub fn set_queue_scroll(&mut self, queue_scroll: usize)
        ensures
            final(self)@ == old(self)@.with_queue_scroll(queue_scroll),
    {
        self.queue_scroll = queue_scroll;
        proof {
            reveal(app_view);
            reveal(AppView::with_queue_scroll);
            assert(self@ == old(self)@.with_queue_scroll(queue_scroll));
        }
    }

    /// The field `queue_action_sending`.
    pub fn queue_action_sending(&self) -> (r: bool)
        ensures
            r == self@.queue_action_sending,
    {
        proof {
            reveal(app_view);
        }
        self.queue_action_sending
    }

    /// Set the field `queue_action_sending`.
    pub fn set_queue_action_sending(&mut self, queue_action_sending: bool)
        ensures
            final(self)@ == old(self)@.with_queue_action_sending(queue_action_sending),
    {
        self.queue_action_sending = queue_action_sending;
        proof {
            reveal(app_view);
            reveal(AppView::with_queue_action_sending);
            assert(self@ == old(self)@.with_queue_action_sending(queue_action_sending));
        }
    }

    /// The field `queue_editor`.
    pub fn queue_editor(&self) -> (r: &Option<Editor>)
        ensures
            crate::text::opt_view((*r)) == self@.queue_editor,
    {
        proof {
            reveal(app_view);
        }
        &self.queue_editor
    }

    /// Set the field `queue_editor`.
    pub fn set_queue_editor(&mut self, queue_editor: Option<Editor>)
        ensures
            final(self)@ == old(self)@.with_queue_editor(crate::text::opt_view(queue_editor)),
    {
        self.queue_editor = queue_editor;
        proof {
            reveal(app_view);
            reveal(AppView::with_queue_editor);
            assert(self@ == old(self)@.with_queue_editor(crate::text::opt_view(queue_editor)));
        }
    }

    /// The field `rename_editor`.
    pub fn rename_editor(&self) -> (r: &Option<RenameEditor>)
        ensures
            crate::text::opt_view((*r)) == self@.rename_editor,
    {
        proof {
            reveal(app_view);
        }
        &self.rename_editor
    }

    /// Set the field `rename_editor`.
    pub fn set_rename_editor(&mut self, rename_editor: Option<RenameEditor>)
        ensures
            final(self)@ == old(self)@.with_rename_editor(crate::text::opt_view(rename_editor)),
    {
        self.rename_editor = rename_editor;
        proof {
            reveal(app_view);
            reveal(AppView::with_rename_editor);
            assert(self@ == old(self)@.with_rename_editor(crate::text::opt_view(rename_editor)));
        }
    }

    /// The field `workspace_rename`.
    pub fn workspace_rename(&self) -> (r: &Option<Editor>)
        ensures
            crate::text::opt_view((*r)) == self@.workspace_rename,
    {
        proof {
            reveal(app_view);
        }
        &self.workspace_rename
    }

    /// Set the field `workspace_rename`.
    pub fn set_workspace_rename(&mut self, workspace_rename: Option<Editor>)
        ensures
            final(self)@ == old(self)@.with_workspace_rename(crate::text::opt_view(workspace_rename)),
    {
        self.workspace_rename = workspace_rename;
        proof {
            reveal(app_view);
            reveal(AppView::with_workspace_rename);
            assert(self@ == old(self)@.with_workspace_rename(crate::text::opt_view(workspace_rename)));
        }
    }

    /// The field `workspace_editor`.
    pub fn workspace_editor(&self) -> (r: &Option<Editor>)
        ensures
            crate::text::opt_view((*r)) == self@.workspace_editor,
    {
        proof {
            reveal(app_view);
        }
        &self.workspace_editor
    }

    /// Set the field `workspace_editor`.
    pub fn set_workspace_editor(&mut self, workspace_editor: Option<Editor>)
        ensures
            final(self)@ == old(self)@.with_workspace_editor(crate::text::opt_view(workspace_editor)),
    {
        self.workspace_editor = workspace_editor;
        proof {
            reveal(app_view);
            reveal(AppView::with_workspace_editor);
            assert(self@ == old(self)@.with_workspace_editor(crate::text::opt_view(workspace_editor)));
        }
    }

    /// The field `view_options`.
    pub fn view_options(&self) -> (r: Option<usize>)
        ensures
            r == self@.view_options,
    {
        proof {
            reveal(app_view);
        }
        self.view_options
    }

    /// Set the field `view_options`.
    pub fn set_view_options(&mut self, view_options: Option<usize>)
        ensures
            final(self)@ == old(self)@.with_view_options(view_options),
    {
        self.view_options = view_options;
        proof {
            reveal(app_view);
            reveal(AppView::with_view_options);
            assert(self@ == old(self)@.with_view_options(view_options));
        }
    }

    /// The field `sidebar_action_sending`.
    pub fn sidebar_action_sending(&self) -> (r: bool)
        ensures
            r == self@.sidebar_action_sending,
    {
        proof {
            reveal(app_view);
        }
        self.sidebar_action_sending
    }

    /// Set the field `sidebar_action_sending`.
    pub fn set_sidebar_action_sending(&mut self, sidebar_action_sending: bool)
        ensures
            final(self)@ == old(self)@.with_sidebar_action_sending(sidebar_action_sending),
    {
        self.sidebar_action_sending = sidebar_action_sending;
        proof {
            reveal(app_view);
            reveal(AppView::with_sidebar_action_sending);
            assert(self@ == old(self)@.with_sidebar_action_sending(sidebar_action_sending));
        }
    }

    /// The field `new_session`.
    pub fn new_session(&self) -> (r: Option<NewSessionState>)
        ensures
            r == self@.new_session,
    {
        proof {
            reveal(app_view);
        }
        self.new_session
    }

    /// Set the field `new_session`.
    pub fn set_new_session(&mut self, new_session: Option<NewSessionState>)
        ensures
            final(self)@ == old(self)@.with_new_session(new_session),
    {
        self.new_session = new_session;
        proof {
            reveal(app_view);
            reveal(AppView::with_new_session);
            assert(self@ == old(self)@.with_new_session(new_session));
        }
    }

    /// The field `sidebar_search`.
    pub fn sidebar_search(&self) -> (r: &Option<SidebarSearchState>)
        ensures
            crate::text::opt_view((*r)) == self@.sidebar_search,
    {
        proof {
            reveal(app_view);
        }
        &self.sidebar_search
    }

    /// Set the field `sidebar_search`.
    pub fn set_sidebar_search(&mut self, sidebar_search: Option<SidebarSearchState>)
        ensures
            final(self)@ == old(self)@.with_sidebar_search(crate::text::opt_view(sidebar_search)),
    {
        self.sidebar_search = sidebar_search;
        proof {
            reveal(app_view);
            reveal(AppView::with_sidebar_search);
            assert(self@ == old(self)@.with_sidebar_search(crate::text::opt_view(sidebar_search)));
        }
    }

    /// The field `at_catalog`.
    pub fn at_catalog(&self) -> (r: &Option<AtCatalog>)
        ensures
            crate::text::opt_view((*r)) == self@.at_catalog,
    {
        proof {
            reveal(app_view);
        }
        &self.at_catalog
    }

    /// Set the field `at_catalog`.
    pub fn set_at_catalog(&mut self, at_catalog: Option<AtCatalog>)
        ensures
            final(self)@ == old(self)@.with_at_catalog(crate::text::opt_view(at_catalog)),
    {
        self.at_catalog = at_catalog;
        proof {
            reveal(app_view);
            reveal(AppView::with_at_catalog);
            assert(self@ == old(self)@.with_at_catalog(crate::text::opt_view(at_catalog)));
        }
    }

    /// The field `launcher`.
    pub fn launcher(&self) -> (r: &Option<LauncherState>)
        ensures
            crate::text::opt_view((*r)) == self@.launcher,
    {
        proof {
            reveal(app_view);
        }
        &self.launcher
    }

    /// Set the field `launcher`.
    pub fn set_launcher(&mut self, launcher: Option<LauncherState>)
        ensures
            final(self)@ == old(self)@.with_launcher(crate::text::opt_view(launcher)),
    {
        self.launcher = launcher;
        proof {
            reveal(app_view);
            reveal(AppView::with_launcher);
            assert(self@ == old(self)@.with_launcher(crate::text::opt_view(launcher)));
        }
    }

    /// The field `popup_list`.
    pub fn popup_list(&self) -> (r: &Vec<CatalogEntry>)
        ensures
            crate::text::views((*r)@) == self@.popup_list,
    {
        proof {
            reveal(app_view);
        }
        &self.popup_list
    }

    /// Set the field `popup_list`.
    pub fn set_popup_list(&mut self, popup_list: Vec<CatalogEntry>)
        ensures
            final(self)@ == old(self)@.with_popup_list(crate::text::views(popup_list@)),
    {
        self.popup_list = popup_list;
        proof {
            reveal(app_view);
            reveal(AppView::with_popup_list);
            assert(self@ == old(self)@.with_popup_list(crate::text::views(popup_list@)));
        }
    }

    /// The field `launcher_list`.
    pub fn launcher_list(&self) -> (r: &Vec<LauncherEntry>)
        ensures
            crate::text::views((*r)@) == self@.launcher_list,
    {
        proof {
            reveal(app_view);
        }
        &self.launcher_list
    }

    /// Set the field `launcher_list`.
    pub fn set_launcher_list(&mut self, launcher_list: Vec<LauncherEntry>)
        ensures
            final(self)@ == old(self)@.with_launcher_list(crate::text::views(launcher_list@)),
    {
        self.launcher_list = launcher_list;
        proof {
            reveal(app_view);
            reveal(AppView::with_launcher_list);
            assert(self@ == old(self)@.with_launcher_list(crate::text::views(launcher_list@)));
        }
    }

    /// The field `last_error`.
    pub fn last_error(&self) -> (r: &Option<String>)
        ensures
            crate::text::opt_view((*r)) == self@.last_error,
    {
        proof {
            reveal(app_view);
        }
        &self.last_error
    }

    /// Set the field `last_error`.
    pub fn set_last_error(&mut self, last_error: Option<String>)
        ensures
            final(self)@ == old(self)@.with_last_error(crate::text::opt_view(last_error)),
    {
        self.last_error = last_error;
        proof {
            reveal(app_view);
            reveal(AppView::with_last_error);
            assert(self@ == old(self)@.with_last_error(crate::text::opt_view(last_error)));
        }
    }

    /// The field `pending_approvals`.
    pub fn pending_approvals(&self) -> (r: &Vec<ApprovalPending>)
        ensures
            crate::text::views((*r)@) == self@.pending_approvals,
    {
        proof {
            reveal(app_view);
        }
        &self.pending_approvals
    }

    /// Set the field `pending_approvals`.
    pub fn set_pending_approvals(&mut self, pending_approvals: Vec<ApprovalPending>)
        ensures
            final(self)@ == old(self)@.with_pending_approvals(crate::text::views(pending_approvals@)),
    {
        self.pending_approvals = pending_approvals;
        proof {
            reveal(app_view);
            reveal(AppView::with_pending_approvals);
            assert(self@ == old(self)@.with_pending_approvals(crate::text::views(pending_approvals@)));
        }
    }

    /// The field `pending_questions`.
    pub fn pending_questions(&self) -> (r: &Vec<QuestionPending>)
        ensures
            crate::text::views((*r)@) == self@.pending_questions,
    {
        proof {
            reveal(app_view);
        }
        &self.pending_questions
    }

    /// Set the field `pending_questions`.
    pub fn set_pending_questions(&mut self, pending_questions: Vec<QuestionPending>)
        ensures
            final(self)@ == old(self)@.with_pending_questions(crate::text::views(pending_questions@)),
    {
        self.pending_questions = pending_questions;
        proof {
            reveal(app_view);
            reveal(AppView::with_pending_questions);
            assert(self@ == old(self)@.with_pending_questions(crate::text::views(pending_questions@)));
        }
    }

    /// The field `pending_seq`.
    pub fn pending_seq(&self) -> (r: u64)
        ensures
            r == self@.pending_seq,
    {
        proof {
            reveal(app_view);
        }
        self.pending_seq
    }

    /// Set the field `pending_seq`.
    pub fn set_pending_seq(&mut self, pending_seq: u64)
        ensures
            final(self)@ == old(self)@.with_pending_seq(pending_seq),
    {
        self.pending_seq = pending_seq;
        proof {
            reveal(app_view);
            reveal(AppView::with_pending_seq);
            assert(self@ == old(self)@.with_pending_seq(pending_seq));
        }
    }

    /// The field `mode`.
    pub fn mode(&self) -> (r: &Mode)
        ensures
            (*r)@ == self@.mode,
    {
        proof {
            reveal(app_view);
        }
        &self.mode
    }

    /// Set the field `mode`.
    pub fn set_mode(&mut self, mode: Mode)
        ensures
            final(self)@ == old(self)@.with_mode(mode@),
    {
        self.mode = mode;
        proof {
            reveal(app_view);
            reveal(AppView::with_mode);
            assert(self@ == old(self)@.with_mode(mode@));
        }
    }

    /// The field `graphics`.
    pub fn graphics(&self) -> (r: bool)
        ensures
            r == self@.graphics,
    {
        proof {
            reveal(app_view);
        }
        self.graphics
    }

    /// Set the field `graphics`.
    pub fn set_graphics(&mut self, graphics: bool)
        ensures
            final(self)@ == old(self)@.with_graphics(graphics),
    {
        self.graphics = graphics;
        proof {
            reveal(app_view);
            reveal(AppView::with_graphics);
            assert(self@ == old(self)@.with_graphics(graphics));
        }
    }

    /// The field `image_cache`.
    pub fn image_cache(&self) -> (r: &ImageCache)
        ensures
            (*r)@ == self@.image_cache,
    {
        proof {
            reveal(app_view);
        }
        &self.image_cache
    }

    /// The field `pending_attachments`.
    pub fn pending_attachments(&self) -> (r: &Vec<String>)
        ensures
            crate::text::views((*r)@) == self@.pending_attachments,
    {
        proof {
            reveal(app_view);
        }
        &self.pending_attachments
    }

    /// Set the field `pending_attachments`.
    pub fn set_pending_attachments(&mut self, pending_attachments: Vec<String>)
        ensures
            final(self)@ == old(self)@.with_pending_attachments(crate::text::views(pending_attachments@)),
    {
        self.pending_attachments = pending_attachments;
        proof {
            reveal(app_view);
            reveal(AppView::with_pending_attachments);
            assert(self@ == old(self)@.with_pending_attachments(crate::text::views(pending_attachments@)));
        }
    }

    /// The field `toast`.
    pub fn toast(&self) -> (r: &Option<Toast>)
        ensures
            crate::text::opt_view((*r)) == self@.toast,
    {
        proof {
            reveal(app_view);
        }
        &self.toast
    }

    /// Set the field `toast`.
    pub fn put_toast(&mut self, toast: Option<Toast>)
        ensures
            final(self)@ == old(self)@.with_toast(crate::text::opt_view(toast)),
    {
        self.toast = toast;
        proof {
            reveal(app_view);
            reveal(AppView::with_toast);
            assert(self@ == old(self)@.with_toast(crate::text::opt_view(toast)));
        }
    }

    /// The field `hint`.
    pub fn hint(&self) -> (r: &Option<String>)
        ensures
            crate::text::opt_view((*r)) == self@.hint,
    {
        proof {
            reveal(app_view);
        }
        &self.hint
    }

    /// Set the field `hint`.
    pub fn set_hint(&mut self, hint: Option<String>)
        ensures
            final(self)@ == old(self)@.with_hint(crate::text::opt_view(hint)),
    {
        self.hint = hint;
        proof {
            reveal(app_view);
            reveal(AppView::with_hint);
            assert(self@ == old(self)@.with_hint(crate::text::opt_view(hint)));
        }
    }

    /// The field `copied_flash`.
    pub fn copied_flash(&self) -> (r: &Option<Toast>)
        ensures
            crate::text::opt_view((*r)) == self@.copied_flash,
    {
        proof {
            reveal(app_view);
        }
        &self.copied_flash
    }

    /// Set the field `copied_flash`.
    pub fn set_copied_flash(&mut self, copied_flash: Option<Toast>)
        ensures
            final(self)@ == old(self)@.with_copied_flash(crate::text::opt_view(copied_flash)),
    {
        self.copied_flash = copied_flash;
        proof {
            reveal(app_view);
            reveal(AppView::with_copied_flash);
            assert(self@ == old(self)@.with_copied_flash(crate::text::opt_view(copied_flash)));
        }
    }

    /// The field `clipboard`.
    pub fn clipboard(&self) -> (r: &Option<String>)
        ensures
            crate::text::opt_view((*r)) == self@.clipboard,
    {
        proof {
            reveal(app_view);
        }
        &self.clipboard
    }

    /// Set the field `clipboard`.
    pub fn set_clipboard(&mut self, clipboard: Option<String>)
        ensures
            final(self)@ == old(self)@.with_clipboard(crate::text::opt_view(clipboard)),
    {
        self.clipboard = clipboard;
        proof {
            reveal(app_view);
            reveal(AppView::with_clipboard);
            assert(self@ == old(self)@.with_clipboard(crate::text::opt_view(clipboard)));
        }
    }

    /// The field `needs_draw`.
    pub fn needs_draw(&self) -> (r: bool)
        ensures
            r == self@.needs_draw,
    {
        proof {
            reveal(app_view);
        }
        self.needs_draw
    }

    /// Set the field `needs_draw`.
    pub fn set_needs_draw(&mut self, needs_draw: bool)
        ensures
            final(self)@ == old(self)@.with_needs_draw(needs_draw),
    {
        self.needs_draw = needs_draw;
        proof {
            reveal(app_view);
            reveal(AppView::with_needs_draw);
            assert(self@ == old(self)@.with_needs_draw(needs_draw));
        }
    }

    /// The field `last_draw`.
    pub fn last_draw(&self) -> (r: Option<u64>)
        ensures
            r == self@.last_draw,
    {
        proof {
            reveal(app_view);
        }
        self.last_draw
    }

    /// Set the field `last_draw`.
    pub fn set_last_draw(&mut self, last_draw: Option<u64>)
        ensures
            final(self)@ == old(self)@.with_last_draw(last_draw),
    {
        self.last_draw = last_draw;
        proof {
            reveal(app_view);
            reveal(AppView::with_last_draw);
            assert(self@ == old(self)@.with_last_draw(last_draw));
        }
    }

    /// The field `draws`.
    pub fn draws(&self) -> (r: usize)
        ensures
            r == self@.draws,
    {
        proof {
            reveal(app_view);
        }
        self.draws
    }

    /// Set the field `draws`.
    pub fn set_draws(&mut self, draws: usize)
        ensures
            final(self)@ == old(self)@.with_draws(draws),
    {
        self.draws = draws;
        proof {
            reveal(app_view);
            reveal(AppView::with_draws);
            assert(self@ == old(self)@.with_draws(draws));
        }
    }

    /// The field `sidebar_area`.
    pub fn sidebar_area(&self) -> (r: Area)
        ensures
            r == self@.sidebar_area,
    {
        proof {
            reveal(app_view);
        }
        self.sidebar_area
    }

    /// Set the field `sidebar_area`.
    pub fn set_sidebar_area(&mut self, sidebar_area: Area)
        ensures
            final(self)@ == old(self)@.with_sidebar_area(sidebar_area),
    {
        self.sidebar_area = sidebar_area;
        proof {
            reveal(app_view);
            reveal(AppView::with_sidebar_area);
            assert(self@ == old(self)@.with_sidebar_area(sidebar_area));
        }
    }

    /// The field `chat_area`.
    pub fn chat_area(&self) -> (r: Area)
        ensures
            r == self@.chat_area,
    {
        proof {
            reveal(app_view);
        }
        self.chat_area
    }

    /// Set the field `chat_area`.
    pub fn set_chat_area(&mut self, chat_area: Area)
        ensures
            final(self)@ == old(self)@.with_chat_area(chat_area),
    {
        self.chat_area = chat_area;
        proof {
            reveal(app_view);
            reveal(AppView::with_chat_area);
            assert(self@ == old(self)@.with_chat_area(chat_area));
        }
    }

    /// The field `composer_area`.
    pub fn composer_area(&self) -> (r: Area)
        ensures
            r == self@.composer_area,
    {
        proof {
            reveal(app_view);
        }
        self.composer_area
    }

    /// Set the field `composer_area`.
    pub fn set_composer_area(&mut self, composer_area: Area)
        ensures
            final(self)@ == old(self)@.with_composer_area(composer_area),
    {
        self.composer_area = composer_area;
        proof {
            reveal(app_view);
            reveal(AppView::with_composer_area);
            assert(self@ == old(self)@.with_composer_area(composer_area));
        }
    }

    /// The field `selection`.
    pub fn selection(&self) -> (r: Option<(CellPos, CellPos)>)
        ensures
            r == self@.selection,
    {
        proof {
            reveal(app_view);
        }
        self.selection
    }

    /// Set the field `selection`.
    pub fn set_selection(&mut self, selection: Option<(CellPos, CellPos)>)
        ensures
            final(self)@ == old(self)@.with_selection(selection),
    {
        self.selection = selection;
        proof {
            reveal(app_view);
            reveal(AppView::with_selection);
            assert(self@ == old(self)@.with_selection(selection));
        }
    }

    /// The field `select_mode`.
    pub fn select_mode(&self) -> (r: bool)
        ensures
            r == self@.select_mode,
    {
        proof {
            reveal(app_view);
        }
        self.select_mode
    }

    /// Set the field `select_mode`.
    pub fn set_select_mode(&mut self, select_mode: bool)
        ensures
            final(self)@ == old(self)@.with_select_mode(select_mode),
    {
        self.select_mode = select_mode;
        proof {
            reveal(app_view);
            reveal(AppView::with_select_mode);
            assert(self@ == old(self)@.with_select_mode(select_mode));
        }
    }

    /// The field `drawer_open`.
    pub fn drawer_open(&self) -> (r: bool)
        ensures
            r == self@.drawer_open,
    {
        proof {
            reveal(app_view);
        }
        self.drawer_open
    }

    /// Set the field `drawer_open`.
    pub fn set_drawer_open(&mut self, drawer_open: bool)
        ensures
            final(self)@ == old(self)@.with_drawer_open(drawer_open),
    {
        self.drawer_open = drawer_open;
        proof {
            reveal(app_view);
            reveal(AppView::with_drawer_open);
            assert(self@ == old(self)@.with_drawer_open(drawer_open));
        }
    }

    /// The field `drawer_prior_focus`.
    pub fn drawer_prior_focus(&self) -> (r: Focus)
        ensures
            r == self@.drawer_prior_focus,
    {
        proof {
            reveal(app_view);
        }
        self.drawer_prior_focus
    }

    /// Set the field `drawer_prior_focus`.
    pub fn set_drawer_prior_focus(&mut self, drawer_prior_focus: Focus)
        ensures
            final(self)@ == old(self)@.with_drawer_prior_focus(drawer_prior_focus),
    {
        self.drawer_prior_focus = drawer_prior_focus;
        proof {
            reveal(app_view);
            reveal(AppView::with_drawer_prior_focus);
            assert(self@ == old(self)@.with_drawer_prior_focus(drawer_prior_focus));
        }
    }

    /// The field `drawer_prior_hint`.
    pub fn drawer_prior_hint(&self) -> (r: &Option<String>)
        ensures
            crate::text::opt_view((*r)) == self@.drawer_prior_hint,
    {
        proof {
            reveal(app_view);
        }
        &self.drawer_prior_hint
    }

    /// Set the field `drawer_prior_hint`.
    pub fn set_drawer_prior_hint(&mut self, drawer_prior_hint: Option<String>)
        ensures
            final(self)@ == old(self)@.with_drawer_prior_hint(crate::text::opt_view(drawer_prior_hint)),
    {
        self.drawer_prior_hint = drawer_prior_hint;
        proof {
            reveal(app_view);
            reveal(AppView::with_drawer_prior_hint);
            assert(self@ == old(self)@.with_drawer_prior_hint(crate::text::opt_view(drawer_prior_hint)));
        }
    }

    /// The field `drawer_hint_shown`.
    pub fn drawer_hint_shown(&self) -> (r: bool)
        ensures
            r == self@.drawer_hint_shown,
    {
        proof {
            reveal(app_view);
        }
        self.drawer_hint_shown
    }

    /// Set the field `drawer_hint_shown`.
    pub fn set_drawer_hint_shown(&mut self, drawer_hint_shown: bool)
        ensures
            final(self)@ == old(self)@.with_drawer_hint_shown(drawer_hint_shown),
    {
        self.drawer_hint_shown = drawer_hint_shown;
        proof {
            reveal(app_view);
            reveal(AppView::with_drawer_hint_shown);
            assert(self@ == old(self)@.with_drawer_hint_shown(drawer_hint_shown));
        }
    }

    /// The field `terminal_width`.
    pub fn terminal_width(&self) -> (r: u16)
        ensures
            r == self@.terminal_width,
    {
        proof {
            reveal(app_view);
        }
        self.terminal_width
    }

    /// Set the field `terminal_width`.
    pub fn set_terminal_width(&mut self, terminal_width: u16)
        ensures
            final(self)@ == old(self)@.with_terminal_width(terminal_width),
    {
        self.terminal_width = terminal_width;
        proof {
            reveal(app_view);
            reveal(AppView::with_terminal_width);
            assert(self@ == old(self)@.with_terminal_width(terminal_width));
        }
    }

    /// The field `spinner_frame`.
    pub fn spinner_frame(&self) -> (r: usize)
        ensures
            r == self@.spinner_frame,
    {
        proof {
            reveal(app_view);
        }
        self.spinner_frame
    }

    /// Set the field `spinner_frame`.
    pub fn set_spinner_frame(&mut self, spinner_frame: usize)
        ensures
            final(self)@ == old(self)@.with_spinner_frame(spinner_frame),
    {
        self.spinner_frame = spinner_frame;
        proof {
            reveal(app_view);
            reveal(AppView::with_spinner_frame);
            assert(self@ == old(self)@.with_spinner_frame(spinner_frame));
        }
    }

    /// The field `session_model`.
    pub fn session_model(&self) -> (r: &Option<ModelSelection>)
        ensures
            crate::text::opt_view((*r)) == self@.session_model,
    {
        proof {
            reveal(app_view);
        }
        &self.session_model
    }

    /// Set the field `session_model`.
    pub fn set_session_model(&mut self, session_model: Option<ModelSelection>)
        ensures
            final(self)@ == old(self)@.with_session_model(crate::text::opt_view(session_model)),
    {
        self.session_model = session_model;
        proof {
            reveal(app_view);
            reveal(AppView::with_session_model);
            assert(self@ == old(self)@.with_session_model(crate::text::opt_view(session_model)));
        }
    }

    /// The field `busy_since`.
    pub fn busy_since(&self) -> (r: Option<u64>)
        ensures
            r == self@.busy_since,
    {
        proof {
            reveal(app_view);
        }
        self.busy_since
    }

    /// Set the field `busy_since`.
    pub fn set_busy_since(&mut self, busy_since: Option<u64>)
        ensures
            final(self)@ == old(self)@.with_busy_since(busy_since),
    {
        self.busy_since = busy_since;
        proof {
            reveal(app_view);
            reveal(AppView::with_busy_since);
            assert(self@ == old(self)@.with_busy_since(busy_since));
        }
    }

    /// The field `running_tools`.
    pub fn running_tools(&self) -> (r: &Vec<RunningTool>)
        ensures
            crate::text::views((*r)@) == self@.running_tools,
    {
        proof {
            reveal(app_view);
        }
        &self.running_tools
    }

    /// Set the field `running_tools`.
    pub fn set_running_tools(&mut self, running_tools: Vec<RunningTool>)
        ensures
            final(self)@ == old(self)@.with_running_tools(crate::text::views(running_tools@)),
    {
        self.running_tools = running_tools;
        proof {
            reveal(app_view);
            reveal(AppView::with_running_tools);
            assert(self@ == old(self)@.with_running_tools(crate::text::views(running_tools@)));
        }
    }

    /// The field `skill_folds`.
    pub fn skill_folds(&self) -> (r: &Table<bool>)
        ensures
            (*r)@ == self@.skill_folds,
    {
        proof {
            reveal(app_view);
        }
        &self.skill_folds
    }

    /// Set the field `skill_folds`.
    pub fn set_skill_folds(&mut self, skill_folds: Table<bool>)
        ensures
            final(self)@ == old(self)@.with_skill_folds(skill_folds@),
    {
        self.skill_folds = skill_folds;
        proof {
            reveal(app_view);
            reveal(AppView::with_skill_folds);
            assert(self@ == old(self)@.with_skill_folds(skill_folds@));
        }
    }
}

/// What stops the application.
#[derive(Debug)]
pub enum AppError {
    Client(ClientError),
    Io(String),
    Store(StoreError),
}

/// What an [`AppError`] stands for.
pub enum AppErrorView {
    Client(ClientErrorView),
    Io(Seq<char>),
    Store(StoreErrorView),
}

impl View for AppError {
    type V = AppErrorView;

    open spec fn view(&self) -> AppErrorView {
        match *self {
            AppError::Client(e) => AppErrorView::Client(e@),
            AppError::Io(reason) => AppErrorView::Io(reason@),
            AppError::Store(e) => AppErrorView::Store(e@),
        }
    }
}

impl AppError {
    /// The error in words.
    pub fn message(&self) -> (r: String)
        ensures
            r@ == (match self@ {
                AppErrorView::Client(e) => "client error: "@ + crate::client::error_text(e),
                AppErrorView::Io(reason) => "io error: "@ + reason,
                AppErrorView::Store(e) => "store error: "@ + crate::store::error_text(e),
            }),
    {
        match self {
            AppError::Client(e) => joined("client error: ", e.message().as_str()),
            AppError::Io(reason) => joined("io error: ", reason.as_str()),
            AppError::Store(e) => joined("store error: ", e.message().as_str()),
        }
    }
}

impl Default for Focus {
    fn default() -> (r: Self)
        ensures
            r == Focus::Chat,
    {
        Focus::Chat
    }
}

impl Focus {
    /// The surface that Tab leads to.
    pub open spec fn following(self) -> Focus {
        match self {
            Focus::Chat => Focus::Composer,
            Focus::Composer => Focus::Sidebar,
            Focus::Sidebar => Focus::Chat,
        }
    }

    /// The surface that Tab leads to.
    pub fn next(self) -> (r: Self)
        ensures
            r == self.following(),
    {
        match self {
            Focus::Chat => Focus::Composer,
            Focus::Composer => Focus::Sidebar,
            Focus::Sidebar => Focus::Chat,
        }
    }

    /// The key of the surface's name.
    pub open spec fn name(self) -> Seq<char> {
        match self {
            Focus::Chat => "focus.chat"@,
            Focus::Composer => "focus.composer"@,
            Focus::Sidebar => "focus.sidebar"@,
        }
    }

    /// The surface's name.
    pub fn label<'a>(self, strings: &'a Strings, locale: Locale) -> (r: &'a str)
        ensures
            r@ == crate::i18n::text_of(strings@, locale, self.name()),
    {
        match self {
            Focus::Chat => tr(strings, locale, "focus.chat"),
            Focus::Composer => tr(strings, locale, "focus.composer"),
            Focus::Sidebar => tr(strings, locale, "focus.sidebar"),
        }
    }
}

/// Three Tabs lead back, over both other surfaces.
pub proof fn law_focus_cycle(focus: Focus)
    ensures
        focus.following() != focus,
        focus.following().following() != focus,
        focus.following().following() != focus.following(),
        focus.following().following().following() == focus,
{
}

impl Default for ViewState {
    fn default() -> (r: Self)
        ensures
            r == (ViewState { offset: 0, follow: true, viewport_height: 24 }),
    {
        ViewState { offset: 0, follow: true, viewport_height: 24 }
    }
}

impl Area {
    /// A rectangle without cells.
    pub open spec fn none() -> Area {
        Area { x: 0, y: 0, width: 0, height: 0 }
    }

    /// Whether a cell lies inside.
    pub open spec fn holds(self, column: u16, row: u16) -> bool {
        self.x <= column < self.x + self.width && self.y <= row < self.y + self.height
    }

    /// Whether a cell lies inside.
    pub fn contains(&self, column: u16, row: u16) -> (r: bool)
        ensures
            r == self.holds(column, row),
    {
        self.x <= column && column - self.x < self.width && self.y <= row && row - self.y
            < self.height
    }
}

impl AppView {
    /// The text of a key.
    pub open spec fn text(self, key: Seq<char>) -> Seq<char> {
        crate::i18n::text_of(self.strings, self.locale, key)
    }

    /// The text of a key with its placeholders filled in.
    pub open spec fn text_with(self, key: Seq<char>, args: Seq<Seq<char>>) -> Seq<char> {
        crate::i18n::text_with(self.strings, self.locale, key, args)
    }

    /// With a toast.
    pub open spec fn toasted(self, text: Seq<char>) -> AppView {
        self.with_toast(Some(ToastView { text, at: self.clock }))
    }

    /// The configuration changed, and to be written.
    pub open spec fn configured(self, config: ConfigView, save: SaveKind) -> AppView {
        self.with_config(config).with_pending_save(Some(save))
    }

    /// With a hint.
    pub open spec fn hinted(self, text: Seq<char>) -> AppView {
        self.with_hint(Some(text))
    }

    /// With the text of a key as the toast.
    pub open spec fn noted(self, key: Seq<char>) -> AppView {
        self.toasted(self.text(key))
    }

    /// With the text of a key, its placeholder filled in, as the toast.
    pub open spec fn noted_with(self, key: Seq<char>, arg: Seq<char>) -> AppView {
        self.toasted(self.text_with(key, seq![arg]))
    }

    /// With the text of a key as the hint.
    pub open spec fn advised(self, key: Seq<char>) -> AppView {
        self.hinted(self.text(key))
    }

    /// Without a hint.
    pub open spec fn unhinted(self) -> AppView {
        self.with_hint(None)
    }

    /// With every row to be rendered anew.
    pub open spec fn invalidated(self) -> AppView {
        self.with_row_cache(
            RowCacheView {
                rows: Seq::empty(),
                dirty: Seq::empty(),
                width: self.row_cache.width,
            },
        )
    }

    /// The state of the active session.
    pub open spec fn active_state(self) -> Option<crate::store::session::SessionView> {
        match self.active_session {
            Some(id) => if self.store.sessions.dom().contains(id) {
                Some(self.store.sessions[id])
            } else {
                None
            },
            None => None,
        }
    }

    /// Whether the active session has a turn in flight: its row says so, or its last node is
    /// not settled.
    pub open spec fn busy(self) -> bool {
        match self.active_session {
            Some(id) => crate::app::sidebar::runs(self.sessions, id) || (self.active_state() is Some
                && self.active_state()->0.unsettled()),
            None => false,
        }
    }

    /// Whether an age has reached a limit: what lies in the future has none.
    pub open spec fn aged(self, at: u64, limit: u64) -> bool {
        self.clock - at >= limit
    }

    /// Without a toast whose time is over.
    pub open spec fn toast_expired(self) -> AppView {
        if self.toast is Some && self.aged(self.toast->0.at, TOAST_TTL_MS) {
            self.with_toast(None).with_needs_draw(true)
        } else {
            self
        }
    }

    /// Without the note of a copied text whose time is over.
    pub open spec fn flash_expired(self) -> AppView {
        if self.copied_flash is Some && self.aged(self.copied_flash->0.at, COPY_FLASH_TTL_MS) {
            self.with_copied_flash(None).with_needs_draw(true)
        } else {
            self
        }
    }

    /// With the next picture of the spinner, which is to be drawn only while the chat is busy.
    pub open spec fn spun(self) -> AppView {
        self.with_spinner_frame(self.spinner_frame.wrapping_add(1)).with_needs_draw(
            self.needs_draw || (self.mode is Chat && self.busy()),
        )
    }
}

impl App {
    /// The application before anything has arrived, with the texts and themes that it has.
    pub fn new(strings: Strings, themes: ThemeRegistry) -> (r: Self)
        ensures
            r@ == fresh_app(strings@, themes@),
    {
        let r = App {
            strings,
            clock: 0,
            connected: false,
            running: true,
            store: SessionStore::new(),
            row_cache: RowCache::new(),
            view: ViewState::default(),
            view_mode: ViewMode::Chat,
            active_session: None,
            sessions: Vec::new(),
            workspaces: Vec::new(),
            workspace_order: Vec::new(),
            archived_session_ids: Vec::new(),
            archived_expanded: false,
            focus: Focus::Composer,
            pane_prefix: false,
            composer: Composer::new(),
            sidebar: SidebarState::default(),
            sidebar_collapsed: false,
            theme: Theme::default(),
            locale: Locale::default(),
            themes,
            theme_picker: ThemePicker::default(),
            config: Config::default(),
            pending_save: None,
            history_loading: None,
            queue_popup_open: false,
            queue_scroll: 0,
            queue_action_sending: false,
            queue_editor: None,
            rename_editor: None,
            workspace_rename: None,
            workspace_editor: None,
            view_options: None,
            sidebar_action_sending: false,
            new_session: None,
            sidebar_search: None,
            at_catalog: None,
            launcher: None,
            popup_list: Vec::new(),
            launcher_list: Vec::new(),
            last_error: None,
            pending_approvals: Vec::new(),
            pending_questions: Vec::new(),
            pending_seq: 0,
            mode: Mode::Chat,
            graphics: false,
            image_cache: ImageCache::default(),
            pending_attachments: Vec::new(),
            toast: None,
            hint: None,
            copied_flash: None,
            clipboard: None,
            needs_draw: true,
            last_draw: None,
            draws: 0,
            sidebar_area: Area { x: 0, y: 0, width: 0, height: 0 },
            chat_area: Area { x: 0, y: 0, width: 0, height: 0 },
            composer_area: Area { x: 0, y: 0, width: 0, height: 0 },
            selection: None,
            select_mode: false,
            drawer_open: false,
            drawer_prior_focus: Focus::Chat,
            drawer_prior_hint: None,
            drawer_hint_shown: false,
            terminal_width: 80,
            spinner_frame: 0,
            session_model: None,
            busy_since: None,
            running_tools: Vec::new(),
            skill_folds: Table::new(),
        };
        proof {
            reveal(app_view);
            let fresh = fresh_app(strings@, themes@);
            assert(r@.sessions =~= fresh.sessions);
            assert(r@.workspaces =~= fresh.workspaces);
            assert(r@.workspace_order =~= fresh.workspace_order);
            assert(r@.archived_session_ids =~= fresh.archived_session_ids);
            assert(r@.popup_list =~= fresh.popup_list);
            assert(r@.launcher_list =~= fresh.launcher_list);
            assert(r@.pending_approvals =~= fresh.pending_approvals);
            assert(r@.pending_questions =~= fresh.pending_questions);
            assert(r@.pending_attachments =~= fresh.pending_attachments);
            assert(r@.running_tools =~= fresh.running_tools);
            assert(r@.config =~= fresh.config);
        }
        r
    }

    /// Make a toast.
    pub fn set_toast(&mut self, text: String)
        ensures
            final(self)@ == old(self)@.toasted(text@),
    {
        let at = self.clock();
        self.put_toast(Some(Toast { text, at }));
    }

    /// Make a toast of the text of a key.
    pub fn toast_key(&mut self, key: &str)
        ensures
            final(self)@ == old(self)@.noted(key@),
    {
        let text = tr(self.strings(), self.locale(), key).to_owned();
        self.set_toast(text);
    }

    /// Make a toast of the text of a key with one placeholder filled in.
    pub fn toast_with(&mut self, key: &str, arg: &str)
        ensures
            final(self)@ == old(self)@.noted_with(key@, arg@),
    {
        let args: [&str; 1] = [arg];
        proof {
            assert(crate::i18n::arg_texts(args@) =~= seq![arg@]);
        }
        let text = trf(self.strings(), self.locale(), key, args.as_slice());
        self.set_toast(text);
    }

    /// Give a hint: the text of a key.
    pub fn hint_key(&mut self, key: &str)
        ensures
            final(self)@ == old(self)@.advised(key@),
    {
        let text = tr(self.strings(), self.locale(), key).to_owned();
        self.set_hint(Some(text));
    }

    /// The toast.
    pub fn toast_text(&self) -> (r: Option<&str>)
        ensures
            crate::text::opt_view(r) == (match self@.toast {
                Some(toast) => Some(toast.text),
                None => None,
            }),
    {
        match self.toast() {
            Some(toast) => Some(toast.text.as_str()),
            None => None,
        }
    }

    fn over(&self, note: &Option<Toast>, limit: u64) -> (r: bool)
        ensures
            r == (note is Some && self@.aged(note->0.at, limit)),
    {
        let now = self.clock();
        match note {
            Some(note) => now >= note.at && now - note.at >= limit,
            None => false,
        }
    }

    /// Drop a toast whose time is over.
    pub fn expire_toast(&mut self)
        ensures
            final(self)@ == old(self)@.toast_expired(),
    {
        if self.over(self.toast(), TOAST_TTL_MS) {
            self.put_toast(None);
            self.set_needs_draw(true);
        }
    }

    /// Drop the note of a copied text whose time is over.
    pub fn expire_copied_flash(&mut self)
        ensures
            final(self)@ == old(self)@.flash_expired(),
    {
        if self.over(self.copied_flash(), COPY_FLASH_TTL_MS) {
            self.set_copied_flash(None);
            self.set_needs_draw(true);
        }
    }

    /// The line of a takeover's notice: the toast, else the hint.
    pub fn current_notice(&self) -> (r: Option<&str>)
        ensures
            crate::text::opt_view(r) == (match self@.toast {
                Some(toast) => Some(toast.text),
                None => self@.hint,
            }),
    {
        match self.toast() {
            Some(toast) => Some(toast.text.as_str()),
            None => match self.hint() {
                Some(hint) => Some(hint.as_str()),
                None => None,
            },
        }
    }

    /// The state of the active session.
    pub fn active_state(&self) -> (r: Option<&SessionState>)
        ensures
            crate::text::opt_view(r) == self@.active_state(),
    {
        match self.active_session() {
            Some(id) => self.store().session(id),
            None => None,
        }
    }

    /// Whether the active session has a turn in flight.
    pub fn session_running(&self) -> (r: bool)
        ensures
            r == self@.busy(),
    {
        match self.active_session() {
            Some(id) => {
                if crate::app::sidebar::session_runs(self.sessions(), id) {
                    return true;
                }
                match self.active_state() {
                    Some(state) => state.has_unsettled_tail(),
                    None => false,
                }
            },
            None => false,
        }
    }

    /// Whether the chat has the screen.
    pub fn in_chat(&self) -> (r: bool)
        ensures
            r == self@.mode is Chat,
    {
        match self.mode() {
            Mode::Chat => true,
            _ => false,
        }
    }

    /// Advance the spinner. The screen is drawn for it only while the chat is busy.
    pub fn advance_spinner(&mut self)
        ensures
            final(self)@ == old(self)@.spun(),
    {
        let due = self.needs_draw() || (self.in_chat() && self.session_running());
        let frame = self.spinner_frame().wrapping_add(1);
        self.set_spinner_frame(frame);
        self.set_needs_draw(due);
    }

    /// Keep a language in the configuration.
    pub fn configure_locale(&mut self, locale: String, save: SaveKind)
        ensures
            final(self)@ == old(self)@.configured(
                ConfigView { locale: Some(locale@), ..old(self)@.config },
                save,
            ),
    {
        self.config.locale = Some(locale);
        self.pending_save = Some(save);
        proof {
            reveal(app_view);
            reveal(AppView::with_config);
            reveal(AppView::with_pending_save);
            assert(self@ == old(self)@.configured(
                ConfigView { locale: Some(locale@), ..old(self)@.config },
                save,
            ));
        }
    }

    /// Keep a theme in the configuration.
    pub fn configure_theme(&mut self, theme: String, save: SaveKind)
        ensures
            final(self)@ == old(self)@.configured(
                ConfigView { theme: Some(theme@), ..old(self)@.config },
                save,
            ),
    {
        self.config.theme = Some(theme);
        self.pending_save = Some(save);
        proof {
            reveal(app_view);
            reveal(AppView::with_config);
            reveal(AppView::with_pending_save);
            assert(self@ == old(self)@.configured(
                ConfigView { theme: Some(theme@), ..old(self)@.config },
                save,
            ));
        }
    }

    /// Make sure that a session has a state.
    pub fn open_in_store(&mut self, id: &SessionId)
        ensures
            final(self)@ == old(self)@.with_store(
                old(self)@.store.with_session(id@, old(self)@.store.session_or_fresh(id@)),
            ),
    {
        self.store.open_session(id.duplicate());
        proof {
            reveal(app_view);
            reveal(AppView::with_store);
            assert(self@ == old(self)@.with_store(
                old(self)@.store.with_session(id@, old(self)@.store.session_or_fresh(id@)),
            ));
        }
    }

    /// Drop every rendered row.
    pub fn invalidate(&mut self)
        ensures
            final(self)@ == old(self)@.invalidated(),
    {
        self.row_cache.invalidate_all();
        proof {
            reveal(app_view);
            reveal(AppView::with_row_cache);
            assert(self@ == old(self)@.invalidated());
        }
    }
}

/// The application before anything has arrived.
pub open spec fn fresh_app(strings: StringsView, themes: Seq<ThemeView>) -> AppView {
    AppView {
        strings,
        clock: 0,
        connected: false,
        running: true,
        store: StoreView {
            sessions: Map::empty(),
            max_events: crate::store::MAX_BUFFERED_EVENTS,
            last_stream_error: None,
        },
        row_cache: RowCacheView { rows: Seq::empty(), dirty: Seq::empty(), width: 0 },
        view: ViewState { offset: 0, follow: true, viewport_height: 24 },
        view_mode: ViewMode::Chat,
        active_session: None,
        sessions: Seq::empty(),
        workspaces: Seq::empty(),
        workspace_order: Seq::empty(),
        archived_session_ids: Seq::empty(),
        archived_expanded: false,
        focus: Focus::Composer,
        pane_prefix: false,
        composer: ComposerView::blank(),
        sidebar: SidebarState { selected: 0 },
        sidebar_collapsed: false,
        theme: crate::theme::following_theme(),
        locale: Locale::En,
        themes,
        theme_picker: ThemePicker { open: false, selected: 0 },
        config: ConfigView {
            theme: None,
            locale: None,
            keymap: Map::empty(),
            gateway: crate::theme::GatewayConfig { port: None, auto_start: true },
        },
        pending_save: None,
        history_loading: None,
        queue_popup_open: false,
        queue_scroll: 0,
        queue_action_sending: false,
        queue_editor: None,
        rename_editor: None,
        workspace_rename: None,
        workspace_editor: None,
        view_options: None,
        sidebar_action_sending: false,
        new_session: None,
        sidebar_search: None,
        at_catalog: None,
        launcher: None,
        popup_list: Seq::empty(),
        launcher_list: Seq::empty(),
        last_error: None,
        pending_approvals: Seq::empty(),
        pending_questions: Seq::empty(),
        pending_seq: 0,
        mode: ModeView::Chat,
        graphics: false,
        image_cache: Map::empty(),
        pending_attachments: Seq::empty(),
        toast: None,
        hint: None,
        copied_flash: None,
        clipboard: None,
        needs_draw: true,
        last_draw: None,
        draws: 0,
        sidebar_area: Area::none(),
        chat_area: Area::none(),
        composer_area: Area::none(),
        selection: None,
        select_mode: false,
        drawer_open: false,
        drawer_prior_focus: Focus::Chat,
        drawer_prior_hint: None,
        drawer_hint_shown: false,
        terminal_width: 80,
        spinner_frame: 0,
        session_model: None,
        busy_since: None,
        running_tools: Seq::empty(),
        skill_folds: Map::empty(),
    }
}

} // verus!
