//! What follows from an action: the requests to the gateway, and what the application notes
//! of them. Without a gateway nothing is asked for.

use vstd::prelude::*;

use crate::app::command::{Command, CommandView, QueueUpdate, QueueUpdateView};
use crate::app::settings::{SettingsState, SettingsStateView};
use crate::app::state::{
    Action, ActionView, App, AppView, AtCatalog, AtCatalogView, Mode, ModeView, NewSessionState,
    SidebarSearchState, SidebarSearchStateView,
};
use crate::text::{duplicate_all, Duplicate};
use crate::wire::{SessionId, WorkspaceId};

verus! {

/// How many events of a session are asked for when it is opened.
pub const HISTORY_PAGE: i64 = 200;

/// No requests.
pub open spec fn nothing() -> Seq<CommandView> {
    Seq::empty()
}

/// The request, where there is one.
pub open spec fn maybe(command: Option<CommandView>) -> Seq<CommandView> {
    match command {
        Some(command) => seq![command],
        None => nothing(),
    }
}

fn none() -> (r: Vec<Command>)
    ensures
        crate::text::views(r@) == nothing(),
{
    let r: Vec<Command> = Vec::new();
    proof {
        assert(crate::text::views(r@) =~= nothing());
    }
    r
}

fn one(command: Command) -> (r: Vec<Command>)
    ensures
        crate::text::views(r@) == seq![command@],
{
    let mut r: Vec<Command> = Vec::new();
    r.push(command);
    proof {
        assert(crate::text::views(r@) =~= seq![command@]);
    }
    r
}

fn at_most_one(command: Option<Command>) -> (r: Vec<Command>)
    ensures
        crate::text::views(r@) == maybe(crate::text::opt_view(command)),
{
    match command {
        Some(command) => one(command),
        None => none(),
    }
}

impl AppView {
    /// Whether a change of the list of sessions may be asked for.
    pub open spec fn may_change_list(self) -> bool {
        self.connected && !self.sidebar_action_sending
    }

    /// A change of the list of sessions on its way.
    pub open spec fn list_busy(self) -> AppView {
        self.with_sidebar_action_sending(true)
    }

    /// A change of the list of sessions asked for, where none is on its way.
    pub open spec fn list_asked(self, command: CommandView) -> (AppView, Seq<CommandView>) {
        if self.may_change_list() {
            (self.list_busy(), seq![command])
        } else {
            (self, nothing())
        }
    }

    /// A change of the queue item in focus asked for, where none is on its way. The editor
    /// closes.
    pub open spec fn queue_asked(self, update: QueueUpdateView) -> (AppView, Seq<CommandView>) {
        if self.connected && self.active_session is Some && self.focused_item() is Some
            && !self.queue_action_sending {
            (
                self.with_queue_action_sending(true).with_queue_editor(None),
                seq![
                    CommandView::UpdateQueue {
                        session_id: self.active_session->0,
                        item_id: self.focused_item()->0.id,
                        update,
                    },
                ],
            )
        } else {
            (self, nothing())
        }
    }

    /// The catalog as it is, on its way.
    pub open spec fn catalog_loading(self) -> AppView {
        self.with_at_catalog(
            Some(
                AtCatalogView {
                    skills: match self.at_catalog {
                        Some(catalog) => catalog.skills,
                        None => Seq::empty(),
                    },
                    loading: true,
                },
            ),
        )
    }

    /// The catalog asked for, where it is not on its way.
    pub open spec fn catalog_asked(self) -> (AppView, Seq<CommandView>) {
        if self.connected && self.active_session is Some && !(self.at_catalog is Some
            && self.at_catalog->0.loading) {
            (
                self.catalog_loading(),
                seq![CommandView::ListSkills { session_id: self.active_session->0 }],
            )
        } else {
            (self, nothing())
        }
    }

    /// The description of the settings asked for. Without a gateway the view waits no longer.
    pub open spec fn settings_asked(self) -> (AppView, Seq<CommandView>) {
        if self.connected {
            (self, seq![CommandView::DescribeSettings])
        } else {
            match self.mode {
                ModeView::Settings(state) => (
                    self.in_mode(
                        ModeView::Settings(SettingsStateView { loading: false, ..state }),
                    ),
                    nothing(),
                ),
                _ => (self, nothing()),
            }
        }
    }

    /// The changed fields of the selected section.
    pub open spec fn settings_update(self) -> Option<CommandView> {
        match self.mode {
            ModeView::Settings(state) => if self.connected && state.form() is Some {
                Some(
                    CommandView::UpdateSettings {
                        ns: state.sections[state.selected as int].ns,
                        revision: state.form()->0.revision,
                        patch: state.form()->0.patch(),
                    },
                )
            } else {
                None
            },
            _ => None,
        }
    }

    /// The history of a session on its way.
    pub open spec fn history_awaited(self, id: Seq<char>) -> AppView {
        self.with_history_loading(Some(id)).advised("hint.loading_history"@)
    }

    /// The history and the models of a session asked for.
    pub open spec fn history_asked(self, id: Seq<char>) -> (AppView, Seq<CommandView>) {
        if self.connected {
            (
                self.history_awaited(id),
                seq![
                    CommandView::History { session_id: id, limit: HISTORY_PAGE },
                    CommandView::Models { session_id: id },
                ],
            )
        } else {
            (self, nothing())
        }
    }

    /// A search asked for, where none is on its way.
    pub open spec fn search_asked(self, query: Seq<char>) -> (AppView, Seq<CommandView>) {
        if self.connected && self.sidebar_search is Some && !self.sidebar_search->0.sending {
            (
                self.searching(
                    Some(SidebarSearchStateView { sending: true, ..self.sidebar_search->0 }),
                ),
                seq![CommandView::Search { query }],
            )
        } else {
            (self, nothing())
        }
    }

    /// A new session asked for, where none is on its way.
    pub open spec fn session_asked(self, workspace_id: Option<Seq<char>>) -> (
        AppView,
        Seq<CommandView>,
    ) {
        if self.connected && self.new_session is Some && !self.new_session->0.sending {
            (
                self.choosing(Some(NewSessionState { sending: true, ..self.new_session->0 })),
                seq![CommandView::CreateSession { workspace_id }],
            )
        } else {
            (self, nothing())
        }
    }

    /// What follows from an action.
    pub open spec fn dispatched(self, action: ActionView) -> (AppView, Seq<CommandView>) {
        match action {
            ActionView::Submit(text) => if self.connected && self.active_session is Some {
                (self, seq![CommandView::Prompt { session_id: self.active_session->0, text }])
            } else {
                (self, nothing())
            },
            ActionView::AnswerApproval(outcome) => (
                self.answering_approval(outcome).0,
                maybe(self.answering_approval(outcome).1),
            ),
            ActionView::AnswerQuestion => (
                self.answering_question().0,
                maybe(self.answering_question().1),
            ),
            ActionView::CancelTurn => if self.connected && self.active_session is Some {
                (self, seq![CommandView::CancelTurn { session_id: self.active_session->0 }])
            } else {
                (self, nothing())
            },
            ActionView::FetchSettings => self.settings_asked(),
            ActionView::SaveSettings => (self, maybe(self.settings_update())),
            ActionView::SwitchSession(id) => self.history_asked(id),
            ActionView::QueueRemove => self.queue_asked(QueueUpdateView::Remove),
            ActionView::QueueSteer => self.queue_asked(QueueUpdateView::Steer),
            ActionView::QueueEdit(text) => self.queue_asked(QueueUpdateView::Edit { text }),
            ActionView::RequestCatalog => self.catalog_asked(),
            ActionView::RenameSession { session_id, title } => if self.may_change_list() {
                (
                    self.list_busy().renaming(None),
                    seq![CommandView::RenameSession { session_id, title }],
                )
            } else {
                (self, nothing())
            },
            ActionView::RenameWorkspace { workspace_id, title } => if self.may_change_list() {
                (
                    self.list_busy().with_workspace_rename(None),
                    seq![CommandView::RenameWorkspace { workspace_id, title }],
                )
            } else {
                (self, nothing())
            },
            ActionView::DeleteWorkspace(workspace_id) => self.list_asked(
                CommandView::DeleteWorkspace { workspace_id },
            ),
            ActionView::CreateWorkspace(path) => self.list_asked(
                CommandView::CreateWorkspace { path },
            ),
            ActionView::ForkSession(session_id) => self.list_asked(
                CommandView::ForkSession { session_id },
            ),
            ActionView::ArchiveSession(session_id) => self.list_asked(
                CommandView::ArchiveSession { session_id },
            ),
            ActionView::CreateSession { workspace_id } => self.session_asked(workspace_id),
            ActionView::SearchSessions(query) => self.search_asked(query),
            _ => (self, nothing()),
        }
    }
}

impl App {
    fn ask_list(&mut self, command: Command) -> (r: Vec<Command>)
        ensures
            final(self)@ == old(self)@.list_asked(command@).0,
            crate::text::views(r@) == old(self)@.list_asked(command@).1,
    {
        if self.connected() && !self.sidebar_action_sending() {
            self.set_sidebar_action_sending(true);
            one(command)
        } else {
            none()
        }
    }

    fn ask_queue(&mut self, update: QueueUpdate) -> (r: Vec<Command>)
        ensures
            final(self)@ == old(self)@.queue_asked(update@).0,
            crate::text::views(r@) == old(self)@.queue_asked(update@).1,
    {
        let session_id = match self.active_session() {
            Some(id) => id.duplicate(),
            None => return none(),
        };
        let item_id = match self.focused_queue_item() {
            Some(item) => item.id.clone(),
            None => return none(),
        };
        if !self.connected() || self.queue_action_sending() {
            return none();
        }
        self.set_queue_action_sending(true);
        self.set_queue_editor(None);
        one(Command::UpdateQueue { session_id, item_id, update })
    }

    fn ask_catalog(&mut self) -> (r: Vec<Command>)
        ensures
            final(self)@ == old(self)@.catalog_asked().0,
            crate::text::views(r@) == old(self)@.catalog_asked().1,
    {
        let session_id = match self.active_session() {
            Some(id) => id.duplicate(),
            None => return none(),
        };
        if !self.connected() {
            return none();
        }
        let skills = match self.at_catalog() {
            Some(catalog) => {
                if catalog.loading {
                    return none();
                }
                duplicate_all(&catalog.skills)
            },
            None => Vec::new(),
        };
        let catalog = AtCatalog { skills, loading: true };
        proof {
            assert(catalog@.skills =~= (match self@.at_catalog {
                Some(catalog) => catalog.skills,
                None => Seq::empty(),
            }));
        }
        self.set_at_catalog(Some(catalog));
        one(Command::ListSkills { session_id })
    }

    /// Ask for the description of the settings.
    pub fn fetch_settings(&mut self) -> (r: Vec<Command>)
        ensures
            final(self)@ == old(self)@.settings_asked().0,
            crate::text::views(r@) == old(self)@.settings_asked().1,
    {
        if self.connected() {
            return one(Command::DescribeSettings);
        }
        let state = match self.mode() {
            Mode::Settings(state) => state.duplicate(),
            _ => return none(),
        };
        let mut waiting: SettingsState = state;
        waiting.loading = false;
        self.set_mode(Mode::Settings(waiting));
        none()
    }

    fn settings_update(&self) -> (r: Option<Command>)
        ensures
            crate::text::opt_view(r) == self@.settings_update(),
    {
        if !self.connected() {
            return None;
        }
        match self.mode() {
            Mode::Settings(state) => match state.selected_form() {
                Some(form) => {
                    proof {
                        assert(state@.sections[state.selected as int]
                            == state.sections@[state.selected as int]@);
                    }
                    Some(
                        Command::UpdateSettings {
                            ns: state.sections[state.selected].ns.clone(),
                            revision: form.revision,
                            patch: form.patch(),
                        },
                    )
                },
                None => None,
            },
            _ => None,
        }
    }

    fn ask_history(&mut self, id: SessionId) -> (r: Vec<Command>)
        ensures
            final(self)@ == old(self)@.history_asked(id@).0,
            crate::text::views(r@) == old(self)@.history_asked(id@).1,
    {
        if !self.connected() {
            return none();
        }
        self.set_history_loading(Some(id.duplicate()));
        self.hint_key("hint.loading_history");
        let mut r: Vec<Command> = Vec::new();
        let history = Command::History { session_id: id.duplicate(), limit: HISTORY_PAGE };
        let models = Command::Models { session_id: id };
        r.push(history);
        r.push(models);
        proof {
            assert(crate::text::views(r@) =~= old(self)@.history_asked(id@).1);
        }
        r
    }

    /// Ask for the sessions that match a text.
    pub fn search_sessions(&mut self, query: String) -> (r: Vec<Command>)
        ensures
            final(self)@ == old(self)@.search_asked(query@).0,
            crate::text::views(r@) == old(self)@.search_asked(query@).1,
    {
        if !self.connected() {
            return none();
        }
        let state = match self.sidebar_search() {
            Some(state) => state.duplicate(),
            None => return none(),
        };
        if state.sending {
            return none();
        }
        let mut busy: SidebarSearchState = state;
        busy.sending = true;
        self.set_sidebar_search(Some(busy));
        one(Command::Search { query })
    }

    fn ask_session(&mut self, workspace_id: Option<WorkspaceId>) -> (r: Vec<Command>)
        ensures
            final(self)@ == old(self)@.session_asked(crate::text::opt_view(workspace_id)).0,
            crate::text::views(r@) == old(self)@.session_asked(
                crate::text::opt_view(workspace_id),
            ).1,
    {
        if !self.connected() {
            return none();
        }
        match self.new_session() {
            Some(state) => {
                if state.sending {
                    return none();
                }
                self.set_new_session(
                    Some(NewSessionState { selected: state.selected, sending: true }),
                );
                one(Command::CreateSession { workspace_id })
            },
            None => none(),
        }
    }

    fn ask_rename(&mut self, session_id: SessionId, title: String) -> (r: Vec<Command>)
        ensures
            ({
                let action = ActionView::RenameSession { session_id: session_id@, title: title@ };
                &&& final(self)@ == old(self)@.dispatched(action).0
                &&& crate::text::views(r@) == old(self)@.dispatched(action).1
            }),
    {
        if !self.connected() || self.sidebar_action_sending() {
            return none();
        }
        self.set_sidebar_action_sending(true);
        self.set_rename_editor(None);
        one(Command::RenameSession { session_id, title })
    }

    fn ask_workspace_rename(&mut self, workspace_id: WorkspaceId, title: String) -> (r: Vec<Command>)
        ensures
            ({
                let action = ActionView::RenameWorkspace {
                    workspace_id: workspace_id@,
                    title: title@,
                };
                &&& final(self)@ == old(self)@.dispatched(action).0
                &&& crate::text::views(r@) == old(self)@.dispatched(action).1
            }),
    {
        if !self.connected() || self.sidebar_action_sending() {
            return none();
        }
        self.set_sidebar_action_sending(true);
        self.set_workspace_rename(None);
        one(Command::RenameWorkspace { workspace_id, title })
    }

    /// Do what follows from an action, and hand out the requests to the gateway.
    pub fn dispatch(&mut self, action: Action) -> (r: Vec<Command>)
        ensures
            final(self)@ == old(self)@.dispatched(action@).0,
            crate::text::views(r@) == old(self)@.dispatched(action@).1,
    {
        match action {
            Action::Submit(text) => match self.active_session() {
                Some(id) => if self.connected() {
                    one(Command::Prompt { session_id: id.duplicate(), text })
                } else {
                    none()
                },
                None => none(),
            },
            Action::AnswerApproval(outcome) => {
                let sent = self.answer_approval(outcome);
                at_most_one(sent)
            },
            Action::AnswerQuestion => {
                let sent = self.answer_question();
                at_most_one(sent)
            },
            Action::CancelTurn => match self.active_session() {
                Some(id) => if self.connected() {
                    one(Command::CancelTurn { session_id: id.duplicate() })
                } else {
                    none()
                },
                None => none(),
            },
            Action::FetchSettings => self.fetch_settings(),
            Action::SaveSettings => at_most_one(self.settings_update()),
            Action::SwitchSession(id) => self.ask_history(id),
            Action::QueueRemove => self.ask_queue(QueueUpdate::Remove),
            Action::QueueSteer => self.ask_queue(QueueUpdate::Steer),
            Action::QueueEdit(text) => self.ask_queue(QueueUpdate::Edit { text }),
            Action::RequestCatalog => self.ask_catalog(),
            Action::RenameSession { session_id, title } => self.ask_rename(session_id, title),
            Action::RenameWorkspace { workspace_id, title } => self.ask_workspace_rename(
                workspace_id,
                title,
            ),
            Action::DeleteWorkspace(workspace_id) => self.ask_list(
                Command::DeleteWorkspace { workspace_id },
            ),
            Action::CreateWorkspace(path) => self.ask_list(Command::CreateWorkspace { path }),
            Action::ForkSession(session_id) => self.ask_list(Command::ForkSession { session_id }),
            Action::ArchiveSession(session_id) => self.ask_list(
                Command::ArchiveSession { session_id },
            ),
            Action::CreateSession { workspace_id } => self.ask_session(workspace_id),
            Action::SearchSessions(query) => self.search_sessions(query),
            _ => none(),
        }
    }
}

/// Without a gateway nothing is asked for, whatever the action.
pub proof fn law_offline_asks_nothing(app: AppView, action: ActionView)
    requires
        !app.connected,
    ensures
        app.dispatched(action).1.len() == 0,
{
}

/// While a change of the list of sessions is on its way, no other is asked for, and nothing
/// changes.
pub proof fn law_one_list_change(app: AppView, action: ActionView)
    requires
        app.sidebar_action_sending,
        action is RenameSession || action is RenameWorkspace || action is DeleteWorkspace
            || action is CreateWorkspace || action is ForkSession || action is ArchiveSession,
    ensures
        app.dispatched(action) == (app, nothing()),
{
}

/// While a change of the queue is on its way, no other is asked for, and nothing changes.
pub proof fn law_one_queue_change(app: AppView, action: ActionView)
    requires
        app.queue_action_sending,
        action is QueueRemove || action is QueueSteer || action is QueueEdit,
    ensures
        app.dispatched(action) == (app, nothing()),
{
}

/// What was asked for is not asked for again while it is on its way: a catalog, a search, a
/// session, a change of the queue and a change of the list.
pub proof fn law_asked_twice(app: AppView, action: ActionView)
    requires
        action is RequestCatalog || action is SearchSessions || action is CreateSession
            || action is QueueRemove || action is QueueSteer || action is QueueEdit
            || action is DeleteWorkspace || action is CreateWorkspace || action is ForkSession
            || action is ArchiveSession || action is RenameSession || action is RenameWorkspace,
        app.dispatched(action).1.len() > 0,
    ensures
        app.dispatched(action).0.dispatched(action).1.len() == 0,
{
    reveal(AppView::with_sidebar_action_sending);
    reveal(AppView::with_queue_action_sending);
    reveal(AppView::with_queue_editor);
    reveal(AppView::with_at_catalog);
    reveal(AppView::with_sidebar_search);
    reveal(AppView::with_new_session);
    reveal(AppView::with_rename_editor);
    reveal(AppView::with_workspace_rename);
}

/// A prompt goes to the active session, with the text as it was written.
pub proof fn law_prompt_sent(app: AppView, text: Seq<char>)
    requires
        app.connected,
        app.active_session is Some,
    ensures
        app.dispatched(ActionView::Submit(text)) == (
            app,
            seq![CommandView::Prompt { session_id: app.active_session->0, text }],
        ),
{
}

} // verus!
