//! What the keys do in the overlays: the theme picker, the queue, the launcher, the new-session
//! picker, the search, the drawer and the takeovers.

use vstd::prelude::*;

use crate::app::editor::{ComposerView, Editor, EditorView};
use crate::app::groups::{
    build_groups, entries_of, visible_sessions, ListView, NewSessionEntry, NewSessionEntryView,
    SidebarGroup, SidebarState,
};
use crate::app::settings::{SettingsReply, SettingsState, SettingsStateView};
use crate::app::state::{
    Action, ActionView, App, AppView, Focus, LauncherAction, LauncherActionView, LauncherState,
    LauncherStateView, Mode, ModeView, NewSessionState, SaveKind, SidebarSearchState,
    SidebarSearchStateView, ViewState, HINT_WIDTH,
};
use crate::app::takeover::{step_down, step_up, ImageViewerView};
use crate::i18n::{tr, Locale};
use crate::key::{KeyCode, KeyEvent};
use crate::text::{join_texts, same, trimmed, Duplicate};
use crate::theme::{ConfigView, ThemePicker};
use crate::wire::{
    ApprovalResponseOutcome, QueueItem, QueueItemView, QueuePlacement, SessionId,
};

verus! {

/// The most rows that the queue shows at once.
pub const QUEUE_POPUP_MAX_ROWS: usize = 8;

/// Whether a key moves up in a list.
pub open spec fn is_up(key: KeyEvent) -> bool {
    key.code == KeyCode::Up || key.code == KeyCode::Char('k')
}

/// Whether a key moves down in a list.
pub open spec fn is_down(key: KeyEvent) -> bool {
    key.code == KeyCode::Down || key.code == KeyCode::Char('j')
}

/// Whether a key moves up in a list.
pub fn goes_up(key: KeyEvent) -> (r: bool)
    ensures
        r == is_up(key),
{
    key.code == KeyCode::Up || key.code == KeyCode::Char('k')
}

/// Whether a key moves down in a list.
pub fn goes_down(key: KeyEvent) -> (r: bool)
    ensures
        r == is_down(key),
{
    key.code == KeyCode::Down || key.code == KeyCode::Char('j')
}

impl AppView {
    // -----------------------------------------------------------------------
    // locale and themes
    // -----------------------------------------------------------------------

    /// In another language.
    pub open spec fn in_locale(self, locale: Locale) -> AppView {
        self.with_locale(locale)
    }

    /// The other language, kept in the configuration, with every row rendered anew and a note.
    pub open spec fn locale_cycled(self) -> AppView {
        let locale = self.locale.other();
        let spoken = self.in_locale(locale);
        let there = spoken.configured(
            ConfigView { locale: Some(crate::i18n::locale_code(locale)), ..spoken.config },
            SaveKind::Quiet,
        ).invalidated();
        there.noted_with("toast.locale"@, crate::i18n::locale_name(locale))
    }

    /// The theme picker in some state.
    pub open spec fn picking(self, theme_picker: ThemePicker) -> AppView {
        self.with_theme_picker(theme_picker)
    }

    /// The theme picker opened on the current theme, or closed.
    pub open spec fn picker_toggled(self) -> AppView {
        if self.theme_picker.open {
            self.picking(ThemePicker { open: false, ..self.theme_picker })
        } else {
            let at = crate::seqs::first_index(self.themes, crate::theme::called(self.theme.name));
            self.picking(
                ThemePicker {
                    open: true,
                    selected: if at < self.themes.len() {
                        at as usize
                    } else {
                        0
                    },
                },
            )
        }
    }

    /// The picked theme applied: shown at once, kept in the configuration, the picker closed.
    pub open spec fn theme_applied(self) -> AppView {
        if self.theme_picker.selected < self.themes.len() {
            let theme = self.themes[self.theme_picker.selected as int];
            let there = self.with_theme(theme);
            there.configured(
                ConfigView { theme: Some(theme.name), ..there.config },
                SaveKind::Reported,
            ).invalidated().picking(ThemePicker { open: false, ..self.theme_picker })
        } else {
            self
        }
    }

    /// A key in the theme picker.
    pub open spec fn picker_keyed(self, key: KeyEvent) -> AppView {
        let picker = self.theme_picker;
        if is_up(key) {
            self.picking(
                ThemePicker { selected: crate::app::takeover::one_up(picker.selected), ..picker },
            )
        } else if is_down(key) {
            if picker.selected + 1 < self.themes.len() {
                self.picking(
                    ThemePicker { selected: (picker.selected + 1) as usize, ..picker },
                )
            } else {
                self
            }
        } else if key.code == KeyCode::Enter {
            self.theme_applied()
        } else if key.code == KeyCode::Esc {
            self.picking(ThemePicker { open: false, ..picker })
        } else {
            self
        }
    }

    // -----------------------------------------------------------------------
    // the queue
    // -----------------------------------------------------------------------

    /// The queue of the active session.
    pub open spec fn queue(self) -> Seq<QueueItemView> {
        match self.active_state() {
            Some(state) => match state.queue {
                Some(items) => items,
                None => Seq::empty(),
            },
            None => Seq::empty(),
        }
    }

    /// The queue item in focus: the first row that is shown.
    pub open spec fn focused_item(self) -> Option<QueueItemView> {
        if self.queue_scroll < self.queue().len() {
            Some(self.queue()[self.queue_scroll as int])
        } else {
            None
        }
    }

    /// Whether the queue item in focus can be changed now.
    pub open spec fn item_free(self) -> bool {
        self.focused_item() is Some && self.focused_item()->0.placement == QueuePlacement::Queued
            && !self.queue_action_sending
    }

    /// The queue scrolled.
    pub open spec fn queue_at(self, queue_scroll: usize) -> AppView {
        self.with_queue_scroll(queue_scroll)
    }

    /// The queue open or closed.
    pub open spec fn queue_shown(self, queue_popup_open: bool) -> AppView {
        self.with_queue_popup_open(queue_popup_open)
    }

    /// The editor of the queue in some state.
    pub open spec fn queue_editing(self, queue_editor: Option<EditorView>) -> AppView {
        self.with_queue_editor(queue_editor)
    }

    /// The queue opened at its top, or closed. An empty queue is not opened: a hint says so.
    pub open spec fn queue_toggled(self) -> AppView {
        if self.queue_popup_open {
            self.queue_shown(false)
        } else if self.queue().len() == 0 {
            self.advised("hint.queue_empty"@)
        } else {
            self.queue_at(0).queue_shown(true)
        }
    }

    /// A key in the editor of the queue. An empty text is not sent.
    pub open spec fn queue_edited(self, key: KeyEvent) -> (AppView, ActionView) {
        let editor = self.queue_editor->0;
        match key.code {
            KeyCode::Char(c) => (self.queue_editing(Some(editor.typed(c))), ActionView::Nothing),
            KeyCode::Backspace => (
                self.queue_editing(Some(editor.without_previous())),
                ActionView::Nothing,
            ),
            KeyCode::Enter => (
                self.queue_editing(None),
                if crate::text::trim(editor.text).len() == 0 {
                    ActionView::Nothing
                } else {
                    ActionView::QueueEdit(editor.text)
                },
            ),
            KeyCode::Esc => (self.queue_editing(None), ActionView::Nothing),
            _ => (self, ActionView::Nothing),
        }
    }

    /// How far the queue scrolls.
    pub open spec fn queue_end(self) -> int {
        if self.queue().len() > QUEUE_POPUP_MAX_ROWS {
            self.queue().len() - QUEUE_POPUP_MAX_ROWS
        } else {
            0
        }
    }

    /// A key in the queue: moving, and removing, steering or editing the item in focus.
    pub open spec fn queue_keyed(self, key: KeyEvent) -> (AppView, ActionView) {
        if self.queue_editor is Some {
            self.queue_edited(key)
        } else if is_up(key) {
            (self.queue_at(crate::app::takeover::one_up(self.queue_scroll)), ActionView::Nothing)
        } else if is_down(key) {
            (
                self.queue_at(
                    if self.queue_scroll < self.queue_end() {
                        (self.queue_scroll + 1) as usize
                    } else {
                        self.queue_end() as usize
                    },
                ),
                ActionView::Nothing,
            )
        } else if key.code == KeyCode::Char('x') && self.item_free() {
            (self, ActionView::QueueRemove)
        } else if key.code == KeyCode::Char('s') && self.item_free() {
            (self, ActionView::QueueSteer)
        } else if key.code == KeyCode::Char('e') && self.item_free() {
            (
                self.queue_editing(
                    Some(
                        EditorView::holding(
                            crate::text::join_all(self.focused_item()->0.texts, " "@),
                        ),
                    ),
                ),
                ActionView::Nothing,
            )
        } else if key.code == KeyCode::Esc {
            (self.queue_shown(false).queue_editing(None), ActionView::Nothing)
        } else {
            (self, ActionView::Nothing)
        }
    }

    // -----------------------------------------------------------------------
    // the composer's list
    // -----------------------------------------------------------------------

    /// The composer in some state.
    pub open spec fn composing(self, composer: ComposerView) -> AppView {
        self.with_composer(composer)
    }

    /// Whether the catalog of skills has to be fetched: it is not there and not on its way.
    pub open spec fn catalog_stale(self) -> bool {
        match self.at_catalog {
            None => true,
            Some(catalog) => !catalog.loading && catalog.skills.len() == 0,
        }
    }

    /// A key in the composer's list.
    pub open spec fn popup_keyed(self, key: KeyEvent) -> (AppView, ActionView) {
        match key.code {
            KeyCode::Up => (self.composing(self.composer.up()), ActionView::Input),
            KeyCode::Down => (
                self.composing(self.composer.down(self.popup_list.len())),
                ActionView::Input,
            ),
            KeyCode::Enter => (
                self.composing(
                    self.composer.accepted(
                        if self.composer.selected < self.popup_list.len() {
                            self.popup_list[self.composer.selected as int].insert
                        } else {
                            Seq::empty()
                        },
                    ),
                ),
                ActionView::Input,
            ),
            KeyCode::Esc => (self.composing(self.composer.closed()), ActionView::Nothing),
            _ => (self, ActionView::Nothing),
        }
    }

    // -----------------------------------------------------------------------
    // the settings
    // -----------------------------------------------------------------------

    /// Something else on the screen.
    pub open spec fn in_mode(self, mode: ModeView) -> AppView {
        self.with_mode(mode)
    }

    /// The settings view opened.
    pub open spec fn settings_opened(self) -> AppView {
        self.in_mode(ModeView::Settings(SettingsStateView::opened())).unhinted()
    }

    /// A key in the settings view. The theme picker is at hand there too.
    pub open spec fn settings_keyed(self, key: KeyEvent) -> (AppView, ActionView) {
        if key.control && key.code == KeyCode::Char('t') {
            (self.picker_toggled(), ActionView::Nothing)
        } else if self.theme_picker.open {
            (self.picker_keyed(key), ActionView::Nothing)
        } else {
            let (state, reply) = self.mode->Settings_0.keyed(key);
            let there = self.in_mode(ModeView::Settings(state));
            match reply {
                SettingsReply::Inert => (there, ActionView::Nothing),
                SettingsReply::Input => (there, ActionView::Input),
                SettingsReply::NotANumber => (
                    there.advised("hint.not_a_number"@),
                    ActionView::Input,
                ),
                SettingsReply::ReadOnly => (
                    there.advised("hint.read_only_field"@),
                    ActionView::Input,
                ),
                SettingsReply::Close { dirty } => {
                    let closed = self.in_mode(ModeView::Chat);
                    (
                        if dirty {
                            closed.noted("toast.settings_discarded"@)
                        } else {
                            closed
                        },
                        ActionView::Nothing,
                    )
                },
                SettingsReply::NothingToSave => (
                    there.advised("hint.nothing_to_save"@),
                    ActionView::Nothing,
                ),
                SettingsReply::Save => (
                    there.advised("hint.saving"@),
                    ActionView::SaveSettings,
                ),
            }
        }
    }

    // -----------------------------------------------------------------------
    // the launcher
    // -----------------------------------------------------------------------

    /// The launcher in some state.
    pub open spec fn launching(self, launcher: Option<LauncherStateView>) -> AppView {
        self.with_launcher(launcher)
    }

    /// The launcher opened or closed. It does not open over the composer's list.
    pub open spec fn launcher_toggled(self) -> (AppView, ActionView) {
        if self.launcher is Some {
            (self.launching(None), ActionView::Nothing)
        } else if self.composer.popup() is Some {
            (self, ActionView::Nothing)
        } else {
            (
                self.launching(Some(LauncherStateView { search: EditorView::blank(), selected: 0 })),
                if self.catalog_stale() {
                    ActionView::RequestCatalog
                } else {
                    ActionView::Nothing
                },
            )
        }
    }

    /// What an entry of the launcher does. A text is submitted through the composer, whose own
    /// text goes with it.
    pub open spec fn launched(self, action: LauncherActionView) -> (AppView, ActionView) {
        match action {
            LauncherActionView::Dispatch { text } => (
                self.composing(ComposerView::blank()),
                ActionView::Submit(text),
            ),
            LauncherActionView::OpenSettings => (self.settings_opened(), ActionView::FetchSettings),
            LauncherActionView::OpenThemePicker => (self.picker_toggled(), ActionView::Nothing),
            LauncherActionView::CycleLocale => (self.locale_cycled(), ActionView::Nothing),
            LauncherActionView::Quit => (self, ActionView::Quit),
        }
    }

    /// A key in the launcher.
    pub open spec fn launcher_keyed(self, key: KeyEvent) -> (AppView, ActionView) {
        let state = self.launcher->0;
        if key.code == KeyCode::Esc {
            (self.launching(None), ActionView::Nothing)
        } else if is_up(key) {
            (
                self.launching(
                    Some(
                        LauncherStateView {
                            selected: crate::app::takeover::one_up(state.selected),
                            ..state
                        },
                    ),
                ),
                ActionView::Nothing,
            )
        } else if is_down(key) {
            (
                self.launching(
                    Some(
                        LauncherStateView {
                            selected: crate::app::takeover::one_down(
                                state.selected,
                                self.launcher_list.len(),
                            ),
                            ..state
                        },
                    ),
                ),
                ActionView::Nothing,
            )
        } else if key.code == KeyCode::Enter {
            if state.selected < self.launcher_list.len() {
                self.launching(None).launched(
                    self.launcher_list[state.selected as int].action,
                )
            } else {
                (self, ActionView::Nothing)
            }
        } else if key.code == KeyCode::Backspace {
            (
                self.launching(
                    Some(
                        LauncherStateView { search: state.search.without_previous(), selected: 0 },
                    ),
                ),
                ActionView::Nothing,
            )
        } else {
            match key.code {
                KeyCode::Char(c) => (
                    self.launching(
                        Some(LauncherStateView { search: state.search.typed(c), selected: 0 }),
                    ),
                    ActionView::Nothing,
                ),
                _ => (self, ActionView::Nothing),
            }
        }
    }

    // -----------------------------------------------------------------------
    // sessions
    // -----------------------------------------------------------------------

    /// What the sidebar's groups are made from.
    pub open spec fn list(self) -> ListView {
        ListView {
            sessions: self.sessions,
            workspaces: self.workspaces,
            order: self.workspace_order,
            archived: self.archived_session_ids,
        }
    }

    /// The positions of the sessions that can be selected.
    pub open spec fn rows(self) -> Seq<usize> {
        crate::app::groups::visible(
            crate::app::groups::groups(self.list(), self.archived_expanded),
        )
    }

    /// The selection of the sidebar.
    pub open spec fn selecting(self, selected: usize) -> AppView {
        self.with_sidebar(SidebarState { selected })
    }

    /// The selection kept inside the rows.
    pub open spec fn selection_kept(self) -> AppView {
        self.selecting(crate::app::groups::kept(self.sidebar.selected, self.rows().len()))
    }

    /// The selected session.
    pub open spec fn selected_session(self) -> Option<Seq<char>> {
        let rows = self.rows();
        let at = self.sidebar.selected;
        if at < rows.len() && rows[at as int] < self.sessions.len() {
            Some(self.sessions[rows[at as int] as int].session_id)
        } else {
            None
        }
    }

    /// A session made the active one: it has a state, nothing of the other is left on the
    /// screen, and the chat is at its bottom.
    pub open spec fn activated(self, id: Seq<char>) -> AppView {
        self.with_store(
            self.store.with_session(id, self.store.session_or_fresh(id)),
        ).invalidated().with_active_session(Some(id)).with_session_model(None).with_view(
            ViewState { offset: 0, follow: true, ..self.view },
        ).unhinted()
    }

    /// Another session made the active one.
    pub open spec fn switched(self, id: Seq<char>) -> (AppView, ActionView) {
        if self.active_session == Some(id) {
            (self, ActionView::Nothing)
        } else {
            (self.activated(id), ActionView::SwitchSession(id))
        }
    }

    /// The selected session made the active one.
    pub open spec fn selection_switched(self) -> (AppView, ActionView) {
        match self.selected_session() {
            Some(id) => self.switched(id),
            None => (self, ActionView::Nothing),
        }
    }

    /// The new-session picker in some state.
    pub open spec fn choosing(self, new_session: Option<NewSessionState>) -> AppView {
        self.with_new_session(new_session)
    }

    /// The entries of the new-session picker.
    pub open spec fn entries(self) -> Seq<NewSessionEntryView> {
        crate::app::groups::picker_entries(
            self.workspaces,
            self.workspace_order,
            self.text("create.no_workspace"@),
        )
    }

    /// A key in the new-session picker.
    pub open spec fn new_session_keyed(self, key: KeyEvent) -> (AppView, ActionView) {
        let state = self.new_session->0;
        if is_up(key) {
            (
                self.choosing(
                    Some(
                        NewSessionState {
                            selected: crate::app::takeover::one_up(state.selected),
                            ..state
                        },
                    ),
                ),
                ActionView::Nothing,
            )
        } else if is_down(key) {
            (
                self.choosing(
                    Some(
                        NewSessionState {
                            selected: crate::app::takeover::one_down(
                                state.selected,
                                self.entries().len(),
                            ),
                            ..state
                        },
                    ),
                ),
                ActionView::Nothing,
            )
        } else if key.code == KeyCode::Enter {
            if !state.sending && state.selected < self.entries().len() {
                (
                    self,
                    ActionView::CreateSession {
                        workspace_id: self.entries()[state.selected as int].workspace_id,
                    },
                )
            } else {
                (self, ActionView::Nothing)
            }
        } else if key.code == KeyCode::Esc {
            (self.choosing(None), ActionView::Nothing)
        } else {
            (self, ActionView::Nothing)
        }
    }

    /// The search in some state.
    pub open spec fn searching(self, sidebar_search: Option<SidebarSearchStateView>) -> AppView {
        self.with_sidebar_search(sidebar_search)
    }

    /// The search for another text: the results of the last one are gone.
    pub open spec fn searched(self, query: EditorView) -> (AppView, ActionView) {
        (
            self.searching(
                Some(
                    SidebarSearchStateView {
                        query,
                        results: Seq::empty(),
                        selected: 0,
                        sending: self.sidebar_search->0.sending,
                    },
                ),
            ),
            if query.text.len() == 0 {
                ActionView::Nothing
            } else {
                ActionView::SearchSessions(query.text)
            },
        )
    }

    /// A key in the search.
    pub open spec fn search_keyed(self, key: KeyEvent) -> (AppView, ActionView) {
        let state = self.sidebar_search->0;
        if key.code == KeyCode::Backspace {
            self.searched(state.query.without_previous())
        } else if is_up(key) {
            (
                self.searching(
                    Some(
                        SidebarSearchStateView {
                            selected: crate::app::takeover::one_up(state.selected),
                            ..state
                        },
                    ),
                ),
                ActionView::Nothing,
            )
        } else if is_down(key) {
            (
                self.searching(
                    Some(
                        SidebarSearchStateView {
                            selected: crate::app::takeover::one_down(
                                state.selected,
                                state.results.len(),
                            ),
                            ..state
                        },
                    ),
                ),
                ActionView::Nothing,
            )
        } else if key.code == KeyCode::Enter {
            if state.selected < state.results.len() {
                self.searching(None).switched(state.results[state.selected as int].session_id)
            } else {
                (self, ActionView::Nothing)
            }
        } else if key.code == KeyCode::Esc {
            (self.searching(None), ActionView::Nothing)
        } else {
            match key.code {
                KeyCode::Char(c) => self.searched(state.query.typed(c)),
                _ => (self, ActionView::Nothing),
            }
        }
    }

    // -----------------------------------------------------------------------
    // the drawer
    // -----------------------------------------------------------------------

    /// Another surface with the keys.
    pub open spec fn focused(self, focus: Focus) -> AppView {
        self.with_focus(focus)
    }

    /// The drawer closed: the focus and the hint are as they were before it opened.
    pub open spec fn drawer_closed(self) -> AppView {
        if self.drawer_open {
            self.with_drawer_open(false).with_focus(self.drawer_prior_focus).with_hint(
                self.drawer_prior_hint,
            ).with_drawer_prior_hint(None)
        } else {
            self
        }
    }

    /// The drawer opened: it has the keys. Its hint shows once, where it can be seen.
    pub open spec fn drawer_opened(self) -> AppView {
        let tells = !self.drawer_hint_shown && self.terminal_width >= HINT_WIDTH;
        self.with_drawer_open(true).with_drawer_prior_focus(self.focus).with_drawer_prior_hint(
            self.hint,
        ).with_focus(Focus::Sidebar).with_hint(
            if tells {
                Some(self.text("status.drawer_hint"@))
            } else {
                None
            },
        ).with_drawer_hint_shown(self.drawer_hint_shown || tells)
    }

    /// The drawer opened or closed.
    pub open spec fn drawer_toggled(self) -> AppView {
        if self.drawer_open {
            self.drawer_closed()
        } else {
            self.drawer_opened()
        }
    }

    /// A key that moves the selection of the sidebar.
    pub open spec fn selection_keyed(self, key: KeyEvent) -> Option<AppView> {
        let len = self.rows().len();
        let at = self.sidebar.selected;
        if is_down(key) {
            Some(self.selecting(crate::app::groups::moved(at, 1, len)))
        } else if is_up(key) {
            Some(self.selecting(crate::app::groups::moved(at, -1, len)))
        } else if key.code == KeyCode::Char('g') || key.code == KeyCode::Home {
            Some(self.selecting(0))
        } else if key.code == KeyCode::Char('G') || key.code == KeyCode::End {
            Some(
                self.selecting(
                    if len == 0 {
                        0
                    } else {
                        (len - 1) as usize
                    },
                ),
            )
        } else {
            None
        }
    }

    /// A key in the drawer.
    pub open spec fn drawer_keyed(self, key: KeyEvent) -> (AppView, ActionView) {
        match self.selection_keyed(key) {
            Some(there) => (there, ActionView::Select),
            None => if key.code == KeyCode::Enter {
                (self.selection_switched().0.drawer_closed(), self.selection_switched().1)
            } else if key.code == KeyCode::Esc || key.code == KeyCode::Char('s') {
                (self.drawer_closed(), ActionView::Nothing)
            } else {
                (self, ActionView::Nothing)
            },
        }
    }

    // -----------------------------------------------------------------------
    // takeovers
    // -----------------------------------------------------------------------

    /// A key while something other than the chat has the screen.
    pub open spec fn takeover_keyed(self, key: KeyEvent) -> (AppView, ActionView) {
        match self.mode {
            ModeView::Chat => (self, ActionView::Nothing),
            ModeView::Approval(takeover) => (
                self,
                if takeover.sending {
                    ActionView::Nothing
                } else if key.code == KeyCode::Char('y') {
                    ActionView::AnswerApproval(ApprovalResponseOutcome::AllowedOnce)
                } else if key.code == KeyCode::Char('n') || key.code == KeyCode::Esc {
                    ActionView::AnswerApproval(ApprovalResponseOutcome::Rejected)
                } else {
                    ActionView::Nothing
                },
            ),
            ModeView::Question(takeover) => {
                if key.code == KeyCode::Tab {
                    (self.in_mode(ModeView::Question(takeover.focused_on())), ActionView::Input)
                } else if is_up(key) {
                    (self.in_mode(ModeView::Question(takeover.up())), ActionView::Input)
                } else if is_down(key) {
                    (self.in_mode(ModeView::Question(takeover.down())), ActionView::Input)
                } else if key.code == KeyCode::Char(' ') {
                    (self.in_mode(ModeView::Question(takeover.toggled())), ActionView::Input)
                } else if key.code == KeyCode::Enter {
                    (
                        self,
                        if takeover.sending {
                            ActionView::Nothing
                        } else {
                            ActionView::AnswerQuestion
                        },
                    )
                } else if key.code == KeyCode::Esc {
                    (self.advised("hint.no_cancel"@), ActionView::Nothing)
                } else {
                    (self, ActionView::Nothing)
                }
            },
            ModeView::Settings(_) => self.settings_keyed(key),
            ModeView::Image(viewer) => (
                if key.code == KeyCode::Esc || key.code == KeyCode::Char('q') {
                    self.in_mode(ModeView::Chat)
                } else if key.code == KeyCode::Char('n') {
                    self.in_mode(
                        ModeView::Image(
                            ImageViewerView {
                                index: crate::app::takeover::one_on(
                                    viewer.index,
                                    viewer.images.len(),
                                ),
                                ..viewer
                            },
                        ),
                    )
                } else if key.code == KeyCode::Char('p') {
                    self.in_mode(
                        ModeView::Image(
                            ImageViewerView {
                                index: crate::app::takeover::one_back(
                                    viewer.index,
                                    viewer.images.len(),
                                ),
                                ..viewer
                            },
                        ),
                    )
                } else if key.code == KeyCode::Char('t') {
                    self.in_mode(
                        ModeView::Image(ImageViewerView { fit: !viewer.fit, ..viewer }),
                    )
                } else {
                    self
                },
                ActionView::Nothing,
            ),
        }
    }
}

impl App {
    // -----------------------------------------------------------------------
    // locale and themes
    // -----------------------------------------------------------------------

    /// Change to the other language.
    pub fn cycle_locale(&mut self)
        ensures
            final(self)@ == old(self)@.locale_cycled(),
    {
        let locale = self.locale().next();
        self.set_locale(locale);
        self.configure_locale(locale.code().to_owned(), SaveKind::Quiet);
        self.invalidate();
        self.toast_with("toast.locale", locale.native_name());
    }

    /// Open the theme picker on the current theme, or close it.
    pub fn toggle_picker(&mut self)
        ensures
            final(self)@ == old(self)@.picker_toggled(),
    {
        let picker = self.theme_picker();
        if picker.open {
            self.set_theme_picker(ThemePicker { open: false, selected: picker.selected });
        } else {
            let at = self.themes().position(self.theme().name.as_str());
            let selected = if at < self.themes().themes.len() {
                at
            } else {
                0
            };
            self.set_theme_picker(ThemePicker { open: true, selected });
        }
    }

    fn apply_picked_theme(&mut self)
        ensures
            final(self)@ == old(self)@.theme_applied(),
    {
        let picker = self.theme_picker();
        if picker.selected < self.themes().themes.len() {
            proof {
                assert(self@.themes.len() > picker.selected);
            }
            let theme = self.themes().themes[picker.selected].duplicate();
            let name = theme.name.clone();
            self.set_theme(theme);
            self.configure_theme(name, SaveKind::Reported);
            self.invalidate();
            self.set_theme_picker(ThemePicker { open: false, selected: picker.selected });
        }
    }

    fn handle_picker_key(&mut self, key: KeyEvent)
        ensures
            final(self)@ == old(self)@.picker_keyed(key),
    {
        let picker = self.theme_picker();
        if goes_up(key) {
            self.set_theme_picker(
                ThemePicker { open: picker.open, selected: step_up(picker.selected) },
            );
        } else if goes_down(key) {
            let n = self.themes().themes.len();
            proof {
                assert(self@.themes.len() == n);
            }
            if picker.selected < n && picker.selected + 1 < n {
                self.set_theme_picker(
                    ThemePicker { open: picker.open, selected: picker.selected + 1 },
                );
            }
        } else if key.code == KeyCode::Enter {
            self.apply_picked_theme();
        } else if key.code == KeyCode::Esc {
            self.set_theme_picker(ThemePicker { open: false, selected: picker.selected });
        }
    }

    // -----------------------------------------------------------------------
    // the queue
    // -----------------------------------------------------------------------

    /// The queue of the active session.
    pub fn active_queue(&self) -> (r: Option<&Vec<QueueItem>>)
        ensures
            match r {
                Some(items) => self@.queue() == crate::text::views(items@),
                None => self@.queue() == Seq::<QueueItemView>::empty(),
            },
    {
        match self.active_state() {
            Some(state) => match state.queue() {
                Some(queue) => Some(&queue.items),
                None => None,
            },
            None => None,
        }
    }

    fn queue_len(&self) -> (r: usize)
        ensures
            r == self@.queue().len(),
    {
        match self.active_queue() {
            Some(items) => items.len(),
            None => 0,
        }
    }

    /// The queue item in focus.
    pub fn focused_queue_item(&self) -> (r: Option<&QueueItem>)
        ensures
            crate::text::opt_view(r) == self@.focused_item(),
    {
        let at = self.queue_scroll();
        match self.active_queue() {
            Some(items) => if at < items.len() {
                Some(&items[at])
            } else {
                None
            },
            None => None,
        }
    }

    fn queue_item_free(&self) -> (r: bool)
        ensures
            r == self@.item_free(),
    {
        match self.focused_queue_item() {
            Some(item) => item.placement == QueuePlacement::Queued && !self.queue_action_sending(),
            None => false,
        }
    }

    fn toggle_queue_popup(&mut self)
        ensures
            final(self)@ == old(self)@.queue_toggled(),
    {
        if self.queue_popup_open() {
            self.set_queue_popup_open(false);
        } else if self.queue_len() == 0 {
            self.hint_key("hint.queue_empty");
        } else {
            self.set_queue_scroll(0);
            self.set_queue_popup_open(true);
        }
    }

    fn handle_queue_editor_key(&mut self, key: KeyEvent) -> (r: Action)
        requires
            old(self)@.queue_editor is Some,
        ensures
            final(self)@ == old(self)@.queue_edited(key).0,
            r@ == old(self)@.queue_edited(key).1,
    {
        let mut editor = match self.queue_editor() {
            Some(editor) => editor.duplicate(),
            None => Editor::new(),
        };
        match key.code {
            KeyCode::Char(c) => {
                editor.insert_char(c);
                self.set_queue_editor(Some(editor));
                Action::Nothing
            },
            KeyCode::Backspace => {
                editor.backspace();
                self.set_queue_editor(Some(editor));
                Action::Nothing
            },
            KeyCode::Enter => {
                let text = editor.buffer();
                self.set_queue_editor(None);
                if trimmed(text.as_str()).as_str().is_empty() {
                    Action::Nothing
                } else {
                    Action::QueueEdit(text)
                }
            },
            KeyCode::Esc => {
                self.set_queue_editor(None);
                Action::Nothing
            },
            _ => Action::Nothing,
        }
    }

    fn open_queue_editor(&mut self)
        requires
            old(self)@.focused_item() is Some,
        ensures
            final(self)@ == old(self)@.queue_editing(
                Some(
                    EditorView::holding(
                        crate::text::join_all(old(self)@.focused_item()->0.texts, " "@),
                    ),
                ),
            ),
    {
        let text = match self.focused_queue_item() {
            Some(item) => join_texts(&item.texts, " "),
            None => String::new(),
        };
        self.set_queue_editor(Some(Editor::on(text.as_str())));
    }

    fn handle_queue_popup_key(&mut self, key: KeyEvent) -> (r: Action)
        ensures
            final(self)@ == old(self)@.queue_keyed(key).0,
            r@ == old(self)@.queue_keyed(key).1,
    {
        if self.queue_editor().is_some() {
            return self.handle_queue_editor_key(key);
        }
        let free = self.queue_item_free();
        if goes_up(key) {
            let at = step_up(self.queue_scroll());
            self.set_queue_scroll(at);
        } else if goes_down(key) {
            let n = self.queue_len();
            let end = if n > QUEUE_POPUP_MAX_ROWS {
                n - QUEUE_POPUP_MAX_ROWS
            } else {
                0
            };
            let at = self.queue_scroll();
            self.set_queue_scroll(
                if at < end {
                    at + 1
                } else {
                    end
                },
            );
        } else if key.code == KeyCode::Char('x') && free {
            return Action::QueueRemove;
        } else if key.code == KeyCode::Char('s') && free {
            return Action::QueueSteer;
        } else if key.code == KeyCode::Char('e') && free {
            self.open_queue_editor();
        } else if key.code == KeyCode::Esc {
            self.set_queue_popup_open(false);
            self.set_queue_editor(None);
        }
        Action::Nothing
    }

    // -----------------------------------------------------------------------
    // the composer's list
    // -----------------------------------------------------------------------

    /// Whether the catalog of skills has to be fetched.
    pub fn at_catalog_stale(&self) -> (r: bool)
        ensures
            r == self@.catalog_stale(),
    {
        match self.at_catalog() {
            None => true,
            Some(catalog) => !catalog.loading && catalog.skills.len() == 0,
        }
    }

    /// A key in the composer's list.
    pub fn handle_popup_key(&mut self, key: KeyEvent) -> (r: Action)
        ensures
            final(self)@ == old(self)@.popup_keyed(key).0,
            r@ == old(self)@.popup_keyed(key).1,
    {
        match key.code {
            KeyCode::Up => {
                let mut composer = self.composer().duplicate();
                composer.popup_up();
                self.set_composer(composer);
                Action::Input
            },
            KeyCode::Down => {
                let n = self.popup_list().len();
                proof {
                    assert(self@.popup_list.len() == n);
                }
                let mut composer = self.composer().duplicate();
                composer.popup_down(n);
                self.set_composer(composer);
                Action::Input
            },
            KeyCode::Enter => {
                let at = self.composer().selected;
                proof {
                    assert(self@.composer.selected == at);
                }
                let list = self.popup_list();
                let insert = if at < list.len() {
                    list[at].insert.clone()
                } else {
                    String::new()
                };
                proof {
                    if at >= self@.popup_list.len() {
                        assert(insert@ =~= Seq::<char>::empty());
                    }
                }
                let mut composer = self.composer().duplicate();
                composer.popup_accept(insert.as_str());
                self.set_composer(composer);
                Action::Input
            },
            KeyCode::Esc => {
                let mut composer = self.composer().duplicate();
                composer.popup_dismiss();
                self.set_composer(composer);
                Action::Nothing
            },
            _ => Action::Nothing,
        }
    }

    // -----------------------------------------------------------------------
    // the settings
    // -----------------------------------------------------------------------

    /// Open the settings view.
    pub fn open_settings(&mut self)
        ensures
            final(self)@ == old(self)@.settings_opened(),
    {
        self.set_mode(Mode::Settings(SettingsState::new()));
        self.set_hint(None);
    }

    fn handle_settings_key(&mut self, key: KeyEvent) -> (r: Action)
        requires
            old(self)@.mode is Settings,
        ensures
            final(self)@ == old(self)@.settings_keyed(key).0,
            r@ == old(self)@.settings_keyed(key).1,
    {
        if key.control && key.code == KeyCode::Char('t') {
            self.toggle_picker();
            return Action::Nothing;
        }
        if self.theme_picker().open {
            self.handle_picker_key(key);
            return Action::Nothing;
        }
        let mut state = match self.mode() {
            Mode::Settings(state) => state.duplicate(),
            _ => SettingsState::new(),
        };
        let reply = state.key(key);
        match reply {
            SettingsReply::Close { dirty } => {
                self.set_mode(Mode::Chat);
                if dirty {
                    self.toast_key("toast.settings_discarded");
                }
                return Action::Nothing;
            },
            _ => {},
        }
        self.set_mode(Mode::Settings(state));
        match reply {
            SettingsReply::Input => Action::Input,
            SettingsReply::NotANumber => {
                self.hint_key("hint.not_a_number");
                Action::Input
            },
            SettingsReply::ReadOnly => {
                self.hint_key("hint.read_only_field");
                Action::Input
            },
            SettingsReply::NothingToSave => {
                self.hint_key("hint.nothing_to_save");
                Action::Nothing
            },
            SettingsReply::Save => {
                self.hint_key("hint.saving");
                Action::SaveSettings
            },
            _ => Action::Nothing,
        }
    }

    // -----------------------------------------------------------------------
    // the launcher
    // -----------------------------------------------------------------------

    fn toggle_launcher(&mut self) -> (r: Action)
        ensures
            final(self)@ == old(self)@.launcher_toggled().0,
            r@ == old(self)@.launcher_toggled().1,
    {
        if self.launcher().is_some() {
            self.set_launcher(None);
            return Action::Nothing;
        }
        if self.composer().popup().is_some() {
            return Action::Nothing;
        }
        let stale = self.at_catalog_stale();
        self.set_launcher(Some(LauncherState { search: Editor::new(), selected: 0 }));
        if stale {
            Action::RequestCatalog
        } else {
            Action::Nothing
        }
    }

    fn launch(&mut self, action: LauncherAction) -> (r: Action)
        ensures
            final(self)@ == old(self)@.launched(action@).0,
            r@ == old(self)@.launched(action@).1,
    {
        match action {
            LauncherAction::Dispatch { text } => {
                self.set_composer(crate::app::editor::Composer::new());
                Action::Submit(text)
            },
            LauncherAction::OpenSettings => {
                self.open_settings();
                Action::FetchSettings
            },
            LauncherAction::OpenThemePicker => {
                self.toggle_picker();
                Action::Nothing
            },
            LauncherAction::CycleLocale => {
                self.cycle_locale();
                Action::Nothing
            },
            LauncherAction::Quit => Action::Quit,
        }
    }

    fn handle_launcher_key(&mut self, key: KeyEvent) -> (r: Action)
        requires
            old(self)@.launcher is Some,
        ensures
            final(self)@ == old(self)@.launcher_keyed(key).0,
            r@ == old(self)@.launcher_keyed(key).1,
    {
        let n = self.launcher_list().len();
        proof {
            assert(self@.launcher_list.len() == n);
        }
        let mut state = match self.launcher() {
            Some(state) => state.duplicate(),
            None => LauncherState { search: Editor::new(), selected: 0 },
        };
        if key.code == KeyCode::Esc {
            self.set_launcher(None);
            return Action::Nothing;
        }
        if key.code == KeyCode::Enter {
            if state.selected < n {
                let action = self.launcher_list()[state.selected].action.duplicate();
                self.set_launcher(None);
                return self.launch(action);
            }
            return Action::Nothing;
        }
        if goes_up(key) {
            state.selected = step_up(state.selected);
        } else if goes_down(key) {
            state.selected = step_down(state.selected, n);
        } else if key.code == KeyCode::Backspace {
            state.search.backspace();
            state.selected = 0;
        } else {
            match key.code {
                KeyCode::Char(c) => {
                    state.search.insert_char(c);
                    state.selected = 0;
                },
                _ => return Action::Nothing,
            }
        }
        self.set_launcher(Some(state));
        Action::Nothing
    }

    // -----------------------------------------------------------------------
    // sessions
    // -----------------------------------------------------------------------

    /// The groups of the sidebar.
    pub fn sidebar_groups(&self) -> (r: Vec<SidebarGroup>)
        ensures
            crate::text::views(r@) == crate::app::groups::groups(
                self@.list(),
                self@.archived_expanded,
            ),
    {
        build_groups(
            self.sessions(),
            self.workspaces(),
            self.workspace_order(),
            self.archived_session_ids(),
            self.archived_expanded(),
        )
    }

    /// The positions of the sessions that can be selected.
    pub fn sidebar_rows(&self) -> (r: Vec<usize>)
        ensures
            r@ == self@.rows(),
    {
        visible_sessions(&self.sidebar_groups())
    }

    /// Keep the selection of the sidebar inside its rows.
    pub fn keep_selection(&mut self)
        ensures
            final(self)@ == old(self)@.selection_kept(),
    {
        let mut sidebar = self.sidebar();
        sidebar.clamp(self.sidebar_rows().len());
        self.set_sidebar(sidebar);
    }

    /// The selected session.
    pub fn selected_session(&self) -> (r: Option<SessionId>)
        ensures
            crate::text::opt_view(r) == self@.selected_session(),
    {
        let rows = self.sidebar_rows();
        let at = self.sidebar().selected;
        proof {
            assert(self@.sessions.len() == self@.sessions.len());
        }
        if at < rows.len() && rows[at] < self.sessions().len() {
            Some(self.sessions()[rows[at]].session_id.duplicate())
        } else {
            None
        }
    }

    /// Make a session the active one, with nothing of the other left on the screen.
    pub fn activate(&mut self, id: &SessionId)
        ensures
            final(self)@ == old(self)@.activated(id@),
    {
        let view = self.viewport();
        self.open_in_store(id);
        self.invalidate();
        self.set_active_session(Some(id.duplicate()));
        self.set_session_model(None);
        self.set_view(
            ViewState { offset: 0, follow: true, viewport_height: view.viewport_height },
        );
        self.set_hint(None);
    }

    /// Make another session the active one.
    pub fn switch_to_session(&mut self, id: SessionId) -> (r: Action)
        ensures
            final(self)@ == old(self)@.switched(id@).0,
            r@ == old(self)@.switched(id@).1,
    {
        let there = match self.active_session() {
            Some(active) => same(active.0.as_str(), id.0.as_str()),
            None => false,
        };
        if there {
            return Action::Nothing;
        }
        self.activate(&id);
        Action::SwitchSession(id)
    }

    /// Make the selected session the active one.
    pub fn switch_to_selected(&mut self) -> (r: Action)
        ensures
            final(self)@ == old(self)@.selection_switched().0,
            r@ == old(self)@.selection_switched().1,
    {
        match self.selected_session() {
            Some(id) => self.switch_to_session(id),
            None => Action::Nothing,
        }
    }

    /// The entries of the new-session picker.
    pub fn new_session_entries(&self) -> (r: Vec<NewSessionEntry>)
        ensures
            crate::text::views(r@) == self@.entries(),
    {
        entries_of(
            self.workspaces(),
            self.workspace_order(),
            tr(self.strings(), self.locale(), "create.no_workspace"),
        )
    }

    fn handle_new_session_key(&mut self, key: KeyEvent) -> (r: Action)
        requires
            old(self)@.new_session is Some,
        ensures
            final(self)@ == old(self)@.new_session_keyed(key).0,
            r@ == old(self)@.new_session_keyed(key).1,
    {
        let entries = self.new_session_entries();
        proof {
            assert(self@.entries().len() == entries@.len());
        }
        let state = match self.new_session() {
            Some(state) => state,
            None => NewSessionState { selected: 0, sending: false },
        };
        if goes_up(key) {
            self.set_new_session(
                Some(
                    NewSessionState { selected: step_up(state.selected), sending: state.sending },
                ),
            );
        } else if goes_down(key) {
            self.set_new_session(
                Some(
                    NewSessionState {
                        selected: step_down(state.selected, entries.len()),
                        sending: state.sending,
                    },
                ),
            );
        } else if key.code == KeyCode::Enter {
            if !state.sending && state.selected < entries.len() {
                proof {
                    assert(self@.entries()[state.selected as int] == entries@[state.selected as int]@);
                }
                return Action::CreateSession {
                    workspace_id: crate::text::duplicate_opt(&entries[state.selected].workspace_id),
                };
            }
        } else if key.code == KeyCode::Esc {
            self.set_new_session(None);
        }
        Action::Nothing
    }

    fn search_for(&mut self, query: Editor) -> (r: Action)
        requires
            old(self)@.sidebar_search is Some,
        ensures
            final(self)@ == old(self)@.searched(query@).0,
            r@ == old(self)@.searched(query@).1,
    {
        let sending = match self.sidebar_search() {
            Some(state) => state.sending,
            None => false,
        };
        let text = query.buffer();
        let empty = query.is_empty();
        let state = SidebarSearchState { query, results: Vec::new(), selected: 0, sending };
        proof {
            assert(state@.results =~= Seq::<crate::wire::SessionSearchItemView>::empty());
        }
        self.set_sidebar_search(Some(state));
        if empty {
            Action::Nothing
        } else {
            Action::SearchSessions(text)
        }
    }

    fn handle_sidebar_search_key(&mut self, key: KeyEvent) -> (r: Action)
        requires
            old(self)@.sidebar_search is Some,
        ensures
            final(self)@ == old(self)@.search_keyed(key).0,
            r@ == old(self)@.search_keyed(key).1,
    {
        let mut state = match self.sidebar_search() {
            Some(state) => state.duplicate(),
            None => SidebarSearchState {
                query: Editor::new(),
                results: Vec::new(),
                selected: 0,
                sending: false,
            },
        };
        proof {
            assert(state@.results.len() == state.results@.len());
        }
        if key.code == KeyCode::Backspace {
            let mut query = state.query;
            query.backspace();
            return self.search_for(query);
        }
        if goes_up(key) {
            state.selected = step_up(state.selected);
            self.set_sidebar_search(Some(state));
            return Action::Nothing;
        }
        if goes_down(key) {
            state.selected = step_down(state.selected, state.results.len());
            self.set_sidebar_search(Some(state));
            return Action::Nothing;
        }
        if key.code == KeyCode::Enter {
            if state.selected < state.results.len() {
                let id = state.results[state.selected].session_id.duplicate();
                self.set_sidebar_search(None);
                return self.switch_to_session(id);
            }
            return Action::Nothing;
        }
        if key.code == KeyCode::Esc {
            self.set_sidebar_search(None);
            return Action::Nothing;
        }
        match key.code {
            KeyCode::Char(c) => {
                let mut query = state.query;
                query.insert_char(c);
                self.search_for(query)
            },
            _ => Action::Nothing,
        }
    }

    // -----------------------------------------------------------------------
    // the drawer
    // -----------------------------------------------------------------------

    /// Close the drawer: the focus and the hint are as they were before it opened.
    pub fn close_drawer(&mut self)
        ensures
            final(self)@ == old(self)@.drawer_closed(),
    {
        if self.drawer_open() {
            let focus = self.drawer_prior_focus();
            let hint = crate::text::duplicate_opt(self.drawer_prior_hint());
            self.set_drawer_open(false);
            self.set_focus(focus);
            self.set_hint(hint);
            self.set_drawer_prior_hint(None);
        }
    }

    /// Open the drawer, or close it.
    pub fn toggle_drawer(&mut self)
        ensures
            final(self)@ == old(self)@.drawer_toggled(),
    {
        if self.drawer_open() {
            self.close_drawer();
        } else {
            let tells = !self.drawer_hint_shown() && self.terminal_width() >= HINT_WIDTH;
            let shown = self.drawer_hint_shown() || tells;
            let focus = self.focus();
            let hint = crate::text::duplicate_opt(self.hint());
            let own = if tells {
                Some(tr(self.strings(), self.locale(), "status.drawer_hint").to_owned())
            } else {
                None
            };
            self.set_drawer_open(true);
            self.set_drawer_prior_focus(focus);
            self.set_drawer_prior_hint(hint);
            self.set_focus(Focus::Sidebar);
            self.set_hint(own);
            self.set_drawer_hint_shown(shown);
        }
    }

    /// Move the selection of the sidebar, where a key does that.
    pub fn handle_selection_key(&mut self, key: KeyEvent) -> (r: bool)
        ensures
            r == old(self)@.selection_keyed(key) is Some,
            final(self)@ == (match old(self)@.selection_keyed(key) {
                Some(there) => there,
                None => old(self)@,
            }),
    {
        let len = self.sidebar_rows().len();
        let mut sidebar = self.sidebar();
        if goes_down(key) {
            sidebar.move_by(1, len);
        } else if goes_up(key) {
            sidebar.move_by(-1, len);
        } else if key.code == KeyCode::Char('g') || key.code == KeyCode::Home {
            sidebar.first();
        } else if key.code == KeyCode::Char('G') || key.code == KeyCode::End {
            sidebar.last(len);
        } else {
            return false;
        }
        self.set_sidebar(sidebar);
        true
    }

    fn handle_drawer_key(&mut self, key: KeyEvent) -> (r: Action)
        ensures
            final(self)@ == old(self)@.drawer_keyed(key).0,
            r@ == old(self)@.drawer_keyed(key).1,
    {
        if self.handle_selection_key(key) {
            return Action::Select;
        }
        if key.code == KeyCode::Enter {
            let action = self.switch_to_selected();
            self.close_drawer();
            return action;
        }
        if key.code == KeyCode::Esc || key.code == KeyCode::Char('s') {
            self.close_drawer();
        }
        Action::Nothing
    }

    // -----------------------------------------------------------------------
    // takeovers
    // -----------------------------------------------------------------------

    fn handle_approval_key(&self, key: KeyEvent) -> (r: Action)
        requires
            self@.mode is Approval,
        ensures
            r@ == self@.takeover_keyed(key).1,
    {
        let sending = match self.mode() {
            Mode::Approval(takeover) => takeover.sending,
            _ => false,
        };
        if sending {
            Action::Nothing
        } else if key.code == KeyCode::Char('y') {
            Action::AnswerApproval(ApprovalResponseOutcome::AllowedOnce)
        } else if key.code == KeyCode::Char('n') || key.code == KeyCode::Esc {
            Action::AnswerApproval(ApprovalResponseOutcome::Rejected)
        } else {
            Action::Nothing
        }
    }

    fn handle_question_key(&mut self, key: KeyEvent) -> (r: Action)
        requires
            old(self)@.mode is Question,
        ensures
            final(self)@ == old(self)@.takeover_keyed(key).0,
            r@ == old(self)@.takeover_keyed(key).1,
    {
        let mut takeover = match self.mode() {
            Mode::Question(takeover) => takeover.duplicate(),
            _ => return Action::Nothing,
        };
        if key.code == KeyCode::Tab {
            takeover.focus_next();
        } else if goes_up(key) {
            takeover.cursor_up();
        } else if goes_down(key) {
            takeover.cursor_down();
        } else if key.code == KeyCode::Char(' ') {
            takeover.toggle();
        } else if key.code == KeyCode::Enter {
            return if takeover.sending {
                Action::Nothing
            } else {
                Action::AnswerQuestion
            };
        } else if key.code == KeyCode::Esc {
            self.hint_key("hint.no_cancel");
            return Action::Nothing;
        } else {
            return Action::Nothing;
        }
        self.set_mode(Mode::Question(takeover));
        Action::Input
    }

    fn handle_image_key(&mut self, key: KeyEvent)
        requires
            old(self)@.mode is Image,
        ensures
            final(self)@ == old(self)@.takeover_keyed(key).0,
    {
        if key.code == KeyCode::Esc || key.code == KeyCode::Char('q') {
            self.set_mode(Mode::Chat);
            return;
        }
        let mut viewer = match self.mode() {
            Mode::Image(viewer) => viewer.duplicate(),
            _ => return,
        };
        if key.code == KeyCode::Char('n') {
            viewer.next();
        } else if key.code == KeyCode::Char('p') {
            viewer.prev();
        } else if key.code == KeyCode::Char('t') {
            viewer.toggle_fit();
        } else {
            return;
        }
        self.set_mode(Mode::Image(viewer));
    }

    /// A key while something other than the chat has the screen.
    pub fn handle_takeover_key(&mut self, key: KeyEvent) -> (r: Action)
        ensures
            final(self)@ == old(self)@.takeover_keyed(key).0,
            r@ == old(self)@.takeover_keyed(key).1,
    {
        match self.mode() {
            Mode::Chat => Action::Nothing,
            Mode::Approval(_) => self.handle_approval_key(key),
            Mode::Question(_) => self.handle_question_key(key),
            Mode::Settings(_) => self.handle_settings_key(key),
            Mode::Image(_) => {
                self.handle_image_key(key);
                Action::Nothing
            },
        }
    }

    /// A key in an overlay of the chat, if one has the keys.
    pub fn handle_overlay_key(&mut self, key: KeyEvent) -> (r: Option<Action>)
        ensures
            final(self)@ == (match old(self)@.overlay_keyed(key) {
                Some((there, _)) => there,
                None => old(self)@,
            }),
            crate::text::opt_view(r) == (match old(self)@.overlay_keyed(key) {
                Some((_, action)) => Some(action),
                None => None,
            }),
    {
        if self.pressed("theme-picker", key) {
            self.toggle_picker();
            return Some(Action::Nothing);
        }
        if self.theme_picker().open {
            self.handle_picker_key(key);
            return Some(Action::Nothing);
        }
        if self.pressed("queue", key) {
            self.toggle_queue_popup();
            return Some(Action::Nothing);
        }
        if self.queue_popup_open() {
            return Some(self.handle_queue_popup_key(key));
        }
        if self.pressed("launcher", key) {
            return Some(self.toggle_launcher());
        }
        if self.launcher().is_some() {
            return Some(self.handle_launcher_key(key));
        }
        if self.new_session().is_some() {
            return Some(self.handle_new_session_key(key));
        }
        if self.sidebar_search().is_some() {
            return Some(self.handle_sidebar_search_key(key));
        }
        if self.drawer_open() {
            return Some(self.handle_drawer_key(key));
        }
        None
    }

    /// Whether a key triggers an action.
    pub fn pressed(&self, action: &str, key: KeyEvent) -> (r: bool)
        ensures
            r == self@.pressed(action@, key),
    {
        self.config().keymap.matches(action, key)
    }
}

impl AppView {
    /// Whether a key triggers an action.
    pub open spec fn pressed(self, action: Seq<char>, key: KeyEvent) -> bool {
        crate::theme::keymap::pressed(self.config.keymap, action, key)
    }

    /// A key in an overlay of the chat, if one has the keys: the theme picker before the
    /// queue, the queue before the launcher, then the new-session picker, the search and the
    /// drawer.
    pub open spec fn overlay_keyed(self, key: KeyEvent) -> Option<(AppView, ActionView)> {
        if self.pressed("theme-picker"@, key) {
            Some((self.picker_toggled(), ActionView::Nothing))
        } else if self.theme_picker.open {
            Some((self.picker_keyed(key), ActionView::Nothing))
        } else if self.pressed("queue"@, key) {
            Some((self.queue_toggled(), ActionView::Nothing))
        } else if self.queue_popup_open {
            Some(self.queue_keyed(key))
        } else if self.pressed("launcher"@, key) {
            Some(self.launcher_toggled())
        } else if self.launcher is Some {
            Some(self.launcher_keyed(key))
        } else if self.new_session is Some {
            Some(self.new_session_keyed(key))
        } else if self.sidebar_search is Some {
            Some(self.search_keyed(key))
        } else if self.drawer_open {
            Some(self.drawer_keyed(key))
        } else {
            None
        }
    }
}

// ---------------------------------------------------------------------------
// laws
// ---------------------------------------------------------------------------

/// Opening the drawer and closing it leads back: the focus and the hint are as before.
pub proof fn law_drawer_restores(app: AppView)
    requires
        !app.drawer_open,
    ensures
        ({
            let after = app.drawer_toggled().drawer_toggled();
            &&& !after.drawer_open
            &&& after.focus == app.focus
            &&& after.hint == app.hint
        }),
{
    reveal(AppView::with_drawer_open);
    reveal(AppView::with_drawer_prior_focus);
    reveal(AppView::with_drawer_prior_hint);
    reveal(AppView::with_focus);
    reveal(AppView::with_hint);
    reveal(AppView::with_drawer_hint_shown);
}

/// The drawer's hint shows once, and never where it cannot be seen.
pub proof fn law_drawer_hint_once(app: AppView)
    requires
        !app.drawer_open,
    ensures
        app.drawer_hint_shown ==> app.drawer_toggled().hint is None,
        app.terminal_width < HINT_WIDTH ==> app.drawer_toggled().hint is None
            && app.drawer_toggled().drawer_hint_shown == app.drawer_hint_shown,
        app.drawer_toggled().hint is Some ==> app.drawer_toggled().drawer_hint_shown,
{
    reveal(AppView::with_drawer_open);
    reveal(AppView::with_drawer_prior_focus);
    reveal(AppView::with_drawer_prior_hint);
    reveal(AppView::with_focus);
    reveal(AppView::with_hint);
    reveal(AppView::with_drawer_hint_shown);
}

/// Two presses of the picker's key, and two of the queue's, lead back to where the picker and
/// the queue were.
pub proof fn law_toggles_back(app: AppView)
    ensures
        app.picker_toggled().picker_toggled().theme_picker.open == app.theme_picker.open,
        app.queue().len() > 0 ==> app.queue_toggled().queue_toggled().queue_popup_open
            == app.queue_popup_open,
{
    reveal(AppView::with_theme_picker);
    reveal(AppView::with_queue_popup_open);
    reveal(AppView::with_queue_scroll);
    reveal(AppView::with_hint);
}

/// What lies behind a takeover.
pub struct Behind {
    pub composer: ComposerView,
    pub focus: Focus,
    pub active_session: Option<Seq<char>>,
    pub sessions: Seq<crate::wire::SessionSummaryView>,
    pub store: crate::store::StoreView,
    pub pending_approvals: Seq<crate::app::state::ApprovalPendingView>,
    pub pending_questions: Seq<crate::app::state::QuestionPendingView>,
}

impl AppView {
    /// What lies behind a takeover.
    #[verifier::opaque]
    pub open spec fn behind(self) -> Behind {
        Behind {
            composer: self.composer,
            focus: self.focus,
            active_session: self.active_session,
            sessions: self.sessions,
            store: self.store,
            pending_approvals: self.pending_approvals,
            pending_questions: self.pending_questions,
        }
    }
}

proof fn lemma_behind()
    ensures
        forall|a: AppView, x: ModeView| (#[trigger] a.with_mode(x)).behind() == a.behind(),
        forall|a: AppView, x: Option<Seq<char>>| (#[trigger] a.with_hint(x)).behind() == a.behind(),
        forall|a: AppView, x: ThemePicker|
            (#[trigger] a.with_theme_picker(x)).behind() == a.behind(),
        forall|a: AppView, x: crate::theme::ThemeView|
            (#[trigger] a.with_theme(x)).behind() == a.behind(),
        forall|a: AppView, x: ConfigView| (#[trigger] a.with_config(x)).behind() == a.behind(),
        forall|a: AppView, x: Option<SaveKind>|
            (#[trigger] a.with_pending_save(x)).behind() == a.behind(),
        forall|a: AppView, x: crate::render::row_cache::RowCacheView|
            (#[trigger] a.with_row_cache(x)).behind() == a.behind(),
        forall|a: AppView, x: Option<crate::app::state::ToastView>|
            (#[trigger] a.with_toast(x)).behind() == a.behind(),
{
    reveal(AppView::behind);
    assert forall|a: AppView, x: ModeView| (#[trigger] a.with_mode(x)).behind() == a.behind() by {
        reveal(AppView::with_mode);
    }
    assert forall|a: AppView, x: Option<Seq<char>>|
        (#[trigger] a.with_hint(x)).behind() == a.behind() by {
        reveal(AppView::with_hint);
    }
    assert forall|a: AppView, x: ThemePicker|
        (#[trigger] a.with_theme_picker(x)).behind() == a.behind() by {
        reveal(AppView::with_theme_picker);
    }
    assert forall|a: AppView, x: crate::theme::ThemeView|
        (#[trigger] a.with_theme(x)).behind() == a.behind() by {
        reveal(AppView::with_theme);
    }
    assert forall|a: AppView, x: ConfigView|
        (#[trigger] a.with_config(x)).behind() == a.behind() by {
        reveal(AppView::with_config);
    }
    assert forall|a: AppView, x: Option<SaveKind>|
        (#[trigger] a.with_pending_save(x)).behind() == a.behind() by {
        reveal(AppView::with_pending_save);
    }
    assert forall|a: AppView, x: crate::render::row_cache::RowCacheView|
        (#[trigger] a.with_row_cache(x)).behind() == a.behind() by {
        reveal(AppView::with_row_cache);
    }
    assert forall|a: AppView, x: Option<crate::app::state::ToastView>|
        (#[trigger] a.with_toast(x)).behind() == a.behind() by {
        reveal(AppView::with_toast);
    }
}

/// A takeover takes all keys: none of them changes anything behind it, neither the composer nor
/// the focus, neither the sessions nor the requests that are open.
pub proof fn law_takeover_swallows(app: AppView, key: KeyEvent)
    ensures
        app.takeover_keyed(key).0.behind() == app.behind(),
{
    lemma_behind();
}

/// An approval cannot be dismissed: no key takes it off the screen, only an answer does.
pub proof fn law_approval_stays(app: AppView, key: KeyEvent)
    requires
        app.mode is Approval,
    ensures
        app.takeover_keyed(key).0 == app,
{
}

/// A queue item that is not the user's, or while another change is on its way, is not changed.
pub proof fn law_queue_guard(app: AppView, key: KeyEvent)
    requires
        app.queue_editor is None,
        !app.item_free(),
    ensures
        app.queue_keyed(key).1 == ActionView::Nothing,
        app.queue_keyed(key).0.queue_editor is None,
{
    reveal(AppView::with_queue_scroll);
    reveal(AppView::with_queue_popup_open);
    reveal(AppView::with_queue_editor);
}

/// Switching leaves the chat at its bottom with nothing rendered of the other session, and
/// switching again to the same session does nothing.
pub proof fn law_switch(app: AppView, id: Seq<char>)
    ensures
        ({
            let (after, action) = app.switched(id);
            &&& after.active_session == Some(id)
            &&& after.switched(id) == (after, ActionView::Nothing)
            &&& app.active_session != Some(id) ==> action == ActionView::SwitchSession(id)
                && after.view.follow && after.row_cache.rows.len() == 0
                && after.store.sessions.dom().contains(id)
            &&& after.pending_approvals == app.pending_approvals
            &&& after.pending_questions == app.pending_questions
        }),
{
    reveal(AppView::with_store);
    reveal(AppView::with_row_cache);
    reveal(AppView::with_active_session);
    reveal(AppView::with_session_model);
    reveal(AppView::with_view);
    reveal(AppView::with_hint);
}

} // verus!
