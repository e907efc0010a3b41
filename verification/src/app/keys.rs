//! Where a key goes, and what it does in the chat, the composer and the sidebar.

use vstd::prelude::*;

use crate::app::editor::{Composer, ComposerView, Editor, EditorView, PopupKind};
use crate::app::overlays::{goes_down, goes_up};
use crate::app::state::{
    Action, ActionView, App, AppView, Focus, NewSessionState, RenameEditor, RenameEditorView,
    SidebarSearchState, SidebarSearchStateView, ViewState, TOO_SMALL_WIDTH, WIDE_WIDTH,
};
use crate::key::{KeyCode, KeyEvent};
use crate::text::{trimmed, Duplicate};
use crate::wire::SessionSummaryView;

verus! {

impl AppView {
    // -----------------------------------------------------------------------
    // the chat
    // -----------------------------------------------------------------------

    /// The furthest that the chat scrolls: its last line is at the bottom of the screen.
    pub open spec fn bottom(self) -> int {
        let lines = crate::render::row_cache::line_count(self.row_cache.rows);
        let total = if lines <= usize::MAX {
            lines as int
        } else {
            usize::MAX as int
        };
        if total > self.view.viewport_height {
            total - self.view.viewport_height
        } else {
            0
        }
    }

    /// The chat scrolled by some lines, no further than its top and its bottom. It no longer
    /// follows what arrives.
    pub open spec fn scrolled(self, delta: int) -> AppView {
        let there = self.view.offset + delta;
        self.with_view(
            ViewState {
                offset: if there < 0 {
                    0
                } else if there > self.bottom() {
                    self.bottom() as usize
                } else {
                    there as usize
                },
                follow: false,
                ..self.view
            },
        )
    }

    /// The selection given up.
    pub open spec fn selection_cancelled(self) -> AppView {
        self.with_selection(None).with_select_mode(false).unhinted()
    }

    /// Selecting by mouse switched on or off.
    pub open spec fn selection_toggled(self) -> AppView {
        if self.select_mode {
            self.with_select_mode(false).with_selection(None).unhinted()
        } else {
            self.with_select_mode(true).advised("status.select_hint"@)
        }
    }

    /// The new-session picker opened.
    pub open spec fn picker_opened(self) -> AppView {
        self.choosing(Some(NewSessionState { selected: 0, sending: false }))
    }

    /// Half the height of the chat.
    pub open spec fn half_page(self) -> int {
        (self.view.viewport_height / 2) as int
    }

    /// A key in the chat.
    pub open spec fn chat_keyed(self, key: KeyEvent) -> Option<(AppView, ActionView)> {
        if self.pressed("selection-toggle"@, key) {
            Some((self.selection_toggled(), ActionView::Nothing))
        } else if self.pressed("image-viewer"@, key) {
            Some((self.viewer_opened(), ActionView::Nothing))
        } else if key.code == KeyCode::Char('q') {
            Some((self, ActionView::Quit))
        } else if key.code == KeyCode::Char('n') {
            Some((self.picker_opened(), ActionView::Nothing))
        } else if crate::app::overlays::is_down(key) {
            Some((self.scrolled(1), ActionView::Scroll(1)))
        } else if crate::app::overlays::is_up(key) {
            Some((self.scrolled(-1), ActionView::Scroll(-1i64 as i64)))
        } else if key.code == KeyCode::Char('g') || key.code == KeyCode::Home {
            Some(
                (
                    self.with_view(ViewState { offset: 0, follow: false, ..self.view }),
                    ActionView::Scroll(i64::MIN),
                ),
            )
        } else if key.code == KeyCode::Char('G') || key.code == KeyCode::End {
            Some(
                (
                    self.with_view(ViewState { follow: true, ..self.view }),
                    ActionView::Scroll(i64::MAX),
                ),
            )
        } else if key.code == KeyCode::Char('d') && key.control {
            Some(
                (self.scrolled(self.half_page()), ActionView::Scroll(self.half_page() as i64)),
            )
        } else if key.code == KeyCode::Char('u') && key.control {
            Some(
                (
                    self.scrolled(-self.half_page()),
                    ActionView::Scroll((-self.half_page()) as i64),
                ),
            )
        } else if key.code == KeyCode::Esc {
            Some(
                (
                    if self.select_mode {
                        self.selection_cancelled()
                    } else {
                        self
                    },
                    ActionView::Nothing,
                ),
            )
        } else {
            None
        }
    }

    // -----------------------------------------------------------------------
    // the composer
    // -----------------------------------------------------------------------

    /// The composer's text submitted, unless it is blank or a turn is in flight.
    pub open spec fn submitted(self) -> (AppView, ActionView) {
        if crate::text::trim(self.composer.editor.text).len() == 0 {
            (self, ActionView::Nothing)
        } else if self.busy() {
            (self.advised("hint.turn_running"@), ActionView::Nothing)
        } else {
            (
                self.unhinted().composing(ComposerView::blank()),
                ActionView::Submit(self.composer.editor.text),
            )
        }
    }

    /// The composer's text changed.
    pub open spec fn composed(self, editor: EditorView) -> (AppView, ActionView) {
        (self.composing(self.composer.edited(editor)), ActionView::Input)
    }

    /// The composer's caret moved.
    pub open spec fn caret_moved(self, editor: EditorView) -> (AppView, ActionView) {
        (self.composing(ComposerView { editor, ..self.composer }), ActionView::Input)
    }

    /// A key in the composer while its list is open: Esc closes the list and asks for nothing;
    /// any other key first asks for the catalog where it is needed.
    pub open spec fn list_keyed(self, key: KeyEvent) -> (AppView, ActionView) {
        if key.code == KeyCode::Esc {
            (self.composing(self.composer.closed()), ActionView::Nothing)
        } else if self.composer.popup() == Some(PopupKind::At) && self.catalog_stale() {
            (self, ActionView::RequestCatalog)
        } else {
            self.popup_keyed(key)
        }
    }

    /// A key in the composer.
    pub open spec fn composer_keyed(self, key: KeyEvent) -> (AppView, ActionView) {
        let e = self.composer.editor;
        if self.pressed("composer.quit-eof"@, key) {
            (self, ActionView::Quit)
        } else if self.composer.popup() is Some {
            self.list_keyed(key)
        } else if self.pressed("composer.focus-chat"@, key) {
            (self.focused(Focus::Chat), ActionView::Focus(Focus::Chat))
        } else if self.pressed("composer.newline"@, key) {
            self.composed(e.typed('\n'))
        } else if self.pressed("composer.submit"@, key) {
            self.submitted()
        } else if self.pressed("composer.backspace"@, key) {
            self.composed(e.without_previous())
        } else if self.pressed("composer.delete"@, key) {
            self.composed(e.without_next())
        } else if self.pressed("composer.left"@, key) {
            self.caret_moved(e.to_left())
        } else if self.pressed("composer.right"@, key) {
            self.caret_moved(e.to_right())
        } else if self.pressed("composer.home"@, key) {
            self.caret_moved(e.to_home())
        } else if self.pressed("composer.end"@, key) {
            self.caret_moved(e.to_end())
        } else if self.pressed("composer.up"@, key) {
            self.caret_moved(e.to_up())
        } else if self.pressed("composer.down"@, key) {
            self.caret_moved(e.to_down())
        } else {
            match key.code {
                KeyCode::Char(c) => if key.control {
                    (self, ActionView::Nothing)
                } else {
                    self.composed(e.typed(c))
                },
                _ => (self, ActionView::Nothing),
            }
        }
    }

    // -----------------------------------------------------------------------
    // the sidebar
    // -----------------------------------------------------------------------

    /// The editor of a title in some state.
    pub open spec fn renaming(self, rename_editor: Option<RenameEditorView>) -> AppView {
        self.with_rename_editor(rename_editor)
    }

    /// A key in the editor of a title. An empty title is not sent.
    pub open spec fn rename_keyed(self, key: KeyEvent) -> (AppView, ActionView) {
        let at = self.rename_editor->0;
        match key.code {
            KeyCode::Char(c) => (
                self.renaming(Some(RenameEditorView { editor: at.editor.typed(c), ..at })),
                ActionView::Nothing,
            ),
            KeyCode::Backspace => (
                self.renaming(
                    Some(RenameEditorView { editor: at.editor.without_previous(), ..at }),
                ),
                ActionView::Nothing,
            ),
            KeyCode::Enter => (
                self.renaming(None),
                if crate::text::trim(at.editor.text).len() == 0 {
                    ActionView::Nothing
                } else {
                    ActionView::RenameSession { session_id: at.session_id, title: at.editor.text }
                },
            ),
            KeyCode::Esc => (self.renaming(None), ActionView::Nothing),
            _ => (self, ActionView::Nothing),
        }
    }

    /// The row of the selected session.
    pub open spec fn selected_row(self) -> Option<SessionSummaryView> {
        let rows = self.rows();
        let at = self.sidebar.selected;
        if at < rows.len() && rows[at as int] < self.sessions.len() {
            Some(self.sessions[rows[at as int] as int])
        } else {
            None
        }
    }

    /// The editor of the selected session's title opened, on the title it is shown by.
    pub open spec fn rename_opened(self) -> AppView {
        match self.selected_row() {
            Some(row) => self.renaming(
                Some(
                    RenameEditorView {
                        session_id: row.session_id,
                        editor: EditorView::holding(crate::app::sidebar::shown_title(row)),
                    },
                ),
            ),
            None => self,
        }
    }

    /// The search opened.
    pub open spec fn search_opened(self) -> AppView {
        self.searching(
            Some(
                SidebarSearchStateView {
                    query: EditorView::blank(),
                    results: Seq::empty(),
                    selected: 0,
                    sending: false,
                },
            ),
        )
    }

    /// A key in the sidebar. What changes a session waits while such a change is on its way.
    pub open spec fn sidebar_keyed(self, key: KeyEvent) -> Option<(AppView, ActionView)> {
        if self.rename_editor is Some {
            Some(self.rename_keyed(key))
        } else if key.code == KeyCode::Char('q') {
            Some((self, ActionView::Quit))
        } else if self.selection_keyed(key) is Some {
            Some((self.selection_keyed(key)->0, ActionView::Select))
        } else if key.code == KeyCode::Enter {
            Some(self.selection_switched())
        } else if key.code == KeyCode::Char('n') {
            Some((self.picker_opened(), ActionView::Nothing))
        } else if key.code == KeyCode::Char('/') {
            Some((self.search_opened(), ActionView::Nothing))
        } else if key.code == KeyCode::Char('e') {
            Some(
                (
                    self.with_archived_expanded(!self.archived_expanded).selection_kept(),
                    ActionView::Nothing,
                ),
            )
        } else if key.code == KeyCode::Char('r') {
            Some(
                (
                    if self.sidebar_action_sending {
                        self
                    } else {
                        self.rename_opened()
                    },
                    ActionView::Nothing,
                ),
            )
        } else if key.code == KeyCode::Char('f') || key.code == KeyCode::Char('a') {
            Some(
                (
                    self,
                    match self.selected_session() {
                        Some(id) => if self.sidebar_action_sending {
                            ActionView::Nothing
                        } else if key.code == KeyCode::Char('f') {
                            ActionView::ForkSession(id)
                        } else {
                            ActionView::ArchiveSession(id)
                        },
                        None => ActionView::Nothing,
                    },
                ),
            )
        } else if key.code == KeyCode::Esc {
            Some((self.focused(Focus::Chat), ActionView::Focus(Focus::Chat)))
        } else {
            None
        }
    }

    // -----------------------------------------------------------------------
    // where a key goes
    // -----------------------------------------------------------------------

    /// The focus moved to a surface, unless it is there.
    pub open spec fn focus_moved(self, focus: Focus) -> (AppView, ActionView) {
        if self.focus == focus {
            (self, ActionView::Nothing)
        } else {
            (self.focused(focus), ActionView::Focus(focus))
        }
    }

    /// The key behind Ctrl+W: `h`, `j`, `k` and `l` move the focus, any other key does nothing.
    pub open spec fn pane_keyed(self, key: KeyEvent) -> (AppView, ActionView) {
        let there = self.with_pane_prefix(false);
        match key.code {
            KeyCode::Char('h') => there.focus_moved(Focus::Sidebar),
            KeyCode::Char('l') => there.focus_moved(Focus::Chat),
            KeyCode::Char('j') => there.focus_moved(Focus::Composer),
            KeyCode::Char('k') => there.focus_moved(Focus::Chat),
            _ => (there, ActionView::Nothing),
        }
    }

    /// A key that goes to the surface in focus, behind the keys that move the focus.
    pub open spec fn surface_keyed(self, key: KeyEvent) -> Option<(AppView, ActionView)> {
        if self.pressed("drawer-toggle"@, key) && self.focus != Focus::Composer
            && self.terminal_width < WIDE_WIDTH {
            Some((self.drawer_toggled(), ActionView::Nothing))
        } else if key.control && key.code == KeyCode::Char('w') {
            Some((self.with_pane_prefix(true), ActionView::Nothing))
        } else if self.pane_prefix {
            Some(self.pane_keyed(key))
        } else if key.code == KeyCode::Tab {
            Some((self.focused(self.focus.following()), ActionView::Focus(self.focus.following())))
        } else {
            match self.focus {
                Focus::Chat => self.chat_keyed(key),
                Focus::Composer => Some(self.composer_keyed(key)),
                Focus::Sidebar => self.sidebar_keyed(key),
            }
        }
    }

    /// Where a key goes. Cancelling and quitting come first, everywhere: cancelling ends the
    /// running turn, or quits where none runs or something else has the screen. On a screen
    /// that is too small nothing else works but `q`. Then a takeover has all keys, then the
    /// overlays, then the surface in focus.
    pub open spec fn keyed(self, key: KeyEvent) -> Option<(AppView, ActionView)> {
        if self.pressed("cancel"@, key) {
            Some(
                (
                    self,
                    if self.mode is Chat && self.busy() {
                        ActionView::CancelTurn
                    } else {
                        ActionView::Quit
                    },
                ),
            )
        } else if self.pressed("quit"@, key) {
            Some((self, ActionView::Quit))
        } else if self.terminal_width < TOO_SMALL_WIDTH {
            Some(
                (
                    self,
                    if key.code == KeyCode::Char('q') && key.is_bare() {
                        ActionView::Quit
                    } else {
                        ActionView::Nothing
                    },
                ),
            )
        } else if !(self.mode is Chat) {
            Some(self.takeover_keyed(key))
        } else if self.pressed("settings"@, key) {
            Some((self.settings_opened(), ActionView::FetchSettings))
        } else if self.pressed("locale"@, key) {
            Some((self.locale_cycled(), ActionView::Nothing))
        } else {
            match self.overlay_keyed(key) {
                Some(result) => Some(result),
                None => self.surface_keyed(key),
            }
        }
    }
}

/// The state that a key leaves.
pub open spec fn left(result: Option<(AppView, ActionView)>, before: AppView) -> AppView {
    match result {
        Some((there, _)) => there,
        None => before,
    }
}

/// The action that a key comes to.
pub open spec fn done(result: Option<(AppView, ActionView)>) -> Option<ActionView> {
    match result {
        Some((_, action)) => Some(action),
        None => None,
    }
}

impl App {
    /// Scroll the chat by some lines.
    pub fn scroll(&mut self, delta: i64)
        ensures
            final(self)@ == old(self)@.scrolled(delta as int),
    {
        let view = self.viewport();
        let total = self.row_cache().line_total();
        let height = view.viewport_height as usize;
        let bottom = if total > height {
            total - height
        } else {
            0
        };
        let there: i128 = view.offset as i128 + delta as i128;
        let offset = if there < 0 {
            0
        } else if there > bottom as i128 {
            bottom
        } else {
            there as usize
        };
        self.set_view(
            ViewState { offset, follow: false, viewport_height: view.viewport_height },
        );
    }

    /// Give the selection up.
    pub fn cancel_selection(&mut self)
        ensures
            final(self)@ == old(self)@.selection_cancelled(),
    {
        self.set_selection(None);
        self.set_select_mode(false);
        self.set_hint(None);
    }

    fn toggle_selection_mode(&mut self)
        ensures
            final(self)@ == old(self)@.selection_toggled(),
    {
        if self.select_mode() {
            self.set_select_mode(false);
            self.set_selection(None);
            self.set_hint(None);
        } else {
            self.set_select_mode(true);
            self.hint_key("status.select_hint");
        }
    }

    fn open_new_session_picker(&mut self)
        ensures
            final(self)@ == old(self)@.picker_opened(),
    {
        self.set_new_session(Some(NewSessionState { selected: 0, sending: false }));
    }

    /// A key in the chat.
    pub fn handle_chat_key(&mut self, key: KeyEvent) -> (r: Option<Action>)
        ensures
            final(self)@ == left(old(self)@.chat_keyed(key), old(self)@),
            crate::text::opt_view(r) == done(old(self)@.chat_keyed(key)),
    {
        if self.pressed("selection-toggle", key) {
            self.toggle_selection_mode();
            return Some(Action::Nothing);
        }
        if self.pressed("image-viewer", key) {
            self.open_image_viewer();
            return Some(Action::Nothing);
        }
        if key.code == KeyCode::Char('q') {
            return Some(Action::Quit);
        }
        if key.code == KeyCode::Char('n') {
            self.open_new_session_picker();
            return Some(Action::Nothing);
        }
        if goes_down(key) {
            self.scroll(1);
            return Some(Action::Scroll(1));
        }
        if goes_up(key) {
            self.scroll(-1);
            return Some(Action::Scroll(-1));
        }
        let view = self.viewport();
        let half = (view.viewport_height / 2) as i64;
        if key.code == KeyCode::Char('g') || key.code == KeyCode::Home {
            self.set_view(
                ViewState { offset: 0, follow: false, viewport_height: view.viewport_height },
            );
            return Some(Action::Scroll(i64::MIN));
        }
        if key.code == KeyCode::Char('G') || key.code == KeyCode::End {
            self.set_view(
                ViewState {
                    offset: view.offset,
                    follow: true,
                    viewport_height: view.viewport_height,
                },
            );
            return Some(Action::Scroll(i64::MAX));
        }
        if key.code == KeyCode::Char('d') && key.control {
            self.scroll(half);
            return Some(Action::Scroll(half));
        }
        if key.code == KeyCode::Char('u') && key.control {
            self.scroll(-half);
            return Some(Action::Scroll(-half));
        }
        if key.code == KeyCode::Esc {
            if self.select_mode() {
                self.cancel_selection();
            }
            return Some(Action::Nothing);
        }
        None
    }

    fn submit(&mut self) -> (r: Action)
        ensures
            final(self)@ == old(self)@.submitted().0,
            r@ == old(self)@.submitted().1,
    {
        let text = self.composer().buffer();
        if trimmed(text.as_str()).as_str().is_empty() {
            return Action::Nothing;
        }
        if self.session_running() {
            self.hint_key("hint.turn_running");
            return Action::Nothing;
        }
        self.set_hint(None);
        self.set_composer(Composer::new());
        Action::Submit(text)
    }

    fn handle_list_key(&mut self, key: KeyEvent) -> (r: Action)
        ensures
            final(self)@ == old(self)@.list_keyed(key).0,
            r@ == old(self)@.list_keyed(key).1,
    {
        if key.code == KeyCode::Esc {
            let mut composer = self.composer().duplicate();
            composer.popup_dismiss();
            self.set_composer(composer);
            return Action::Nothing;
        }
        let at = match self.composer().popup() {
            Some(PopupKind::At) => true,
            _ => false,
        };
        if at && self.at_catalog_stale() {
            return Action::RequestCatalog;
        }
        self.handle_popup_key(key)
    }

    fn put_composer(&mut self, composer: Composer) -> (r: Action)
        ensures
            final(self)@ == old(self)@.composing(composer@),
            r@ == ActionView::Input,
    {
        self.set_composer(composer);
        Action::Input
    }

    /// A key in the composer.
    pub fn handle_composer_key(&mut self, key: KeyEvent) -> (r: Action)
        ensures
            final(self)@ == old(self)@.composer_keyed(key).0,
            r@ == old(self)@.composer_keyed(key).1,
    {
        if self.pressed("composer.quit-eof", key) {
            return Action::Quit;
        }
        let mut composer = self.composer().duplicate();
        if composer.popup().is_some() {
            return self.handle_list_key(key);
        }
        if self.pressed("composer.focus-chat", key) {
            self.set_focus(Focus::Chat);
            return Action::Focus(Focus::Chat);
        }
        if self.pressed("composer.newline", key) {
            composer.insert_char('\n');
            return self.put_composer(composer);
        }
        if self.pressed("composer.submit", key) {
            return self.submit();
        }
        if self.pressed("composer.backspace", key) {
            composer.backspace();
            return self.put_composer(composer);
        }
        if self.pressed("composer.delete", key) {
            composer.delete();
            return self.put_composer(composer);
        }
        if self.pressed("composer.left", key) {
            composer.editor.move_left();
            return self.put_composer(composer);
        }
        if self.pressed("composer.right", key) {
            composer.editor.move_right();
            return self.put_composer(composer);
        }
        if self.pressed("composer.home", key) {
            composer.editor.move_home();
            return self.put_composer(composer);
        }
        if self.pressed("composer.end", key) {
            composer.editor.move_end();
            return self.put_composer(composer);
        }
        if self.pressed("composer.up", key) {
            composer.editor.move_up();
            return self.put_composer(composer);
        }
        if self.pressed("composer.down", key) {
            composer.editor.move_down();
            return self.put_composer(composer);
        }
        match key.code {
            KeyCode::Char(c) => if key.control {
                Action::Nothing
            } else {
                composer.insert_char(c);
                self.put_composer(composer)
            },
            _ => Action::Nothing,
        }
    }

    fn handle_rename_key(&mut self, key: KeyEvent) -> (r: Action)
        requires
            old(self)@.rename_editor is Some,
        ensures
            final(self)@ == old(self)@.rename_keyed(key).0,
            r@ == old(self)@.rename_keyed(key).1,
    {
        let mut at = match self.rename_editor() {
            Some(at) => at.duplicate(),
            None => return Action::Nothing,
        };
        match key.code {
            KeyCode::Char(c) => {
                at.editor.insert_char(c);
                self.set_rename_editor(Some(at));
                Action::Nothing
            },
            KeyCode::Backspace => {
                at.editor.backspace();
                self.set_rename_editor(Some(at));
                Action::Nothing
            },
            KeyCode::Enter => {
                let title = at.editor.buffer();
                self.set_rename_editor(None);
                if trimmed(title.as_str()).as_str().is_empty() {
                    Action::Nothing
                } else {
                    Action::RenameSession { session_id: at.session_id, title }
                }
            },
            KeyCode::Esc => {
                self.set_rename_editor(None);
                Action::Nothing
            },
            _ => Action::Nothing,
        }
    }

    fn open_rename_editor(&mut self)
        ensures
            final(self)@ == old(self)@.rename_opened(),
    {
        let rows = self.sidebar_rows();
        let at = self.sidebar().selected;
        let sessions = self.sessions();
        if at < rows.len() && rows[at] < sessions.len() {
            let row = &sessions[rows[at]];
            let title = crate::app::sidebar::label_of(row);
            let editor = RenameEditor {
                session_id: row.session_id.duplicate(),
                editor: Editor::on(title.as_str()),
            };
            self.set_rename_editor(Some(editor));
        }
    }

    fn open_search(&mut self)
        ensures
            final(self)@ == old(self)@.search_opened(),
    {
        let state = SidebarSearchState {
            query: Editor::new(),
            results: Vec::new(),
            selected: 0,
            sending: false,
        };
        proof {
            assert(state@.results =~= Seq::<crate::wire::SessionSearchItemView>::empty());
        }
        self.set_sidebar_search(Some(state));
    }

    fn toggle_archived(&mut self)
        ensures
            final(self)@ == old(self)@.with_archived_expanded(
                !old(self)@.archived_expanded,
            ).selection_kept(),
    {
        let expanded = self.archived_expanded();
        self.set_archived_expanded(!expanded);
        self.keep_selection();
    }

    /// A key in the sidebar.
    pub fn handle_sidebar_key(&mut self, key: KeyEvent) -> (r: Option<Action>)
        ensures
            final(self)@ == left(old(self)@.sidebar_keyed(key), old(self)@),
            crate::text::opt_view(r) == done(old(self)@.sidebar_keyed(key)),
    {
        if self.rename_editor().is_some() {
            return Some(self.handle_rename_key(key));
        }
        if key.code == KeyCode::Char('q') {
            return Some(Action::Quit);
        }
        if self.handle_selection_key(key) {
            return Some(Action::Select);
        }
        if key.code == KeyCode::Enter {
            return Some(self.switch_to_selected());
        }
        if key.code == KeyCode::Char('n') {
            self.open_new_session_picker();
            return Some(Action::Nothing);
        }
        if key.code == KeyCode::Char('/') {
            self.open_search();
            return Some(Action::Nothing);
        }
        if key.code == KeyCode::Char('e') {
            self.toggle_archived();
            return Some(Action::Nothing);
        }
        if key.code == KeyCode::Char('r') {
            if !self.sidebar_action_sending() {
                self.open_rename_editor();
            }
            return Some(Action::Nothing);
        }
        if key.code == KeyCode::Char('f') || key.code == KeyCode::Char('a') {
            let fork = key.code == KeyCode::Char('f');
            return match self.selected_session() {
                Some(id) => if self.sidebar_action_sending() {
                    Some(Action::Nothing)
                } else if fork {
                    Some(Action::ForkSession(id))
                } else {
                    Some(Action::ArchiveSession(id))
                },
                None => Some(Action::Nothing),
            };
        }
        if key.code == KeyCode::Esc {
            self.set_focus(Focus::Chat);
            return Some(Action::Focus(Focus::Chat));
        }
        None
    }

    fn move_focus(&mut self, focus: Focus) -> (r: Action)
        ensures
            final(self)@ == old(self)@.focus_moved(focus).0,
            r@ == old(self)@.focus_moved(focus).1,
    {
        if self.focus() == focus {
            return Action::Nothing;
        }
        self.set_focus(focus);
        Action::Focus(focus)
    }

    fn handle_pane_key(&mut self, key: KeyEvent) -> (r: Action)
        ensures
            final(self)@ == old(self)@.pane_keyed(key).0,
            r@ == old(self)@.pane_keyed(key).1,
    {
        self.set_pane_prefix(false);
        match key.code {
            KeyCode::Char('h') => self.move_focus(Focus::Sidebar),
            KeyCode::Char('l') => self.move_focus(Focus::Chat),
            KeyCode::Char('j') => self.move_focus(Focus::Composer),
            KeyCode::Char('k') => self.move_focus(Focus::Chat),
            _ => Action::Nothing,
        }
    }

    fn handle_surface_key(&mut self, key: KeyEvent) -> (r: Option<Action>)
        ensures
            final(self)@ == left(old(self)@.surface_keyed(key), old(self)@),
            crate::text::opt_view(r) == done(old(self)@.surface_keyed(key)),
    {
        if self.pressed("drawer-toggle", key) && self.focus() != Focus::Composer
            && self.terminal_width() < WIDE_WIDTH {
            self.toggle_drawer();
            return Some(Action::Nothing);
        }
        if key.control && key.code == KeyCode::Char('w') {
            self.set_pane_prefix(true);
            return Some(Action::Nothing);
        }
        if self.pane_prefix() {
            return Some(self.handle_pane_key(key));
        }
        if key.code == KeyCode::Tab {
            let next = self.focus().next();
            self.set_focus(next);
            return Some(Action::Focus(next));
        }
        match self.focus() {
            Focus::Chat => self.handle_chat_key(key),
            Focus::Composer => Some(self.handle_composer_key(key)),
            Focus::Sidebar => self.handle_sidebar_key(key),
        }
    }

    /// Handle a key. Quitting is not applied here: the loop around it stops.
    pub fn handle_key(&mut self, key: KeyEvent) -> (r: Option<Action>)
        ensures
            final(self)@ == left(old(self)@.keyed(key), old(self)@),
            crate::text::opt_view(r) == done(old(self)@.keyed(key)),
    {
        if self.pressed("cancel", key) {
            return Some(
                if self.in_chat() && self.session_running() {
                    Action::CancelTurn
                } else {
                    Action::Quit
                },
            );
        }
        if self.pressed("quit", key) {
            return Some(Action::Quit);
        }
        if self.terminal_width() < TOO_SMALL_WIDTH {
            return Some(
                if key.code == KeyCode::Char('q') && key.bare() {
                    Action::Quit
                } else {
                    Action::Nothing
                },
            );
        }
        if !self.in_chat() {
            return Some(self.handle_takeover_key(key));
        }
        if self.pressed("settings", key) {
            self.open_settings();
            return Some(Action::FetchSettings);
        }
        if self.pressed("locale", key) {
            self.cycle_locale();
            return Some(Action::Nothing);
        }
        match self.handle_overlay_key(key) {
            Some(action) => Some(action),
            None => self.handle_surface_key(key),
        }
    }
}

// ---------------------------------------------------------------------------
// laws
// ---------------------------------------------------------------------------

/// The chat never scrolls past its bottom, nor before its top.
pub proof fn law_scroll_bounds(app: AppView, delta: int)
    ensures
        0 <= app.scrolled(delta).view.offset <= app.bottom(),
        !app.scrolled(delta).view.follow,
        app.scrolled(delta).view.viewport_height == app.view.viewport_height,
{
    reveal(AppView::with_view);
}

/// Scrolling up and down again by as much leads back, where neither end was reached.
pub proof fn law_scroll_back(app: AppView, delta: int)
    requires
        0 <= app.view.offset + delta <= app.bottom(),
        app.view.offset <= app.bottom(),
    ensures
        app.scrolled(delta).scrolled(-delta).view.offset == app.view.offset,
{
    reveal(AppView::with_view);
}

/// The quit key quits from everywhere, and the cancel key from everywhere but a running chat,
/// where it cancels the turn. Neither changes anything by itself.
pub proof fn law_quit_everywhere(app: AppView, key: KeyEvent)
    ensures
        app.pressed("cancel"@, key) ==> app.keyed(key) == Some(
            (
                app,
                if app.mode is Chat && app.busy() {
                    ActionView::CancelTurn
                } else {
                    ActionView::Quit
                },
            ),
        ),
        app.pressed("quit"@, key) && !app.pressed("cancel"@, key) ==> app.keyed(key) == Some(
            (app, ActionView::Quit),
        ),
{
}

/// On a screen that is too small, no key changes anything.
pub proof fn law_too_small_inert(app: AppView, key: KeyEvent)
    requires
        app.terminal_width < TOO_SMALL_WIDTH,
    ensures
        left(app.keyed(key), app) == app,
        done(app.keyed(key)) is Some,
{
}

/// A prompt is submitted only where no turn is in flight, is never blank, and leaves the
/// composer empty.
pub proof fn law_submit(app: AppView)
    ensures
        app.submitted().1 matches ActionView::Submit(text) ==> !app.busy() && crate::text::trim(
            text,
        ).len() > 0 && text == app.composer.editor.text && app.submitted().0.composer
            == ComposerView::blank(),
        !(app.submitted().1 is Submit) ==> app.submitted().0.composer == app.composer,
{
    reveal(AppView::with_composer);
    reveal(AppView::with_hint);
}

/// Closing the composer's list never asks for the catalog.
pub proof fn law_closing_list_is_free(app: AppView, key: KeyEvent)
    requires
        key.code == KeyCode::Esc,
    ensures
        app.list_keyed(key).1 == ActionView::Nothing,
{
}

/// While a change of the session list is on its way, the sidebar asks for no other.
pub proof fn law_one_change_at_a_time(app: AppView, key: KeyEvent)
    requires
        app.sidebar_action_sending,
        app.rename_editor is None,
    ensures
        !(done(app.sidebar_keyed(key)) matches Some(ActionView::ForkSession(_))),
        !(done(app.sidebar_keyed(key)) matches Some(ActionView::ArchiveSession(_))),
        !(done(app.sidebar_keyed(key)) matches Some(ActionView::RenameSession { .. })),
        left(app.sidebar_keyed(key), app).rename_editor is None,
{
    reveal(AppView::with_focus);
    reveal(AppView::with_sidebar);
    reveal(AppView::with_new_session);
    reveal(AppView::with_sidebar_search);
    reveal(AppView::with_archived_expanded);
    lemma_switch_keeps_editor(app);
}

proof fn lemma_switch_keeps_editor(app: AppView)
    ensures
        app.selection_switched().0.rename_editor == app.rename_editor,
        app.selection_switched().1 is Nothing || app.selection_switched().1 is SwitchSession,
{
    reveal(AppView::with_store);
    reveal(AppView::with_row_cache);
    reveal(AppView::with_active_session);
    reveal(AppView::with_session_model);
    reveal(AppView::with_view);
    reveal(AppView::with_hint);
}

} // verus!
