//! Which keys move the chat, the focus and the sidebar, whatever they show.

use vstd::prelude::*;

use crate::app::state::{ActionView, AppView, Focus, LauncherActionView};
use crate::i18n::StringsView;
use crate::key::{KeyCode, KeyEvent};
use crate::theme::ThemeView;

verus! {

/// Whether no action of the chat is bound to a key.
pub open spec fn unbound(app: AppView, key: KeyEvent) -> bool {
    !app.pressed("selection-toggle"@, key) && !app.pressed("image-viewer"@, key)
}

/// One line down and one line up move the chat by a line, and half a page by half of what the
/// chat shows, as far as it goes; from then on it no longer follows the end.
pub proof fn law_chat_scrolls(app: AppView, key: KeyEvent)
    requires
        unbound(app, key),
        app.view.offset <= app.bottom(),
        app.bottom() <= usize::MAX,
    ensures
        ({
            let moved = app.chat_keyed(key);
            let down = key.code == KeyCode::Down || key.code == KeyCode::Char('j');
            let up = key.code == KeyCode::Up || key.code == KeyCode::Char('k');
            let page_down = key.code == KeyCode::Char('d') && key.control;
            let page_up = key.code == KeyCode::Char('u') && key.control;
            let half = app.view.viewport_height / 2;
            &&& down || up || page_down || page_up ==> (moved matches Some((out, _))
                && !out.view.follow)
            &&& down && app.view.offset < app.bottom() ==> (moved matches Some((out, _))
                && out.view.offset == app.view.offset + 1)
            &&& down && app.view.offset == app.bottom() ==> (moved matches Some((out, _))
                && out.view.offset == app.view.offset)
            &&& up && app.view.offset > 0 ==> (moved matches Some((out, _)) && out.view.offset
                == app.view.offset - 1)
            &&& page_down && app.view.offset + half <= app.bottom() ==> (moved matches Some((out, _))
                && out.view.offset == app.view.offset + half)
            &&& page_up && app.view.offset >= half ==> (moved matches Some((out, _))
                && out.view.offset == app.view.offset - half)
        }),
{
    reveal(AppView::with_view);
}

/// `g` and Home lead to the top of the chat, `G` and End to its end, which it then follows.
pub proof fn law_chat_ends(app: AppView, key: KeyEvent)
    requires
        unbound(app, key),
    ensures
        key.code == KeyCode::Char('g') || key.code == KeyCode::Home ==> (app.chat_keyed(
            key,
        ) matches Some((out, _)) && out.view.offset == 0 && !out.view.follow),
        key.code == KeyCode::Char('G') || key.code == KeyCode::End ==> (app.chat_keyed(
            key,
        ) matches Some((out, _)) && out.view.follow),
{
    reveal(AppView::with_view);
}

/// The selection by rows is switched on by its key and off again by the same key, and Esc ends
/// it with what was selected.
pub proof fn law_selection_mode(app: AppView, key: KeyEvent, esc: KeyEvent)
    requires
        app.pressed("selection-toggle"@, key),
        unbound(app, esc),
        esc.code == KeyCode::Esc,
    ensures
        app.chat_keyed(key) matches Some((out, _)) && out.select_mode == !app.select_mode && (
        app.select_mode ==> out.selection is None),
        app.chat_keyed(esc) matches Some((out, _)) && !out.select_mode && (app.select_mode
            ==> out.selection is None) && (!app.select_mode ==> out == app),
{
    reveal(AppView::with_select_mode);
    reveal(AppView::with_selection);
    reveal(AppView::with_hint);
}

/// Tab leads through the surfaces, each in turn, and back to the first behind the last.
pub proof fn law_tab_goes_round(focus: Focus)
    ensures
        focus.following() != focus,
        focus.following().following() != focus,
        focus.following().following().following() == focus,
        Focus::Chat.following() == Focus::Composer,
{
}

/// Behind the prefix of the panes `h` leads to the sidebar, `j` to the composer, `k` and `l` to
/// the chat; any other key leads nowhere. The prefix is used up either way.
pub proof fn law_pane_keys(app: AppView, key: KeyEvent)
    ensures
        ({
            let (out, _) = app.pane_keyed(key);
            &&& !out.pane_prefix
            &&& key.code == KeyCode::Char('h') ==> out.focus == Focus::Sidebar
            &&& key.code == KeyCode::Char('j') ==> out.focus == Focus::Composer
            &&& key.code == KeyCode::Char('k') || key.code == KeyCode::Char('l') ==> out.focus
                == Focus::Chat
            &&& key.code != KeyCode::Char('h') && key.code != KeyCode::Char('j') && key.code
                != KeyCode::Char('k') && key.code != KeyCode::Char('l') ==> out.focus == app.focus
        }),
{
    reveal(AppView::with_pane_prefix);
    reveal(AppView::with_focus);
}

/// Whether no action of the composer is bound to a key.
pub open spec fn plain_in_composer(app: AppView, key: KeyEvent) -> bool {
    &&& !app.pressed("composer.quit-eof"@, key)
    &&& !app.pressed("composer.focus-chat"@, key)
    &&& !app.pressed("composer.newline"@, key)
    &&& !app.pressed("composer.submit"@, key)
    &&& !app.pressed("composer.backspace"@, key)
    &&& !app.pressed("composer.delete"@, key)
    &&& !app.pressed("composer.left"@, key)
    &&& !app.pressed("composer.right"@, key)
    &&& !app.pressed("composer.home"@, key)
    &&& !app.pressed("composer.end"@, key)
    &&& !app.pressed("composer.up"@, key)
    &&& !app.pressed("composer.down"@, key)
}

/// A character that is bound to nothing is typed where the caret stands; with control it is not.
pub proof fn law_character_typed(app: AppView, key: KeyEvent, c: char)
    requires
        app.composer.popup() is None,
        plain_in_composer(app, key),
        key.code == KeyCode::Char(c),
        0 <= app.composer.editor.caret <= app.composer.editor.text.len(),
    ensures
        ({
            let (out, action) = app.composer_keyed(key);
            let e = app.composer.editor;
            &&& !key.control ==> {
                &&& out.composer.editor.caret == e.caret + 1
                &&& out.composer.editor.text == e.text.take(e.caret) + seq![c] + e.text.skip(e.caret)
                &&& action == ActionView::Input
            }
            &&& key.control ==> out == app && action == ActionView::Nothing
        }),
{
    reveal(AppView::with_composer);
    let e = app.composer.editor;
    assert(e.text.insert(e.caret, c) =~= e.text.take(e.caret) + seq![c] + e.text.skip(e.caret));
}

/// The other language is spoken after its key, and the first again after the key once more; what
/// is spoken is kept in the configuration by its code.
pub proof fn law_language_key(app: AppView)
    ensures
        app.locale_cycled().locale != app.locale,
        app.locale_cycled().locale_cycled().locale == app.locale,
        app.locale_cycled().config.locale == Some(
            crate::i18n::locale_code(app.locale_cycled().locale),
        ),
        app.locale_cycled().pending_save is Some,
        app.locale_cycled().row_cache.rows.len() == 0,
{
    reveal(AppView::with_locale);
    reveal(AppView::with_config);
    reveal(AppView::with_pending_save);
    reveal(AppView::with_row_cache);
    reveal(AppView::with_toast);
}

/// In the sidebar `q` quits, `n` opens the picker of a new session, `/` an empty search, `e`
/// shows or hides the archive, and Esc leads back to the chat.
pub proof fn law_sidebar_keys(app: AppView, key: KeyEvent)
    requires
        app.rename_editor is None,
    ensures
        key.code == KeyCode::Char('q') ==> app.sidebar_keyed(key) == Some((app, ActionView::Quit)),
        key.code == KeyCode::Char('n') ==> (app.sidebar_keyed(key) matches Some((out, _))
            && out.new_session is Some && out.new_session->0.selected == 0
            && !out.new_session->0.sending),
        key.code == KeyCode::Char('/') ==> (app.sidebar_keyed(key) matches Some((out, _))
            && out.sidebar_search is Some && out.sidebar_search->0.query.text.len() == 0
            && out.sidebar_search->0.results.len() == 0 && !out.sidebar_search->0.sending),
        key.code == KeyCode::Char('e') ==> (app.sidebar_keyed(key) matches Some((out, _))
            && out.archived_expanded == !app.archived_expanded),
        key.code == KeyCode::Esc ==> (app.sidebar_keyed(key) matches Some((out, _)) && out.focus
            == Focus::Chat),
{
    reveal(AppView::with_new_session);
    reveal(AppView::with_sidebar_search);
    reveal(AppView::with_archived_expanded);
    reveal(AppView::with_sidebar);
    reveal(AppView::with_focus);
}

/// The title of the selected session is opened with the title that the session is shown by.
pub proof fn law_title_opened(app: AppView, key: KeyEvent)
    requires
        app.rename_editor is None,
        !app.sidebar_action_sending,
        key.code == KeyCode::Char('r'),
        app.selected_row() is Some,
    ensures
        app.sidebar_keyed(key) matches Some((out, _)) && (out.rename_editor matches Some(at)
            && at.session_id == app.selected_row()->0.session_id && at.editor.text
            == crate::app::sidebar::shown_title(app.selected_row()->0)),
{
    reveal(AppView::with_rename_editor);
}

// ---------------------------------------------------------------------------
// overlays
// ---------------------------------------------------------------------------

/// The theme picker opens on the theme that is in use, and its key closes it again.
pub proof fn law_picker_opens(app: AppView, i: int)
    requires
        0 <= i < app.themes.len() <= usize::MAX,
        app.themes[i].name == app.theme.name,
        forall|k: int| 0 <= k < i ==> (#[trigger] app.themes[k]).name != app.theme.name,
    ensures
        !app.theme_picker.open ==> app.picker_toggled().theme_picker.open
            && app.picker_toggled().theme_picker.selected == i,
        app.theme_picker.open ==> !app.picker_toggled().theme_picker.open,
        app.picker_toggled().theme == app.theme,
{
    reveal(AppView::with_theme_picker);
    crate::seqs::lemma_first_index(app.themes, crate::theme::called(app.theme.name), i);
}

/// In the theme picker the choice moves by one and stays among the themes, and moving changes no
/// theme; Esc leaves the theme as it is.
pub proof fn law_picker_moves(app: AppView, key: KeyEvent)
    requires
        app.theme_picker.selected < app.themes.len() <= usize::MAX,
    ensures
        ({
            let out = app.picker_keyed(key);
            let at = app.theme_picker.selected;
            let down = key.code == KeyCode::Down || key.code == KeyCode::Char('j');
            let up = key.code == KeyCode::Up || key.code == KeyCode::Char('k');
            &&& out.theme_picker.selected < app.themes.len()
            &&& down && at + 1 < app.themes.len() ==> out.theme_picker.selected == at + 1
            &&& up && at > 0 ==> out.theme_picker.selected == at - 1
            &&& down || up || key.code == KeyCode::Esc ==> out.theme == app.theme && out.config
                == app.config
            &&& key.code == KeyCode::Esc ==> !out.theme_picker.open
        }),
{
    reveal(AppView::with_theme_picker);
    reveal(AppView::with_theme);
    reveal(AppView::with_config);
    reveal(AppView::with_pending_save);
    reveal(AppView::with_row_cache);
}

/// The queue opens at its first item where it has one, and not at all where it is empty; its key
/// closes it again.
pub proof fn law_queue_opens(app: AppView)
    ensures
        !app.queue_popup_open && app.queue().len() > 0 ==> app.queue_toggled().queue_popup_open
            && app.queue_toggled().queue_scroll == 0,
        !app.queue_popup_open && app.queue().len() == 0 ==> !app.queue_toggled().queue_popup_open,
        app.queue_popup_open ==> !app.queue_toggled().queue_popup_open,
{
    reveal(AppView::with_queue_popup_open);
    reveal(AppView::with_queue_scroll);
    reveal(AppView::with_hint);
}

/// The launcher opens with an empty search at its first entry; what is typed goes into the
/// search, and the choice starts at the first entry again.
pub proof fn law_launcher_opens(app: AppView, key: KeyEvent, c: char)
    ensures
        app.launcher is None && app.composer.popup() is None ==> (
        app.launcher_toggled().0.launcher matches Some(state) && state.search.text.len() == 0
            && state.selected == 0),
        app.launcher is Some ==> app.launcher_toggled().0.launcher is None,
        app.launcher is Some && key.code == KeyCode::Esc ==> app.launcher_keyed(key).0.launcher
            is None,
        app.launcher is Some && key.code == KeyCode::Char(c) && c != 'j' && c != 'k' ==> (
        app.launcher_keyed(key).0.launcher matches Some(state) && state.selected == 0
            && state.search == app.launcher->0.search.typed(c)),
{
    reveal(AppView::with_launcher);
}

/// What the launcher does is what the entry says: it opens the settings and asks for them, opens
/// the theme picker, changes the language, or quits.
pub proof fn law_launched(app: AppView)
    requires
        !app.theme_picker.open,
    ensures
        app.launched(LauncherActionView::OpenSettings).0.mode is Settings,
        app.launched(LauncherActionView::OpenSettings).1 == ActionView::FetchSettings,
        app.launched(LauncherActionView::OpenThemePicker).0.theme_picker.open,
        app.launched(LauncherActionView::CycleLocale).0.locale != app.locale,
        app.launched(LauncherActionView::Quit) == (app, ActionView::Quit),
{
    reveal(AppView::with_mode);
    reveal(AppView::with_hint);
    reveal(AppView::with_theme_picker);
    law_language_key(app);
}

/// A session that is switched to is on the screen, at its end, with no model known of it yet and
/// every row to be rendered anew; the other sessions keep what they hold. One that is on the
/// screen already stays as it is.
pub proof fn law_switched(app: AppView, id: Seq<char>, other: Seq<char>)
    ensures
        app.active_session == Some(id) ==> app.switched(id) == (app, ActionView::Nothing),
        app.active_session != Some(id) ==> ({
            let (out, action) = app.switched(id);
            &&& action == ActionView::SwitchSession(id)
            &&& out.active_session == Some(id)
            &&& out.session_model is None
            &&& out.view.follow
            &&& out.row_cache.rows.len() == 0
            &&& out.store.sessions.dom().contains(id)
            &&& other != id ==> (out.store.sessions.dom().contains(other)
                <==> app.store.sessions.dom().contains(other))
            &&& app.store.sessions.dom().contains(other) ==> out.store.sessions[other]
                == app.store.sessions[other]
        }),
{
    reveal(AppView::with_store);
    reveal(AppView::with_row_cache);
    reveal(AppView::with_active_session);
    reveal(AppView::with_session_model);
    reveal(AppView::with_view);
    reveal(AppView::with_hint);
}

// ---------------------------------------------------------------------------
// time and the start
// ---------------------------------------------------------------------------

/// A toast is shown until its time is over and then taken away, and so is the note of a copied
/// text; neither goes before its time.
pub proof fn law_notes_run_out(app: AppView)
    requires
        app.toast is Some,
        app.copied_flash is Some,
    ensures
        app.clock >= app.toast->0.at + crate::app::state::TOAST_TTL_MS ==> app.toast_expired().toast
            is None && app.toast_expired().needs_draw,
        app.clock < app.toast->0.at + crate::app::state::TOAST_TTL_MS ==> app.toast_expired() == app,
        app.clock >= app.copied_flash->0.at + crate::app::state::COPY_FLASH_TTL_MS
            ==> app.flash_expired().copied_flash is None && app.flash_expired().needs_draw,
        app.clock < app.copied_flash->0.at + crate::app::state::COPY_FLASH_TTL_MS
            ==> app.flash_expired() == app,
{
    reveal(AppView::with_toast);
    reveal(AppView::with_copied_flash);
    reveal(AppView::with_needs_draw);
}

/// The spinner goes on with every tick, and is drawn where the chat is busy.
pub proof fn law_spinner_turns(app: AppView)
    requires
        app.spinner_frame < usize::MAX,
    ensures
        app.spun().spinner_frame == app.spinner_frame + 1,
        app.mode is Chat && app.busy() ==> app.spun().needs_draw,
        !(app.mode is Chat && app.busy()) ==> app.spun().needs_draw == app.needs_draw,
{
    reveal(AppView::with_spinner_frame);
    reveal(AppView::with_needs_draw);
}

/// At the start nothing has arrived and nothing is asked for: there is no session, no request is
/// open, nothing is on its way, and the composer has the keys.
pub proof fn law_fresh_app(strings: StringsView, themes: Seq<ThemeView>)
    ensures
        ({
            let app = crate::app::state::fresh_app(strings, themes);
            &&& app.running && !app.connected
            &&& app.active_session is None && app.sessions.len() == 0 && app.workspaces.len() == 0
            &&& app.store.sessions.dom() == Set::<Seq<char>>::empty()
            &&& app.store.max_events >= 1
            &&& app.pending_approvals.len() == 0 && app.pending_questions.len() == 0
            &&& app.pending_attachments.len() == 0
            &&& !app.queue_action_sending && !app.sidebar_action_sending
            &&& app.mode is Chat && app.focus == Focus::Composer
            &&& app.composer.editor.text.len() == 0
            &&& app.view.follow
            &&& app.toast is None && app.hint is None && app.last_error is None
            &&& app.themes == themes && app.strings == strings
            &&& app.needs_draw
            &&& app.needs().len() == 0
        }),
{
}

} // verus!
