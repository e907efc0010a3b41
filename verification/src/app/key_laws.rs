//! What keys lead to, from the key that is pressed to the request that is sent.

use vstd::prelude::*;

use crate::app::command::{CommandView, QueueUpdateView};
use crate::app::state::{ActionView, AppView, LauncherActionView, ModeView};
use crate::app::takeover::{ApprovalTakeoverView, ImageViewerView, QuestionTakeoverView};
use crate::key::{KeyCode, KeyEvent};
use crate::wire::{ApprovalResponseOutcome, QueuePlacement};

verus! {

/// The requests that follow from what a key did.
pub open spec fn asks(result: (AppView, ActionView)) -> Seq<CommandView> {
    result.0.dispatched(result.1).1
}

/// The approval on the screen is answered by key, and by no other key than these: `y` allows it
/// once, `n` and Esc reject it. The answer is for the request on the screen.
pub proof fn law_approval_keys(app: AppView, t: ApprovalTakeoverView, key: KeyEvent)
    requires
        app.mode == ModeView::Approval(t),
        !t.sending,
        app.connected,
    ensures
        ({
            let sent = asks(app.takeover_keyed(key));
            let answer = |outcome: ApprovalResponseOutcome|
                CommandView::RespondApproval {
                    rpc_id: t.rpc_id,
                    session_id: t.session_id,
                    approval_id: t.approval_id,
                    outcome,
                };
            &&& key.code == KeyCode::Char('y') ==> sent == seq![
                answer(ApprovalResponseOutcome::AllowedOnce),
            ]
            &&& key.code == KeyCode::Char('n') || key.code == KeyCode::Esc ==> sent == seq![
                answer(ApprovalResponseOutcome::Rejected),
            ]
            &&& key.code != KeyCode::Char('y') && key.code != KeyCode::Char('n') && key.code
                != KeyCode::Esc ==> sent.len() == 0
        }),
{
}

/// Enter answers the questions on the screen with what is chosen in each; the keys that move and
/// choose answer nothing.
pub proof fn law_question_keys(app: AppView, t: QuestionTakeoverView, key: KeyEvent)
    requires
        app.mode == ModeView::Question(t),
        !t.sending,
        app.connected,
    ensures
        ({
            let sent = asks(app.takeover_keyed(key));
            &&& key.code == KeyCode::Enter ==> sent == seq![
                CommandView::RespondQuestion {
                    rpc_id: t.rpc_id,
                    session_id: t.session_id,
                    answers: t.answers(),
                },
            ]
            &&& key.code != KeyCode::Enter ==> sent.len() == 0
        }),
        key.code == KeyCode::Up ==> app.takeover_keyed(key).0.mode == ModeView::Question(t.up()),
        key.code == KeyCode::Down ==> app.takeover_keyed(key).0.mode == ModeView::Question(
            t.down(),
        ),
        key.code == KeyCode::Char(' ') ==> app.takeover_keyed(key).0.mode == ModeView::Question(
            t.toggled(),
        ),
        key.code == KeyCode::Tab ==> app.takeover_keyed(key).0.mode == ModeView::Question(
            t.focused_on(),
        ),
{
    reveal(AppView::with_mode);
    reveal(AppView::with_hint);
}

/// The item of the queue that is in focus is changed by key: `x` takes it out, `s` brings it
/// forward. The request names the item and the session on the screen.
pub proof fn law_queue_keys(app: AppView, key: KeyEvent, session_id: Seq<char>, at: int)
    requires
        app.connected,
        app.active_session == Some(session_id),
        app.queue_editor is None,
        !app.queue_action_sending,
        at == app.queue_scroll,
        0 <= at < app.queue().len(),
        app.queue()[at].placement == QueuePlacement::Queued,
    ensures
        ({
            let sent = asks(app.queue_keyed(key));
            let change = |update: QueueUpdateView|
                CommandView::UpdateQueue { session_id, item_id: app.queue()[at].id, update };
            &&& key.code == KeyCode::Char('x') ==> sent == seq![change(QueueUpdateView::Remove)]
            &&& key.code == KeyCode::Char('s') ==> sent == seq![change(QueueUpdateView::Steer)]
        }),
{
}

/// An item of the queue is given another text: `e` opens it with the text it has, and Enter
/// sends what is then written, for the same item; a blank text is not sent, and Esc sends
/// nothing.
pub proof fn law_queue_edit(app: AppView, key: KeyEvent, session_id: Seq<char>, at: int, text: Seq<char>)
    requires
        app.connected,
        app.active_session == Some(session_id),
        !app.queue_action_sending,
        at == app.queue_scroll,
        0 <= at < app.queue().len(),
        app.queue()[at].placement == QueuePlacement::Queued,
        app.queue_editor is Some,
        app.queue_editor->0.text == text,
    ensures
        ({
            let sent = asks(app.queue_keyed(key));
            &&& key.code == KeyCode::Enter && crate::text::trim(text).len() > 0 ==> sent == seq![
                CommandView::UpdateQueue {
                    session_id,
                    item_id: app.queue()[at].id,
                    update: QueueUpdateView::Edit { text },
                },
            ]
            &&& key.code == KeyCode::Enter && crate::text::trim(text).len() == 0 ==> sent.len() == 0
            &&& key.code == KeyCode::Esc ==> sent.len() == 0 && app.queue_keyed(key).0.queue_editor
                is None
        }),
{
    reveal(AppView::with_queue_editor);
}

/// Up and down lead through the items of the queue one by one.
pub proof fn law_queue_moves(app: AppView, key: KeyEvent)
    requires
        app.queue_editor is None,
        app.queue().len() <= usize::MAX,
    ensures
        key.code == KeyCode::Up && app.queue_scroll > 0 ==> app.queue_keyed(key).0.queue_scroll
            == app.queue_scroll - 1,
        key.code == KeyCode::Down && app.queue_scroll < app.queue_end() ==> app.queue_keyed(
            key,
        ).0.queue_scroll == app.queue_scroll + 1,
{
    reveal(AppView::with_queue_scroll);
}

/// The picker of a new session asks for a session in the workspace of the chosen entry.
pub proof fn law_new_session_key(app: AppView, key: KeyEvent, at: int)
    requires
        app.connected,
        app.new_session is Some,
        !app.new_session->0.sending,
        at == app.new_session->0.selected,
        0 <= at < app.entries().len(),
        key.code == KeyCode::Enter,
    ensures
        asks(app.new_session_keyed(key)) == seq![
            CommandView::CreateSession { workspace_id: app.entries()[at].workspace_id },
        ],
{
}

/// The launcher does what the chosen entry says: a skill is sent to the session on the screen
/// with its text, and the launcher closes.
pub proof fn law_launcher_key(app: AppView, key: KeyEvent, at: int, text: Seq<char>, session_id: Seq<char>)
    requires
        app.connected,
        app.active_session == Some(session_id),
        app.launcher is Some,
        at == app.launcher->0.selected,
        0 <= at < app.launcher_list.len(),
        app.launcher_list[at].action == (LauncherActionView::Dispatch { text }),
        key.code == KeyCode::Enter,
    ensures
        asks(app.launcher_keyed(key)) == seq![CommandView::Prompt { session_id, text }],
        app.launcher_keyed(key).0.launcher is None,
{
    reveal(AppView::with_launcher);
    reveal(AppView::with_composer);
}

/// What is typed into the search of sessions is searched for, all of it; an empty search asks
/// for nothing, and the results of another text are not kept.
pub proof fn law_search_keys(app: AppView, key: KeyEvent, c: char)
    requires
        app.connected,
        app.sidebar_search is Some,
        !app.sidebar_search->0.sending,
        key.code == KeyCode::Char(c),
        c != 'j' && c != 'k',
    ensures
        ({
            let (there, action) = app.search_keyed(key);
            let query = app.sidebar_search->0.query.typed(c);
            &&& there.sidebar_search is Some
            &&& there.sidebar_search->0.query == query
            &&& there.sidebar_search->0.results.len() == 0
            &&& query.text.len() > 0 ==> asks((there, action)) == seq![
                CommandView::Search { query: query.text },
            ]
            &&& query.text.len() == 0 ==> asks((there, action)).len() == 0
        }),
{
    reveal(AppView::with_sidebar_search);
}

/// Enter in the search opens the session of the chosen result: it is the active one then, and
/// its history and models are asked for.
pub proof fn law_search_opens(app: AppView, key: KeyEvent, at: int)
    requires
        app.connected,
        app.sidebar_search is Some,
        at == app.sidebar_search->0.selected,
        0 <= at < app.sidebar_search->0.results.len(),
        key.code == KeyCode::Enter,
        app.active_session != Some(app.sidebar_search->0.results[at].session_id),
    ensures
        ({
            let id = app.sidebar_search->0.results[at].session_id;
            let (there, action) = app.search_keyed(key);
            let sent = asks((there, action));
            &&& there.active_session == Some(id)
            &&& there.sidebar_search is None
            &&& sent.len() == 2
            &&& sent[0] matches CommandView::History { session_id, .. } && session_id == id
            &&& sent[1] == (CommandView::Models { session_id: id })
        }),
{
    lemma_activated(app.with_sidebar_search(None), app.sidebar_search->0.results[at].session_id);
    reveal(AppView::with_sidebar_search);
}

proof fn lemma_activated(app: AppView, id: Seq<char>)
    ensures
        app.activated(id).active_session == Some(id),
        app.activated(id).connected == app.connected,
        app.activated(id).sidebar_search == app.sidebar_search,
        app.activated(id).sidebar == app.sidebar,
        app.activated(id).composer == app.composer,
        app.activated(id).view.offset == 0 && app.activated(id).view.follow,
{
    reveal(AppView::with_store);
    reveal(AppView::with_row_cache);
    reveal(AppView::with_active_session);
    reveal(AppView::with_session_model);
    reveal(AppView::with_view);
    reveal(AppView::with_hint);
}

/// Enter in the sidebar opens the selected session, and the chat starts at its end.
pub proof fn law_sidebar_opens(app: AppView, key: KeyEvent, at: int, id: Seq<char>)
    requires
        app.connected,
        app.rename_editor is None,
        key.code == KeyCode::Enter,
        at == app.sidebar.selected,
        0 <= at < app.rows().len(),
        app.rows()[at] < app.sessions.len(),
        app.sessions[app.rows()[at] as int].session_id == id,
        app.active_session != Some(id),
    ensures
        app.sidebar_keyed(key) matches Some(result) && {
            &&& result.0.active_session == Some(id)
            &&& result.0.view.follow
            &&& asks(result).len() == 2
            &&& asks(result)[1] == (CommandView::Models { session_id: id })
        },
{
    lemma_activated(app, id);
}

/// The selected session is forked by `f` and archived by `a`, and by no other key.
pub proof fn law_fork_and_archive(app: AppView, key: KeyEvent, at: int, id: Seq<char>)
    requires
        app.connected,
        app.rename_editor is None,
        !app.sidebar_action_sending,
        at == app.sidebar.selected,
        0 <= at < app.rows().len(),
        app.rows()[at] < app.sessions.len(),
        app.sessions[app.rows()[at] as int].session_id == id,
    ensures
        key.code == KeyCode::Char('f') ==> (app.sidebar_keyed(key) matches Some(result) && asks(
            result,
        ) == seq![CommandView::ForkSession { session_id: id }]),
        key.code == KeyCode::Char('a') ==> (app.sidebar_keyed(key) matches Some(result) && asks(
            result,
        ) == seq![CommandView::ArchiveSession { session_id: id }]),
        key.code == KeyCode::Char('j') || key.code == KeyCode::Char('k') || key.code
            == KeyCode::Char('n') || key.code == KeyCode::Char('r') || key.code
            == KeyCode::Char('e') || key.code == KeyCode::Char('/') ==> (app.sidebar_keyed(
            key,
        ) matches Some(result) && asks(result).len() == 0),
{
}

/// The title that is written for a session is asked for as it is written, for the session whose
/// title was opened; a blank one is not.
pub proof fn law_rename_key(app: AppView, key: KeyEvent, session_id: Seq<char>, title: Seq<char>)
    requires
        app.connected,
        !app.sidebar_action_sending,
        app.rename_editor is Some,
        app.rename_editor->0.session_id == session_id,
        app.rename_editor->0.editor.text == title,
        key.code == KeyCode::Enter,
    ensures
        crate::text::trim(title).len() > 0 ==> asks(app.rename_keyed(key)) == seq![
            CommandView::RenameSession { session_id, title },
        ],
        crate::text::trim(title).len() == 0 ==> asks(app.rename_keyed(key)).len() == 0,
{
    reveal(AppView::with_rename_editor);
}

/// A prompt that is submitted is asked for as it is written, in the session on the screen.
pub proof fn law_submit_key(app: AppView, session_id: Seq<char>)
    requires
        app.connected,
        app.active_session == Some(session_id),
        !app.busy(),
        crate::text::trim(app.composer.editor.text).len() > 0,
    ensures
        asks(app.submitted()) == seq![
            CommandView::Prompt { session_id, text: app.composer.editor.text },
        ],
        app.submitted().0.composer.editor.text.len() == 0,
{
    reveal(AppView::with_composer);
    reveal(AppView::with_hint);
}

/// The theme picker takes the theme that is chosen, remembers it by its name, and closes.
pub proof fn law_theme_key(app: AppView, key: KeyEvent, at: int)
    requires
        app.theme_picker.open,
        at == app.theme_picker.selected,
        0 <= at < app.themes.len(),
        key.code == KeyCode::Enter,
    ensures
        app.picker_keyed(key).theme == app.themes[at],
        app.picker_keyed(key).config.theme == Some(app.themes[at].name),
        !app.picker_keyed(key).theme_picker.open,
        app.picker_keyed(key).themes == app.themes,
{
    reveal(AppView::with_theme);
    reveal(AppView::with_config);
    reveal(AppView::with_row_cache);
    reveal(AppView::with_theme_picker);
    reveal(AppView::with_pending_save);
}

/// The image viewer goes on by `n`, back by `p`, changes the fit by `t`, and is left by `q` and
/// Esc.
pub proof fn law_viewer_keys(app: AppView, viewer: ImageViewerView, key: KeyEvent)
    requires
        app.mode == ModeView::Image(viewer),
        viewer.index < viewer.images.len() <= usize::MAX,
    ensures
        ({
            let there = app.takeover_keyed(key).0;
            &&& key.code == KeyCode::Char('n') ==> there.mode == ModeView::Image(
                ImageViewerView {
                    index: if viewer.index + 1 < viewer.images.len() {
                        (viewer.index + 1) as usize
                    } else {
                        0
                    },
                    ..viewer
                },
            )
            &&& key.code == KeyCode::Char('p') ==> there.mode == ModeView::Image(
                ImageViewerView {
                    index: if viewer.index > 0 {
                        (viewer.index - 1) as usize
                    } else {
                        (viewer.images.len() - 1) as usize
                    },
                    ..viewer
                },
            )
            &&& key.code == KeyCode::Char('t') ==> there.mode == ModeView::Image(
                ImageViewerView { fit: !viewer.fit, ..viewer },
            )
            &&& key.code == KeyCode::Char('q') || key.code == KeyCode::Esc ==> there.mode is Chat
        }),
{
    reveal(AppView::with_mode);
}

/// The list above the composer takes the chosen entry into the composer.
pub proof fn law_popup_key(app: AppView, key: KeyEvent, at: int)
    requires
        at == app.composer.selected,
        0 <= at < app.popup_list.len(),
        key.code == KeyCode::Enter,
    ensures
        app.popup_keyed(key).0.composer.editor.text == app.popup_list[at].insert,
        app.popup_keyed(key).0.composer.popup() is None,
{
    reveal(AppView::with_composer);
}

/// The settings that are saved are those of the section on the screen: its namespace, the
/// revision it was read at, and what was changed.
pub proof fn law_settings_sent(app: AppView)
    requires
        app.connected,
        app.mode is Settings,
        app.mode->Settings_0.form() is Some,
    ensures
        ({
            let state = app.mode->Settings_0;
            asks((app, ActionView::SaveSettings)) == seq![
                CommandView::UpdateSettings {
                    ns: state.sections[state.selected as int].ns,
                    revision: state.form()->0.revision,
                    patch: state.form()->0.patch(),
                },
            ]
        }),
{
}

/// The cancel key cancels the turn of the session on the screen while it runs.
pub proof fn law_cancel_key(app: AppView, key: KeyEvent, session_id: Seq<char>)
    requires
        app.connected,
        app.active_session == Some(session_id),
        app.mode is Chat,
        app.busy(),
        app.pressed("cancel"@, key),
    ensures
        app.keyed(key) matches Some(result) && asks(result) == seq![
            CommandView::CancelTurn { session_id },
        ],
{
}

} // verus!
