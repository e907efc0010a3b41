//! What a request asks for and what its outcome changes, whatever the state is.

use vstd::prelude::*;

use crate::app::command::CommandView;
use crate::app::host::CreatedWorkspaceView;
use crate::app::light::TaskSourceView;
use crate::app::settings::SettingsSectionView;
use crate::app::state::{ActionView, AppView, ModeView, QueueActionKind};
use crate::client::ClientErrorView;
use crate::json::JsonView;
use crate::theme::detect::ColorMode;
use crate::theme::{ConfigView, ThemeView};
use crate::wire::{SessionEventView, ToolEventViewView, WorkspaceViewView};

verus! {

/// A change of the list that is asked for goes out as it was asked for, and no other until it
/// was answered.
pub proof fn law_list_change_sent(
    app: AppView,
    id: Seq<char>,
    text: Seq<char>,
    workspace: Option<Seq<char>>,
)
    requires
        app.connected,
        !app.sidebar_action_sending,
    ensures
        ({
            let (a, x) = app.dispatched(ActionView::RenameWorkspace { workspace_id: id, title: text });
            let (b, y) = app.dispatched(ActionView::DeleteWorkspace(id));
            let (c, z) = app.dispatched(ActionView::CreateWorkspace(text));
            let (d, u) = app.dispatched(ActionView::ForkSession(id));
            let (e, v) = app.dispatched(ActionView::ArchiveSession(id));
            let (f, w) = app.dispatched(ActionView::RenameSession { session_id: id, title: text });
            &&& x == seq![CommandView::RenameWorkspace { workspace_id: id, title: text }]
            &&& y == seq![CommandView::DeleteWorkspace { workspace_id: id }]
            &&& z == seq![CommandView::CreateWorkspace { path: text }]
            &&& u == seq![CommandView::ForkSession { session_id: id }]
            &&& v == seq![CommandView::ArchiveSession { session_id: id }]
            &&& w == seq![CommandView::RenameSession { session_id: id, title: text }]
            &&& a.sidebar_action_sending && b.sidebar_action_sending && c.sidebar_action_sending
            &&& d.sidebar_action_sending && e.sidebar_action_sending && f.sidebar_action_sending
        }),
{
    reveal(AppView::with_sidebar_action_sending);
    reveal(AppView::with_workspace_rename);
    reveal(AppView::with_rename_editor);
}

/// A session that is switched to is asked for its history and its models, and for nothing else,
/// and is the one that is waited for.
pub proof fn law_switch_sent(app: AppView, id: Seq<char>)
    requires
        app.connected,
    ensures
        ({
            let (out, sent) = app.dispatched(ActionView::SwitchSession(id));
            &&& out.history_loading == Some(id)
            &&& sent.len() == 2
            &&& sent[0] matches CommandView::History { session_id, .. } && session_id == id
            &&& sent[1] == (CommandView::Models { session_id: id })
        }),
{
    reveal(AppView::with_history_loading);
    reveal(AppView::with_hint);
}

/// A page of history of the session on the screen goes into the store, is no longer waited for,
/// and takes the hint away; one that failed leaves the store and tells why.
pub proof fn law_history_arrived(
    app: AppView,
    id: Seq<char>,
    entries: Seq<(SessionEventView, Option<ToolEventViewView>)>,
    error: ClientErrorView,
)
    requires
        app.active_session == Some(id),
    ensures
        ({
            let out = app.after_history(id, Ok(entries));
            let failed = app.after_history(id, Err(error));
            &&& out.store == app.store.after_history(id, entries).0
            &&& out.history_loading is None && out.hint is None
            &&& app.store.after_history(id, entries).1 is Ok ==> out.last_error == app.last_error
            &&& app.store.after_history(id, entries).1 is Err ==> out.last_error is Some
            &&& failed.store == app.store
            &&& failed.history_loading is None && failed.hint is None
            &&& failed.toast matches Some(toast) && toast.text == app.text_with(
                "toast.history_failed"@,
                seq![crate::client::error_text(error)],
            )
        }),
{
    reveal(AppView::with_history_loading);
    reveal(AppView::with_hint);
    reveal(AppView::with_store);
    reveal(AppView::with_last_error);
    reveal(AppView::with_toast);
}

/// A prompt that failed is told, with the error's own words; one that went out is not. A turn
/// that was cancelled is told either way.
pub proof fn law_prompt_and_cancel_told(app: AppView, error: ClientErrorView)
    ensures
        app.after_prompt(None) == app,
        app.after_prompt(Some(error)).toast matches Some(toast) && toast.text
            == "prompt failed: "@ + crate::client::error_text(error),
        app.after_cancel(None).toast matches Some(toast) && toast.text == app.text(
            "toast.cancelled"@,
        ),
        app.after_cancel(Some(error)).toast matches Some(toast) && toast.text == app.text_with(
            "toast.cancel_failed"@,
            seq![crate::client::error_text(error)],
        ),
{
    reveal(AppView::with_toast);
}

/// What was done to the queue is told as what was asked for.
pub proof fn law_queue_change_told(app: AppView, kind: QueueActionKind)
    ensures
        app.after_queue_action(kind, None).toast matches Some(toast) && {
            &&& kind == QueueActionKind::Remove ==> toast.text == app.text("queue.removed"@)
            &&& kind == QueueActionKind::Steer ==> toast.text == app.text("queue.steered"@)
            &&& kind == QueueActionKind::Edit ==> toast.text == app.text("queue.edited"@)
        },
{
    reveal(AppView::with_toast);
    reveal(AppView::with_queue_action_sending);
}

/// The settings that the gateway describes are those that the view shows, with the selection
/// among them; a description that failed leaves what was there.
pub proof fn law_settings_described(
    app: AppView,
    sections: Seq<SettingsSectionView>,
    error: ClientErrorView,
)
    requires
        app.mode is Settings,
        sections.len() <= usize::MAX,
    ensures
        app.after_describe(Ok(sections)).mode matches ModeView::Settings(state) && {
            &&& state.sections == sections
            &&& !state.loading
            &&& sections.len() > 0 ==> state.selected < sections.len()
            &&& app.mode->Settings_0.selected < sections.len() ==> state.selected
                == app.mode->Settings_0.selected
        },
        app.after_describe(Err(error)).mode matches ModeView::Settings(state) && state.sections
            == app.mode->Settings_0.sections && !state.loading,
{
    reveal(AppView::with_mode);
    reveal(AppView::with_toast);
}

/// A language that was saved is spoken from then on, and kept in the configuration.
pub proof fn law_language_saved(app: AppView, value: JsonView, language: Seq<char>)
    requires
        app.mode is Settings,
        value.get_str("language"@) == Some(language),
        crate::i18n::locale_named(language) is Some,
    ensures
        ({
            let (out, sent) = app.after_save("locale"@, Ok(value));
            &&& Some(out.locale) == crate::i18n::locale_named(language)
            &&& out.config.locale == Some(language)
            &&& out.pending_save is Some
            &&& out.row_cache.rows.len() == 0
            &&& sent.len() == 0
        }),
{
    reveal(AppView::with_mode);
    reveal(AppView::with_toast);
    reveal(AppView::with_hint);
    reveal(AppView::with_locale);
    reveal(AppView::with_config);
    reveal(AppView::with_pending_save);
    reveal(AppView::with_row_cache);
}

/// Settings of another kind leave the language as it is.
pub proof fn law_other_settings_saved(app: AppView, ns: Seq<char>, value: JsonView)
    requires
        app.mode is Settings,
        ns != "locale"@,
    ensures
        app.after_save(ns, Ok(value)).0.locale == app.locale,
        app.after_save(ns, Ok(value)).0.config == app.config,
{
    reveal(AppView::with_mode);
    reveal(AppView::with_toast);
    reveal(AppView::with_hint);
}

proof fn lemma_left(list: Seq<Seq<char>>, id: Seq<char>, other: Seq<char>)
    ensures
        list.filter(crate::app::outcomes::other_text(id)).contains(other) <==> list.contains(other)
            && other != id,
    decreases list.len(),
{
    reveal(Seq::filter);
    let p = crate::app::outcomes::other_text(id);
    if list.len() > 0 {
        let front = list.drop_last();
        lemma_left(front, id, other);
        if list.contains(other) {
            let i = choose|i: int| 0 <= i < list.len() && list[i] == other;
            if i < front.len() {
                assert(front[i] == other);
            }
        }
        if front.contains(other) {
            let i = choose|i: int| 0 <= i < front.len() && front[i] == other;
            assert(list[i] == other);
        }
        if list.filter(p).contains(other) {
            let i = choose|i: int| 0 <= i < list.filter(p).len() && list.filter(p)[i] == other;
            if i < front.filter(p).len() {
                assert(front.filter(p)[i] == other);
            } else {
                assert(other == list[list.len() - 1]);
            }
        }
        if front.filter(p).contains(other) {
            let i = choose|i: int| 0 <= i < front.filter(p).len() && front.filter(p)[i] == other;
            assert(list.filter(p)[i] == other);
        }
        if p(list.last()) {
            assert(list.filter(p)[list.filter(p).len() - 1] == list.last());
        }
    }
}

/// An attachment that came is no longer on its way and every other one still is. Where it is an
/// image that can be shown, it is kept under its id; what was kept under other ids stays.
pub proof fn law_attachment_arrived(app: AppView, id: Seq<char>, data: Seq<char>, other: Seq<char>)
    ensures
        ({
            let out = app.after_attachment(id, Ok(data));
            &&& out.pending_attachments.contains(other) <==> app.pending_attachments.contains(other)
                && other != id
            &&& other != id ==> (out.image_cache.dom().contains(other)
                <==> app.image_cache.dom().contains(other)) && (app.image_cache.dom().contains(
                other,
            ) ==> out.image_cache[other] == app.image_cache[other])
            &&& app.graphics ==> (crate::clipboard::base64_bytes(data) matches Ok(bytes) ==> (
            crate::render::inline_image::decoded(bytes) matches Ok(image)
                ==> out.image_cache.dom().contains(id) && out.image_cache[id] == image))
            &&& !app.graphics ==> out.image_cache == app.image_cache
        }),
{
    reveal(AppView::with_pending_attachments);
    reveal(AppView::with_image_cache);
    reveal(AppView::with_row_cache);
    reveal(AppView::with_toast);
    lemma_left(app.pending_attachments, id, other);
}

// ---------------------------------------------------------------------------
// the list
// ---------------------------------------------------------------------------

/// A workspace that was made comes last, in the list and in the order, and the others stay where
/// they are; the next change may then be asked for.
pub proof fn law_workspace_made(app: AppView, workspace: WorkspaceViewView)
    requires
        !app.workspace_order.contains(workspace.workspace_id),
        forall|i: int|
            0 <= i < app.workspaces.len() ==> (#[trigger] app.workspaces[i]).workspace_id
                != workspace.workspace_id,
    ensures
        ({
            let out = app.after_workspace_create(
                Ok(CreatedWorkspaceView { created: true, workspace }),
            );
            &&& out.workspaces == app.workspaces.push(workspace)
            &&& out.workspace_order == app.workspace_order.push(workspace.workspace_id)
            &&& !out.sidebar_action_sending
            &&& out.workspace_editor is None
            &&& out.sessions == app.sessions
        }),
{
    reveal(AppView::with_sidebar_action_sending);
    reveal(AppView::with_workspace_editor);
    reveal(AppView::with_workspaces);
    reveal(AppView::with_workspace_order);
    reveal(AppView::with_sidebar);
    crate::seqs::lemma_first_index(
        app.workspaces,
        crate::app::groups::of_workspace(workspace.workspace_id),
        app.workspaces.len() as int,
    );
}

/// A workspace that was renamed has its new title; everything else of it, every other workspace
/// and the order stay.
pub proof fn law_workspace_renamed(app: AppView, told: WorkspaceViewView, i: int, k: int)
    requires
        0 <= i < app.workspaces.len(),
        app.workspaces[i].workspace_id == told.workspace_id,
        forall|j: int|
            0 <= j < i ==> (#[trigger] app.workspaces[j]).workspace_id != told.workspace_id,
        0 <= k < app.workspaces.len(),
    ensures
        ({
            let out = app.after_workspace_rename(Ok(told));
            &&& out.workspaces.len() == app.workspaces.len()
            &&& out.workspaces[i].title == told.title
            &&& out.workspaces[i].workspace_id == app.workspaces[i].workspace_id
            &&& k != i ==> out.workspaces[k] == app.workspaces[k]
            &&& out.workspace_order == app.workspace_order
            &&& !out.sidebar_action_sending
            &&& out.toast matches Some(toast) && toast.text == app.text("toast.renamed"@)
        }),
{
    reveal(AppView::with_sidebar_action_sending);
    reveal(AppView::with_workspaces);
    reveal(AppView::with_toast);
    crate::seqs::lemma_first_index(
        app.workspaces,
        crate::app::groups::of_workspace(told.workspace_id),
        i,
    );
}

proof fn lemma_workspaces_left(
    list: Seq<WorkspaceViewView>,
    id: Seq<char>,
    other: WorkspaceViewView,
)
    ensures
        list.filter(crate::app::host::not_workspace(id)).contains(other) <==> list.contains(other)
            && other.workspace_id != id,
    decreases list.len(),
{
    reveal(Seq::filter);
    let p = crate::app::host::not_workspace(id);
    if list.len() > 0 {
        let front = list.drop_last();
        lemma_workspaces_left(front, id, other);
        if list.contains(other) {
            let i = choose|i: int| 0 <= i < list.len() && list[i] == other;
            if i < front.len() {
                assert(front[i] == other);
            }
        }
        if front.contains(other) {
            let i = choose|i: int| 0 <= i < front.len() && front[i] == other;
            assert(list[i] == other);
        }
        if list.filter(p).contains(other) {
            let i = choose|i: int| 0 <= i < list.filter(p).len() && list.filter(p)[i] == other;
            if i < front.filter(p).len() {
                assert(front.filter(p)[i] == other);
            } else {
                assert(other == list[list.len() - 1]);
            }
        }
        if front.filter(p).contains(other) {
            let i = choose|i: int| 0 <= i < front.filter(p).len() && front.filter(p)[i] == other;
            assert(list.filter(p)[i] == other);
        }
        if p(list.last()) {
            assert(list.filter(p)[list.filter(p).len() - 1] == list.last());
        }
    }
}

/// A workspace that was deleted is gone, and every other one is still there; so are all
/// sessions.
pub proof fn law_workspace_deleted(app: AppView, id: Seq<char>, other: WorkspaceViewView)
    ensures
        ({
            let out = app.after_workspace_delete(id, None);
            &&& out.workspaces.contains(other) <==> app.workspaces.contains(other)
                && other.workspace_id != id
            &&& out.sessions == app.sessions
            &&& !out.sidebar_action_sending
        }),
{
    reveal(AppView::with_sidebar_action_sending);
    reveal(AppView::with_workspaces);
    reveal(AppView::with_workspace_order);
    reveal(AppView::with_sidebar);
    reveal(AppView::with_toast);
    lemma_workspaces_left(app.workspaces, id, other);
}

/// What is archived is what the gateway says is, and a fork is told by the id of the session
/// that it made; neither touches the list of sessions.
pub proof fn law_archive_and_fork(app: AppView, ids: Seq<Seq<char>>, made: Seq<char>)
    ensures
        app.after_archive(Ok(ids)).archived_session_ids == ids,
        app.after_archive(Ok(ids)).sessions == app.sessions,
        !app.after_archive(Ok(ids)).sidebar_action_sending,
        app.after_fork(Ok(made)).sessions == app.sessions,
        app.after_fork(Ok(made)).active_session == app.active_session,
        !app.after_fork(Ok(made)).sidebar_action_sending,
        app.after_fork(Ok(made)).toast matches Some(toast) && toast.text == app.text_with(
            "toast.forked"@,
            seq![made],
        ),
{
    reveal(AppView::with_sidebar_action_sending);
    reveal(AppView::with_archived_session_ids);
    reveal(AppView::with_sidebar);
    reveal(AppView::with_toast);
}

// ---------------------------------------------------------------------------
// arguments
// ---------------------------------------------------------------------------

proof fn lemma_scanned_on(
    args: Seq<Seq<char>>,
    more: Seq<Seq<char>>,
    i: int,
    task: Option<Seq<char>>,
    file: Option<Seq<char>>,
)
    requires
        0 <= i <= args.len(),
        crate::app::light::scanned(args, i, task, file) is Ok,
    ensures
        ({
            let (a, b) = crate::app::light::scanned(args, i, task, file)->Ok_0;
            crate::app::light::scanned(args + more, i, task, file) == crate::app::light::scanned(
                args + more,
                args.len() as int,
                a,
                b,
            )
        }),
    decreases args.len() - i,
{
    if i < args.len() {
        assert((args + more)[i] == args[i]);
        if i + 1 < args.len() {
            assert((args + more)[i + 1] == args[i + 1]);
        }
        if args[i] == "--light"@ {
            lemma_scanned_on(args, more, i + 1, task, file);
        } else if args[i] == "--task"@ {
            lemma_scanned_on(args, more, i + 2, Some(args[i + 1]), file);
        } else if args[i] == "--file"@ {
            lemma_scanned_on(args, more, i + 2, task, Some(args[i + 1]));
        } else if args[i] == "--port"@ {
            lemma_scanned_on(args, more, i + 2, task, file);
        } else {
            lemma_scanned_on(args, more, i + 1, task, file);
        }
    }
}

/// Of several tasks the last one counts, and of several files the last one where there is no
/// task; the port has no part in it.
pub proof fn law_last_argument_counts(args: Seq<Seq<char>>, text: Seq<char>, piped: bool)
    requires
        crate::app::light::source_of(args, true) is Ok,
    ensures
        crate::app::light::source_of(args + seq!["--task"@, text], piped) == Ok::<_, Seq<char>>(
            TaskSourceView::Task(text),
        ),
        !(crate::app::light::source_of(args, true)->Ok_0 is Task) ==> crate::app::light::source_of(
            args + seq!["--file"@, text],
            piped,
        ) == Ok::<_, Seq<char>>(TaskSourceView::File(text)),
        crate::app::light::source_of(args + seq!["--port"@, text], piped)
            == crate::app::light::source_of(args, piped),
{
    reveal_with_fuel(crate::app::light::scanned, 2);
    reveal_strlit("--light");
    reveal_strlit("--task");
    reveal_strlit("--file");
    reveal_strlit("--port");
    assert("--light"@.len() == 7 && "--task"@.len() == 6 && "--file"@.len() == 6);
    assert("--task"@[2] == 't' && "--file"@[2] == 'f' && "--port"@[2] == 'p');
    assert("--port"@.len() == 6);
    let n = args.len() as int;
    let a = args + seq!["--task"@, text];
    let b = args + seq!["--file"@, text];
    let c = args + seq!["--port"@, text];
    assert(a[n] == "--task"@ && a[n + 1] == text && a.len() == n + 2);
    assert(b[n] == "--file"@ && b[n + 1] == text && b.len() == n + 2);
    assert(c[n] == "--port"@ && c[n + 1] == text && c.len() == n + 2);
    lemma_scanned_on(args, seq!["--task"@, text], 0, None, None);
    lemma_scanned_on(args, seq!["--file"@, text], 0, None, None);
    lemma_scanned_on(args, seq!["--port"@, text], 0, None, None);
}

// ---------------------------------------------------------------------------
// the theme at the start
// ---------------------------------------------------------------------------

/// The theme that is asked for goes before the configured one, which goes before that of the
/// terminal's background; a theme that there is none of changes nothing.
pub proof fn law_theme_at_start(
    app: AppView,
    config: ConfigView,
    name: Seq<char>,
    scheme: Option<ColorMode>,
    theme: ThemeView,
)
    ensures
        crate::text::trim(name).len() > 0 && crate::app::startup::theme_named(app.themes, name)
            == Some(theme) ==> app.themed(config, Some(name), true, scheme).theme == theme,
        config.theme == Some(name) && crate::app::startup::theme_named(app.themes, name) == Some(
            theme,
        ) ==> app.themed(config, None, true, scheme).theme == theme,
        crate::text::trim(name).len() > 0 && crate::app::startup::theme_named(app.themes, name)
            is None ==> app.themed(config, Some(name), true, scheme).theme == app.theme,
        app.themed(config, Some(name), true, scheme).config == config,
{
    reveal(AppView::with_config);
    reveal(AppView::with_theme);
}

} // verus!
