//! The application: keys, requests, answers, frames and outcomes.

use dsh_tui::app::answer::ReceiptReason;
use dsh_tui::app::command::{Command, QueueUpdate};
use dsh_tui::app::event::{AppEvent, MouseEvent, MouseKind, Receipt};
use dsh_tui::app::host::{CreatedSession, CreatedWorkspace, Renamed};
use dsh_tui::app::run::Paint;
use dsh_tui::app::settings::{FieldKind, SettingsField, SettingsForm, SettingsSection};
use dsh_tui::app::sidebar::{label_of, permission_display};
use dsh_tui::app::state::{
    Action, AnswerTag, App, CatalogEntry, Focus, LauncherAction, LauncherEntry, Mode,
    QueueActionKind, SaveKind,
};
use dsh_tui::client::ClientError;
use dsh_tui::i18n::{Locale, Strings};
use dsh_tui::json::Json;
use dsh_tui::key::{KeyCode, KeyEvent};
use dsh_tui::theme::detect::ColorMode;
use dsh_tui::theme::{Config, ThemeRegistry};
use dsh_tui::wire::{
    ApprovalOutcome, ApprovalRequestId, ApprovalResponseOutcome, AskUserQuestionItem, HostFrame,
    ModelSelection, MuxFrame, QueueItem, QueuePlacement, RpcError, RpcErrorKind, RpcId,
    SessionEvent, SessionId, SessionSearchItem, SessionSummary, SkillEntry, WorkspaceId,
    WorkspaceView,
};

fn theme(name: &str, accent: &str) -> String {
    format!(
        "name = \"{name}\"\naccent = \"{accent}\"\nmuted = \"#222222\"\nerror = \"#333333\"\n\
         warning = \"#444444\"\nsuccess = \"#555555\"\ncode = \"#666666\"\nbg = \"#777777\"\n\
         text = \"#888888\"\npanel_bg = \"#999999\"\nborder = \"#aaaaaa\"\n"
    )
}

fn app() -> App {
    let strings = Strings {
        en: vec![
            ("toast.renamed".to_string(), "renamed".to_string()),
            ("toast.session_created".to_string(), "created {0}".to_string()),
            ("toast.sidebar_action_failed".to_string(), "failed: {0}".to_string()),
        ],
        zh: vec![],
    };
    let themes = ThemeRegistry::bundled(&vec![
        theme("dsh-dark", "#010101"),
        theme("dsh-light", "#020202"),
    ])
    .expect("themes");
    App::new(strings, themes)
}

fn id(s: &str) -> SessionId {
    SessionId(s.to_string())
}

fn row(s: &str, blank: bool, updated: f64) -> SessionSummary {
    SessionSummary {
        session_id: id(s),
        updated_at: updated.to_bits(),
        running: false,
        blank,
        parent_session_id: None,
        origin: None,
        cwd: None,
        agent_preset: None,
        projections: None,
    }
}

fn attached() -> App {
    let mut app = app();
    let sessions = vec![row("a", false, 2.0), row("b", false, 1.0)];
    app.attach(Some(id("a")), sessions, vec![], vec![]);
    app.open_in_store(&id("a"));
    app
}

fn key(code: KeyCode) -> AppEvent {
    AppEvent::Key(KeyEvent::plain(code))
}

fn ctrl(c: char) -> AppEvent {
    let mut key = KeyEvent::plain(KeyCode::Char(c));
    key.control = true;
    AppEvent::Key(key)
}

fn send(app: &mut App, event: AppEvent) -> Vec<Command> {
    let now = app.clock();
    app.handle_event(event, now, 7.0f64.to_bits()).commands
}

fn typed(app: &mut App, text: &str) {
    for c in text.chars() {
        send(app, key(KeyCode::Char(c)));
    }
}

fn failure() -> ClientError {
    ClientError::Timeout
}

fn approval(name: &str) -> MuxFrame {
    MuxFrame::ApprovalRequested {
        session_id: id("a"),
        approval_id: ApprovalRequestId(name.to_string()),
        tool_name: "bash".to_string(),
        call_id: None,
        reason: Some("writes a file".to_string()),
    }
}

fn ask(app: &mut App, rpc: &str, frame: MuxFrame) {
    send(app, AppEvent::Answerable { rpc_id: RpcId(rpc.to_string()), frame });
}

#[test]
fn a_prompt_is_written_and_sent() {
    let mut app = attached();
    assert_eq!(app.focus(), Focus::Composer);
    typed(&mut app, "hi");
    assert_eq!(app.composer().buffer(), "hi");
    let commands = send(&mut app, key(KeyCode::Enter));
    assert_eq!(commands.len(), 1);
    match &commands[0] {
        Command::Prompt { session_id, text } => {
            assert_eq!(session_id.0, "a");
            assert_eq!(text, "hi");
        }
        other => panic!("{other:?}"),
    }
    assert_eq!(app.composer().buffer(), "");
}

#[test]
fn nothing_is_sent_without_a_gateway() {
    let mut app = app();
    for action in [
        Action::Submit("x".to_string()),
        Action::CancelTurn,
        Action::SearchSessions("x".to_string()),
        Action::ForkSession(id("a")),
        Action::RequestCatalog,
    ] {
        assert!(app.dispatch(action).is_empty());
    }
}

#[test]
fn quitting_stops_and_draws_nothing() {
    let mut app = attached();
    let reaction = app.handle_event(ctrl('q'), 0, 0);
    assert_eq!(reaction.paint, Paint::Skip);
    assert!(!app.running());
}

#[test]
fn tab_goes_round_the_surfaces() {
    let mut app = attached();
    app.set_focus(Focus::Chat);
    for expected in [Focus::Composer, Focus::Sidebar, Focus::Chat] {
        send(&mut app, key(KeyCode::Tab));
        assert_eq!(app.focus(), expected);
    }
}

#[test]
fn the_newest_approval_takes_the_screen_and_the_next_follows() {
    let mut app = attached();
    ask(&mut app, "r1", approval("one"));
    ask(&mut app, "r2", approval("two"));
    match app.mode() {
        Mode::Approval(t) => assert_eq!(t.approval_id.0, "two"),
        other => panic!("{other:?}"),
    }
    let commands = send(&mut app, key(KeyCode::Char('y')));
    match &commands[0] {
        Command::RespondApproval { rpc_id, approval_id, outcome, .. } => {
            assert_eq!(rpc_id.0, "r2");
            assert_eq!(approval_id.0, "two");
            assert_eq!(*outcome, ApprovalResponseOutcome::AllowedOnce);
        }
        other => panic!("{other:?}"),
    }
    assert!(send(&mut app, key(KeyCode::Char('y'))).is_empty());
    let tag = AnswerTag::Approval {
        approval_id: ApprovalRequestId("two".to_string()),
        outcome: ApprovalResponseOutcome::AllowedOnce,
    };
    send(
        &mut app,
        AppEvent::AnswerDone { tag, result: Ok(Receipt { accepted: true, reason: None }) },
    );
    match app.mode() {
        Mode::Approval(t) => assert_eq!(t.approval_id.0, "one"),
        other => panic!("{other:?}"),
    }
}

#[test]
fn an_answer_that_failed_can_be_given_again() {
    let mut app = attached();
    ask(&mut app, "r1", approval("one"));
    send(&mut app, key(KeyCode::Char('n')));
    let tag = AnswerTag::Approval {
        approval_id: ApprovalRequestId("one".to_string()),
        outcome: ApprovalResponseOutcome::Rejected,
    };
    let receipt = Receipt { accepted: false, reason: Some(ReceiptReason::NotPending) };
    send(&mut app, AppEvent::AnswerDone { tag, result: Ok(receipt) });
    assert_eq!(app.toast_text(), Some("answer failed: not pending"));
    assert_eq!(send(&mut app, key(KeyCode::Char('n'))).len(), 1);
}

#[test]
fn what_others_resolve_leaves_the_screen() {
    let mut app = attached();
    ask(&mut app, "r1", approval("one"));
    send(
        &mut app,
        AppEvent::Frame(MuxFrame::ApprovalResolved {
            session_id: id("a"),
            approval_id: ApprovalRequestId("one".to_string()),
            outcome: ApprovalOutcome::Rejected,
        }),
    );
    assert!(app.in_chat());
    assert!(app.pending_approvals().is_empty());
}

#[test]
fn a_question_is_answered_with_its_labels() {
    let mut app = attached();
    let question = AskUserQuestionItem {
        id: "q".to_string(),
        options: vec!["red".to_string(), "blue".to_string()],
        multi: false,
        body: Json::Null,
    };
    ask(
        &mut app,
        "r9",
        MuxFrame::QuestionRequested { session_id: id("a"), questions: vec![question] },
    );
    send(&mut app, key(KeyCode::Down));
    let commands = send(&mut app, key(KeyCode::Enter));
    match &commands[0] {
        Command::RespondQuestion { rpc_id, answers, .. } => {
            assert_eq!(rpc_id.0, "r9");
            assert_eq!(answers.len(), 1);
            assert_eq!(answers[0].selected, vec!["blue".to_string()]);
        }
        other => panic!("{other:?}"),
    }
}

#[test]
fn sessions_come_once_and_go() {
    let mut app = attached();
    let added = || HostFrame::HostSessionAdded {
        session_id: id("c"),
        blank: true,
        parent_session_id: None,
        origin: None,
        cwd: None,
        agent_preset: None,
    };
    send(&mut app, AppEvent::HostFrame(added()));
    send(&mut app, AppEvent::HostFrame(added()));
    assert_eq!(app.sessions().len(), 3);
    assert_eq!(app.sessions()[0].session_id.0, "c");
    assert_eq!(app.sessions()[0].updated_at, 7.0f64.to_bits());
    send(&mut app, AppEvent::HostFrame(HostFrame::HostSessionStatus {
        session_id: id("c"),
        running: true,
    }));
    assert!(app.sessions()[0].running);
    send(&mut app, AppEvent::HostFrame(HostFrame::HostSessionRemoved { session_id: id("a") }));
    assert!(app.active_session().is_none());
    assert_eq!(app.sessions().len(), 2);
}

fn workspace(name: &str, title: &str, members: &[&str]) -> WorkspaceView {
    WorkspaceView {
        workspace_id: WorkspaceId(name.to_string()),
        title: title.to_string(),
        session_ids: members.iter().map(|m| id(m)).collect(),
    }
}

#[test]
fn workspaces_group_the_sessions() {
    let mut app = attached();
    send(&mut app, AppEvent::HostFrame(HostFrame::HostWorkspaceChanged {
        workspace: workspace("w", "one", &["b"]),
    }));
    assert_eq!(app.sidebar_rows(), vec![1, 0]);
    send(&mut app, AppEvent::HostFrame(HostFrame::HostWorkspaceChanged {
        workspace: workspace("w", "two", &["b"]),
    }));
    assert_eq!(app.workspaces().len(), 1);
    assert_eq!(app.workspaces()[0].title, "two");
    send(&mut app, AppEvent::HostFrame(HostFrame::HostArchivedSessionsChanged {
        archived_session_ids: vec![id("b")],
    }));
    assert_eq!(app.sidebar_rows(), vec![0]);
    send(&mut app, AppEvent::HostFrame(HostFrame::HostWorkspaceRemoved {
        workspace_id: WorkspaceId("w".to_string()),
    }));
    assert!(app.workspaces().is_empty());
}

#[test]
fn a_session_is_renamed_once_at_a_time() {
    let mut app = attached();
    let rename = || Action::RenameSession { session_id: id("a"), title: "T".to_string() };
    assert_eq!(app.dispatch(rename()).len(), 1);
    assert!(app.dispatch(rename()).is_empty());
    let done = Renamed { title: "T".to_string(), seq: 5 };
    send(&mut app, AppEvent::RenameDone { session_id: id("a"), result: Ok(done) });
    assert_eq!(label_of(&app.sessions()[0]), "T");
    assert_eq!(app.toast_text(), Some("renamed"));
    assert_eq!(app.dispatch(Action::ForkSession(id("a"))).len(), 1);
    send(&mut app, AppEvent::ForkDone { result: Err(failure()) });
    assert_eq!(app.toast_text(), Some("failed: rpc timed out"));
    assert!(!app.sidebar_action_sending());
}

#[test]
fn a_new_session_is_opened() {
    let mut app = attached();
    let made = CreatedSession { session_id: id("n"), agent_preset: None };
    send(&mut app, AppEvent::SessionCreateDone { result: Ok(made) });
    assert_eq!(app.active_session().as_ref().map(|s| s.0.as_str()), Some("n"));
    assert_eq!(app.sessions()[0].session_id.0, "n");
    assert_eq!(app.toast_text(), Some("created n"));
    assert!(app.active_state().is_some());
}

#[test]
fn workspaces_are_made_and_deleted() {
    let mut app = attached();
    let made = CreatedWorkspace { workspace: workspace("w", "one", &[]), created: true };
    send(&mut app, AppEvent::WorkspaceCreateDone { result: Ok(made) });
    assert_eq!(app.workspace_order().len(), 1);
    let unknown = CreatedWorkspace { workspace: workspace("x", "x", &[]), created: false };
    send(&mut app, AppEvent::WorkspaceCreateDone { result: Ok(unknown) });
    assert_eq!(app.workspaces().len(), 1);
    send(&mut app, AppEvent::WorkspaceRenameDone { result: Ok(workspace("w", "two", &["a"])) });
    assert_eq!(app.workspaces()[0].title, "two");
    assert!(app.workspaces()[0].session_ids.is_empty());
    send(&mut app, AppEvent::WorkspaceDeleteDone {
        workspace_id: WorkspaceId("w".to_string()),
        failure: None,
    });
    assert!(app.workspaces().is_empty() && app.workspace_order().is_empty());
    send(&mut app, AppEvent::ArchiveDone { result: Ok(vec![id("b")]) });
    assert_eq!(app.archived_session_ids().len(), 1);
}

#[test]
fn switching_asks_for_history_and_models() {
    let mut app = attached();
    let action = app.switch_to_session(id("b"));
    let commands = app.dispatch(action);
    assert!(matches!(&commands[0], Command::History { session_id, limit: 200 } if session_id.0 == "b"));
    assert!(matches!(&commands[1], Command::Models { session_id } if session_id.0 == "b"));
    let models = |m: &str| ModelSelection { model: m.to_string(), reasoning_effort: None };
    send(&mut app, AppEvent::ModelsLoaded { session_id: id("a"), result: Ok(models("old")) });
    assert!(app.session_model().is_none());
    send(&mut app, AppEvent::ModelsLoaded { session_id: id("b"), result: Ok(models("new")) });
    assert_eq!(app.session_model().as_ref().map(|m| m.model.as_str()), Some("new"));
    send(&mut app, AppEvent::HistoryLoaded { session_id: id("a"), result: Err(failure()) });
    assert!(app.history_loading().is_some());
    let entry = (
        SessionEvent {
            seq: 1,
            kind: "turn/start".to_string(),
            time: 0,
            data: Json::Object(vec![("turn".to_string(), Json::Int(1))]),
            surface_op: None,
            ignorable: None,
        },
        None,
    );
    send(&mut app, AppEvent::HistoryLoaded { session_id: id("b"), result: Ok(vec![entry]) });
    assert!(app.history_loading().is_none());
    assert_eq!(app.active_state().unwrap().last_seq(), 1);
}

#[test]
fn a_stale_search_is_asked_again() {
    let mut app = attached();
    app.set_focus(Focus::Sidebar);
    send(&mut app, key(KeyCode::Char('/')));
    let first = send(&mut app, key(KeyCode::Char('x')));
    assert!(matches!(&first[0], Command::Search { query } if query == "x"));
    assert!(send(&mut app, key(KeyCode::Char('y'))).is_empty());
    let found = || vec![SessionSearchItem { session_id: id("b"), title: "B".to_string() }];
    let again = send(
        &mut app,
        AppEvent::SessionSearchDone { query: "x".to_string(), result: Ok(found()) },
    );
    assert!(matches!(&again[0], Command::Search { query } if query == "xy"));
    let done = send(
        &mut app,
        AppEvent::SessionSearchDone { query: "xy".to_string(), result: Ok(found()) },
    );
    assert!(done.is_empty());
    assert_eq!(app.sidebar_search().as_ref().unwrap().results.len(), 1);
}

fn queue(app: &mut App) {
    let item = QueueItem {
        id: "q-1".to_string(),
        placement: QueuePlacement::Queued,
        texts: vec!["later".to_string()],
    };
    send(
        app,
        AppEvent::Frame(MuxFrame::SessionQueue { session_id: id("a"), items: vec![item] }),
    );
}

#[test]
fn a_queue_item_is_changed_once_at_a_time() {
    let mut app = attached();
    queue(&mut app);
    let commands = app.dispatch(Action::QueueEdit("now".to_string()));
    match &commands[0] {
        Command::UpdateQueue { item_id, update: QueueUpdate::Edit { text }, .. } => {
            assert_eq!(item_id, "q-1");
            assert_eq!(text, "now");
        }
        other => panic!("{other:?}"),
    }
    assert!(app.dispatch(Action::QueueRemove).is_empty());
    send(
        &mut app,
        AppEvent::QueueActionDone { kind: QueueActionKind::Edit, failure: None },
    );
    assert_eq!(app.toast_text(), Some("queue.edited"));
    assert_eq!(app.dispatch(Action::QueueSteer).len(), 1);
}

#[test]
fn the_catalog_is_fetched_once() {
    let mut app = attached();
    assert_eq!(app.dispatch(Action::RequestCatalog).len(), 1);
    assert!(app.dispatch(Action::RequestCatalog).is_empty());
    let skill = SkillEntry { name: "review".to_string(), description: String::new() };
    send(&mut app, AppEvent::CatalogLoaded { result: Ok(vec![skill]) });
    assert!(!app.at_catalog_stale());
    send(&mut app, AppEvent::Paste("@vie".to_string()));
    let entries = app.popup_entries(&vec![]);
    assert_eq!(entries.len(), 1);
    assert_eq!(entries[0].insert, "@review ");
}

#[test]
fn lists_are_narrowed_by_what_is_typed() {
    let mut app = attached();
    let commands = vec![
        CatalogEntry { label: "compact".to_string(), insert: "/compact ".to_string() },
        CatalogEntry { label: "model".to_string(), insert: "/model ".to_string() },
    ];
    send(&mut app, AppEvent::Paste("/mod".to_string()));
    app.refresh_lists(&commands, &vec![]);
    assert_eq!(app.popup_list().len(), 1);
    send(&mut app, key(KeyCode::Enter));
    assert_eq!(app.composer().buffer(), "/model ");
    let entries = vec![
        LauncherEntry { label: "settings".to_string(), action: LauncherAction::OpenSettings },
        LauncherEntry { label: "quit".to_string(), action: LauncherAction::Quit },
    ];
    send(&mut app, ctrl('p'));
    app.refresh_lists(&commands, &entries);
    let labels: Vec<&str> = app.launcher_list().iter().map(|e| e.label.as_str()).collect();
    assert_eq!(labels, vec!["/compact", "/model", "settings", "quit"]);
    let skill = SkillEntry { name: "review".to_string(), description: String::new() };
    send(&mut app, AppEvent::CatalogLoaded { result: Ok(vec![skill]) });
    let offered = app.launcher_entries_filtered(&commands, &entries);
    assert_eq!(offered.len(), 5);
    assert_eq!(offered[2].label, "@review");
    assert!(matches!(
        &offered[2].action,
        LauncherAction::Dispatch { text } if text == "@review "
    ));
    typed(&mut app, "stg");
    app.refresh_lists(&commands, &entries);
    assert_eq!(app.launcher_list().len(), 1);
    assert_eq!(app.launcher_list()[0].label, "settings");
}

fn settings_app() -> App {
    let mut app = attached();
    let mut sent = send(&mut app, ctrl(','));
    assert!(matches!(sent.pop(), Some(Command::DescribeSettings)));
    let field = SettingsField {
        key: "language".to_string(),
        kind: FieldKind::Text,
        value: Json::Str("zh".to_string()),
        original: Json::Str("en".to_string()),
    };
    let form = SettingsForm { fields: vec![field], cursor: 0, editing: None, revision: 3 };
    let section = SettingsSection { ns: "locale".to_string(), form: Some(form) };
    send(&mut app, AppEvent::SettingsDescribeDone { result: Ok(vec![section]) });
    app
}

#[test]
fn settings_are_saved_with_their_revision() {
    let mut app = settings_app();
    let commands = app.dispatch(Action::SaveSettings);
    match &commands[0] {
        Command::UpdateSettings { ns, revision, patch } => {
            assert_eq!((ns.as_str(), *revision), ("locale", 3));
            assert_eq!(patch.len(), 1);
            assert_eq!(patch[0].key, "language");
        }
        other => panic!("{other:?}"),
    }
    let value = Json::Object(vec![("language".to_string(), Json::Str("zh".to_string()))]);
    send(
        &mut app,
        AppEvent::SettingsSaveDone { ns: "locale".to_string(), result: Ok(value) },
    );
    assert_eq!(app.locale(), Locale::Zh);
    assert!(app.in_chat());
    assert_eq!(app.take_save(), Some(SaveKind::Quiet));
    assert_eq!(app.take_save(), None);
}

#[test]
fn a_conflict_is_followed_by_a_new_description() {
    let mut app = settings_app();
    let error = RpcError { kind: RpcErrorKind::SettingsConflict, message: "stale".to_string() };
    let commands = send(
        &mut app,
        AppEvent::SettingsSaveDone {
            ns: "locale".to_string(),
            result: Err(ClientError::Rpc(error)),
        },
    );
    assert!(matches!(&commands[0], Command::DescribeSettings));
    assert!(matches!(app.mode(), Mode::Settings(state) if state.loading));
    send(
        &mut app,
        AppEvent::SettingsSaveDone { ns: "locale".to_string(), result: Err(failure()) },
    );
    assert!(matches!(app.mode(), Mode::Settings(state) if !state.saving));
}

#[test]
fn a_failed_write_of_the_configuration_is_told_where_it_matters() {
    let mut app = attached();
    app.on_config_saved(SaveKind::Quiet, Some("disk full"));
    assert_eq!(app.toast_text(), None);
    app.on_config_saved(SaveKind::Reported, Some("disk full"));
    assert_eq!(app.toast_text(), Some("toast.config_save_failed"));
}

#[test]
fn an_attachment_is_asked_for_again_after_a_failure() {
    let mut app = attached();
    app.set_graphics(true);
    let image = Json::Object(vec![
        ("type".to_string(), Json::Str("image".to_string())),
        (
            "attachment".to_string(),
            Json::Object(vec![("attachmentId".to_string(), Json::Str("at-1".to_string()))]),
        ),
    ]);
    let message = SessionEvent {
        seq: 1,
        kind: "user/message".to_string(),
        time: 0,
        data: Json::Object(vec![
            ("id".to_string(), Json::Str("m".to_string())),
            ("content".to_string(), Json::Array(vec![image])),
            (
                "source".to_string(),
                Json::Object(vec![("kind".to_string(), Json::Str("user".to_string()))]),
            ),
        ]),
        surface_op: None,
        ignorable: None,
    };
    let frame = MuxFrame::SessionEvent { session_id: id("a"), event: message, view: None };
    let commands = send(&mut app, AppEvent::Frame(frame));
    assert!(matches!(&commands[0], Command::Attachment { attachment_id, .. } if attachment_id == "at-1"));
    assert!(app.drain_attachment_needs().is_empty());
    send(
        &mut app,
        AppEvent::AttachmentDone {
            attachment_id: "at-1".to_string(),
            result: Ok("not base64!".to_string()),
        },
    );
    assert_eq!(app.toast_text(), Some("toast.attachment_failed"));
    assert_eq!(app.drain_attachment_needs().len(), 1);
}

#[test]
fn time_passes_quietly() {
    let mut app = attached();
    app.set_toast("note".to_string());
    app.mark_drawn();
    let early = app.handle_event(AppEvent::Tick, 2999, 0);
    assert!(!app.draw_due(early.paint));
    assert_eq!(app.toast_text(), Some("note"));
    let late = app.handle_event(AppEvent::Tick, 3000, 0);
    assert!(app.draw_due(late.paint));
    assert_eq!(app.toast_text(), None);
}

#[test]
fn drawings_are_sixteen_milliseconds_apart() {
    let mut app = attached();
    app.handle_event(AppEvent::Tick, 100, 0);
    app.mark_drawn();
    let frame = || {
        AppEvent::Frame(MuxFrame::SessionSubscribed { session_id: id("a"), last_seq: 0 })
    };
    let soon = app.handle_event(frame(), 115, 0);
    assert!(!app.draw_due(soon.paint));
    let later = app.handle_event(frame(), 116, 0);
    assert!(app.draw_due(later.paint));
    let moved = MouseEvent { kind: MouseKind::Moved, column: 1, row: 1 };
    let reaction = app.handle_event(AppEvent::Mouse(moved), 200, 0);
    assert!(!app.draw_due(reaction.paint));
}

#[test]
fn the_drawer_closes_where_the_tier_changes() {
    let mut app = attached();
    app.set_terminal_width(60);
    app.toggle_drawer();
    assert!(app.drawer_open());
    send(&mut app, AppEvent::Resize(50, 20));
    assert!(app.drawer_open());
    send(&mut app, AppEvent::Resize(100, 20));
    assert!(!app.drawer_open());
}

#[test]
fn the_outcomes_of_prompts_and_cancellations_are_told() {
    let mut app = attached();
    send(&mut app, AppEvent::PromptDone { failure: Some(failure()) });
    assert_eq!(app.toast_text(), Some("prompt failed: rpc timed out"));
    send(&mut app, AppEvent::CancelDone { failure: None });
    assert_eq!(app.toast_text(), Some("toast.cancelled"));
}

#[test]
fn the_theme_follows_the_configuration_or_the_terminal() {
    let mut app = app();
    app.load_theme_config(Config::default(), None, true, Some(ColorMode::Light));
    assert_eq!(app.theme().name, "dsh-light");
    app.load_theme_config(Config::default(), Some("dsh-dark".to_string()), true, Some(ColorMode::Light));
    assert_eq!(app.theme().name, "dsh-dark");
    let mut config = Config::default();
    config.theme = Some("dsh-light".to_string());
    app.load_theme_config(config, Some("  ".to_string()), true, None);
    assert_eq!(app.theme().name, "dsh-light");
    app.load_theme_config(Config::default(), Some("unknown".to_string()), true, None);
    assert_eq!(app.theme().name, "dsh-light");
    app.load_theme_config(Config::default(), Some("dsh-dark".to_string()), false, None);
    assert_eq!(app.theme().name, "dsh-light");
}

#[test]
fn permissions_have_their_names() {
    assert_eq!(permission_display("danger-full-access"), "Full access");
    assert_eq!(permission_display("read-only"), "Read Only");
    assert_eq!(permission_display("workspace--write"), "Workspace Write");
    assert_eq!(permission_display("élan"), "Élan");
}
