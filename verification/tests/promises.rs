//! What holds whatever happens, on examples.

use dsh_tui::app::editor::Editor;
use dsh_tui::app::event::AppEvent;
use dsh_tui::app::groups::SidebarState;
use dsh_tui::app::host::CreatedSession;
use dsh_tui::app::layout::centred_above;
use dsh_tui::app::settings::{
    FieldKind, SettingsField, SettingsFocus, SettingsForm, SettingsReply, SettingsSection,
    SettingsState,
};
use dsh_tui::app::state::{Action, App, Area, Focus, Mode, ViewMode};
use dsh_tui::app::takeover::{step_back, step_down, step_on, step_up, ImageViewer};
use dsh_tui::i18n::{en_keys, zh_keys, Locale, Strings};
use dsh_tui::json::Json;
use dsh_tui::key::{KeyCode, KeyEvent};
use dsh_tui::render::highlight::{warmup, Grammars};
use dsh_tui::render::inline_image::ImageCache;
use dsh_tui::render::markdown::{render_node, render_node_full, tool_language};
use dsh_tui::render::row_cache::RowCache;
use dsh_tui::render::signature::rendered_signature;
use dsh_tui::render::sink::{render_markdown, RenderContext};
use dsh_tui::render::style::{Line, Style};
use dsh_tui::store::node::NodeData;
use dsh_tui::store::SessionStore;
use dsh_tui::table::Table;
use dsh_tui::theme::{Theme, ThemeRegistry};
use dsh_tui::wire::{
    ApprovalOutcome, ApprovalRequestId, ApprovalResponseOutcome, HostFrame, ImageAttachmentRef,
    MuxFrame, QueueItem, QueuePlacement, RpcId, SessionEvent, SessionId, SessionSummary,
    WorkspaceId, WorkspaceView,
};

const THEME: &str = "name = \"dsh-dark\"\naccent = \"#111111\"\nmuted = \"#222222\"\n\
                     error = \"#333333\"\nwarning = \"#444444\"\nsuccess = \"#555555\"\n\
                     code = \"#666666\"\nbg = \"#777777\"\ntext = \"#888888\"\n";

fn id(s: &str) -> SessionId {
    SessionId(s.to_string())
}

fn object(members: &[(&str, Json)]) -> Json {
    Json::Object(members.iter().map(|(k, v)| (k.to_string(), v.clone())).collect())
}

fn text(s: &str) -> Json {
    Json::Str(s.to_string())
}

fn row(s: &str) -> SessionSummary {
    SessionSummary {
        session_id: id(s),
        updated_at: 0,
        running: false,
        blank: false,
        parent_session_id: None,
        origin: None,
        cwd: None,
        agent_preset: None,
        projections: None,
    }
}

fn app() -> App {
    let themes = ThemeRegistry::bundled(&vec![THEME.to_string()]).expect("themes");
    let mut app = App::new(Strings { en: vec![], zh: vec![] }, themes);
    app.attach(Some(id("a")), vec![row("a"), row("b")], vec![], vec![]);
    app.open_in_store(&id("a"));
    app
}

fn press(app: &mut App, code: KeyCode) -> Option<Action> {
    app.handle_key(KeyEvent::plain(code))
}

fn control(app: &mut App, c: char) -> Option<Action> {
    let mut key = KeyEvent::plain(KeyCode::Char(c));
    key.control = true;
    app.handle_key(key)
}

fn event(seq: i64, kind: &str, data: Json) -> SessionEvent {
    SessionEvent {
        seq,
        kind: kind.to_string(),
        time: (seq as f64).to_bits(),
        data,
        surface_op: None,
        ignorable: None,
    }
}

fn frame(event: SessionEvent) -> MuxFrame {
    MuxFrame::SessionEvent { session_id: id("a"), event, view: None }
}

fn content(said: &str) -> Json {
    Json::Array(vec![object(&[("type", text("text")), ("text", text(said))])])
}

fn prompt(seq: i64, said: &str) -> SessionEvent {
    event(
        seq,
        "user/message",
        object(&[
            ("id", text(&format!("m-{seq}"))),
            ("content", content(said)),
            ("source", object(&[("kind", text("user"))])),
        ]),
    )
}

fn call(seq: i64) -> SessionEvent {
    event(
        seq,
        "tool/call",
        object(&[
            ("turn", Json::Int(1)),
            ("step", Json::Int(1)),
            ("callId", text("c-1")),
            ("name", text("bash")),
            ("arguments", text("{\"command\":\"ls\"}")),
        ]),
    )
}

fn result(seq: i64, said: &str) -> SessionEvent {
    let block = object(&[
        ("type", text("tool-result")),
        ("toolCallId", text("c-1")),
        ("content", content(said)),
    ]);
    event(
        seq,
        "tool/result",
        object(&[
            ("turn", Json::Int(1)),
            ("step", Json::Int(1)),
            (
                "message",
                object(&[
                    ("id", text("r-1")),
                    ("content", Json::Array(vec![block])),
                    ("source", object(&[("kind", text("tool")), ("callId", text("c-1"))])),
                ]),
            ),
        ]),
    )
}

fn store_of(events: Vec<SessionEvent>) -> SessionStore {
    let mut store = SessionStore::new();
    for event in events {
        store.ingest(frame(event)).expect("event");
    }
    store
}

fn approval(name: &str) -> MuxFrame {
    MuxFrame::ApprovalRequested {
        session_id: id("a"),
        approval_id: ApprovalRequestId(name.to_string()),
        tool_name: "bash".to_string(),
        call_id: None,
        reason: None,
    }
}

struct Setting {
    theme: Theme,
    strings: Strings,
    images: ImageCache,
    folds: Table<bool>,
    grammars: Grammars,
}

impl Setting {
    fn new() -> Self {
        Setting {
            theme: Theme::from_toml_str(THEME).expect("theme"),
            strings: Strings { en: vec![], zh: vec![] },
            images: ImageCache::default(),
            folds: Table::new(),
            grammars: warmup(),
        }
    }

    fn context(&self, width: u16) -> RenderContext<'_> {
        RenderContext {
            width,
            theme: &self.theme,
            strings: &self.strings,
            locale: Locale::En,
            images: &self.images,
            skill_folds: &self.folds,
            grammars: &self.grammars,
        }
    }
}

fn shown(line: &Line) -> String {
    line.spans.iter().map(|span| span.content.as_str()).collect()
}

// ---------------------------------------------------------------------------
// the application
// ---------------------------------------------------------------------------

#[test]
fn requests_are_numbered_in_order() {
    let mut app = app();
    app.record_answerable(RpcId("r1".to_string()), &approval("one"));
    app.record_answerable(RpcId("r2".to_string()), &approval("two"));
    let seqs: Vec<u64> = app.pending_approvals().iter().map(|p| p.seq).collect();
    assert!(seqs[0] < seqs[1]);
}

#[test]
fn the_echo_of_an_answer_changes_nothing() {
    let mut app = app();
    let before = app.toast_text().map(str::to_string);
    app.record_resolved(&MuxFrame::ApprovalResolved {
        session_id: id("a"),
        approval_id: ApprovalRequestId("gone".to_string()),
        outcome: ApprovalOutcome::AllowedOnce,
    });
    assert_eq!(app.toast_text().map(str::to_string), before);
    assert!(app.in_chat());
}

#[test]
fn an_approval_stays_and_takes_the_keys() {
    let mut app = app();
    app.record_answerable(RpcId("r1".to_string()), &approval("one"));
    let (buffer, focus) = (app.composer().buffer(), app.focus());
    for code in [KeyCode::Esc, KeyCode::Tab, KeyCode::Char('x'), KeyCode::Enter] {
        press(&mut app, code);
        assert!(matches!(app.mode(), Mode::Approval(_)));
    }
    assert_eq!((app.composer().buffer(), app.focus()), (buffer, focus));
    assert!(matches!(
        press(&mut app, KeyCode::Char('n')),
        Some(Action::AnswerApproval(ApprovalResponseOutcome::Rejected))
    ));
}

#[test]
fn toggles_lead_back() {
    let mut app = app();
    control(&mut app, 't');
    assert!(app.theme_picker().open);
    control(&mut app, 't');
    assert!(!app.theme_picker().open);
}

#[test]
fn the_drawer_leads_back_and_hints_once() {
    let mut app = app();
    app.set_terminal_width(60);
    app.set_focus(Focus::Chat);
    let hint = app.hint().clone();
    app.toggle_drawer();
    assert!(app.drawer_open());
    assert_eq!(app.focus(), Focus::Sidebar);
    app.toggle_drawer();
    assert_eq!(app.focus(), Focus::Chat);
    assert_eq!(app.hint(), &hint);
    app.toggle_drawer();
    assert_eq!(app.hint(), &hint);
}

#[test]
fn a_queue_item_of_another_is_left_alone() {
    let mut app = app();
    app.ingest(MuxFrame::SessionQueue {
        session_id: id("a"),
        items: vec![QueueItem {
            id: "q".to_string(),
            placement: QueuePlacement::Context,
            texts: vec![],
        }],
    });
    let mut key = KeyEvent::plain(KeyCode::Char('q'));
    key.alt = true;
    app.handle_key(key);
    assert!(app.queue_popup_open());
    assert!(!matches!(press(&mut app, KeyCode::Char('d')), Some(Action::QueueRemove)));
}

#[test]
fn nothing_but_quitting_works_on_a_tiny_screen() {
    let mut app = app();
    app.set_terminal_width(31);
    assert!(matches!(press(&mut app, KeyCode::Char('x')), Some(Action::Nothing)));
    assert_eq!(app.composer().buffer(), "");
    app.handle_paste("x");
    assert_eq!(app.composer().buffer(), "");
    assert!(matches!(press(&mut app, KeyCode::Char('q')), Some(Action::Quit)));
    assert!(matches!(control(&mut app, 'q'), Some(Action::Quit)));
}

#[test]
fn closing_the_list_asks_for_nothing() {
    let mut app = app();
    app.handle_paste("@");
    assert!(matches!(press(&mut app, KeyCode::Down), Some(Action::RequestCatalog)));
    assert!(matches!(press(&mut app, KeyCode::Esc), Some(Action::Nothing)));
    assert!(app.composer().popup().is_none());
}

#[test]
fn the_sidebar_changes_one_session_at_a_time() {
    let mut app = app();
    app.set_focus(Focus::Sidebar);
    assert!(matches!(press(&mut app, KeyCode::Char('f')), Some(Action::ForkSession(_))));
    assert_eq!(app.dispatch(Action::ForkSession(id("a"))).len(), 1);
    assert!(matches!(press(&mut app, KeyCode::Char('a')), Some(Action::Nothing)));
    press(&mut app, KeyCode::Char('r'));
    assert!(app.rename_editor().is_none());
}

#[test]
fn a_session_that_was_made_twice_is_listed_once() {
    let mut app = app();
    for _ in 0..2 {
        let made = CreatedSession { session_id: id("n"), agent_preset: None };
        app.on_session_create_done(Ok(made), 0);
    }
    let named = app.sessions().iter().filter(|s| s.session_id.0 == "n").count();
    assert_eq!(named, 1);
}

#[test]
fn the_selection_stays_inside_the_list() {
    let mut app = app();
    app.set_focus(Focus::Sidebar);
    press(&mut app, KeyCode::Char('G'));
    assert_eq!(app.sidebar().selected, 1);
    app.handle_host_frame(HostFrame::HostSessionRemoved { session_id: id("b") }, 0);
    assert_eq!(app.sidebar().selected, 0);
    let mut state = SidebarState { selected: 3 };
    for by in [-9, 9, 1, -1] {
        state.move_by(by, 5);
        assert!(state.selected < 5);
    }
}

#[test]
fn every_workspace_is_shown() {
    let mut app = app();
    let workspace = |name: &str, members: &[&str]| WorkspaceView {
        workspace_id: WorkspaceId(name.to_string()),
        title: name.to_string(),
        session_ids: members.iter().map(|m| id(m)).collect(),
    };
    app.handle_host_frame(
        HostFrame::HostWorkspaceChanged { workspace: workspace("w", &["a"]) },
        0,
    );
    app.handle_host_frame(
        HostFrame::HostWorkspaceOrderChanged { workspace_ids: vec![] },
        0,
    );
    let groups = app.sidebar_groups();
    assert!(groups.iter().any(|g| g.workspace == Some(0) && g.sessions == vec![0]));
    app.handle_host_frame(
        HostFrame::HostArchivedSessionsChanged { archived_session_ids: vec![id("a")] },
        0,
    );
    let groups = app.sidebar_groups();
    for group in &groups {
        assert_eq!(group.sessions.contains(&0), group.is_archived);
    }
}

#[test]
fn a_running_session_has_its_time() {
    let mut app = app();
    let grammars = warmup();
    app.ingest(frame(event(1, "turn/start", object(&[("turn", Json::Int(1))]))));
    app.ingest(frame(call(2)));
    app.handle_event(AppEvent::Tick, 100, 0);
    app.prepare_draw(100, 30, &grammars);
    assert_eq!(app.busy_since(), Some(100));
    assert_eq!(app.running_tools()[0].since, 100);
    app.handle_event(AppEvent::Tick, 900, 0);
    app.prepare_draw(100, 30, &grammars);
    assert_eq!(app.busy_since(), Some(100));
    assert_eq!(app.running_tools()[0].since, 100);
    app.ingest(frame(result(3, "done")));
    app.ingest(frame(event(
        4,
        "turn/end",
        object(&[("turn", Json::Int(1)), ("reason", object(&[("kind", text("completed"))]))]),
    )));
    app.prepare_draw(100, 30, &grammars);
    assert_eq!(app.busy_since(), None);
    assert!(app.running_tools().is_empty());
}

#[test]
fn the_trajectory_follows_its_end_too() {
    let mut app = app();
    app.set_view_mode(ViewMode::Trajectory);
    for n in 1..40 {
        app.ingest(frame(event(n, "turn/start", object(&[("turn", Json::Int(n))]))));
    }
    let grammars = warmup();
    app.prepare_draw(100, 20, &grammars);
    assert!(app.viewport().offset > 0);
    app.set_sidebar_collapsed(true);
    let p = app.prepare_draw(100, 20, &grammars).expect("panes");
    assert_eq!(p.sidebar.width, 1);
}

#[test]
fn a_viewer_starts_at_an_image() {
    let images = || {
        vec![
            ImageAttachmentRef { attachment_id: "x".to_string(), name: None },
            ImageAttachmentRef { attachment_id: "y".to_string(), name: None },
        ]
    };
    let mut viewer = ImageViewer::new(id("a"), images(), 1);
    assert_eq!(viewer.index, 1);
    let start = viewer.index;
    viewer.next();
    viewer.prev();
    assert_eq!(viewer.index, start);
}

fn image_block(attachment: &str) -> Json {
    object(&[
        ("type", text("image")),
        ("attachment", object(&[("attachmentId", text(attachment)), ("name", text("shot"))])),
    ])
}

fn picture(seq: i64, attachment: &str) -> SessionEvent {
    event(
        seq,
        "user/message",
        object(&[
            ("id", text(attachment)),
            ("content", Json::Array(vec![image_block(attachment)])),
            ("source", object(&[("kind", text("user"))])),
        ]),
    )
}

#[test]
fn a_viewer_starts_at_the_last_image_where_nothing_is_drawn() {
    let mut app = app();
    app.ingest(frame(picture(1, "x")));
    app.ingest(frame(picture(2, "y")));
    app.open_image_viewer();
    match app.mode() {
        Mode::Image(viewer) => assert_eq!(viewer.index, 1),
        _ => panic!("no viewer"),
    }
}

#[test]
fn an_image_lies_below_its_caption() {
    let mut setting = Setting::new();
    let mut bytes = std::io::Cursor::new(Vec::new());
    image::DynamicImage::new_rgb8(40, 40)
        .write_to(&mut bytes, image::ImageFormat::Png)
        .expect("written");
    setting.images.insert("x".to_string(), bytes.get_ref()).expect("decoded");
    let said = object(&[("type", text("text")), ("text", text("two\n\nparts"))]);
    let block = object(&[
        ("type", text("tool-result")),
        ("toolCallId", text("c")),
        ("content", Json::Array(vec![said, image_block("x")])),
    ]);
    let result = event(
        1,
        "tool/result",
        object(&[
            ("turn", Json::Int(1)),
            ("step", Json::Int(1)),
            (
                "message",
                object(&[
                    ("id", text("t")),
                    ("content", Json::Array(vec![block])),
                    ("source", object(&[("kind", text("tool")), ("callId", text("c"))])),
                ]),
            ),
        ]),
    );
    let store = store_of(vec![result]);
    let nodes = store.session(&id("a")).expect("session").nodes();
    let render = render_node_full(&nodes[0], false, &setting.context(40));
    let shown = |n: usize| render.lines[n].spans.iter().map(|s| s.content.as_str()).collect::<String>();
    assert_eq!(render.images.len(), 1);
    let image = &render.images[0];
    assert_eq!(shown(image.line_index - 1), "marker.image");
    for k in 0..image.rows as usize {
        assert_eq!(shown(image.line_index + k), "");
    }
    assert_eq!(image.line_index + image.rows as usize, render.lines.len());
}

#[test]
fn steps_go_round_or_stay() {
    assert_eq!(step_up(0), 0);
    assert_eq!(step_down(2, 3), 2);
    assert_eq!(step_on(2, 3), 0);
    assert_eq!(step_back(0, 3), 2);
    for at in 0..3 {
        assert_eq!(step_back(step_on(at, 3), 3), at);
    }
}

#[test]
fn what_stands_above_a_row_ends_there() {
    let over = Area { x: 5, y: 0, width: 40, height: 20 };
    let place = centred_above(over, 18, 20, 6);
    assert_eq!(place.y + place.height, 18);
    assert_eq!(place.x, 15);
}

// ---------------------------------------------------------------------------
// the editor and the settings
// ---------------------------------------------------------------------------

#[test]
fn an_editor_holds_what_is_typed() {
    let mut editor = Editor::new();
    editor.insert_text("héllo");
    assert_eq!(editor.buffer(), "héllo");
    editor.insert_char('!');
    editor.backspace();
    assert_eq!(editor.buffer(), "héllo");
    editor.move_home();
    editor.move_right();
    editor.move_end();
    editor.move_left();
    assert_eq!(editor.buffer(), "héllo");
    editor.delete();
    assert_eq!(editor.buffer(), "héll");
    assert_eq!(editor.take(), "héll");
    assert!(editor.is_empty());
}

fn settings(editing: Option<Editor>) -> SettingsState {
    let field = SettingsField {
        key: "n".to_string(),
        kind: FieldKind::Number,
        value: Json::Int(1),
        original: Json::Int(1),
    };
    let form = SettingsForm { fields: vec![field], cursor: 0, editing, revision: 1 };
    SettingsState {
        sections: vec![SettingsSection { ns: "x".to_string(), form: Some(form) }],
        selected: 0,
        focus: SettingsFocus::Form,
        loading: false,
        saving: false,
    }
}

#[test]
fn a_settings_editor_swallows_the_keys() {
    let mut state = settings(Some(Editor::on("12")));
    assert!(matches!(
        state.key(KeyEvent::plain(KeyCode::Char('q'))),
        SettingsReply::Input | SettingsReply::Inert
    ));
    assert!(matches!(
        state.key(KeyEvent::plain(KeyCode::Enter)),
        SettingsReply::NotANumber | SettingsReply::Input
    ));
}

#[test]
fn nothing_changed_is_nothing_to_save() {
    let state = settings(None);
    let form = state.selected_form().expect("form");
    assert!(!form.dirty());
    assert!(form.patch().is_empty());
}

// ---------------------------------------------------------------------------
// the store
// ---------------------------------------------------------------------------

#[test]
fn a_page_of_history_again_changes_nothing() {
    let page = || vec![(prompt(1, "one"), None), (prompt(2, "two"), None)];
    let mut store = SessionStore::new();
    store.ingest_history(&id("a"), page()).expect("page");
    let nodes = store.session(&id("a")).unwrap().nodes().len();
    store.ingest_history(&id("a"), page()).expect("page");
    let state = store.session(&id("a")).unwrap();
    assert_eq!(state.nodes().len(), nodes);
    assert_eq!(state.events().len(), 2);
}

#[test]
fn what_a_baseline_dropped_is_taken_again() {
    let mut store = store_of(vec![prompt(1, "one"), prompt(2, "two")]);
    let baseline =
        || MuxFrame::SessionSubscribed { session_id: id("a"), last_seq: 1 };
    store.ingest(baseline()).expect("frame");
    assert_eq!(store.session(&id("a")).unwrap().last_seq(), 1);
    store.ingest(baseline()).expect("frame");
    assert_eq!(store.session(&id("a")).unwrap().last_seq(), 1);
    store.ingest(frame(prompt(2, "two"))).expect("event");
    assert_eq!(store.session(&id("a")).unwrap().last_seq(), 2);
}

#[test]
fn the_newest_projection_stays_in_either_order() {
    let projection = |value: i64, seq: i64| MuxFrame::SessionProjection {
        session_id: id("a"),
        key: "title".to_string(),
        value: Json::Int(value),
        seq,
    };
    for order in [[(1, 5), (2, 9)], [(2, 9), (1, 5)]] {
        let mut store = SessionStore::new();
        for (value, seq) in order {
            store.ingest(projection(value, seq)).expect("frame");
        }
        let kept = store.session(&id("a")).unwrap().projection("title").unwrap();
        assert_eq!((&kept.value, kept.seq), (&Json::Int(2), 9));
    }
}

#[test]
fn a_prompt_closes_what_was_open() {
    let store = store_of(vec![
        event(1, "turn/start", object(&[("turn", Json::Int(1))])),
        call(2),
        prompt(3, "stop"),
    ]);
    let state = store.session(&id("a")).unwrap();
    assert!(state.nodes().iter().any(|node| matches!(
        &node.data,
        NodeData::Tool { result: Some(r), interrupted: true, .. } if r.is_error
    )));
    let settled = store_of(vec![
        event(1, "turn/start", object(&[("turn", Json::Int(1))])),
        call(2),
        result(3, "done"),
        prompt(4, "stop"),
    ]);
    let state = settled.session(&id("a")).unwrap();
    assert!(state.nodes().iter().any(|node| matches!(
        &node.data,
        NodeData::Tool { result: Some(_), interrupted: false, .. }
    )));
}

// ---------------------------------------------------------------------------
// rendering
// ---------------------------------------------------------------------------

#[test]
fn a_collapsed_tool_is_one_line_and_its_output_literal() {
    let setting = Setting::new();
    let store = store_of(vec![call(1), result(2, "# not a heading\n\n\n* nor a list")]);
    let node = &store.session(&id("a")).unwrap().nodes()[0];
    let ctx = setting.context(80);
    assert_eq!(render_node(node, true, &ctx).len(), 1);
    let open: Vec<String> = render_node(node, false, &ctx).iter().map(shown).collect();
    assert!(open.iter().any(|line| line.contains("# not a heading")));
    assert!(open.iter().any(|line| line.contains("* nor a list")));
    assert_eq!(tool_language("bash"), Some("bash"));
}

#[test]
fn a_node_that_grows_looks_different() {
    let short = store_of(vec![call(1), result(2, "a")]);
    let long = store_of(vec![call(1), result(2, "ab")]);
    let node = |store: &SessionStore| {
        rendered_signature(&store.session(&id("a")).unwrap().nodes()[0], false)
    };
    assert_ne!(node(&short), node(&long));
    let again = store_of(vec![call(1), result(2, "a")]);
    assert_eq!(node(&short), node(&again));
}

#[test]
fn an_empty_line_never_opens_a_message_nor_doubles() {
    let setting = Setting::new();
    let ctx = setting.context(80);
    let text = "\n\n# one\n\n\n\n## two";
    let out = render_markdown(text, Style::new(), &ctx, false);
    let blank: Vec<bool> = out.lines.iter().map(|line| line.is_blank()).collect();
    assert_eq!(blank, vec![false, true, false]);
    let folded = render_markdown(text, Style::new(), &ctx, true);
    let lines: Vec<String> = out.lines.iter().map(shown).collect();
    let same: Vec<String> = folded.lines.iter().map(shown).collect();
    assert_eq!(same, lines);
}

#[test]
fn a_folded_skill_list_is_its_header() {
    let setting = Setting::new();
    let ctx = setting.context(80);
    let text = "## Available skills (2)\n\n- one: first\n- two - second\n";
    let folded = render_markdown(text, Style::new(), &ctx, true);
    let open = render_markdown(text, Style::new(), &ctx, false);
    assert_eq!(folded.skill_header, Some(0));
    assert_eq!(folded.lines.len(), 1);
    assert_eq!(open.lines.len(), 3);
    assert!(shown(&open.lines[1]).contains("one"));
    assert!(shown(&open.lines[2]).contains("second"));
}

#[test]
fn rows_follow_the_nodes_and_stay() {
    let setting = Setting::new();
    let store = store_of(vec![prompt(1, "one"), prompt(2, "two")]);
    let mut cache = RowCache::new();
    assert!(cache.sync(&store, &id("a"), &setting.context(60)));
    cache.render_dirty(&store, &id("a"), &setting.context(60));
    let keys: Vec<String> = cache.lines().iter().map(|row| row.key().clone()).collect();
    let nodes: Vec<String> =
        store.session(&id("a")).unwrap().nodes().iter().map(|n| n.key.clone()).collect();
    assert_eq!(keys, nodes);
    assert!(cache.lines()[0].text().last().unwrap().is_blank());
    assert!(!cache.lines()[1].text().last().unwrap().is_blank());
    assert!(!cache.sync(&store, &id("a"), &setting.context(60)));
    assert!(cache.dirty().is_empty());
    assert!(cache.sync(&store, &id("a"), &setting.context(50)));
    assert_eq!(cache.lines().len(), 2);
}

#[test]
fn both_tables_name_their_keys() {
    let strings = Strings {
        en: vec![("a".to_string(), "A".to_string()), ("b".to_string(), "B".to_string())],
        zh: vec![("a".to_string(), "甲".to_string())],
    };
    assert_eq!(en_keys(&strings), vec!["a".to_string(), "b".to_string()]);
    let mixed = ["b", "a.b", "é", "a", "b", "ab", "a.b"];
    let table = mixed.iter().map(|k| (k.to_string(), String::new())).collect();
    let mixed = Strings { en: table, zh: vec![] };
    assert_eq!(en_keys(&mixed), vec!["a", "a.b", "ab", "b", "é"]);
    assert!(zh_keys(&mixed).is_empty());
    assert_eq!(zh_keys(&strings), vec!["a".to_string()]);
}
