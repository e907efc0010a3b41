//! What is drawn: the panes, the bars and the rows of the chat.

use dsh_tui::app::draw::{right_width, Screen};
use dsh_tui::app::layout::{
    centred_over, composer_height, dialog_area, docked_above, drawer_area, is_too_small, panes,
    sidebar_width, status_halves, too_small,
};
use dsh_tui::app::mouse::selected_text;
use dsh_tui::app::state::{App, Area, CellPos, Focus};
use dsh_tui::app::status::{sums_fit, Durations};
use dsh_tui::i18n::{Locale, Strings};
use dsh_tui::json::Json;
use dsh_tui::render::chat_view::{image_area, live_indicator, shows_scrollbar, visible_lines};
use dsh_tui::render::highlight::warmup;
use dsh_tui::render::inline_image::{capped_rows, ImageCache};
use dsh_tui::render::row_cache::RowCache;
use dsh_tui::render::sink::RenderContext;
use dsh_tui::render::style::{Line, Span};
use dsh_tui::render::trajectory::{counters_line, counts, first_row, ledger_rows, Role};
use dsh_tui::store::node::FoldState;
use dsh_tui::store::stats::session_stats;
use dsh_tui::store::SessionStore;
use dsh_tui::table::Table;
use dsh_tui::theme::{Theme, ThemeRegistry};
use dsh_tui::wire::{
    ModelSelection, MuxFrame, SessionEvent, SessionId, SessionSummary,
};

fn theme_text() -> String {
    "name = \"dsh-dark\"\naccent = \"#111111\"\nmuted = \"#222222\"\nerror = \"#333333\"\n\
     warning = \"#444444\"\nsuccess = \"#555555\"\ncode = \"#666666\"\nbg = \"#777777\"\n\
     text = \"#888888\"\n"
        .to_string()
}

fn strings() -> Strings {
    Strings {
        en: vec![
            ("status.seq".to_string(), "seq {0}".to_string()),
            ("status.focus".to_string(), "on {0}".to_string()),
            ("status.error".to_string(), "error: {0}".to_string()),
            ("status1.model".to_string(), "model {0}".to_string()),
            ("status1.effort".to_string(), "effort {0}".to_string()),
            ("header.session".to_string(), "session {0}".to_string()),
            ("header.jobs".to_string(), "{0} jobs".to_string()),
        ],
        zh: vec![],
    }
}

fn app() -> App {
    let light = theme_text().replace("dsh-dark", "dsh-light");
    let themes = ThemeRegistry::bundled(&vec![theme_text(), light]).expect("themes");
    App::new(strings(), themes)
}

fn id() -> SessionId {
    SessionId("s-1".to_string())
}

fn object(members: &[(&str, Json)]) -> Json {
    Json::Object(members.iter().map(|(k, v)| (k.to_string(), v.clone())).collect())
}

fn text(s: &str) -> Json {
    Json::Str(s.to_string())
}

fn frame(seq: i64, kind: &str, data: Json) -> MuxFrame {
    MuxFrame::SessionEvent {
        session_id: id(),
        event: SessionEvent {
            seq,
            kind: kind.to_string(),
            time: (seq as f64).to_bits(),
            data,
            surface_op: None,
            ignorable: None,
        },
        view: None,
    }
}

fn prompt(seq: i64, said: &str) -> MuxFrame {
    let block = object(&[("type", text("text")), ("text", text(said))]);
    frame(
        seq,
        "user/message",
        object(&[
            ("id", text(&format!("m-{seq}"))),
            ("content", Json::Array(vec![block])),
            ("source", object(&[("kind", text("user"))])),
        ]),
    )
}

fn attached(said: &[&str]) -> App {
    let mut app = app();
    let row = SessionSummary {
        session_id: id(),
        updated_at: 0,
        running: false,
        blank: false,
        parent_session_id: None,
        origin: None,
        cwd: None,
        agent_preset: None,
        projections: None,
    };
    app.attach(Some(id()), vec![row], vec![], vec![]);
    for (i, text) in said.iter().enumerate() {
        app.ingest(prompt(i as i64 + 1, text));
    }
    app
}

fn area(x: u16, y: u16, width: u16, height: u16) -> Area {
    Area { x, y, width, height }
}

#[test]
fn a_roomy_screen_has_all_its_panes() {
    let p = panes(100, 30, 30, 1, 0, 3);
    assert_eq!(p.sidebar, area(0, 0, 30, 30));
    assert_eq!(p.right.height, 30);
    assert_eq!(p.right.x + p.right.width, 100);
    let (x, w) = (p.right.x, p.right.width);
    assert_eq!(p.header, area(x, 0, w, 1));
    assert_eq!(p.chat, area(x, 1, w, 24));
    assert_eq!(p.queue, area(x, 25, w, 0));
    assert_eq!(p.composer, area(x, 25, w, 3));
    assert_eq!(p.meta, area(x, 28, w, 1));
    assert_eq!(p.status, area(x, 29, w, 1));
}

#[test]
fn a_narrow_screen_gives_everything_to_the_chat() {
    let p = panes(60, 20, 0, 0, 2, 3);
    assert_eq!(p.sidebar.width, 0);
    assert_eq!(p.right, area(0, 0, 60, 20));
    assert_eq!(p.chat, area(0, 0, 60, 13));
    assert_eq!(p.queue, area(0, 13, 60, 2));
}

#[test]
fn a_screen_without_room_keeps_its_panes_inside() {
    let p = panes(90, 4, 30, 1, 2, 8);
    for part in [p.sidebar, p.right, p.header, p.chat, p.queue, p.composer, p.meta, p.status] {
        assert!(part.x as u32 + part.width as u32 <= 90);
        assert!(part.y as u32 + part.height as u32 <= 4);
    }
}

#[test]
fn sizes_follow_the_tier() {
    assert_eq!(sidebar_width(79, false), 0);
    assert_eq!(sidebar_width(80, false), 30);
    assert_eq!(sidebar_width(80, true), 1);
    assert!(is_too_small(31));
    assert!(!is_too_small(32));
    assert_eq!(composer_height(1, 8), 2);
    assert_eq!(composer_height(100, 8), 8);
    assert_eq!(drawer_area(60, 20, false).width, 0);
    assert_eq!(drawer_area(60, 20, true), area(0, 0, 30, 20));
}

#[test]
fn dialogs_and_popups_have_their_places() {
    assert_eq!(centred_over(area(10, 10, 20, 10), 10, 4), area(15, 13, 10, 4));
    let docked = docked_above(area(0, 0, 40, 20), 18, 30, 5);
    assert_eq!(docked.y + docked.height, 18);
    let (place, short) = dialog_area(
        area(0, 0, 80, 20),
        &vec!["one".to_string(), "two".to_string()],
        &vec!["one".to_string()],
    );
    assert!(!short);
    assert!(place.width <= 64 && place.height >= 2);
    let (left, right) = status_halves(area(5, 9, 40, 1), 10);
    assert_eq!(left.width + right.width, 40);
    assert_eq!(right.width, 10);
    let middle = too_small(30, 11, 10, 20);
    assert!(middle.y < 11 && middle.hint_x < 30);
}

#[test]
fn the_screen_shows_what_the_width_allows() {
    let mut app = attached(&["hello"]);
    assert_eq!(app.screen(20), Screen::TooSmall);
    assert_eq!(app.screen(80), Screen::Chat);
    let grammars = warmup();
    assert!(app.prepare_draw(20, 10, &grammars).is_none());
    let p = app.prepare_draw(100, 30, &grammars).expect("panes");
    assert_eq!(app.chat_area(), p.chat);
    assert_eq!(app.composer_area(), p.composer);
    assert!(app.row_cache().line_total() > 0);
    app.set_focus(Focus::Composer);
    assert!(app.cursor_position().is_some());
    app.set_focus(Focus::Chat);
    assert!(app.cursor_position().is_none());
}

#[test]
fn a_long_chat_shows_its_end() {
    let said: Vec<String> = (0..60).map(|n| format!("line {n}")).collect();
    let texts: Vec<&str> = said.iter().map(|s| s.as_str()).collect();
    let mut app = attached(&texts);
    let grammars = warmup();
    app.prepare_draw(100, 20, &grammars);
    let view = app.viewport();
    assert!(view.follow);
    assert_eq!(
        view.offset,
        app.row_cache().line_total() - view.viewport_height as usize
    );
    assert!(shows_scrollbar(app.row_cache().line_total(), view.viewport_height));
    app.scroll(-5);
    assert_eq!(app.viewport().offset, view.offset - 5);
    app.scroll(5);
    assert_eq!(app.viewport().offset, view.offset);
    let shown = visible_lines(app.row_cache(), view.offset, view.viewport_height + 1);
    assert_eq!(shown.len(), view.viewport_height as usize);
    assert!(shown.windows(2).all(|pair| pair[0].y + 1 == pair[1].y));
    let last = shown.last().unwrap();
    assert_eq!(last.row, app.row_cache().lines().len() - 1);
}

#[test]
fn a_selection_reads_the_same_both_ways() {
    let mut app = attached(&["hello world"]);
    let grammars = warmup();
    app.prepare_draw(100, 20, &grammars);
    let from = CellPos { row: 0, col: 0 };
    let to = CellPos { row: 2, col: 50 };
    let there = selected_text(app.row_cache(), 0, from, to);
    let back = selected_text(app.row_cache(), 0, to, from);
    assert_eq!(there, back);
    assert!(there.contains("hello world"));
}

fn joined(pieces: &[dsh_tui::render::trajectory::Piece]) -> String {
    pieces.iter().map(|p| p.text.as_str()).collect()
}

fn unmeasured() -> Durations {
    Durations { llm: String::new(), tool: String::new(), first_token: String::new(), speed: None }
}

#[test]
fn the_status_line_tells_the_state() {
    let mut app = attached(&["hello"]);
    app.set_focus(Focus::Chat);
    assert!(app.tallies_fit());
    let (left, right) = app.status_line(&unmeasured());
    assert_eq!(left[0].text, "seq 1");
    assert!(joined(&left).contains("on "));
    assert!(right_width(&right) > 0);
    app.set_last_error(Some("boom".to_string()));
    let (left, _) = app.status_line(&unmeasured());
    let told = left.iter().find(|p| p.role == Role::Error).expect("error");
    assert_eq!(told.text, "error: boom");
}

#[test]
fn metrics_appear_where_there_are_some() {
    let app = attached(&["hello"]);
    let stats = session_stats(app.active_state().expect("state"));
    assert!(sums_fit(&stats));
    let durations = Durations {
        llm: "1.0s".to_string(),
        tool: "2.0s".to_string(),
        first_token: "0.5s".to_string(),
        speed: None,
    };
    let (left, _) = app.status_line(&durations);
    assert!(!joined(&left).contains("1.0s"));
    assert!(app.usage_fits());
    assert!(app.status_meta_line().is_none());
}

#[test]
fn the_meta_line_names_the_model() {
    let mut app = attached(&[]);
    app.set_session_model(Some(ModelSelection {
        model: "m".to_string(),
        reasoning_effort: Some("high".to_string()),
    }));
    let line = app.status_meta_line().expect("line");
    assert_eq!(line.text, "model m | effort high");
}

#[test]
fn the_header_names_the_session_and_its_jobs() {
    let app = attached(&[]);
    assert_eq!(app.header_line(0), Some("session s-1".to_string()));
    assert_eq!(app.header_line(2), Some("session s-1 | 2 jobs".to_string()));
    assert_eq!(dsh_tui::app::state::App::header_line(&self::app(), 0), None);
}

#[test]
fn a_running_header_turns() {
    let header = Line::from_span(Span::raw("run"));
    let (column, spinner, elapsed) = live_indicator(&header, 40, 0, 65).expect("indicator");
    assert!(column >= 3);
    assert!(!spinner.is_empty() && elapsed.contains("1"));
    assert!(live_indicator(&header, 2, 0, 65).is_none());
}

#[test]
fn images_keep_to_their_rows() {
    assert_eq!(capped_rows(100), 12);
    assert_eq!(capped_rows(3), 3);
    assert!(image_area(10, 4, 20, 0, 10).is_none());
    assert_eq!(image_area(2, 4, 0, 0, 10), Some((2, 4)));
}

#[test]
fn the_ledger_lists_the_turns() {
    let mut store = SessionStore::new();
    store.ingest(frame(1, "turn/start", object(&[("turn", Json::Int(1))]))).expect("frame");
    store.ingest(prompt(2, "hello")).expect("frame");
    let rows = ledger_rows(&store, &id());
    assert!(!rows.is_empty());
    let c = counts(&store, &id());
    assert_eq!(c.turns, 1);
    assert_eq!(c.calls, 0);
    assert!(!counters_line(&strings(), Locale::En, &c).is_empty());
    assert_eq!(first_row(100, 10, 7), 6);
    assert_eq!(first_row(2, 10, 7), 2);
    assert_eq!(first_row(100, 10, 2), 9);
}

#[test]
fn the_rows_of_the_chat_are_kept_until_they_change() {
    let theme = Theme::from_toml_str(&theme_text()).expect("theme");
    let strings = strings();
    let images = ImageCache::default();
    let folds: Table<bool> = Table::new();
    let grammars = warmup();
    let ctx = RenderContext {
        width: 40,
        theme: &theme,
        strings: &strings,
        locale: Locale::En,
        images: &images,
        skill_folds: &folds,
        grammars: &grammars,
    };
    let mut store = SessionStore::new();
    store.ingest(prompt(1, "hello")).expect("frame");
    let mut cache = RowCache::new();
    cache.sync(&store, &id(), &ctx);
    cache.render_dirty(&store, &id(), &ctx);
    let total = cache.line_total();
    assert!(total > 0);
    assert_eq!(cache.lines().len(), 1);
    assert_eq!(cache.line_to_row(0), (0, 0));
    cache.sync(&store, &id(), &ctx);
    assert!(cache.dirty().is_empty());
    let key = cache.lines()[0].key().clone();
    store.set_fold(&id(), &key, FoldState::collapsed());
    cache.invalidate_all();
    cache.sync(&store, &id(), &ctx);
    cache.render_dirty(&store, &id(), &ctx);
    assert_eq!(cache.lines()[0].key(), &key);
}
