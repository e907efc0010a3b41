//! Numbers, texts, themes, keys, ports and errors.

use dsh_tui::client::{
    answer, check_reply, check_status, downlink_url, env_port, into_result, method_url, request_id,
    Backoff, ClientError, DownlinkEvent, RpcResult,
};
use dsh_tui::app::settings::{described_section, field_kind, FieldKind};
use dsh_tui::gateway::{
    cli_port, gateway_args, parse_port, read_pid, resolve_port, route, spawn_step, start_plan, stop_step, stop_verdict, PortError, Route, SPAWN_POLL_TIMEOUT_MS, SpawnStep, StartPlan, StopStep, StopVerdict,
};
use dsh_tui::i18n::{tr, trf, Locale, Strings};
use dsh_tui::json::{json_string, Json};
use dsh_tui::key::{KeyCode, KeyEvent};
use dsh_tui::render::chat_view::{
    content_width, osc8_close, osc8_open, spinner_at, strip_link_prefix,
};
use dsh_tui::render::fit::{truncate_ellipsis, truncate_width, wrapped_height};
use dsh_tui::render::format::{
    format_clock, format_compact, format_elapsed, format_minutes, format_tokens, format_tokens_abs,
    percent_roughly,
};
use dsh_tui::render::style::{Color, Line};
use dsh_tui::render::wrap::wrap_line;
use dsh_tui::theme::detect::{
    classify, desktop_signal, detect_color_mode, env_signal, interface_style_signal,
    parse_osc11_response, ColorMode,
};
use dsh_tui::theme::keymap::{default_binding, parse_key_spec, Keymap};
use dsh_tui::theme::{
    parse_hex, terminal_supports_color, Theme, ThemeRegistry,
};
use dsh_tui::wire::{RpcError, RpcErrorKind, RpcId};

fn strings() -> Strings {
    Strings {
        en: vec![
            ("greeting".to_string(), "hello {0} and {1}".to_string()),
            ("gateway.none".to_string(), "no gateway".to_string()),
        ],
        zh: vec![("greeting".to_string(), "你好 {0}".to_string())],
    }
}

fn args(list: &[&str]) -> Vec<String> {
    list.iter().map(|s| s.to_string()).collect()
}

#[test]
fn token_counts_are_compact() {
    assert_eq!(format_tokens(999), "999");
    assert_eq!(format_tokens(1000), "1K");
    assert_eq!(format_tokens(1150), "1.1K");
    assert_eq!(format_tokens(1250), "1.2K");
    assert_eq!(format_tokens(138_000), "138K");
    assert_eq!(format_tokens(49_200_000), "49.2M");
    assert_eq!(format_tokens(-5), "-5");
    assert_eq!(format_tokens(999_999), "1000K");
}

#[test]
fn token_counts_are_grouped() {
    assert_eq!(format_tokens_abs(0), "0");
    assert_eq!(format_tokens_abs(1234), "1,234");
    assert_eq!(format_tokens_abs(1_234_567), "1,234,567");
}

#[test]
fn durations_in_their_forms() {
    assert_eq!(format_elapsed(9), "(9s)");
    assert_eq!(format_elapsed(123), "(2m 03s)");
    assert_eq!(format_minutes(61), "1m 01s");
    assert_eq!(format_compact(59), "59s");
    assert_eq!(format_compact(1893), "31m33s");
    assert_eq!(format_clock(86_399), "23:59:59");
    assert_eq!(format_clock(86_400), "00:00:00");
}

#[test]
fn texts_are_cut_by_columns() {
    assert_eq!(truncate_width("short", 10), "short");
    assert_eq!(truncate_width("a long text", 8), "a lon...");
    assert_eq!(truncate_ellipsis("a long text", 5), "a lo…");
    assert_eq!(truncate_ellipsis("你好吗", 4), "你…");
}

#[test]
fn texts_take_rows() {
    assert_eq!(wrapped_height("", 10), 1);
    assert_eq!(wrapped_height("one two three", 7), 2);
    assert_eq!(wrapped_height("abcdefghij", 4), 3);
    assert_eq!(wrapped_height("anything", 0), 1);
}

#[test]
fn a_line_is_wrapped_and_loses_nothing() {
    let rows = wrap_line(&Line::raw("abcdefgh"), 3);
    let texts: Vec<String> = rows
        .iter()
        .map(|row| row.spans.iter().map(|s| s.content.clone()).collect())
        .collect();
    assert_eq!(texts, vec!["abc", "def", "gh"]);
    let wide = wrap_line(&Line::raw("你好吗"), 4);
    assert_eq!(wide.len(), 2);
}

#[test]
fn links_are_told_apart() {
    assert_eq!(osc8_open("https://a.b"), "\x1b]8;;https://a.b\x1b\\");
    assert_eq!(osc8_close(), "\x1b]8;;\x1b\\");
    assert_eq!(strip_link_prefix("plain"), ("plain".to_string(), None));
}

#[test]
fn the_spinner_goes_round() {
    assert_eq!(spinner_at(0), "⠋");
    assert_eq!(spinner_at(9), "⠏");
    assert_eq!(spinner_at(10), "⠋");
    assert_eq!(content_width(80), 76);
    assert_eq!(content_width(3), 0);
}

#[test]
fn colors_are_read() {
    assert_eq!(parse_hex("#1f2E3d"), Ok(Color::Rgb(0x1f, 0x2e, 0x3d)));
    assert!(parse_hex("#12345").is_err());
    assert!(parse_hex("123456").is_err());
    assert!(parse_hex("#12345g").is_err());
}

const THEME: &str = r##"
name = "one"
accent = "#010203"
muted = "#222222"
error = "#333333"
warning = "#444444"
success = "#555555"
code = "#666666"
bg = "#777777"
text = "#888888"
panel_bg = "#999999"
border = "#aaaaaa"
user_bg = "#bbbbbb"
"##;

#[test]
fn a_theme_is_read_from_its_document() {
    let theme = Theme::from_toml_str(THEME).expect("a theme");
    assert_eq!(theme.name, "one");
    assert_eq!(theme.accent, Color::Rgb(1, 2, 3));
    assert_eq!(theme.user_bg, Some(Color::Rgb(0xbb, 0xbb, 0xbb)));
}

#[test]
fn a_document_that_is_no_theme_is_refused() {
    assert!(Theme::from_toml_str("name = ").is_err());
    let bad_color = THEME.replace("#333333", "red");
    match Theme::from_toml_str(&bad_color) {
        Err(error) => assert!(!error.message().is_empty()),
        Ok(_) => panic!("a word is no color"),
    }
    let refused = |text: &str| Theme::from_toml_str(text).map(|_| ()).map_err(|e| e.message());
    assert_eq!(
        refused("name = 1"),
        Err("invalid theme: bad theme TOML: TOML parse error at line 1, column 8\n  |\n\
             1 | name = 1\n  |        ^\ninvalid type: integer `1`, expected a string\n"
            .to_string())
    );
    assert_eq!(
        refused("accent = \"#000000\""),
        Err("invalid theme: bad theme TOML: TOML parse error at line 1, column 1\n  |\n\
             1 | accent = \"#000000\"\n  | ^\nmissing field `name`\n"
            .to_string())
    );
    let twice = refused("text = true\nname = 1\nborder = []\n").expect_err("refused");
    assert!(twice.ends_with("invalid type: sequence, expected a string\n"), "{twice}");
    let overflow = "9".repeat(60);
    let passed = refused(&format!("{THEME}shadow = {overflow}\n")).expect_err("refused");
    assert!(passed.ends_with("integer number overflowed\n"), "{passed}");
    let no_code = THEME.lines().filter(|l| !l.starts_with("code")).collect::<Vec<_>>().join("\n");
    let missing = refused(&no_code).expect_err("refused");
    assert!(missing.ends_with("\nmissing field `code`\n"), "{missing}");
    let unknown = format!("{THEME}shadow = \"#000000\"\n");
    assert!(Theme::from_toml_str(&unknown).is_ok());
}

#[test]
fn an_added_theme_takes_the_place_of_its_namesake() {
    let mut registry = ThemeRegistry::bundled(&vec![THEME.to_string()]).expect("themes");
    assert!(registry.find("two").is_none());
    let other = THEME.replace("#010203", "#0a0b0c");
    registry.load_documents(&vec![other, "broken =".to_string()]);
    assert_eq!(registry.themes.len(), 1);
    assert_eq!(
        registry.find("one").map(|t| t.accent),
        Some(Color::Rgb(10, 11, 12))
    );
}

#[test]
fn a_theme_is_fitted_to_fewer_colors() {
    let theme = Theme::from_toml_str(THEME).expect("a theme");
    let fitted = theme.snapped(|_, _, _| Color::Indexed(7));
    assert_eq!(fitted.accent, Color::Indexed(7));
    assert_eq!(fitted.name, "one");
}

#[test]
fn color_support_is_told_by_the_variable() {
    assert!(terminal_supports_color(Some("truecolor")));
    assert!(terminal_supports_color(Some("24bit")));
    assert!(!terminal_supports_color(Some("256")));
    assert!(!terminal_supports_color(None));
}

#[test]
fn the_background_tells_the_scheme() {
    assert_eq!(
        parse_osc11_response(b"\x1b]11;rgb:1f1f/1f1f/2828\x1b\\"),
        Some((0x1f, 0x1f, 0x28))
    );
    assert_eq!(parse_osc11_response(b"\x1b]11;#ffffff\x07"), Some((255, 255, 255)));
    assert_eq!(parse_osc11_response(b"nothing"), None);
    assert_eq!(classify((255, 255, 255)), ColorMode::Light);
    assert_eq!(classify((0x1f, 0x1f, 0x28)), ColorMode::Dark);
    assert_eq!(
        detect_color_mode(Some((0, 0, 0)), Some(ColorMode::Light), None),
        Some(ColorMode::Dark)
    );
    assert_eq!(detect_color_mode(None, None, Some(ColorMode::Light)), Some(ColorMode::Light));
    assert_eq!(detect_color_mode(None, None, None), None);
}

#[test]
fn the_environment_tells_the_scheme() {
    assert_eq!(env_signal(Some("Adwaita:dark"), None), Some(ColorMode::Dark));
    assert_eq!(env_signal(None, Some("0;231")), Some(ColorMode::Light));
    assert_eq!(env_signal(None, Some("15;0")), Some(ColorMode::Dark));
    assert_eq!(env_signal(None, None), None);
    assert_eq!(interface_style_signal("Dark"), Some(ColorMode::Dark));
    assert_eq!(interface_style_signal("Light"), None);
    assert_eq!(desktop_signal("Adwaita:dark"), Some(ColorMode::Dark));
    assert_eq!(desktop_signal("Adwaita"), None);
}

#[test]
fn keys_are_read_and_matched() {
    let spec = parse_key_spec("ctrl+q").expect("a key");
    let mut key = KeyEvent::plain(KeyCode::Char('q'));
    assert!(!spec.matches(key));
    key.control = true;
    assert!(spec.matches(key));
    key.alt = true;
    assert!(!spec.matches(key));
    assert!(parse_key_spec("ctrl+").is_none());
    assert!(parse_key_spec("hyper+q").is_none());
}

#[test]
fn a_broken_binding_falls_back() {
    let mut keymap = Keymap::default();
    let mut quit = KeyEvent::plain(KeyCode::Char('q'));
    quit.control = true;
    assert_eq!(default_binding("quit"), Some("ctrl+q"));
    assert!(keymap.matches("quit", quit));
    keymap.set("quit", "no such key".to_string());
    assert_eq!(keymap.configured("quit"), Some("no such key"));
    assert!(keymap.matches("quit", quit));
    keymap.set("quit", "alt+x".to_string());
    assert!(!keymap.matches("quit", quit));
    let mut other = KeyEvent::plain(KeyCode::Char('x'));
    other.alt = true;
    assert!(keymap.matches("quit", other));
    assert!(!keymap.matches("no-such-action", quit));
}

#[test]
fn texts_are_translated_and_filled_in() {
    let strings = strings();
    assert_eq!(trf(&strings, Locale::En, "greeting", &["a", "b"]), "hello a and b");
    assert_eq!(trf(&strings, Locale::Zh, "greeting", &["甲"]), "你好 甲");
    assert_eq!(tr(&strings, Locale::En, "missing.key"), "missing.key");
    assert_eq!(
        Locale::detect(None, Some("zh_CN.UTF-8"), Some("en_US"), None),
        Locale::Zh
    );
    assert_eq!(Locale::detect(Some("en"), Some("zh"), None, None), Locale::En);
    assert_eq!(Locale::detect(None, None, None, Some("C")), Locale::En);
    assert_eq!(Locale::parse("ZH-hans"), Some(Locale::Zh));
    assert_eq!(Locale::parse("fr"), None);
    assert_eq!(Locale::En.next(), Locale::Zh);
    assert_eq!(Locale::parse(Locale::Zh.code()), Some(Locale::Zh));
}

#[test]
fn the_port_is_resolved_in_order() {
    assert_eq!(resolve_port(&args(&["--port", "4000"]), Some("5000"), Some(6000)), Ok(4000));
    assert_eq!(resolve_port(&args(&["--port=4001"]), None, None), Ok(4001));
    assert_eq!(resolve_port(&args(&[]), Some("5000"), Some(6000)), Ok(5000));
    assert_eq!(resolve_port(&args(&[]), None, Some(6000)), Ok(6000));
    assert_eq!(resolve_port(&args(&[]), None, None), Ok(3080));
    assert_eq!(
        resolve_port(&args(&[]), None, Some(0)),
        Err(PortError::Invalid { value: "0".to_string(), source: "[gateway] port".to_string() })
    );
    assert_eq!(resolve_port(&args(&[]), Some("5000"), Some(0)), Ok(5000));
    assert_eq!(cli_port(&args(&["--port"])), Err(PortError::MissingValue));
    assert!(matches!(
        parse_port("70000", "--port"),
        Err(PortError::Invalid { value, .. }) if value == "70000"
    ));
}

#[test]
fn the_gateway_is_started_and_stopped() {
    assert_eq!(start_plan(true, false, true), StartPlan::Attach);
    assert_eq!(start_plan(false, true, false), StartPlan::Spawn);
    assert_eq!(start_plan(false, true, true), StartPlan::Refuse);
    assert_eq!(spawn_step(0, false, false), SpawnStep::Wait);
    assert_eq!(spawn_step(10, true, true), SpawnStep::Ready);
    assert_eq!(spawn_step(10, false, true), SpawnStep::Died);
    assert_eq!(spawn_step(SPAWN_POLL_TIMEOUT_MS, true, false), SpawnStep::TimedOut);
    assert_eq!(stop_verdict(true, true), StopVerdict::NotOurs);
    assert_eq!(StopVerdict::NotOurs.exit_code(), 1);
    assert_eq!(stop_verdict(false, true), StopVerdict::Stopped);
    let none = stop_verdict(false, false);
    assert_eq!(none.exit_code(), 0);
    assert_eq!(none.message(&strings(), Locale::En, 1), "no gateway");
    assert_eq!(read_pid(" 123\n"), Some(123));
    assert_eq!(read_pid("abc"), None);
    assert!(gateway_args(4321).contains(&"4321".to_string()));
}

#[test]
fn the_command_line_is_routed() {
    assert_eq!(route(&args(&["server", "stop"])), Route::ServerStop);
    assert_eq!(route(&args(&["--task", "x", "--light"])), Route::Light);
    assert_eq!(route(&args(&["server", "start"])), Route::Interactive);
}

#[test]
fn requests_and_replies_belong_together() {
    assert_eq!(method_url(3080, "session.list"), "http://127.0.0.1:3080/api/session.list");
    assert_eq!(downlink_url(3080, "/api/events.mux"), "ws://127.0.0.1:3080/api/events.mux");
    let id = request_id(12, 3);
    assert_eq!(id.0, "dsh-tui-12-3");
    assert!(check_reply(&id, &RpcId("dsh-tui-12-3".to_string())).is_ok());
    let error = check_reply(&id, &RpcId("other".to_string())).unwrap_err();
    assert_eq!(
        error.message(),
        "protocol error: rpcId mismatch: expected dsh-tui-12-3, got other"
    );
    let echoed = answer(&id, Json::Null);
    assert_eq!(echoed.rpc_id.0, id.0);
    assert!(echoed.result.ok);
}

#[test]
fn every_failure_of_a_request_has_its_words() {
    assert!(check_status(204).is_ok());
    assert_eq!(
        check_status(404).unwrap_err().message(),
        "gateway returned HTTP status 404"
    );
    assert_eq!(ClientError::Timeout.message(), "rpc timed out");
    assert_eq!(
        ClientError::Transport("refused".to_string()).message(),
        "transport error: refused"
    );
    let error = RpcError { kind: RpcErrorKind::AgentBusy, message: "later".to_string() };
    let failed = RpcResult { ok: false, value: None, error: Some(error) };
    assert_eq!(
        into_result(failed, "m").unwrap_err().message(),
        "rpc failed: agent-busy: later"
    );
    let bare = RpcResult { ok: false, value: None, error: None };
    assert_eq!(
        into_result(bare, "m").unwrap_err().message(),
        "protocol error: ok:false without error for m"
    );
    let empty = RpcResult { ok: true, value: None, error: None };
    assert_eq!(into_result(empty, "m").unwrap(), Json::Null);
}

#[test]
fn a_downlink_waits_longer_from_failure_to_failure() {
    let mut backoff = Backoff::new();
    let waits: Vec<Option<u64>> = (0..6).map(|_| backoff.after(DownlinkEvent::Closed)).collect();
    assert_eq!(
        waits,
        vec![Some(500), Some(1000), Some(2000), Some(4000), Some(5000), Some(5000)]
    );
    assert_eq!(backoff.after(DownlinkEvent::Opened), None);
    assert_eq!(backoff.after(DownlinkEvent::Closed), Some(500));
}

#[test]
fn json_is_written() {
    let value = Json::Object(vec![
        ("a".to_string(), Json::Array(vec![Json::Int(-1), Json::Bool(true), Json::Null])),
        ("b".to_string(), Json::Str("x\"y".to_string())),
    ]);
    assert_eq!(value.get_str("b"), Some("x\"y"));
    assert_eq!(value.get_i64("a"), None);
    assert_eq!(json_string(&value), r#"{"a":[-1,true,null],"b":"x\"y"}"#);
    let odd = Json::Str("\u{8}\t\n\u{c}\r\u{1f}\\/é\u{7f}".to_string());
    assert_eq!(json_string(&odd), "\"\\b\\t\\n\\f\\r\\u001f\\\\/é\u{7f}\"");
}

#[test]
fn the_environment_names_a_port() {
    assert!(matches!(env_port(None), Ok(None)));
    assert!(matches!(env_port(Some("0")), Ok(Some(0))));
    assert!(matches!(env_port(Some("65535")), Ok(Some(65535))));
    match env_port(Some("70000")) {
        Err(ClientError::Protocol(reason)) => assert_eq!(reason, "invalid DSH_PORT `70000`"),
        other => panic!("{other:?}"),
    }
}

#[test]
fn capitals_and_blanks_are_told_apart() {
    let mut keymap = Keymap::default();
    keymap.set("quit", "G".to_string());
    let mut capital = KeyEvent::plain(KeyCode::Char('G'));
    assert!(!keymap.matches("quit", capital));
    capital.shift = true;
    assert!(keymap.matches("quit", capital));
    assert!(!keymap.matches("quit", KeyEvent::plain(KeyCode::Char('g'))));
    assert_eq!(dsh_tui::text::trimmed("\u{3000} a b\t\n"), "a b");
}

#[test]
fn a_gateway_that_was_told_to_end_is_waited_for() {
    assert_eq!(stop_step(0, true), StopStep::Wait);
    assert_eq!(stop_step(4999, true), StopStep::Wait);
    assert_eq!(stop_step(5000, true), StopStep::Done);
    assert_eq!(stop_step(0, false), StopStep::Done);
}

#[test]
fn a_schema_decides_how_a_field_is_edited() {
    let schema = |kind: &str| {
        Json::Object(vec![("type".to_string(), Json::Str(kind.to_string()))])
    };
    assert!(matches!(field_kind(&schema("boolean")), FieldKind::Boolean));
    assert!(matches!(field_kind(&schema("string")), FieldKind::Text));
    assert!(matches!(field_kind(&schema("number")), FieldKind::Number));
    assert!(matches!(field_kind(&schema("integer")), FieldKind::Number));
    assert!(matches!(field_kind(&schema("array")), FieldKind::Raw));
    assert!(matches!(field_kind(&Json::Null), FieldKind::Raw));
    let listed = Json::Array(vec![Json::Str("a".to_string()), Json::Int(1), Json::Str("b".to_string())]);
    let choice = Json::Object(vec![
        ("enum".to_string(), listed),
        ("type".to_string(), Json::Str("string".to_string())),
    ]);
    match field_kind(&choice) {
        FieldKind::Choice(names) => assert_eq!(names, vec!["a", "b"]),
        other => panic!("{other:?}"),
    }
    let properties = Json::Object(vec![
        ("theme".to_string(), choice),
        ("wrap".to_string(), schema("boolean")),
    ]);
    let whole = Json::Object(vec![("properties".to_string(), properties)]);
    let value = Json::Object(vec![("wrap".to_string(), Json::Bool(true))]);
    let section = described_section("ui".to_string(), &whole, &value, 7);
    let form = section.form.expect("a form");
    assert_eq!((form.fields.len(), form.cursor, form.revision), (2, 0, 7));
    assert_eq!(form.fields[0].value, Json::Null);
    assert_eq!(form.fields[1].key, "wrap");
    assert_eq!(form.fields[1].value, Json::Bool(true));
    assert_eq!(form.fields[1].original, Json::Bool(true));
    assert!(described_section("ui".to_string(), &schema("object"), &value, 7).form.is_none());
}

#[test]
fn shares_are_those_of_floating_point() {
    let told = |part: i64, whole: i64| percent_roughly(part, whole).min(i64::MAX as u128) as i64;
    let by_floats = |part: i64, whole: i64| (part as f64 * 100.0 / whole as f64).floor() as i64;
    assert_eq!(told(1, 3), 33);
    assert_eq!(told(50_000, 200_000), 25);
    assert_eq!(told(i64::MAX, 1), i64::MAX);
    let edges = [1, 2, 3, 7, 99, 100, 101, 1 << 52, 1 << 53, (1 << 53) + 1, i64::MAX - 1, i64::MAX];
    for part in edges {
        for whole in edges {
            assert_eq!(told(part, whole), by_floats(part, whole), "{part} of {whole}");
        }
    }
    let mut seed: u64 = 0x9e37_79b9_7f4a_7c15;
    let mut draw = || {
        seed = seed.wrapping_mul(6364136223846793005).wrapping_add(1442695040888963407);
        (((seed >> 1) >> (seed >> 58)) as i64).max(1)
    };
    for _ in 0..20_000 {
        let (part, whole) = (draw(), draw());
        assert_eq!(told(part, whole), by_floats(part, whole), "{part} of {whole}");
    }
}
