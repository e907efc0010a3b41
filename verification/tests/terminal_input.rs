//! Input of the terminal: replies that leak into the keys, and the events that follow.

use dsh_tui::app::event::{
    is_answerable, of_frame, of_terminal, AppEvent, InputEvent, MouseEvent, MouseKind,
    OscReplyFilter,
};
use dsh_tui::key::{KeyCode, KeyEvent};
use dsh_tui::wire::{ApprovalRequestId, MuxFrame, RpcId, SessionId};

#[derive(Debug, PartialEq)]
enum Token {
    Key(KeyEvent),
    Mouse,
    Paste(String),
    Resize(u16, u16),
}

fn token(event: &InputEvent) -> Token {
    match event {
        InputEvent::Key(key) => Token::Key(*key),
        InputEvent::Mouse(_) => Token::Mouse,
        InputEvent::Paste(text) => Token::Paste(text.clone()),
        InputEvent::Resize(w, h) => Token::Resize(*w, *h),
    }
}

fn tokens(events: &[InputEvent]) -> Vec<Token> {
    events.iter().map(token).collect()
}

fn plain(c: char) -> InputEvent {
    let mut key = KeyEvent::plain(KeyCode::Char(c));
    key.shift = c.is_uppercase();
    InputEvent::Key(key)
}

fn alt(c: char) -> InputEvent {
    let mut key = KeyEvent::plain(KeyCode::Char(c));
    key.alt = true;
    InputEvent::Key(key)
}

fn control(c: char) -> InputEvent {
    let mut key = KeyEvent::plain(KeyCode::Char(c));
    key.control = true;
    InputEvent::Key(key)
}

/// The events of a reply with a body: Alt+`]`, the body, and Alt+`\` or Ctrl+G.
fn reply_events(payload: &str, st: bool) -> Vec<InputEvent> {
    let mut events = vec![alt(']')];
    events.extend(payload.chars().map(plain));
    events.push(if st { alt('\\') } else { control('g') });
    events
}

fn feed_all(filter: &mut OscReplyFilter, events: Vec<InputEvent>) -> Vec<InputEvent> {
    let mut out = Vec::new();
    for event in events {
        out.extend(filter.filter(event));
    }
    out
}

#[test]
fn swallows_a_st_terminated_reply() {
    let events = reply_events("11;rgb:1f1f/1f1f/2828", true);
    assert!(feed_all(&mut OscReplyFilter::new(), events).is_empty());
}

#[test]
fn swallows_a_bel_terminated_reply() {
    let events = reply_events("11;rgb:0f0f/0f0f/0f0f", false);
    assert!(feed_all(&mut OscReplyFilter::new(), events).is_empty());
}

#[test]
fn swallows_uppercase_hex_payload() {
    let events = reply_events("11;rgb:FFFF/0000/0000", true);
    assert!(feed_all(&mut OscReplyFilter::new(), events).is_empty());
}

#[test]
fn swallows_the_hash_form_reply() {
    let events = reply_events("11;#1f1f28", true);
    assert!(feed_all(&mut OscReplyFilter::new(), events).is_empty());
}

#[test]
fn ordinary_keys_pass_through() {
    let events = vec![plain('h'), plain('i')];
    let expected = tokens(&events);
    let out = feed_all(&mut OscReplyFilter::new(), events);
    assert_eq!(tokens(&out), expected);
}

#[test]
fn input_around_a_reply_flows_unchanged() {
    let mut filter = OscReplyFilter::new();
    let before = feed_all(&mut filter, vec![plain('x')]);
    assert_eq!(
        tokens(&before),
        vec![token(&plain('x'))]
    );
    assert!(feed_all(&mut filter, reply_events("11;rgb:1f1f/1f1f/2828", true)).is_empty());
    let after = feed_all(&mut filter, vec![plain('y')]);
    assert_eq!(
        tokens(&after),
        vec![token(&plain('y'))]
    );
}

#[test]
fn a_false_start_is_replayed_in_order() {
    let events = vec![alt(']'), plain('a'), plain('b'), alt('\\')];
    let expected = tokens(&events);
    let out = feed_all(&mut OscReplyFilter::new(), events);
    assert_eq!(tokens(&out), expected);
}

#[test]
fn an_invalid_payload_is_replayed() {
    let events = reply_events("11;rgb:zz/zz/zz", true);
    let expected = tokens(&events);
    let out = feed_all(&mut OscReplyFilter::new(), events);
    assert_eq!(tokens(&out), expected);
}

#[test]
fn a_non_key_event_breaks_a_partial_reply() {
    let mut filter = OscReplyFilter::new();
    let mut out = feed_all(&mut filter, vec![alt(']'), plain('1')]);
    assert!(out.is_empty());
    out = feed_all(&mut filter, vec![InputEvent::Resize(100, 50)]);
    assert_eq!(
        tokens(&out),
        vec![
            token(&alt(']')),
            token(&plain('1')),
            Token::Resize(100, 50),
        ]
    );
}

#[test]
fn an_oversized_run_breaks_and_replays() {
    let mut events = vec![alt(']')];
    events.extend((0..40).map(|_| plain('a')));
    events.push(alt('\\'));
    let expected = tokens(&events);
    let out = feed_all(&mut OscReplyFilter::new(), events);
    assert_eq!(tokens(&out), expected);
}

#[test]
fn a_second_alt_close_bracket_breaks_a_partial_reply() {
    let events = vec![alt(']'), alt(']'), plain('a'), alt('\\')];
    let expected = tokens(&events);
    let out = feed_all(&mut OscReplyFilter::new(), events);
    assert_eq!(tokens(&out), expected);
}

#[test]
fn a_paste_and_a_click_break_a_partial_reply() {
    let mut filter = OscReplyFilter::new();
    let click = MouseEvent { kind: MouseKind::Down, column: 3, row: 4 };
    let out = feed_all(
        &mut filter,
        vec![
            alt(']'),
            InputEvent::Mouse(click),
            alt(']'),
            InputEvent::Paste("pasted".to_string()),
        ],
    );
    assert_eq!(
        tokens(&out),
        vec![
            token(&alt(']')),
            Token::Mouse,
            token(&alt(']')),
            Token::Paste("pasted".to_string()),
        ]
    );
}

#[test]
fn only_requests_want_an_answer() {
    let request = MuxFrame::ApprovalRequested {
        session_id: SessionId("s".to_string()),
        approval_id: ApprovalRequestId("a".to_string()),
        tool_name: "bash".to_string(),
        call_id: None,
        reason: None,
    };
    assert!(is_answerable(&request));
    let subscribed = MuxFrame::SessionSubscribed {
        session_id: SessionId("s".to_string()),
        last_seq: 1,
    };
    assert!(!is_answerable(&subscribed));
    match of_frame(RpcId("r-1".to_string()), request) {
        AppEvent::Answerable { rpc_id, .. } => assert_eq!(rpc_id.0, "r-1"),
        other => panic!("{other:?}"),
    }
    assert!(matches!(
        of_frame(RpcId("r-2".to_string()), subscribed),
        AppEvent::Frame(_)
    ));
}

#[test]
fn terminal_events_become_events_of_the_application() {
    assert!(matches!(of_terminal(InputEvent::Resize(80, 24)), AppEvent::Resize(80, 24)));
    match of_terminal(InputEvent::Paste("x".to_string())) {
        AppEvent::Paste(text) => assert_eq!(text, "x"),
        other => panic!("{other:?}"),
    }
}

#[test]
fn a_body_that_is_not_ascii_is_no_reply() {
    let mut filter = OscReplyFilter::new();
    let mut events = reply_events("11;rgb:\u{131}1/00/00", true);
    assert_eq!(events.len(), 17);
    let last = events.pop().expect("closing key");
    assert!(feed_all(&mut filter, events).is_empty());
    let out = filter.filter(last);
    assert_eq!(tokens(&out), tokens(&reply_events("11;rgb:\u{131}1/00/00", true)));
}

#[test]
fn replies_alone_are_taken_out() {
    let mut filter = OscReplyFilter::new();
    let mut events = vec![plain('a')];
    events.extend(reply_events("11;rgb:0000/0000/0000", true));
    events.push(plain('b'));
    events.extend(reply_events("11;rgb:zz/00/00", false));
    events.push(InputEvent::Resize(8, 9));
    let mut kept = vec![plain('a'), plain('b')];
    kept.extend(reply_events("11;rgb:zz/00/00", false));
    kept.push(InputEvent::Resize(8, 9));
    assert_eq!(tokens(&feed_all(&mut filter, events)), tokens(&kept));
}
