//! The events of sessions, and the nodes of the chat.

use dsh_tui::json::Json;
use dsh_tui::store::event_data::StreamChunk;
use dsh_tui::store::fold::Fold;
use dsh_tui::store::node::{AssistantBlock, FoldState, NodeData};
use dsh_tui::store::stats::{session_stats, tokens_fit};
use dsh_tui::store::{SessionStore, StoreError};
use dsh_tui::wire::{
    MuxFrame, QueueItem, QueuePlacement, RpcError, RpcErrorKind, SessionEvent, SessionId,
};

fn id() -> SessionId {
    SessionId("s-1".to_string())
}

fn object(members: &[(&str, Json)]) -> Json {
    Json::Object(
        members
            .iter()
            .map(|(k, v)| (k.to_string(), v.clone()))
            .collect(),
    )
}

fn text(s: &str) -> Json {
    Json::Str(s.to_string())
}

fn content(s: &str) -> Json {
    Json::Array(vec![object(&[("type", text("text")), ("text", text(s))])])
}

fn event(seq: i64, kind: &str, data: Json) -> SessionEvent {
    SessionEvent {
        seq,
        kind: kind.to_string(),
        time: (1_700_000_000.0 + seq as f64).to_bits(),
        data,
        surface_op: None,
        ignorable: None,
    }
}

fn frame(event: SessionEvent) -> MuxFrame {
    MuxFrame::SessionEvent { session_id: id(), event, view: None }
}

fn prompt(seq: i64, message: &str) -> SessionEvent {
    event(
        seq,
        "user/message",
        object(&[
            ("id", text(&format!("m-{seq}"))),
            ("content", content(message)),
            ("source", object(&[("kind", text("user"))])),
        ]),
    )
}

fn turn_start(seq: i64, turn: i64) -> SessionEvent {
    event(seq, "turn/start", object(&[("turn", Json::Int(turn))]))
}

fn turn_end(seq: i64, turn: i64, reason: Json) -> SessionEvent {
    event(seq, "turn/end", object(&[("turn", Json::Int(turn)), ("reason", reason)]))
}

fn chunk(seq: i64, delta: &str) -> SessionEvent {
    event(
        seq,
        "assistant/chunk",
        object(&[
            ("turn", Json::Int(1)),
            ("step", Json::Int(1)),
            (
                "chunk",
                object(&[
                    ("type", text("text-delta")),
                    ("index", Json::Int(0)),
                    ("text", text(delta)),
                ]),
            ),
        ]),
    )
}

fn message(seq: i64, said: &str) -> SessionEvent {
    event(
        seq,
        "assistant/message",
        object(&[
            ("turn", Json::Int(1)),
            ("step", Json::Int(1)),
            (
                "message",
                object(&[
                    ("id", text("a-1")),
                    ("content", content(said)),
                    ("source", object(&[("kind", text("model"))])),
                ]),
            ),
            (
                "usage",
                object(&[("inputTokens", Json::Int(100)), ("outputTokens", Json::Int(7))]),
            ),
        ]),
    )
}

fn call(seq: i64) -> SessionEvent {
    event(
        seq,
        "tool/call",
        object(&[
            ("turn", Json::Int(1)),
            ("step", Json::Int(1)),
            ("callId", text("c-1")),
            ("name", text("bash")),
            ("arguments", text("{\"command\":\"ls\"}")),
        ]),
    )
}

fn result(seq: i64) -> SessionEvent {
    event(
        seq,
        "tool/result",
        object(&[
            ("turn", Json::Int(1)),
            ("step", Json::Int(1)),
            (
                "message",
                object(&[
                    ("id", text("t-1")),
                    (
                        "content",
                        Json::Array(vec![object(&[
                            ("type", text("tool-result")),
                            ("toolCallId", text("c-1")),
                            ("content", content("file")),
                        ])]),
                    ),
                    (
                        "source",
                        object(&[("kind", text("tool")), ("callId", text("c-1"))]),
                    ),
                ]),
            ),
        ]),
    )
}

fn feed(store: &mut SessionStore, events: Vec<SessionEvent>) {
    for event in events {
        assert!(store.ingest(frame(event)).is_ok());
    }
}

fn said(store: &SessionStore) -> Vec<String> {
    store
        .session(&id())
        .expect("a session")
        .nodes()
        .iter()
        .filter_map(|node| match &node.data {
            NodeData::Assistant { blocks, .. } => Some(
                blocks
                    .iter()
                    .map(|b| match b {
                        AssistantBlock::Text { text } => text.clone(),
                        _ => String::new(),
                    })
                    .collect(),
            ),
            _ => None,
        })
        .collect()
}

#[test]
fn a_turn_streams_and_settles() {
    let mut store = SessionStore::new();
    feed(&mut store, vec![prompt(1, "hi"), turn_start(2, 1), chunk(3, "Hel"), chunk(4, "lo")]);
    assert_eq!(said(&store), vec!["Hello"]);
    assert!(store.session(&id()).unwrap().has_unsettled_tail());
    feed(
        &mut store,
        vec![message(5, "Hello there"), turn_end(6, 1, text("completed"))],
    );
    assert_eq!(said(&store), vec!["Hello there"]);
    assert!(!store.session(&id()).unwrap().has_unsettled_tail());
    assert_eq!(store.session(&id()).unwrap().last_seq(), 6);
}

#[test]
fn an_event_that_came_before_is_ignored() {
    let mut store = SessionStore::new();
    feed(&mut store, vec![prompt(1, "hi"), chunk(2, "a"), chunk(2, "b"), chunk(1, "c")]);
    assert_eq!(said(&store), vec!["a"]);
}

#[test]
fn a_tool_call_gets_its_result() {
    let mut store = SessionStore::new();
    feed(&mut store, vec![prompt(1, "hi"), turn_start(2, 1), call(3)]);
    let state = store.session(&id()).unwrap();
    assert!(state.nodes().iter().any(|n| matches!(
        &n.data,
        NodeData::Tool { call: Some(_), result: None, interrupted: false }
    )));
    assert!(state.has_unsettled_tail());
    feed(&mut store, vec![result(4)]);
    let state = store.session(&id()).unwrap();
    assert_eq!(
        state
            .nodes()
            .iter()
            .filter(|n| matches!(&n.data, NodeData::Tool { .. }))
            .count(),
        1
    );
    assert!(!state.has_unsettled_tail());
}

#[test]
fn a_failed_turn_leaves_its_error() {
    let mut store = SessionStore::new();
    let reason = object(&[
        ("kind", text("error")),
        ("error", object(&[("message", text("overloaded")), ("code", text("busy"))])),
    ]);
    feed(&mut store, vec![prompt(1, "hi"), turn_start(2, 1), turn_end(3, 1, reason)]);
    let last = store.session(&id()).unwrap().nodes().last().unwrap();
    assert!(matches!(&last.data, NodeData::TurnError { message, .. } if message == "overloaded"));
}

#[test]
fn a_malformed_event_is_refused() {
    let mut store = SessionStore::new();
    let bad = event(1, "turn/start", object(&[]));
    match store.ingest(frame(bad)) {
        Err(StoreError::InvalidEventData { seq, event_type, .. }) => {
            assert_eq!(seq, 1);
            assert_eq!(event_type, "turn/start");
        }
        Ok(()) => panic!("a turn has a number"),
    }
}

#[test]
fn unknown_events_are_shown_unless_they_may_be_ignored() {
    let mut store = SessionStore::new();
    let shown = event(1, "future/thing", object(&[]));
    let mut ignored = event(2, "future/other", object(&[]));
    ignored.ignorable = Some(true);
    feed(&mut store, vec![shown, ignored]);
    let nodes = store.session(&id()).unwrap().nodes();
    assert_eq!(nodes.len(), 1);
    assert!(matches!(&nodes[0].data, NodeData::Unknown { event_type, .. } if event_type == "future/thing"));
}

#[test]
fn the_window_keeps_the_newest_events() {
    let mut store = SessionStore::with_max_buffered_events(3);
    feed(&mut store, (1..=5).map(|n| prompt(n, "x")).collect());
    let state = store.session(&id()).unwrap();
    assert_eq!(state.events().len(), 3);
    assert_eq!(state.oldest_seq(), 3);
    assert!(state.truncated());
}

#[test]
fn a_page_of_history_is_appended() {
    let mut store = SessionStore::new();
    let page = vec![(prompt(1, "hi"), None), (message(2, "there"), None)];
    assert!(store.ingest_history(&id(), page).is_ok());
    assert_eq!(said(&store), vec!["there"]);
    let again = vec![(prompt(1, "hi"), None), (message(2, "there"), None)];
    assert!(store.ingest_history(&id(), again).is_ok());
    assert_eq!(store.session(&id()).unwrap().events().len(), 2);
}

#[test]
fn a_subscription_takes_back_what_was_not_durable() {
    let mut store = SessionStore::new();
    feed(&mut store, vec![prompt(1, "hi"), chunk(2, "a"), chunk(3, "b")]);
    let subscribed = MuxFrame::SessionSubscribed { session_id: id(), last_seq: 1 };
    assert!(store.ingest(subscribed).is_ok());
    assert!(said(&store).is_empty());
    assert_eq!(store.session(&id()).unwrap().last_seq(), 1);
}

#[test]
fn queues_projections_and_stream_errors_are_kept() {
    let mut store = SessionStore::new();
    let item = QueueItem {
        id: "q-1".to_string(),
        placement: QueuePlacement::Queued,
        texts: vec!["later".to_string()],
    };
    assert!(store
        .ingest(MuxFrame::SessionQueue { session_id: id(), items: vec![item] })
        .is_ok());
    assert_eq!(store.session(&id()).unwrap().queue().unwrap().items.len(), 1);
    assert!(store
        .ingest(MuxFrame::SessionProjection {
            session_id: id(),
            key: "title".to_string(),
            value: text("T"),
            seq: 4,
        })
        .is_ok());
    assert!(store.session(&id()).unwrap().projection("title").is_some());
    let error = RpcError { kind: RpcErrorKind::AgentBusy, message: "no".to_string() };
    assert!(store.ingest(MuxFrame::StreamError { error }).is_ok());
    assert_eq!(store.last_stream_error().map(String::as_str), Some("agent-busy: no"));
}

#[test]
fn a_fold_that_was_chosen_stays() {
    let mut store = SessionStore::new();
    feed(&mut store, vec![prompt(1, "hi"), call(2), result(3)]);
    let key = store.session(&id()).unwrap().nodes().last().unwrap().key.clone();
    let now = store.fold_state(&id(), &key);
    let other = FoldState { collapsed: !now.collapsed };
    store.set_fold(&id(), &key, other);
    assert_eq!(store.fold_state(&id(), &key).collapsed, other.collapsed);
}

#[test]
fn the_metrics_count_what_is_there() {
    let mut store = SessionStore::new();
    feed(
        &mut store,
        vec![
            prompt(1, "hi"),
            turn_start(2, 1),
            chunk(3, "a"),
            message(4, "a"),
            turn_end(5, 1, text("completed")),
        ],
    );
    let state = store.session(&id()).unwrap();
    assert!(tokens_fit(state));
    let stats = session_stats(state);
    assert_eq!((stats.turns, stats.steps), (1, 1));
    assert_eq!((stats.input_tokens, stats.output_tokens), (100, 7));
    let bits = |seq: i64| (1_700_000_000.0 + seq as f64).to_bits();
    assert_eq!(stats.llm_spans, vec![(bits(2), bits(5))]);
    assert_eq!(stats.first_token_spans, vec![(bits(2), bits(3))]);
    assert!(stats.tool_spans.is_empty());
    assert_eq!(stats.context_window, None);
}

fn tool_nodes(store: &SessionStore) -> Vec<(bool, bool, bool)> {
    store
        .session(&id())
        .expect("a session")
        .nodes()
        .iter()
        .filter_map(|node| match &node.data {
            NodeData::Tool { call, result, interrupted } => Some((
                call.as_ref().is_some_and(|c| c.name == "bash"),
                result.as_ref().is_some_and(|r| {
                    r.call.as_ref().is_some_and(|c| c.name == "bash") && !r.content.is_empty()
                }),
                *interrupted,
            )),
            _ => None,
        })
        .collect()
}

#[test]
fn a_call_and_its_result_come_in_either_order() {
    let mut store = SessionStore::new();
    feed(&mut store, vec![prompt(1, "hi"), call(2), result(3)]);
    assert_eq!(tool_nodes(&store), vec![(true, true, false)]);
    let mut store = SessionStore::new();
    feed(&mut store, vec![prompt(1, "hi"), result(2), call(3)]);
    assert_eq!(tool_nodes(&store), vec![(true, true, false)]);
    assert!(!store.session(&id()).unwrap().has_unsettled_tail());
}

#[test]
fn a_late_result_settles_an_interrupted_call() {
    let mut store = SessionStore::new();
    feed(
        &mut store,
        vec![prompt(1, "hi"), turn_start(2, 1), call(3), turn_end(4, 1, text("completed"))],
    );
    assert_eq!(tool_nodes(&store), vec![(true, false, true)]);
    feed(&mut store, vec![result(5)]);
    assert_eq!(tool_nodes(&store), vec![(true, true, false)]);
}

fn chunk_at(seq: i64, index: i64, delta: &str) -> SessionEvent {
    event(
        seq,
        "assistant/chunk",
        object(&[
            ("turn", Json::Int(1)),
            ("step", Json::Int(1)),
            (
                "chunk",
                object(&[
                    ("type", text("text-delta")),
                    ("index", Json::Int(index)),
                    ("text", text(delta)),
                ]),
            ),
        ]),
    )
}

#[test]
fn deltas_concatenate_and_stray_ones_are_dropped() {
    let mut store = SessionStore::new();
    feed(
        &mut store,
        vec![
            chunk_at(1, 3, "wor"),
            chunk_at(2, -1, "lost"),
            chunk_at(3, 1, "Hello "),
            chunk_at(4, 1024, "lost"),
            chunk_at(5, 3, "ld"),
        ],
    );
    assert_eq!(said(&store), vec!["Hello world"]);
    let nodes = store.session(&id()).unwrap().nodes();
    match &nodes[0].data {
        NodeData::Assistant { blocks, .. } => assert_eq!(blocks.len(), 2),
        other => panic!("{other:?}"),
    }
}

#[test]
fn notices_stand_open_and_tools_are_folded() {
    let mut store = SessionStore::new();
    let reason = object(&[
        ("kind", text("error")),
        ("error", object(&[("message", text("overloaded")), ("code", text("busy"))])),
    ]);
    feed(
        &mut store,
        vec![
            turn_start(1, 1),
            call(2),
            result(3),
            turn_end(4, 1, reason),
            turn_start(5, 2),
            turn_end(6, 2, object(&[("kind", text("max-tokens"))])),
        ],
    );
    let mut notices = 0;
    for node in store.session(&id()).unwrap().nodes() {
        match &node.data {
            NodeData::TurnError { .. } | NodeData::TurnMaxTokens { .. } => {
                notices += 1;
                assert!(!FoldState::default_for(node).collapsed);
            }
            NodeData::Tool { .. } => assert!(FoldState::default_for(node).collapsed),
            _ => {}
        }
    }
    assert_eq!(notices, 2);
}

fn refused(kind: &str, data: Json) -> String {
    let mut store = SessionStore::new();
    match store.ingest(frame(event(1, kind, data))) {
        Err(StoreError::InvalidEventData { detail, .. }) => detail,
        Ok(()) => panic!("accepted"),
    }
}

fn refused_chunk(chunk: Json) -> String {
    refused(
        "assistant/chunk",
        object(&[("turn", Json::Int(1)), ("step", Json::Int(1)), ("chunk", chunk)]),
    )
}

fn list(items: Vec<Json>) -> Json {
    Json::Array(items)
}

#[test]
fn a_malformed_message_is_told_of() {
    let source = || object(&[("kind", text("user"))]);
    assert_eq!(
        refused("user/message", object(&[("content", content("hi")), ("source", source())])),
        "missing field `id`"
    );
    assert_eq!(
        refused("user/message", object(&[("id", Json::Int(3)), ("content", Json::Null)])),
        "invalid type: integer `3`, expected a string"
    );
    assert_eq!(
        refused("user/message", object(&[("content", Json::Null), ("id", Json::Int(3))])),
        "invalid type: null, expected a sequence"
    );
    assert_eq!(
        refused("user/message", text("hi \"you\"")),
        "invalid type: string \"hi \\\"you\\\"\", expected struct UserMessage"
    );
    let block = list(vec![object(&[("type", text("text"))])]);
    assert_eq!(
        refused("user/message", object(&[("content", block.clone()), ("id", text("m"))])),
        "invalid session event data: missing or non-string `text`"
    );
    let nested = list(vec![object(&[
        ("type", text("tool-result")),
        ("toolCallId", text("c")),
        ("content", block),
    ])]);
    assert_eq!(
        refused("user/message", object(&[("content", nested), ("id", text("m"))])),
        "invalid session event data: invalid session event data: missing or non-string `text`"
    );
    assert_eq!(
        refused("user/message", list(vec![text("m"), content("hi")])),
        "invalid length 2, expected struct UserMessage with 3 elements"
    );
    assert_eq!(
        refused("user/message", list(vec![text("m"), content("hi"), source(), Json::Null])),
        "invalid length 4, expected fewer elements in array"
    );
    let mut store = SessionStore::new();
    feed(&mut store, vec![event(1, "user/message", list(vec![text("m"), content("hi"), source()]))]);
    assert_eq!(store.session(&id()).unwrap().nodes()[0].key, "m");
}

#[test]
fn a_malformed_chunk_is_told_of() {
    assert_eq!(refused_chunk(object(&[])), "missing field `type`");
    assert_eq!(
        refused_chunk(Json::Bool(true)),
        "invalid type: boolean `true`, expected internally tagged enum StreamChunk"
    );
    assert_eq!(
        refused_chunk(object(&[("type", Json::Int(1))])),
        "invalid type: integer `1`, expected variant identifier"
    );
    assert_eq!(
        refused_chunk(object(&[("type", text("noise"))])),
        "unknown variant `noise`, expected one of `block-start`, `text-delta`, `reasoning-delta`, \
         `tool-call-delta`, `block-end`, `usage`, `finish`"
    );
    assert_eq!(
        refused_chunk(object(&[
            ("index", Json::Number("18446744073709551615".to_string())),
            ("type", text("text-delta")),
        ])),
        "invalid value: integer `18446744073709551615`, expected i64"
    );
    assert_eq!(
        refused_chunk(object(&[
            ("index", Json::Number("1.5".to_string())),
            ("type", text("text-delta")),
        ])),
        "invalid type: floating point `1.5`, expected i64"
    );
    assert_eq!(
        refused_chunk(object(&[("index", Json::Int(0)), ("type", text("block-end"))])),
        "missing field `block`"
    );
    assert_eq!(
        refused_chunk(object(&[("type", text("finish")), ("reason", Json::Int(1))])),
        "invalid session event data: finish reason must be a string or object"
    );
    assert_eq!(
        refused_chunk(object(&[("type", text("usage")), ("usage", list(vec![Json::Int(1)]))])),
        "invalid length 1, expected struct TokenUsage with 5 elements"
    );
    assert_eq!(
        refused_chunk(object(&[
            ("type", text("usage")),
            ("usage", list((0..6).map(Json::Int).collect())),
        ])),
        "invalid length 6, expected 5 elements in sequence"
    );
    assert_eq!(
        refused_chunk(list(vec![text("text-delta"), Json::Int(0)])),
        "invalid length 1, expected struct variant StreamChunk::TextDelta with 2 elements"
    );
    let mut store = SessionStore::new();
    let chunk = list(vec![text("text-delta"), Json::Int(0), text("hello")]);
    let data = object(&[("turn", Json::Int(1)), ("step", Json::Int(1)), ("chunk", chunk)]);
    feed(&mut store, vec![event(1, "assistant/chunk", data)]);
    assert_eq!(said(&store), vec!["hello"]);
}

#[test]
fn other_malformed_payloads_are_told_of() {
    let step = |more: (&str, Json)| object(&[("turn", Json::Int(1)), ("step", Json::Int(1)), more]);
    assert_eq!(refused("tool/call", step(("name", text("bash")))), "missing `callId`");
    assert_eq!(
        refused("tool/call", step(("callId", Json::Int(1)))),
        "invalid type: integer `1`, expected a string"
    );
    assert_eq!(refused("todo/write", object(&[])), "missing `todos`");
    assert_eq!(
        refused("todo/write", object(&[("todos", list(vec![object(&[("status", text("x"))])]))])),
        "missing field `content`"
    );
    let failure = object(&[("message", text("m")), ("status", text("500"))]);
    let reason = object(&[("kind", text("error")), ("error", failure)]);
    assert_eq!(
        refused("turn/end", object(&[("turn", Json::Int(1)), ("reason", reason)])),
        "invalid type: string \"500\", expected i64"
    );
}

#[test]
fn chunks_are_applied_to_a_fold() {
    let delta = |index: i64, text: &str| StreamChunk::TextDelta { index, text: text.to_string() };
    let mut fold = Fold::new();
    for (seq, chunk) in
        [delta(2, "wor"), delta(1024, "lost"), delta(0, "Hello "), delta(-1, "lost"), delta(2, "ld")]
            .iter()
            .enumerate()
    {
        fold.apply_chunk(seq as i64, 1, 1, chunk);
    }
    let nodes = fold.finish();
    assert_eq!(nodes.len(), 1);
    match &nodes[0].data {
        NodeData::Assistant { blocks, .. } => {
            let texts: Vec<&str> = blocks
                .iter()
                .map(|b| match b {
                    AssistantBlock::Text { text } => text.as_str(),
                    _ => "",
                })
                .collect();
            assert_eq!(texts, vec!["Hello ", "world"]);
        }
        other => panic!("{other:?}"),
    }
}
