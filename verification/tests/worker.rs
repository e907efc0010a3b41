//! The worker, the choice of a session, and the requests.

use dsh_tui::app::attach::choose_session;
use dsh_tui::app::command::{Command, QueueUpdate};
use dsh_tui::app::light::{
    check_task, final_report, parse_light_args, sentinel, HerdrReporter, LightError, LightRun,
    TaskSource,
};
use dsh_tui::json::{json_string, Json};
use dsh_tui::requests::{
    method, payload, session_list, session_select_model, workspace_list,
};
use dsh_tui::wire::{
    ApprovalRequestId, ApprovalResponseOutcome, HostFrame, MuxFrame, RpcError, RpcErrorKind, RpcId,
    SessionEvent, SessionId, SessionSummary,
};

fn args(list: &[&str]) -> Vec<String> {
    list.iter().map(|s| s.to_string()).collect()
}

fn id() -> SessionId {
    SessionId("w-1".to_string())
}

fn object(members: &[(&str, Json)]) -> Json {
    Json::Object(members.iter().map(|(k, v)| (k.to_string(), v.clone())).collect())
}

fn text(s: &str) -> Json {
    Json::Str(s.to_string())
}

fn frame(seq: i64, kind: &str, data: Json) -> MuxFrame {
    MuxFrame::SessionEvent {
        session_id: id(),
        event: SessionEvent {
            seq,
            kind: kind.to_string(),
            time: 0,
            data,
            surface_op: None,
            ignorable: None,
        },
        view: None,
    }
}

fn step(members: &[(&str, Json)]) -> Json {
    let mut all = vec![("turn", Json::Int(1)), ("step", Json::Int(1))];
    all.extend(members.iter().map(|(k, v)| (*k, v.clone())));
    object(&all)
}

fn answer(seq: i64, said: &str) -> MuxFrame {
    let block = object(&[("type", text("text")), ("text", text(said))]);
    let message = object(&[
        ("id", text("a-1")),
        ("content", Json::Array(vec![block])),
        ("source", object(&[("kind", text("assistant"))])),
    ]);
    frame(seq, "assistant/message", step(&[("message", message)]))
}

fn ended(seq: i64, reason: Json) -> MuxFrame {
    frame(seq, "turn/end", object(&[("turn", Json::Int(1)), ("reason", reason)]))
}

#[test]
fn the_task_comes_from_one_place() {
    assert_eq!(
        parse_light_args(&args(&["--light", "--task", "fix it", "--port", "1"]), false),
        Ok(TaskSource::Task("fix it".to_string()))
    );
    assert_eq!(
        parse_light_args(&args(&["--light", "--file", "t.md", "--port=1"]), true),
        Ok(TaskSource::File("t.md".to_string()))
    );
    assert_eq!(parse_light_args(&args(&["--light"]), true), Ok(TaskSource::Stdin));
    assert!(parse_light_args(&args(&["--light"]), false).is_err());
    assert_eq!(
        parse_light_args(&args(&["--task"]), false),
        Err("--task requires a value (quote the task text)".to_string())
    );
    assert_eq!(
        parse_light_args(&args(&["--file"]), false),
        Err("--file requires a path".to_string())
    );
    assert_eq!(
        parse_light_args(&args(&["--port"]), false),
        Err("--port requires a value".to_string())
    );
    assert!(parse_light_args(&args(&["--shout"]), true).is_err());
    assert_eq!(
        parse_light_args(&args(&["--task", "a", "--file", "b"]), true),
        Ok(TaskSource::Task("a".to_string()))
    );
}

#[test]
fn an_empty_task_is_refused() {
    assert_eq!(check_task(String::new()), Err("task is empty".to_string()));
    assert_eq!(check_task(" do it\n".to_string()), Ok(" do it\n".to_string()));
}

#[test]
fn reports_go_to_a_pane() {
    assert!(HerdrReporter::resolve(None, Some("x".to_string()), None).is_none());
    assert!(HerdrReporter::resolve(Some("p".to_string()), None, None).is_none());
    let named = HerdrReporter::resolve(
        Some("p".to_string()),
        Some("named".to_string()),
        Some("found".to_string()),
    )
    .expect("reporter");
    assert_eq!(named.bin, "named");
    let long = "x".repeat(100);
    let sent = named.report_args("working", &long);
    assert_eq!(&sent[..3], &args(&["pane", "report-agent", "p"])[..]);
    assert_eq!(sent[8], "working");
    assert_eq!(sent[10].len(), 80);
}

#[test]
fn a_settled_answer_is_printed_once() {
    let mut run = LightRun::new(id());
    run.on_host_frame(HostFrame::HostSessionStatus { session_id: id(), running: true });
    run.on_frame(frame(1, "turn/start", object(&[("turn", Json::Int(1))])));
    let first = run.on_frame(answer(2, "hello"));
    assert_eq!(first.output, args(&["hello\n"]));
    assert!(first.end.is_none());
    let second = run.on_frame(answer(2, "hello"));
    assert!(second.output.is_empty());
    run.on_host_frame(HostFrame::HostSessionStatus { session_id: id(), running: false });
    let end = run.on_frame(ended(3, object(&[("kind", text("completed"))])));
    assert!(end.output.is_empty());
    assert!(matches!(end.end, Some(Ok(()))));
}

#[test]
fn a_run_that_still_runs_does_not_end() {
    let mut run = LightRun::new(id());
    run.on_host_frame(HostFrame::HostSessionStatus { session_id: id(), running: true });
    run.on_frame(frame(1, "turn/start", object(&[("turn", Json::Int(1))])));
    run.on_frame(answer(2, "hello"));
    let end = run.on_frame(ended(3, object(&[("kind", text("completed"))])));
    assert!(end.end.is_none());
}

#[test]
fn a_broken_stream_ends_the_run() {
    let mut run = LightRun::new(id());
    let error = RpcError { kind: RpcErrorKind::Internal, message: "gone".to_string() };
    let end = run.on_frame(MuxFrame::StreamError { error }).end;
    match &end {
        Some(Err(LightError::StreamError(_))) => {}
        other => panic!("{other:?}"),
    }
    let outcome = end.unwrap();
    let (words, code) = sentinel(&outcome);
    assert!(words.starts_with("dsh-worker: error: stream error: "));
    assert_eq!(code, 1);
    assert_eq!(final_report(&outcome).0, "blocked");
}

#[test]
fn a_malformed_event_ends_the_run() {
    let mut run = LightRun::new(id());
    let end = run.on_frame(frame(1, "turn/start", Json::Null)).end;
    assert!(matches!(end, Some(Err(LightError::Store(_)))));
}

#[test]
fn a_failed_turn_is_told() {
    let mut run = LightRun::new(id());
    run.on_frame(frame(1, "turn/start", object(&[("turn", Json::Int(1))])));
    run.on_frame(answer(2, "hello"));
    let failure = object(&[("message", text("quota")), ("code", text("rate"))]);
    let reason = object(&[("kind", text("error")), ("error", failure)]);
    match run.on_frame(ended(3, reason)).end {
        Some(Err(LightError::TurnFailed(message))) => assert_eq!(message, "quota"),
        other => panic!("{other:?}"),
    }
}

#[test]
fn the_last_words_of_a_worker() {
    assert_eq!(sentinel(&Ok(())), ("dsh-worker: done".to_string(), 0));
    assert_eq!(final_report(&Ok(())), ("idle".to_string(), "exit 0".to_string()));
    assert_eq!(
        sentinel(&Err(LightError::StreamClosed)).0,
        "dsh-worker: error: stream closed before the turn completed"
    );
    assert_eq!(LightError::Io("x".to_string()).message(), "io error: x");
}

fn row(name: &str, blank: bool, updated: f64) -> SessionSummary {
    SessionSummary {
        session_id: SessionId(name.to_string()),
        updated_at: updated.to_bits(),
        running: false,
        blank,
        parent_session_id: None,
        origin: None,
        cwd: None,
        agent_preset: None,
        projections: None,
    }
}

#[test]
fn the_latest_session_is_opened() {
    assert_eq!(choose_session(&vec![]), None);
    let all = vec![row("a", false, 2.0), row("b", true, 9.0), row("c", false, 3.0)];
    assert_eq!(choose_session(&all), Some(2));
    let blank = vec![row("a", true, 2.0), row("b", true, -9.0)];
    assert_eq!(choose_session(&blank), Some(0));
    let tied = vec![row("a", false, 2.0), row("b", false, 2.0)];
    assert_eq!(choose_session(&tied), Some(1));
    let signs = vec![row("a", false, -1.0), row("b", false, -2.0)];
    assert_eq!(choose_session(&signs), Some(0));
}

#[test]
fn requests_have_their_methods_and_payloads() {
    let cancel = Command::CancelTurn { session_id: id() };
    assert_eq!(json_string(&payload(&cancel)), "{\"sessionId\":\"w-1\"}");
    let prompt = Command::Prompt { session_id: id(), text: "hi".to_string() };
    assert_eq!(
        json_string(&payload(&prompt)),
        "{\"sessionId\":\"w-1\",\"mode\":\"queue\",\
         \"content\":[{\"type\":\"text\",\"text\":\"hi\"}]}"
    );
    let reply = Command::RespondApproval {
        rpc_id: RpcId("r".to_string()),
        session_id: id(),
        approval_id: ApprovalRequestId("ap".to_string()),
        outcome: ApprovalResponseOutcome::AllowedOnce,
    };
    assert_eq!(method(&reply), "respond");
    assert_eq!(
        json_string(&payload(&reply)),
        "{\"sessionId\":\"w-1\",\"approvalId\":\"ap\",\"outcome\":\"allowed-once\"}"
    );
    let steer = Command::UpdateQueue {
        session_id: id(),
        item_id: "q".to_string(),
        update: QueueUpdate::Steer,
    };
    assert_ne!(method(&steer), method(&cancel));
    let made = Command::CreateSession { workspace_id: None };
    assert_eq!(json_string(&payload(&made)), "{}");
}

#[test]
fn requests_from_outside_the_loop() {
    let (method, payload) = session_list();
    assert_eq!((method, json_string(&payload)), ("session.list", "{}".to_string()));
    let (method, payload) = workspace_list();
    assert_eq!((method, json_string(&payload)), ("workspace.list", "{}".to_string()));
    let (method, payload) = session_select_model(&id(), "p", "m", Some("high"));
    assert_eq!(method, "session.selectModel");
    assert_eq!(
        json_string(&payload),
        "{\"sessionId\":\"w-1\",\"provider\":\"p\",\"model\":\"m\",\
         \"reasoningEffort\":\"high\"}"
    );
    let (_, payload) = session_select_model(&id(), "p", "m", None);
    assert_eq!(payload.get("reasoningEffort"), None);
}
