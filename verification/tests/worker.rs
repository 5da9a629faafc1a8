//! The worker of a connection: its steps from the handshake to the end.

use gander::acp::sessions::{top_sessions, SessionSummary};
use gander::acp::worker::{agent_model, Worker, WorkerAction, WorkerInput, WorkerStep};
use gander::acp::{AcpCommand, AcpEvent, ContentBlock, SessionUpdate, StopReason};
use gander::json::Json;
use gander::tool_call::{ToolCall, ToolCallStatus, ToolCallUpdate, ToolCallUpdateFields};

const HISTORY_SESSION_ID: &str = "00000000-0000-0000-0000-000000000002";

fn json(text: &str) -> Json {
    Json::parse(text).unwrap()
}

fn summary(id: &str, title: Option<&str>, updated_at: Option<&str>) -> SessionSummary {
    SessionSummary {
        session_id: id.to_string(),
        title: title.map(str::to_string),
        updated_at: updated_at.map(str::to_string),
    }
}

/// A worker that has connected and started the session `first`.
fn idle() -> Worker {
    let mut worker = Worker::new();
    worker.step(WorkerInput::Initialized {
        model: "goose".to_string(),
        cwd: "/home".to_string(),
    });
    worker.step(WorkerInput::Listed(None));
    let step = worker.step(WorkerInput::Started("first".to_string()));
    assert!(step.ready);
    worker
}

fn text(words: &str) -> ContentBlock {
    ContentBlock::Text(words.to_string())
}

fn finished(id: &str, uri: &str) -> SessionUpdate {
    let mut fields = ToolCallUpdateFields::new();
    fields.status = Some(ToolCallStatus::Completed);
    fields.raw_output = Some(json(&format!("{{\"resourceUri\": \"{uri}\"}}")));
    SessionUpdate::ToolCallUpdate(ToolCallUpdate {
        tool_call_id: id.to_string(),
        fields,
        meta: None,
    })
}

fn goose_call(id: &str) -> SessionUpdate {
    let mut call = ToolCall::new(id.to_string(), "tool".to_string());
    call.meta = match json("{\"goose\": {\"toolCall\": {\"extensionName\": \"ext\"}}}") {
        Json::Object(members) => Some(members),
        other => panic!("expected an object, got {other:?}"),
    };
    SessionUpdate::ToolCall(call)
}

#[test]
fn history_drain_completes_with_expected_events() {
    let mut worker = idle();
    let mut events: Vec<AcpEvent> = Vec::new();
    let select = AcpCommand::SessionSelect(HISTORY_SESSION_ID.to_string());
    let step = worker.step(WorkerInput::Command(select));
    assert!(matches!(&step.action, WorkerAction::LoadSession(id) if id == HISTORY_SESSION_ID));
    events.extend(step.events);
    let step = worker.step(WorkerInput::Loaded);
    assert!(matches!(&step.action, WorkerAction::AttachSession(id) if id == HISTORY_SESSION_ID));
    events.extend(step.events);

    let mut output = ToolCallUpdateFields::new();
    output.raw_output = Some(json("{\"result\": 4}"));
    let inputs = vec![
        WorkerInput::Attached,
        WorkerInput::Update(SessionUpdate::UserMessageChunk(text("What is 2 + 2?"))),
        WorkerInput::Update(SessionUpdate::ToolCall(ToolCall::new(
            "tc-1".to_string(),
            "calculator".to_string(),
        ))),
        WorkerInput::Update(SessionUpdate::ToolCallUpdate(ToolCallUpdate {
            tool_call_id: "tc-1".to_string(),
            fields: output,
            meta: None,
        })),
        WorkerInput::Update(SessionUpdate::AgentMessageChunk(text("The answer is 4."))),
    ];
    for input in inputs {
        let step = worker.step(input);
        assert!(matches!(step.action, WorkerAction::PollUpdate));
        events.extend(step.events);
    }
    let step = worker.step(WorkerInput::Drained);
    assert!(matches!(step.action, WorkerAction::AwaitCommand));
    events.extend(step.events);

    assert!(
        events.iter().any(|e| matches!(e, AcpEvent::SessionLoadStart)),
        "expected SessionLoadStart in events; got: {events:?}"
    );
    assert!(
        events.iter().any(|e| matches!(e, AcpEvent::SessionLoadEnd)),
        "expected SessionLoadEnd in events; got: {events:?}"
    );
    assert!(
        events.iter().any(|e| matches!(e, AcpEvent::UserText(t) if t == "What is 2 + 2?")),
        "expected UserText('What is 2 + 2?') in events; got: {events:?}"
    );
    assert!(
        events.iter().any(|e| matches!(e, AcpEvent::ToolCall(tc) if tc.title == "calculator")),
        "expected ToolCall(calculator) in events; got: {events:?}"
    );
    assert!(
        events.iter().any(
            |e| matches!(e, AcpEvent::ToolCall(tc) if tc.tool_call_id == "tc-1" && tc.raw_output.is_some())
        ),
        "expected ToolCall(tc-1) with raw_output in events; got: {events:?}"
    );
    assert!(
        events.iter().any(|e| matches!(e, AcpEvent::AgentText(t) if t == "The answer is 4.")),
        "expected AgentText('The answer is 4.') in events; got: {events:?}"
    );
    assert!(
        !events.iter().any(|e| matches!(e, AcpEvent::Error(_))),
        "unexpected Error event in events; got: {events:?}"
    );

    let start_pos = events
        .iter()
        .position(|e| matches!(e, AcpEvent::SessionLoadStart))
        .unwrap();
    let end_pos = events
        .iter()
        .position(|e| matches!(e, AcpEvent::SessionLoadEnd))
        .unwrap();
    assert!(
        start_pos < end_pos,
        "SessionLoadStart must precede SessionLoadEnd; positions: {start_pos}, {end_pos}"
    );
    let active_pos = events
        .iter()
        .position(|e| matches!(e, AcpEvent::SessionActive(id) if id == HISTORY_SESSION_ID));
    assert!(
        active_pos.is_some(),
        "expected SessionActive({HISTORY_SESSION_ID}) in events; got: {events:?}"
    );
    assert!(
        active_pos.unwrap() < start_pos,
        "SessionActive must precede SessionLoadStart; positions: {}, {start_pos}",
        active_pos.unwrap()
    );
    let history_indices: Vec<usize> = events
        .iter()
        .enumerate()
        .filter(|(_, e)| {
            matches!(
                e,
                AcpEvent::UserText(_) | AcpEvent::AgentText(_) | AcpEvent::ToolCall(_)
            )
        })
        .map(|(i, _)| i)
        .collect();
    assert!(!history_indices.is_empty(), "no history events found");
    for idx in &history_indices {
        assert!(
            *idx > start_pos && *idx < end_pos,
            "history event at index {idx} is outside [{start_pos}, {end_pos}]"
        );
    }
}

#[test]
fn the_latest_session_is_resumed() {
    let mut worker = Worker::new();
    let step = worker.step(WorkerInput::Initialized {
        model: "goose".to_string(),
        cwd: "/home".to_string(),
    });
    assert!(matches!(step.action, WorkerAction::ListSessions));
    let list = vec![
        summary("old", Some("Old"), Some("2024-01-01T00:00:00Z")),
        summary("new", None, Some("2025-01-01T00:00:00Z")),
    ];
    let step = worker.step(WorkerInput::Listed(Some(list)));
    assert!(matches!(&step.action, WorkerAction::LoadSession(id) if id == "new"));
    let step = worker.step(WorkerInput::Loaded);
    assert!(matches!(&step.action, WorkerAction::AttachSession(id) if id == "new"));
    let connected = worker.step(WorkerInput::Attached);
    assert!(connected.ready);
    let asked = worker.step(WorkerInput::Command(AcpCommand::RequestSessionInfo));
    assert!(!asked.ready);
    for step in [connected, asked] {
        assert_eq!(step.events.len(), 3);
        assert!(matches!(&step.events[0], AcpEvent::SessionList(list)
            if list.len() == 2 && list[0].id == "new" && list[1].label == "Old"));
        assert!(matches!(&step.events[1], AcpEvent::SessionActive(id) if id == "new"));
        assert!(matches!(&step.events[2], AcpEvent::SessionInfo { cwd, model, tool_count: None }
            if cwd == "/home" && model == "goose"));
    }
}

#[test]
fn a_new_session_is_reported_with_the_list() {
    let mut worker = idle();
    let step = worker.step(WorkerInput::Command(AcpCommand::SessionNew));
    assert!(matches!(step.action, WorkerAction::StartSession));
    let step = worker.step(WorkerInput::Started("second".to_string()));
    assert!(matches!(step.action, WorkerAction::ListSessions));
    assert!(step.events.is_empty());
    let step = worker.step(WorkerInput::Listed(Some(vec![summary("second", None, None)])));
    assert!(matches!(&step.events[..], [AcpEvent::SessionList(list), AcpEvent::SessionActive(id)]
        if list[0].id == "second" && list[0].label == "Session" && id == "second"));
    worker.step(WorkerInput::Command(AcpCommand::SessionNew));
    let step = worker.step(WorkerInput::Failed("full".to_string()));
    assert!(matches!(&step.events[..], [AcpEvent::Error(m)] if m == "session/new failed: full"));
}

#[test]
fn a_session_that_cannot_be_resumed_gives_way_to_a_new_one() {
    let mut worker = Worker::new();
    worker.step(WorkerInput::Initialized {
        model: String::new(),
        cwd: String::new(),
    });
    worker.step(WorkerInput::Listed(Some(vec![summary("a", None, None)])));
    let step = worker.step(WorkerInput::Failed("gone".to_string()));
    assert!(matches!(step.action, WorkerAction::StartSession));
    assert!(step.events.is_empty());
    assert!(worker.step(WorkerInput::Started("b".to_string())).ready);
}

#[test]
fn a_failed_handshake_ends_the_worker() {
    let mut worker = Worker::new();
    let step = worker.step(WorkerInput::Failed("refused".to_string()));
    assert!(matches!(step.action, WorkerAction::Stop));
    assert!(matches!(&step.events[..], [AcpEvent::Error(m)] if m == "refused"));
    let step: WorkerStep = worker.step(WorkerInput::Command(AcpCommand::SessionNew));
    assert!(step.events.is_empty());
}

#[test]
fn a_prompt_streams_and_then_reads_its_resources() {
    let mut worker = idle();
    let step = worker.step(WorkerInput::Command(AcpCommand::Prompt("hi".to_string())));
    assert!(matches!(&step.action, WorkerAction::SendPrompt(t) if t == "hi"));
    let step = worker.step(WorkerInput::Sent);
    assert!(matches!(step.action, WorkerAction::ReadUpdate));
    worker.step(WorkerInput::Update(goose_call("tc")));
    worker.step(WorkerInput::Update(finished("tc", "ui://ext/a")));
    let step = worker.step(WorkerInput::Ended(StopReason::EndTurn));
    assert!(matches!(&step.events[..], [AcpEvent::Complete(StopReason::EndTurn)]));
    match &step.action {
        WorkerAction::ReadResource(params) => assert_eq!(
            params.to_text(),
            "{\"sessionId\":\"first\",\"uri\":\"ui://ext/a\",\"extensionName\":\"ext\"}"
        ),
        other => panic!("expected a read, got {other:?}"),
    }
    let response =
        json("{\"result\": {\"contents\": [{\"mimeType\": \"text/html\", \"text\": \"P\"}]}}");
    let step = worker.step(WorkerInput::Response(response));
    assert!(matches!(&step.events[..], [AcpEvent::ToolResource { tool_call_id, html }]
        if tool_call_id == "tc" && html == "P"));
    assert!(matches!(step.action, WorkerAction::AwaitCommand));
}

#[test]
fn replayed_history_reads_no_resource() {
    let mut worker = idle();
    worker.step(WorkerInput::Command(AcpCommand::SessionSelect("s".to_string())));
    worker.step(WorkerInput::Loaded);
    worker.step(WorkerInput::Attached);
    worker.step(WorkerInput::Update(goose_call("tc")));
    worker.step(WorkerInput::Update(finished("tc", "ui://ext/a")));
    let step = worker.step(WorkerInput::Drained);
    assert!(matches!(step.action, WorkerAction::AwaitCommand));
    worker.step(WorkerInput::Command(AcpCommand::Prompt("hi".to_string())));
    worker.step(WorkerInput::Sent);
    let step = worker.step(WorkerInput::Ended(StopReason::Cancelled));
    assert!(matches!(step.action, WorkerAction::AwaitCommand));
}

#[test]
fn a_session_that_cannot_be_loaded_is_reported() {
    let mut worker = idle();
    worker.step(WorkerInput::Command(AcpCommand::SessionSelect("s".to_string())));
    let step = worker.step(WorkerInput::Failed("nope".to_string()));
    assert!(matches!(&step.events[..], [AcpEvent::Error(m)] if m == "session/load failed: nope"));

    worker.step(WorkerInput::Command(AcpCommand::SessionSelect("s".to_string())));
    worker.step(WorkerInput::Loaded);
    let step = worker.step(WorkerInput::Failed("nope".to_string()));
    assert!(matches!(&step.events[..], [AcpEvent::Error(m)] if m == "session switch failed: nope"));
}

#[test]
fn shutdown_stops_the_worker() {
    let mut worker = idle();
    let step = worker.step(WorkerInput::Command(AcpCommand::Shutdown));
    assert!(matches!(step.action, WorkerAction::Stop));
    let mut worker = idle();
    assert!(matches!(worker.step(WorkerInput::Closed).action, WorkerAction::Stop));
}

#[test]
fn the_session_list_holds_the_five_latest() {
    let list = vec![
        summary("none", None, None),
        summary("1", Some("a"), Some("2024-01-01")),
        summary("3", Some("c"), Some("2024-01-03")),
        summary("2", Some("b"), Some("2024-01-02")),
        summary("5", Some("e"), Some("2024-01-05")),
        summary("4", Some("d"), Some("2024-01-04")),
        summary("4b", Some("d2"), Some("2024-01-04")),
    ];
    let top = top_sessions(&list);
    let ids: Vec<&str> = top.iter().map(|s| s.id.as_str()).collect();
    assert_eq!(ids, ["5", "4", "4b", "3", "2"]);
    assert_eq!(top[0].label, "e");
    assert_eq!(top[0].last_active, Some("2024-01-05".to_string()));
    assert!(top_sessions(&Vec::new()).is_empty());
}

#[test]
fn an_agent_goes_by_its_title() {
    assert_eq!(agent_model(Some("Goose".to_string()), "goose".to_string()), "Goose");
    assert_eq!(agent_model(None, "goose".to_string()), "goose");
}
