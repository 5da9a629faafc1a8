//! Session updates become events, and completed tool calls queue their resources.

use agent_client_protocol::schema::v1 as schema;
use gander::acp::{
    connect_outcome, forward_update, AcpEvent, ContentBlock, PendingFetch, SessionUpdate,
};
use gander::json::Json;
use gander::tool_call::{
    apply_tool_call_update, ToolCall, ToolCallStatus, ToolCallUpdate, ToolCallUpdateFields,
    ToolCalls, ToolKind,
};
use gander::transport::geesed::GeesedError;

fn json(text: &str) -> Json {
    Json::parse(text).unwrap()
}

fn members(text: &str) -> Vec<(String, Json)> {
    match json(text) {
        Json::Object(members) => members,
        other => panic!("expected an object, got {other:?}"),
    }
}

fn tool(id: &str, title: &str) -> ToolCall {
    ToolCall::new(id.to_string(), title.to_string())
}

fn goose_tool(id: &str, title: &str, extension: &str) -> ToolCall {
    let mut call = tool(id, title);
    call.meta = Some(members(&format!(
        "{{\"goose\": {{\"toolCall\": {{\"extensionName\": \"{extension}\"}}}}}}"
    )));
    call
}

fn update(id: &str, fields: ToolCallUpdateFields) -> SessionUpdate {
    SessionUpdate::ToolCallUpdate(ToolCallUpdate {
        tool_call_id: id.to_string(),
        fields,
        meta: None,
    })
}

fn output(status: Option<ToolCallStatus>, text: &str) -> ToolCallUpdateFields {
    let mut fields = ToolCallUpdateFields::new();
    fields.status = status;
    fields.raw_output = Some(json(text));
    fields
}

fn forwarded(update: SessionUpdate) -> Option<AcpEvent> {
    forwarded_with_map(update, &mut ToolCalls::new())
}

fn forwarded_with_map(update: SessionUpdate, map: &mut ToolCalls) -> Option<AcpEvent> {
    let mut fetches = Vec::new();
    forward_update(update, map, &mut fetches)
}

fn queued_fetches_after(update: SessionUpdate, map: &mut ToolCalls) -> Vec<PendingFetch> {
    let mut fetches = Vec::new();
    forward_update(update, map, &mut fetches);
    fetches
}

#[test]
fn forward_agent_text_chunk_produces_agent_text_event() {
    let chunk = ContentBlock::Text("hello".to_string());
    let event = forwarded(SessionUpdate::AgentMessageChunk(chunk));
    assert!(matches!(event, Some(AcpEvent::AgentText(t)) if t == "hello"));
}

#[test]
fn forward_user_text_chunk_produces_user_text_event() {
    let chunk = ContentBlock::Text("world".to_string());
    let event = forwarded(SessionUpdate::UserMessageChunk(chunk));
    assert!(matches!(event, Some(AcpEvent::UserText(t)) if t == "world"));
}

#[test]
fn forward_tool_call_emits_tool_call_event_with_title() {
    let event = forwarded(SessionUpdate::ToolCall(tool("tc-1", "my_tool")));
    assert!(
        matches!(&event, Some(AcpEvent::ToolCall(tc)) if tc.title == "my_tool"),
        "expected ToolCall event with title 'my_tool', got {event:?}"
    );
}

#[test]
fn forward_tool_call_update_emits_merged_snapshot() {
    let mut map = ToolCalls::new();
    forwarded_with_map(SessionUpdate::ToolCall(tool("tc-2", "list_dir")), &mut map);

    let fields = output(None, "{\"entries\": [\"a\", \"b\"]}");
    let event = forwarded_with_map(update("tc-2", fields), &mut map);

    match event {
        Some(AcpEvent::ToolCall(tc)) => {
            assert_eq!(tc.title, "list_dir", "title must be preserved from creation");
            assert!(tc.raw_output.is_some(), "raw_output must be set from update");
        }
        other => panic!("expected merged ToolCall event, got {other:?}"),
    }
}

#[test]
fn forward_tool_call_update_without_prior_call_produces_no_event() {
    let fields = output(None, "{\"result\": \"ok\"}");
    let event = forwarded(update("orphan", fields));
    assert!(event.is_none(), "orphaned update must not emit an event");
}

#[test]
fn forward_unknown_variant_produces_no_event() {
    let event = forwarded(SessionUpdate::Other);
    assert!(event.is_none());
}

#[test]
fn chunks_without_text_produce_no_event() {
    assert!(forwarded(SessionUpdate::AgentMessageChunk(ContentBlock::Other)).is_none());
    assert!(forwarded(SessionUpdate::UserMessageChunk(ContentBlock::Other)).is_none());
}

#[test]
fn tool_call_serialises_with_camel_case_keys() {
    let mut tc = tool("tc-serde-test", "echo");
    let mut fields = ToolCallUpdateFields::new();
    fields.raw_input = Some(json("{\"text\": \"hi\"}"));
    fields.raw_output = Some(json("{\"result\": \"ok\"}"));
    apply_tool_call_update(&mut tc, fields);

    let text = tc.to_text();
    let v: serde_json::Value =
        serde_json::from_str(&text).expect("serialized ToolCall is valid JSON");

    assert_eq!(
        v["toolCallId"], "tc-serde-test",
        "tool_call_id must serialise as 'toolCallId'"
    );
    assert!(!v["rawInput"].is_null(), "raw_input must serialise as 'rawInput'");
    assert!(!v["rawOutput"].is_null(), "raw_output must serialise as 'rawOutput'");
    assert!(
        v.get("tool_call_id").is_none(),
        "snake_case 'tool_call_id' must not appear in JSON"
    );
    assert!(
        v.get("raw_input").is_none(),
        "snake_case 'raw_input' must not appear in JSON"
    );
    assert!(
        v.get("raw_output").is_none(),
        "snake_case 'raw_output' must not appear in JSON"
    );
}

#[test]
fn completed_tool_without_resource_uri_does_not_queue() {
    let mut map = ToolCalls::new();
    forwarded_with_map(SessionUpdate::ToolCall(tool("tc-plain", "plain_tool")), &mut map);

    let mut fields = ToolCallUpdateFields::new();
    fields.status = Some(ToolCallStatus::Completed);
    let fetches = queued_fetches_after(update("tc-plain", fields), &mut map);

    assert!(
        fetches.is_empty(),
        "no resourceUri means nothing queued; got {fetches:?}"
    );
}

#[test]
fn completed_tool_with_resource_uri_but_no_extension_does_not_queue() {
    let mut map = ToolCalls::new();
    forwarded_with_map(SessionUpdate::ToolCall(tool("tc-no-ext", "mcp_tool")), &mut map);

    let fields = output(
        Some(ToolCallStatus::Completed),
        "{\"resourceUri\": \"mcp://ext/resource\"}",
    );
    let fetches = queued_fetches_after(update("tc-no-ext", fields), &mut map);

    assert!(
        fetches.is_empty(),
        "missing extensionName means nothing queued; got {fetches:?}"
    );
}

#[test]
fn completed_tool_with_resource_uri_and_extension_queues_fetch() {
    let mut map = ToolCalls::new();
    let call = goose_tool("tc-queue", "mcp_tool", "my_ext");
    forwarded_with_map(SessionUpdate::ToolCall(call), &mut map);

    let fields = output(
        Some(ToolCallStatus::Completed),
        "{\"resourceUri\": \"mcp://my_ext/panel\"}",
    );
    let fetches = queued_fetches_after(update("tc-queue", fields), &mut map);

    assert_eq!(fetches.len(), 1, "expected exactly one queued fetch");
    assert_eq!(fetches[0].tool_call_id, "tc-queue");
    assert_eq!(fetches[0].uri, "mcp://my_ext/panel");
    assert_eq!(fetches[0].extension_name, "my_ext");
}

#[test]
fn in_progress_tool_with_resource_uri_does_not_queue() {
    let mut map = ToolCalls::new();
    let call = goose_tool("tc-inprog", "mcp_tool", "my_ext");
    forwarded_with_map(SessionUpdate::ToolCall(call), &mut map);

    let fields = output(
        Some(ToolCallStatus::InProgress),
        "{\"resourceUri\": \"mcp://my_ext/panel\"}",
    );
    let fetches = queued_fetches_after(update("tc-inprog", fields), &mut map);

    assert!(
        fetches.is_empty(),
        "InProgress must not queue; got {fetches:?}"
    );
}

#[test]
fn acp_meta_merge_preserves_extension_name_across_updates() {
    let mut map = ToolCalls::new();
    let call = goose_tool("tc-merge", "mcp_tool", "keep_me");
    forwarded_with_map(SessionUpdate::ToolCall(call), &mut map);

    let fields1 = output(None, "{\"partial\": true}");
    forwarded_with_map(update("tc-merge", fields1), &mut map);

    let fields2 = output(
        Some(ToolCallStatus::Completed),
        "{\"resourceUri\": \"mcp://keep_me/x\"}",
    );
    let fetches = queued_fetches_after(update("tc-merge", fields2), &mut map);

    assert_eq!(fetches.len(), 1, "extensionName must survive meta merge");
    assert_eq!(fetches[0].extension_name, "keep_me");
}

#[test]
fn metadata_of_an_update_is_merged_key_by_key() {
    let mut call = goose_tool("tc", "t", "keep_me");
    call.merge_meta(Some(members("{\"other\": 1, \"more\": 2}")));
    assert_eq!(call.extension_name(), Some("keep_me".to_string()));
    let keys: Vec<&str> = call.meta.as_ref().unwrap().iter().map(|m| m.0.as_str()).collect();
    assert_eq!(keys, ["goose", "other", "more"]);

    call.merge_meta(Some(members("{\"goose\": {\"toolCall\": {\"extensionName\": \"new\"}}}")));
    assert_eq!(call.extension_name(), Some("new".to_string()));
    call.merge_meta(None);
    assert_eq!(call.extension_name(), Some("new".to_string()));
}

#[test]
fn an_update_sets_the_fields_it_carries_and_no_others() {
    let mut call = tool("tc", "before");
    let mut fields = ToolCallUpdateFields::new();
    fields.title = Some("after".to_string());
    fields.kind = Some(ToolKind::Execute);
    fields.content = Some(vec![Json::Int(1)]);
    fields.locations = Some(vec![Json::Int(2), Json::Int(3)]);
    apply_tool_call_update(&mut call, fields);
    assert_eq!(call.title, "after");
    assert_eq!(call.kind, ToolKind::Execute);
    assert_eq!(call.status, ToolCallStatus::Pending);
    assert_eq!(call.content.len(), 1);
    assert_eq!(call.locations.len(), 2);
    assert!(call.raw_input.is_none());

    let before = call.to_text();
    apply_tool_call_update(&mut call, ToolCallUpdateFields::new());
    assert_eq!(call.to_text(), before);
}

#[test]
fn the_wire_form_is_that_of_the_schema() {
    let mut meta = serde_json::Map::new();
    meta.insert("k".to_string(), serde_json::Value::from(1));
    let theirs = schema::ToolCall::new("tc", "a \"title\"")
        .kind(schema::ToolKind::Fetch)
        .status(schema::ToolCallStatus::InProgress)
        .raw_input(serde_json::Value::from(vec![1, 2]))
        .raw_output(serde_json::Value::Null)
        .meta(meta);
    let mut ours = tool("tc", "a \"title\"");
    ours.kind = ToolKind::Fetch;
    ours.status = ToolCallStatus::InProgress;
    ours.raw_input = Some(json("[1, 2]"));
    ours.raw_output = Some(Json::Null);
    ours.meta = Some(members("{\"k\": 1}"));
    assert_eq!(ours.to_text(), serde_json::to_string(&theirs).unwrap());

    let theirs = schema::ToolCall::new("tc", "t");
    assert_eq!(tool("tc", "t").to_text(), serde_json::to_string(&theirs).unwrap());
}

#[test]
fn the_wire_names_are_those_of_the_schema() {
    let kinds = [
        (ToolKind::Read, schema::ToolKind::Read),
        (ToolKind::Edit, schema::ToolKind::Edit),
        (ToolKind::Delete, schema::ToolKind::Delete),
        (ToolKind::Move, schema::ToolKind::Move),
        (ToolKind::Search, schema::ToolKind::Search),
        (ToolKind::Execute, schema::ToolKind::Execute),
        (ToolKind::Think, schema::ToolKind::Think),
        (ToolKind::Fetch, schema::ToolKind::Fetch),
        (ToolKind::SwitchMode, schema::ToolKind::SwitchMode),
        (ToolKind::Other, schema::ToolKind::Other),
    ];
    for (ours, theirs) in kinds {
        assert_eq!(serde_json::to_value(theirs).unwrap(), ours.name());
    }
    let statuses = [
        (ToolCallStatus::Pending, schema::ToolCallStatus::Pending),
        (ToolCallStatus::InProgress, schema::ToolCallStatus::InProgress),
        (ToolCallStatus::Completed, schema::ToolCallStatus::Completed),
        (ToolCallStatus::Failed, schema::ToolCallStatus::Failed),
    ];
    for (ours, theirs) in statuses {
        assert_eq!(serde_json::to_value(theirs).unwrap(), ours.name());
    }
}

#[test]
fn a_call_that_came_again_replaces_the_old_one() {
    let mut map = ToolCalls::new();
    forwarded_with_map(SessionUpdate::ToolCall(tool("tc", "old")), &mut map);
    forwarded_with_map(SessionUpdate::ToolCall(tool("tc", "new")), &mut map);
    let event = forwarded_with_map(update("tc", ToolCallUpdateFields::new()), &mut map);
    assert!(matches!(event, Some(AcpEvent::ToolCall(tc)) if tc.title == "new"));
    map.clear();
    assert!(forwarded_with_map(update("tc", ToolCallUpdateFields::new()), &mut map).is_none());
}

#[test]
fn a_connection_counts_once_its_worker_is_ready() {
    assert!(connect_outcome(Some(Ok(()))).is_ok());
    match connect_outcome(Some(Err("no".to_string()))) {
        Err(GeesedError::Protocol(m)) => assert_eq!(m, "no"),
        other => panic!("expected a protocol error, got {other:?}"),
    }
    assert!(matches!(connect_outcome(None), Err(GeesedError::Protocol(_))));
}
