//! Panels of tool calls: which resource is asked for, and what the cache keeps.

use gander::acp::resource::{
    extract_html_from_read_resource_response, read_method, read_params,
};
use gander::acp::PendingFetch;
use gander::ext::goose::{
    extension_name_from_uri, new_resource_cache, next_fetch, on_read_response, pluck_cached,
    GooseExtHandler,
};
use gander::ext::{ExtEvent, ExtHandler, ExtRequest};
use gander::json::Json;
use gander::tool_call::{
    apply_tool_call_update, ToolCall, ToolCallStatus, ToolCallUpdateFields,
};

fn json(text: &str) -> Json {
    Json::parse(text).unwrap()
}

fn tool(id: &str, title: &str) -> ToolCall {
    ToolCall::new(id.to_string(), title.to_string())
}

fn goose_tool(id: &str, title: &str, extension: &str) -> ToolCall {
    let mut call = tool(id, title);
    let meta = json(&format!(
        "{{\"goose\": {{\"toolCall\": {{\"extensionName\": \"{extension}\"}}}}}}"
    ));
    call.meta = match meta {
        Json::Object(members) => Some(members),
        other => panic!("expected an object, got {other:?}"),
    };
    call
}

fn output(status: Option<ToolCallStatus>, text: &str) -> ToolCallUpdateFields {
    let mut fields = ToolCallUpdateFields::new();
    fields.status = status;
    fields.raw_output = Some(json(text));
    fields
}

fn emitted_events(tc: &ToolCall) -> Vec<ExtEvent> {
    GooseExtHandler.on_tool_call_completed(tc)
}

fn fetch(id: &str, uri: &str) -> PendingFetch {
    PendingFetch {
        tool_call_id: id.to_string(),
        uri: uri.to_string(),
        extension_name: "ext".to_string(),
    }
}

#[test]
fn completed_tool_without_resource_uri_does_not_emit() {
    let mut tc = tool("tc-plain", "plain_tool");
    let mut fields = ToolCallUpdateFields::new();
    fields.status = Some(ToolCallStatus::Completed);
    apply_tool_call_update(&mut tc, fields);

    let events = emitted_events(&tc);
    assert!(
        events.is_empty(),
        "no resourceUri means no emit; got {events:?}"
    );
}

#[test]
fn completed_tool_with_resource_uri_but_no_extension_falls_back_to_uri_host() {
    let mut tc = tool("tc-no-ext", "mcp_tool");
    let fields = output(
        Some(ToolCallStatus::Completed),
        "{\"resourceUri\": \"ui://botworkui/state/abc\"}",
    );
    apply_tool_call_update(&mut tc, fields);

    let events = emitted_events(&tc);
    assert_eq!(
        events.len(),
        1,
        "missing extensionName must fall back to URI host; got {events:?}"
    );
    match &events[0] {
        ExtEvent::Request(ExtRequest::ReadResource {
            extension_name,
            uri,
            ..
        }) => {
            assert_eq!(
                extension_name, "botworkui",
                "extensionName must come from URI host"
            );
            assert_eq!(uri, "ui://botworkui/state/abc");
        }
        other => panic!("expected ReadResource, got {other:?}"),
    }
}

#[test]
fn completed_tool_with_unusable_resource_uri_does_not_emit() {
    let mut tc = tool("tc-bad-uri", "mcp_tool");
    let fields = output(
        Some(ToolCallStatus::Completed),
        "{\"resourceUri\": \"ui:///no-host/path\"}",
    );
    apply_tool_call_update(&mut tc, fields);

    let events = emitted_events(&tc);
    assert!(
        events.is_empty(),
        "URI with empty host must not emit; got {events:?}"
    );
}

#[test]
fn completed_tool_with_resource_uri_and_extension_emits_request() {
    let mut tc = goose_tool("tc-emit", "mcp_tool", "my_ext");
    let fields = output(
        Some(ToolCallStatus::Completed),
        "{\"resourceUri\": \"mcp://my_ext/panel\"}",
    );
    apply_tool_call_update(&mut tc, fields);

    let events = emitted_events(&tc);
    assert_eq!(events.len(), 1, "expected exactly one emitted event");
    match &events[0] {
        ExtEvent::Request(ExtRequest::ReadResource {
            tool_call_id,
            uri,
            extension_name,
        }) => {
            assert_eq!(tool_call_id, "tc-emit");
            assert_eq!(uri, "mcp://my_ext/panel");
            assert_eq!(extension_name, "my_ext");
        }
        other => panic!("expected ReadResource request, got {other:?}"),
    }
}

#[test]
fn goose_meta_merge_preserves_extension_name_across_updates() {
    let mut tc = goose_tool("tc-merge", "mcp_tool", "keep_me");
    apply_tool_call_update(&mut tc, output(None, "{\"partial\": true}"));
    let fields2 = output(
        Some(ToolCallStatus::Completed),
        "{\"resourceUri\": \"mcp://keep_me/x\"}",
    );
    apply_tool_call_update(&mut tc, fields2);

    let events = emitted_events(&tc);
    assert_eq!(events.len(), 1, "extensionName must survive apply sequence");
    match &events[0] {
        ExtEvent::Request(ExtRequest::ReadResource { extension_name, .. }) => {
            assert_eq!(extension_name, "keep_me");
        }
        other => panic!("expected ReadResource, got {other:?}"),
    }
}

#[test]
fn extension_name_from_uri_returns_host_for_standard_scheme() {
    assert_eq!(
        extension_name_from_uri("ui://botworkui/state/abc"),
        Some("botworkui".to_string())
    );
}

#[test]
fn extension_name_from_uri_returns_host_when_no_path() {
    assert_eq!(
        extension_name_from_uri("ui://botworkui"),
        Some("botworkui".to_string())
    );
}

#[test]
fn extension_name_from_uri_returns_none_for_missing_scheme() {
    assert_eq!(extension_name_from_uri("botworkui/state"), None);
}

#[test]
fn extension_name_from_uri_returns_none_for_empty_host() {
    assert_eq!(extension_name_from_uri("ui:///state/abc"), None);
}

#[test]
fn only_the_first_separators_of_a_uri_count() {
    assert_eq!(extension_name_from_uri("a://b://c/d"), Some("b:".to_string()));
    assert_eq!(extension_name_from_uri("://host"), Some("host".to_string()));
    assert_eq!(extension_name_from_uri("ui://"), None);
}

#[test]
fn goose_extract_html_returns_text_for_text_html_mime() {
    let resp = json(
        "{\"result\": {\"contents\": [{\"mimeType\": \"text/html\", \"text\": \"<p>hi</p>\", \"uri\": \"x\"}]}}",
    );
    assert_eq!(
        extract_html_from_read_resource_response(&resp),
        Some("<p>hi</p>".to_string())
    );
}

#[test]
fn goose_extract_html_accepts_text_html_profile_variant() {
    let resp = json(
        "{\"result\": {\"contents\": [{\"mimeType\": \"text/html;profile=mcp-app\", \"text\": \"<div/>\", \"uri\": \"x\"}]}}",
    );
    assert_eq!(
        extract_html_from_read_resource_response(&resp),
        Some("<div/>".to_string())
    );
}

#[test]
fn goose_extract_html_returns_none_for_non_html_mime() {
    let resp = json(
        "{\"result\": {\"contents\": [{\"mimeType\": \"application/json\", \"text\": \"{}\", \"uri\": \"x\"}]}}",
    );
    assert!(extract_html_from_read_resource_response(&resp).is_none());
}

#[test]
fn goose_extract_html_returns_none_when_contents_empty() {
    let resp = json("{\"result\": {\"contents\": []}}");
    assert!(extract_html_from_read_resource_response(&resp).is_none());
}

#[test]
fn goose_extract_html_returns_none_when_result_key_missing() {
    let resp = json("{\"other\": {}}");
    assert!(extract_html_from_read_resource_response(&resp).is_none());
}

#[test]
fn acp_extract_html_returns_text_for_text_html_mime() {
    let resp = json(
        "{\"result\": {\"contents\": [{\"mimeType\": \"text/html\", \"text\": \"<p>hi</p>\", \"uri\": \"x\"}]}}",
    );
    assert_eq!(
        extract_html_from_read_resource_response(&resp),
        Some("<p>hi</p>".to_string())
    );
}

#[test]
fn acp_extract_html_accepts_text_html_profile_variant() {
    let resp = json(
        "{\"result\": {\"contents\": [{\"mimeType\": \"text/html;profile=mcp-app\", \"text\": \"<div/>\", \"uri\": \"x\"}]}}",
    );
    assert_eq!(
        extract_html_from_read_resource_response(&resp),
        Some("<div/>".to_string())
    );
}

#[test]
fn acp_extract_html_returns_none_for_non_html_mime() {
    let resp = json(
        "{\"result\": {\"contents\": [{\"mimeType\": \"application/json\", \"text\": \"{}\", \"uri\": \"x\"}]}}",
    );
    assert!(extract_html_from_read_resource_response(&resp).is_none());
}

#[test]
fn acp_extract_html_returns_none_when_contents_empty() {
    let resp = json("{\"result\": {\"contents\": []}}");
    assert!(extract_html_from_read_resource_response(&resp).is_none());
}

#[test]
fn acp_extract_html_returns_none_when_result_key_missing() {
    let resp = json("{\"other\": {}}");
    assert!(extract_html_from_read_resource_response(&resp).is_none());
}

#[test]
fn contents_of_other_types_are_skipped() {
    let resp = json(
        "{\"result\": {\"contents\": [{\"mimeType\": \"image/png\", \"text\": \"p\"}, {\"text\": \"n\"}, {\"mimeType\": \"text/html\", \"text\": \"h\"}]}}",
    );
    assert_eq!(
        extract_html_from_read_resource_response(&resp),
        Some("h".to_string())
    );
}

#[test]
fn a_type_that_only_begins_like_html_is_another() {
    let resp = json(
        "{\"result\": {\"contents\": [{\"mimeType\": \"text/htmlx\", \"text\": \"x\", \"uri\": \"u\"}]}}",
    );
    assert_eq!(extract_html_from_read_resource_response(&resp), None);
    let resp = json(
        "{\"result\": {\"contents\": [{\"mimeType\": \"text/htmlx\", \"text\": \"x\"}, {\"mimeType\": \"text/html;\", \"text\": \"y\"}]}}",
    );
    assert_eq!(
        extract_html_from_read_resource_response(&resp),
        Some("y".to_string())
    );
}

#[test]
fn a_scheme_may_hold_a_colon() {
    assert_eq!(
        extension_name_from_uri("a:b://host/path"),
        Some("host".to_string())
    );
    assert_eq!(extension_name_from_uri("a:/b"), None);
}

#[test]
fn pluck_cached_returns_all_when_cache_empty() {
    let cache = new_resource_cache();
    let fetches = vec![fetch("tc-a", "uri-a"), fetch("tc-b", "uri-b")];

    let (events, remaining) = pluck_cached(fetches, &cache, "session-1");

    assert_eq!(
        remaining.len(),
        2,
        "empty cache → all entries should require RPC"
    );
    assert!(
        events.is_empty(),
        "empty cache → no ToolResource events should be emitted"
    );
}

#[test]
fn pluck_cached_emits_and_filters_cache_hits() {
    let mut cache = new_resource_cache();
    cache.insert("session-1", "uri-a", "<p>a</p>");
    let fetches = vec![fetch("tc-a", "uri-a"), fetch("tc-b", "uri-b")];

    let (emitted, remaining) = pluck_cached(fetches, &cache, "session-1");

    assert_eq!(remaining.len(), 1, "uri-b should remain (cache miss)");
    assert_eq!(
        remaining[0].uri, "uri-b",
        "the remaining entry should be the cache miss"
    );
    assert_eq!(emitted.len(), 1, "exactly one cache hit should be emitted");
    match &emitted[0] {
        ExtEvent::ToolResource { tool_call_id, html } => {
            assert_eq!(tool_call_id, "tc-a");
            assert_eq!(html, "<p>a</p>");
        }
        other => panic!("expected ToolResource for cache hit, got {other:?}"),
    }
}

#[test]
fn pluck_cached_keys_on_session_id() {
    let mut cache = new_resource_cache();
    cache.insert("other-session", "uri-a", "<p>a</p>");
    let fetches = vec![fetch("tc-a", "uri-a")];

    let (events, remaining) = pluck_cached(fetches, &cache, "session-1");

    assert_eq!(
        remaining.len(),
        1,
        "different session must not hit a foreign-session cache entry"
    );
    assert!(
        events.is_empty(),
        "no emit expected on session-keyed cache miss"
    );
}

#[test]
fn a_resource_is_read_in_turn_and_kept() {
    let mut fetches = vec![fetch("tc-a", "uri-a"), fetch("tc-b", "uri-b")];
    let (first, request) = next_fetch(&mut fetches, "session-1").unwrap();
    assert_eq!(first.tool_call_id, "tc-a");
    assert_eq!(request.to_text(), read_params("session-1", "uri-a", "ext").to_text());
    assert_eq!(fetches.len(), 1);

    let mut cache = new_resource_cache();
    let response = json("{\"result\": {\"contents\": [{\"mimeType\": \"text/html\", \"text\": \"P\"}]}}");
    match on_read_response(&first, &response, "session-1", &mut cache) {
        Some(ExtEvent::ToolResource { tool_call_id, html }) => {
            assert_eq!(tool_call_id, "tc-a");
            assert_eq!(html, "P");
        }
        other => panic!("expected ToolResource, got {other:?}"),
    }
    assert_eq!(cache.get("session-1", "uri-a"), Some(&"P".to_string()));
    assert_eq!(cache.get("session-2", "uri-a"), None);

    let (second, _) = next_fetch(&mut fetches, "session-1").unwrap();
    assert!(on_read_response(&second, &json("{}"), "session-1", &mut cache).is_none());
    assert_eq!(cache.get("session-1", "uri-b"), None);
    assert!(next_fetch(&mut fetches, "session-1").is_none());
}

#[test]
fn a_resource_request_names_session_uri_and_extension() {
    assert_eq!(read_method(), "_goose/unstable/resources/read");
    assert_eq!(
        read_params("s", "u", "e").to_text(),
        "{\"sessionId\":\"s\",\"uri\":\"u\",\"extensionName\":\"e\"}"
    );
}
