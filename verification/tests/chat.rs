//! The chat page: what the events of the host do to it.

use gander::chat::events::{
    call_in, handle_acp_core_bridge_event, handle_goose_ext_bridge_event, is_terminal_status,
    parse_session_entries, submit, ChatState,
};
use gander::chat::message::{
    build_srcdoc, panel, parse_tool_io, parse_tool_title, render_message, toggle_expanded,
    tool_status_class, Panel, Rendered,
};
use gander::chat::types::{AllSessionsState, ChatPaneView, Role};
use gander::json::Json;
use gander::tool_call::{ToolCall, ToolCallStatus};

fn json(text: &str) -> Json {
    Json::parse(text).unwrap()
}

fn tell(state: &mut ChatState, text: &str) {
    let event = json(text);
    handle_acp_core_bridge_event(state, &event, &Json::Null);
    handle_goose_ext_bridge_event(state, &event);
}

fn call_event(call: &ToolCall) -> Json {
    Json::Object(vec![
        ("type".to_string(), Json::String("tool_call".to_string())),
        ("call".to_string(), Json::String(call.to_text())),
    ])
}

/// Tells the page of a call.
fn tell_call(state: &mut ChatState, call: &ToolCall) {
    handle_acp_core_bridge_event(state, &call_event(call), &call.to_json());
}

fn call(id: &str, status: ToolCallStatus, output: Option<&str>) -> ToolCall {
    let mut call = ToolCall::new(id.to_string(), format!("title of {id}"));
    call.status = status;
    call.raw_output = output.map(json);
    call
}

fn contents(state: &ChatState) -> Vec<&str> {
    state.messages.iter().map(|m| m.content.as_str()).collect()
}

#[test]
fn build_srcdoc_appends_height_reporter() {
    let out = build_srcdoc("<p>hi</p>");
    assert!(out.starts_with("<p>hi</p>"));
    assert!(
        out.contains("gander.iframe.height"),
        "srcdoc must carry the height-reporter postMessage tag",
    );
    assert!(
        out.contains("__ganderHeightReporter"),
        "srcdoc must carry the dedup guard",
    );
}

#[test]
fn build_srcdoc_is_idempotent_in_length_growth() {
    let out = build_srcdoc("");
    assert!(out.starts_with("<script>"));
    assert!(out.ends_with("</script>"));
}

#[test]
fn pieces_of_a_reply_make_one_message() {
    let mut state = ChatState::new();
    tell(&mut state, "{\"type\": \"agent_text\", \"content\": \"Hel\"}");
    tell(&mut state, "{\"type\": \"token\", \"content\": \"lo\"}");
    assert_eq!(contents(&state), ["Hello"]);
    assert!(state.messages[0].streaming);
    tell(&mut state, "{\"type\": \"done\"}");
    assert!(!state.messages[0].streaming);
    tell(&mut state, "{\"type\": \"agent_text\", \"content\": \"Again\"}");
    assert_eq!(contents(&state), ["Hello", "Again"]);
}

#[test]
fn a_prompt_is_trimmed_and_goes_out_in_turn() {
    let mut state = ChatState::new();
    state.input_text = "  hi \n".to_string();
    assert_eq!(submit(&mut state), Some("hi".to_string()));
    assert_eq!(state.input_text, "");
    assert!(state.sending);
    assert_eq!(contents(&state), ["hi", ""]);
    assert_eq!(state.messages[0].role, Role::User);

    state.input_text = "more".to_string();
    assert_eq!(submit(&mut state), None);
    assert_eq!(state.input_text, "more");
    tell(&mut state, "{\"type\": \"done\"}");
    assert_eq!(submit(&mut state), Some("more".to_string()));
    tell(&mut state, "{\"type\": \"done\"}");
    state.input_text = " \t".to_string();
    assert_eq!(submit(&mut state), None);
}

#[test]
fn an_error_ends_the_reply() {
    let mut state = ChatState::new();
    state.input_text = "hi".to_string();
    submit(&mut state);
    tell(&mut state, "{\"type\": \"error\", \"message\": \"boom\"}");
    assert!(!state.sending);
    assert_eq!(state.messages[1].error.as_deref(), Some("boom"));
}

#[test]
fn history_is_shown_when_its_replay_ends() {
    let mut state = ChatState::new();
    tell(&mut state, "{\"type\": \"session_load_start\"}");
    assert!(state.replaying);
    tell(&mut state, "{\"type\": \"user_text\", \"content\": \"q\"}");
    tell(&mut state, "{\"type\": \"agent_text\", \"content\": \"a\"}");
    assert!(state.messages.is_empty());
    tell(&mut state, "{\"type\": \"session_load_end\"}");
    assert!(!state.replaying);
    assert_eq!(contents(&state), ["q", "a"]);
    assert!(state.messages.iter().all(|m| !m.streaming));
}

#[test]
fn a_snapshot_stays_on_its_card() {
    let mut state = ChatState::new();
    tell_call(&mut state, &call("1", ToolCallStatus::Pending, None));
    tell_call(&mut state, &call("2", ToolCallStatus::Pending, None));
    let done = call("1", ToolCallStatus::Completed, Some("{\"x\": 1}"));
    tell_call(&mut state, &done);
    assert_eq!(state.messages.len(), 2);
    assert_eq!(state.messages[0].content, done.to_text());
    assert!(!state.messages[0].streaming);
    assert!(state.messages[1].streaming);
    assert!(!state.messages[0].ui_pending);
}

#[test]
fn a_panel_reaches_the_card_of_its_call() {
    let mut state = ChatState::new();
    let done = call(
        "1",
        ToolCallStatus::Completed,
        Some("{\"resourceUri\": \"ui://x/y\"}"),
    );
    tell_call(&mut state, &done);
    assert!(state.messages[0].ui_pending);
    assert!(matches!(panel(&state.messages[0]), Panel::Placeholder));
    tell(
        &mut state,
        "{\"type\": \"tool_resource\", \"tool_call_id\": \"1\", \"html\": \"<b>\"}",
    );
    assert!(!state.messages[0].ui_pending);
    match panel(&state.messages[0]) {
        Panel::Frame { name, srcdoc } => {
            assert_eq!(name, "1");
            assert_eq!(srcdoc, build_srcdoc("<b>"));
        }
        other => panic!("expected a frame, got {other:?}"),
    }
    let before = contents(&state).len();
    tell(
        &mut state,
        "{\"type\": \"tool_resource\", \"tool_call_id\": \"unknown\", \"html\": \"<i>\"}",
    );
    assert_eq!(contents(&state).len(), before);
}

#[test]
fn a_replay_comes_up_at_once() {
    let mut state = ChatState::new();
    tell(&mut state, "{\"type\": \"user_text\", \"content\": \"old\"}");
    tell(&mut state, "{\"type\": \"session_load_start\"}");
    assert!(state.messages.is_empty());
    tell(&mut state, "{\"type\": \"user_text\", \"content\": \"q\"}");
    assert!(state.messages.is_empty());
    let done = call("1", ToolCallStatus::Completed, None);
    tell_call(&mut state, &done);
    assert!(state.messages.is_empty());
    tell(&mut state, "{\"type\": \"done\"}");
    tell(&mut state, "{\"type\": \"agent_text\", \"content\": \"a\"}");
    assert!(state.messages.is_empty());
    assert!(state.replay_buffer[2].streaming);
    tell(&mut state, "{\"type\": \"session_load_end\"}");
    assert_eq!(contents(&state), ["q", done.to_text().as_str(), "a"]);
    assert!(!state.messages[2].streaming);
    assert!(state.replay_buffer.is_empty());
    assert_eq!(state.in_flight, None);
    assert!(!state.replaying);
}

#[test]
fn a_tree_says_what_its_call_is() {
    let tree = json(
        "{\"toolCallId\": \"1\", \"title\": \"T\", \"status\": \"failed\", \"rawInput\": [1], \"rawOutput\": {\"resourceUri\": \"ui://x\"}}",
    );
    let said = call_in("snapshot".to_string(), &tree);
    assert_eq!(said.text, "snapshot");
    assert_eq!(said.tool_call_id, "1");
    assert!(said.is_done);
    assert!(said.ui_pending);
    assert_eq!(parse_tool_title(&tree), "T");
    assert_eq!(tool_status_class(&tree), "failure");
    let shown: Vec<(&str, &str)> = parse_tool_io(&tree).iter().map(|s| (s.label, s.key)).collect();
    assert_eq!(shown, [("Input", "rawInput"), ("Output", "rawOutput")]);

    let mut state = ChatState::new();
    state.tool_call(said);
    match render_message(&state.messages[0], &tree) {
        Rendered::Card(card) => {
            assert_eq!(card.title, "T");
            assert_eq!(card.spine_class, "tool-call-spine tool-call-spine--failure");
            assert_eq!(card.chevron_class, "tool-call-chevron");
            assert!(card.body.is_none());
        }
        other => panic!("expected a card, got {other:?}"),
    }
    state.messages[0].expanded = true;
    state.messages[0].visible = true;
    match render_message(&state.messages[0], &tree) {
        Rendered::Card(card) => assert_eq!(card.body.unwrap().len(), 2),
        other => panic!("expected a card, got {other:?}"),
    }

    let nothing = call_in("no json".to_string(), &Json::Null);
    assert_eq!(nothing.tool_call_id, "");
    assert!(!nothing.is_done && !nothing.ui_pending);
    assert_eq!(parse_tool_title(&Json::Null), "(tool)");
    assert_eq!(tool_status_class(&Json::Null), "pending");
    assert!(parse_tool_io(&Json::Null).is_empty());
}

#[test]
fn a_card_shows_the_call() {
    let done = call("1", ToolCallStatus::Completed, Some("{\"x\": 1}")).to_json();
    assert_eq!(parse_tool_title(&done), "title of 1");
    assert_eq!(tool_status_class(&done), "success");
    let shown = parse_tool_io(&done);
    assert_eq!(shown.len(), 1);
    assert_eq!(shown[0].key, "rawOutput");
    assert!(parse_tool_io(&json("{\"rawInput\": null}")).is_empty());
    assert_eq!(
        tool_status_class(&call("1", ToolCallStatus::InProgress, None).to_json()),
        "running"
    );
    assert_eq!(
        tool_status_class(&call("1", ToolCallStatus::Failed, None).to_json()),
        "failure"
    );
    assert_eq!(
        tool_status_class(&call("1", ToolCallStatus::Pending, None).to_json()),
        "pending"
    );
    assert!(is_terminal_status("completed") && is_terminal_status("failed"));
    assert!(!is_terminal_status("in_progress"));
}

#[test]
fn a_bubble_is_rendered_from_markdown() {
    let mut state = ChatState::new();
    tell(&mut state, "{\"type\": \"agent_text\", \"content\": \"**b**\"}");
    match render_message(&state.messages[0], &Json::Null) {
        Rendered::Bubble(bubble) => {
            assert_eq!(bubble.class, "message message--assistant");
            assert_eq!(bubble.html.as_deref(), Some("<p><strong>b</strong></p>\n"));
            assert!(bubble.cursor);
        }
        other => panic!("expected a bubble, got {other:?}"),
    }
    let failed = call("1", ToolCallStatus::Failed, None);
    tell_call(&mut state, &failed);
    toggle_expanded(&mut state.messages[1]);
    match render_message(&state.messages[1], &failed.to_json()) {
        Rendered::Card(card) => {
            assert_eq!(card.spine_class, "tool-call-spine tool-call-spine--failure");
            assert_eq!(card.chevron_class, "tool-call-chevron tool-call-chevron--open");
            assert!(card.body.is_some());
        }
        other => panic!("expected a card, got {other:?}"),
    }
}

#[test]
fn markdown_extensions_are_on() {
    assert_eq!(
        gander::markdown::render("~~gone~~"),
        "<p><del>gone</del></p>\n"
    );
    assert!(gander::markdown::render("|a|\n|-|\n|b|").contains("<table>"));
    assert!(gander::markdown::render("- [x] done").contains("checkbox"));
}

#[test]
fn the_session_list_leaves_out_sessions_without_id() {
    let event = json(
        "{\"sessions\": [{\"id\": \"a\", \"label\": \"A\", \"last_active\": \"t\"}, {\"label\": \"B\"}, {\"id\": \"c\"}, {\"id\": \"\"}]}",
    );
    let entries = parse_session_entries(&event);
    assert_eq!(entries.len(), 2);
    assert_eq!(entries[0].label, "A");
    assert_eq!(entries[0].last_active.as_deref(), Some("t"));
    assert_eq!(entries[1].id, "c");
    assert_eq!(entries[1].label, "Session");

    let mut state = ChatState::new();
    tell(&mut state, "{\"type\": \"session_list\", \"sessions\": [{\"id\": \"a\"}]}");
    assert_eq!(state.sessions.len(), 1);
    tell(&mut state, "{\"type\": \"session_list\"}");
    assert!(state.sessions.is_empty());
}

#[test]
fn an_active_session_starts_empty() {
    let mut state = ChatState::new();
    tell(&mut state, "{\"type\": \"user_text\", \"content\": \"old\"}");
    tell(&mut state, "{\"type\": \"session_active\", \"id\": \"s\"}");
    assert!(state.messages.is_empty());
    assert_eq!(state.active_session_id.as_deref(), Some("s"));
}

#[test]
fn the_footer_follows_the_session_info() {
    let mut state = ChatState::new();
    tell(
        &mut state,
        "{\"type\": \"session_info\", \"cwd\": \"/w\", \"model\": \"m\", \"tool_count\": 3}",
    );
    assert_eq!(state.footer_cwd.as_deref(), Some("/w"));
    assert_eq!(state.footer_model.as_deref(), Some("m"));
    assert_eq!(state.footer_tool_count, Some(3));
}

#[test]
fn all_sessions_arrive_or_fail() {
    let mut state = ChatState::new();
    tell(&mut state, "{\"type\": \"all_sessions_list\", \"sessions\": [{\"id\": \"a\"}]}");
    assert!(matches!(&state.all_sessions, AllSessionsState::Loaded(list) if list.len() == 1));
    tell(&mut state, "{\"type\": \"all_sessions_error\"}");
    assert!(matches!(&state.all_sessions, AllSessionsState::Failed(m) if m == "Failed to load sessions"));
    assert_eq!(state.pane_view, ChatPaneView::Chat);
}

#[test]
fn unknown_events_change_nothing() {
    let mut state = ChatState::new();
    tell(&mut state, "{\"type\": \"user_text\", \"content\": \"q\"}");
    tell(&mut state, "{\"type\": \"weather\"}");
    tell(&mut state, "{}");
    tell(&mut state, "7");
    assert_eq!(contents(&state), ["q"]);
}
