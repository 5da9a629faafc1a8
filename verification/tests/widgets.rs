//! The sidebar, the footer, the input row and the bridge.

use gander::chat::bridge::{is_available, post_json, post_value, send, subscribe, Host, HostCall};
use gander::chat::events::ChatState;
use gander::chat::footer::{footer_text, footer_tools};
use gander::chat::input::{input_disabled, input_placeholder, key_activates, key_submits};
use gander::chat::sidebar::{
    back_to_chat, chevron_class, concertina_label, is_active, listing_class, open_all_sessions,
    ready_message, refresh_all_sessions, row_class, select_session, session_age, session_class,
    Concertina, SessionsSection,
};
use gander::chat::time_ago::time_ago;
use gander::chat::types::{AllSessionsState, ChatPaneView, SessionEntry};
use gander::json::Json;

const MINUTE: i64 = 60_000;
const HOUR: i64 = 60 * MINUTE;
const DAY: i64 = 24 * HOUR;

#[test]
fn a_time_is_told_in_words() {
    let cases = [
        (None, "(unknown)"),
        (Some(-1), "just now"),
        (Some(0), "just now"),
        (Some(2 * MINUTE - 1), "just now"),
        (Some(2 * MINUTE), "2m ago"),
        (Some(59 * MINUTE), "59m ago"),
        (Some(HOUR), "1h ago"),
        (Some(2 * HOUR - 1), "1h ago"),
        (Some(23 * HOUR), "23h ago"),
        (Some(DAY), "yesterday"),
        (Some(2 * DAY), "2d ago"),
        (Some(6 * DAY), "6d ago"),
        (Some(7 * DAY), "1w ago"),
        (Some(13 * DAY), "1w ago"),
        (Some(29 * DAY), "4w ago"),
        (Some(30 * DAY), "1mo ago"),
        (Some(364 * DAY), "12mo ago"),
        (Some(365 * DAY), "1y ago"),
        (Some(800 * DAY), "2y ago"),
    ];
    for (elapsed, words) in cases {
        assert_eq!(time_ago(elapsed), words, "{elapsed:?}");
    }
}

#[test]
fn a_session_without_a_time_shows_none() {
    let mut entry = SessionEntry {
        id: "s".to_string(),
        label: "S".to_string(),
        last_active: None,
    };
    assert_eq!(session_age(&entry, None), "");
    entry.last_active = Some("2024-01-01".to_string());
    assert_eq!(session_age(&entry, Some(DAY)), "yesterday");
    assert_eq!(session_age(&entry, None), "(unknown)");
}

#[test]
fn the_footer_shows_a_dash_for_what_is_unknown() {
    assert_eq!(footer_text(&None), "—");
    assert_eq!(footer_text(&Some("/w".to_string())), "/w");
    assert_eq!(footer_tools(None), "—");
    assert_eq!(footer_tools(Some(0)), "0 tools");
    assert_eq!(footer_tools(Some(42)), "42 tools");
}

#[test]
fn the_input_is_closed_while_a_reply_or_replay_is_on() {
    let mut state = ChatState::new();
    assert!(!input_disabled(&state));
    assert_eq!(input_placeholder(&state), "Message…");
    state.sending = true;
    assert!(input_disabled(&state));
    assert_eq!(input_placeholder(&state), "Message…");
    state.sending = false;
    state.replaying = true;
    assert!(input_disabled(&state));
    assert_eq!(input_placeholder(&state), "Loading session…");
    assert!(key_submits("Enter", false));
    assert!(!key_submits("Enter", true));
    assert!(!key_submits("a", false));
    assert!(key_activates("Enter") && key_activates(" ") && !key_activates("a"));
}

#[test]
fn the_sessions_section_toggles() {
    let mut section = SessionsSection::new();
    assert!(section.open);
    section.toggle();
    assert!(!section.open);
    assert!(section.on_key("Enter"));
    assert!(section.open);
    assert!(section.on_key(" "));
    assert!(!section.open);
    assert!(!section.on_key("x"));
    assert!(!section.open);
    assert_eq!(section.new_session().to_text(), "{\"type\":\"session_new\"}");
    assert!(section.open);
}

#[test]
fn one_section_of_the_concertina_is_open() {
    let mut concertina = Concertina::new();
    assert!(!concertina.is_open(0));
    concertina.click(0);
    assert!(concertina.is_open(0));
    concertina.click(1);
    assert!(concertina.is_open(1) && !concertina.is_open(0));
    concertina.click(1);
    assert!(!concertina.is_open(1));
    assert_eq!(concertina_label(0), Some("Extensions"));
    assert_eq!(concertina_label(1), Some("Settings"));
    assert_eq!(concertina_label(2), None);
    assert_eq!(row_class(true), "concertina-row concertina-row--open");
    assert_eq!(row_class(false), "concertina-row");
    assert_eq!(chevron_class(true), "concertina-chevron concertina-chevron--open");
    assert_eq!(chevron_class(false), "concertina-chevron");
}

#[test]
fn the_listing_of_all_sessions_is_asked_for_once() {
    let mut state = ChatState::new();
    let message = open_all_sessions(&mut state).unwrap();
    assert_eq!(message.to_text(), "{\"type\":\"list_all_sessions\"}");
    assert_eq!(state.pane_view, ChatPaneView::AllSessions);
    assert!(matches!(state.all_sessions, AllSessionsState::Loading));
    back_to_chat(&mut state);
    assert_eq!(state.pane_view, ChatPaneView::Chat);
    assert!(open_all_sessions(&mut state).is_none());

    state.all_sessions = AllSessionsState::Loaded(Vec::new());
    let message = refresh_all_sessions(&mut state);
    assert_eq!(message.to_text(), "{\"type\":\"list_all_sessions\"}");
    assert!(matches!(state.all_sessions, AllSessionsState::Loading));

    let message = select_session(&mut state, "s");
    assert_eq!(message.to_text(), "{\"type\":\"session_select\",\"id\":\"s\"}");
    assert_eq!(state.pane_view, ChatPaneView::Chat);
    assert_eq!(ready_message().to_text(), "{\"type\":\"ready\"}");
}

#[test]
fn the_active_session_is_marked() {
    assert!(is_active(&Some("s".to_string()), "s"));
    assert!(!is_active(&Some("s".to_string()), "t"));
    assert!(!is_active(&None, "s"));
    assert_eq!(session_class(true), "session-item session-item--active");
    assert_eq!(session_class(false), "session-item");
    assert_eq!(listing_class(true), "all-sessions-row all-sessions-row--active");
    assert_eq!(listing_class(false), "all-sessions-row");
}

#[test]
fn the_bridge_needs_a_host() {
    for host in [Host::NoWindow, Host::Unreadable, Host::Undefined, Host::Null] {
        assert!(!is_available(host));
        assert!(matches!(send(host, "x"), HostCall::Warn(m)
            if m == "gander-chat: window.gander is not available; send() is a no-op"));
        assert!(matches!(post_json(host, "{}", None), HostCall::Warn(m)
            if m == "gander-chat: window.gander is not available; post_json() is a no-op"));
        assert!(matches!(post_value(host, Json::Null), HostCall::Warn(m)
            if m == "gander-chat: window.gander is not available; post_value() is a no-op"));
        assert_eq!(
            subscribe(host).as_deref(),
            Some("gander-chat: window.gander is not available; subscribe() is a no-op")
        );
    }
    assert!(is_available(Host::Object));
    assert!(matches!(send(Host::Object, "x"), HostCall::Call(Json::String(s)) if s == "x"));
    assert!(matches!(post_json(Host::Object, "1", Some(Json::Int(1))),
        HostCall::Call(Json::Int(1))));
    assert!(matches!(post_json(Host::Object, "{", None), HostCall::Reject(m)
        if m == "gander-chat: post_json() received invalid JSON: {"));
    assert!(matches!(post_value(Host::Object, Json::Int(1)), HostCall::Call(Json::Int(1))));
    assert_eq!(subscribe(Host::Object), None);
}
