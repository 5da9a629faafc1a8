//! The pages of the tabs.

use base64::Engine;
use gander::acp::AcpCommand;
use gander::app::update::TabNavDir;
use gander::chat::events::ChatState;
use gander::chat::sidebar::{ready_message, select_session, SessionsSection};
use gander::webview::bridge::{page_request, request_in, PageRequest};
use gander::webview::{build_data_url, WebviewStore};

fn page(url: &str) -> String {
    let encoded = url.strip_prefix("data:text/html;base64,").unwrap();
    let bytes = base64::engine::general_purpose::STANDARD.decode(encoded).unwrap();
    String::from_utf8(bytes).unwrap()
}

#[test]
fn a_page_names_its_profile() {
    let html = page(&build_data_url("work"));
    assert!(html.starts_with("<!DOCTYPE html>\n<html>\n<head><meta charset=\"utf-8\"><style>\n"));
    assert!(html.contains("\n<h1>goose: work</h1>\n"));
    assert!(html.ends_with("<p>WebKitGTK webview — placeholder</p>\n</body>\n</html>"));
}

#[test]
fn urls_differ_by_profile_of_any_length() {
    for profile in ["", "a", "ab", "abc", "ä", "€uro"] {
        let html = page(&build_data_url(profile));
        assert!(html.contains(&format!("<h1>goose: {profile}</h1>")));
    }
}

#[test]
fn pages_are_hidden_until_they_are_shown() {
    let mut store = WebviewStore::new();
    store.claim_pending(1, true);
    store.claim_pending(2, true);
    store.claim_pending(3, false);
    assert_eq!(store.visible(1), Some(false));
    assert_eq!(store.visible(3), None);

    store.show_only(2);
    assert_eq!(store.visible(1), Some(false));
    assert_eq!(store.visible(2), Some(true));
    store.claim_pending(4, true);
    assert_eq!(store.visible(4), Some(false));
    store.show_only(1);
    assert_eq!(store.visible(1), Some(true));
    assert_eq!(store.visible(2), Some(false));

    store.hide_all();
    assert_eq!(store.visible(1), Some(false));
    store.destroy(1);
    assert_eq!(store.visible(1), None);
    assert_eq!(store.visible(2), Some(false));
    store.claim_pending(2, true);
    assert_eq!(store.visible(2), Some(false));
}

#[test]
fn requests_of_the_page_reach_the_connection() {
    assert!(matches!(
        request_in(&ready_message()),
        Some(PageRequest::Command(AcpCommand::RequestSessionInfo))
    ));
    assert!(matches!(
        request_in(&SessionsSection::new().new_session()),
        Some(PageRequest::Command(AcpCommand::SessionNew))
    ));
    let select = select_session(&mut ChatState::new(), "s");
    assert!(matches!(
        request_in(&select),
        Some(PageRequest::Command(AcpCommand::SessionSelect(id))) if id == "s"
    ));
    assert!(matches!(
        page_request("{\"type\": \"send\", \"text\": \"hi\"}"),
        Some(PageRequest::Command(AcpCommand::Prompt(text))) if text == "hi"
    ));
    assert!(matches!(
        page_request("{\"type\": \"next_tab\"}"),
        Some(PageRequest::Navigate(TabNavDir::Next))
    ));
    assert!(matches!(
        page_request("{\"type\": \"prev_tab\"}"),
        Some(PageRequest::Navigate(TabNavDir::Prev))
    ));
    assert!(page_request("{\"type\": \"send\"}").is_none());
    assert!(page_request("{\"type\": \"weather\"}").is_none());
    assert!(page_request("nonsense").is_none());
}
