//! The connection to geesed.

use gander::acp::ConnectError;
use gander::app::publish::format_acp_error;
use gander::transport::geesed::{acp_socket_path, runtime_dir, GeesedError, GeesedTransport};
use gander::transport::TransportError;
use std::path::PathBuf;

fn path(text: &str) -> Option<PathBuf> {
    Some(PathBuf::from(text))
}

#[test]
fn the_socket_is_below_the_runtime_directory() {
    assert_eq!(
        acp_socket_path(path("/run/user/1"), path("/home/me")),
        PathBuf::from("/run/user/1/geese/acp.sock")
    );
    assert_eq!(
        acp_socket_path(None, path("/home/me")),
        PathBuf::from("/home/me/.cache/geese/acp.sock")
    );
    assert_eq!(runtime_dir(None, None), PathBuf::from("/tmp/.cache/geese"));
}

#[test]
fn a_profile_is_asked_for_on_one_line() {
    assert_eq!(
        GeesedTransport::request_line("my \"profile\""),
        "{\"jsonrpc\":\"2.0\",\"id\":1,\"method\":\"connect_profile\",\"params\":{\"name\":\"my \\\"profile\\\"\"}}\n"
    );
}

#[test]
fn an_answer_without_error_is_accepted() {
    assert!(GeesedTransport::accept_line("{\"jsonrpc\":\"2.0\",\"id\":1,\"result\":{}}").is_ok());
}

#[test]
fn each_error_code_is_told_apart() {
    let line = |code: i32| {
        format!("{{\"id\":1,\"error\":{{\"code\":{code},\"message\":\"m\"}}}}")
    };
    assert!(matches!(
        GeesedTransport::accept_line(&line(-32001)),
        Err(GeesedError::ProfileNotFound)
    ));
    assert!(matches!(
        GeesedTransport::accept_line(&line(-32020)),
        Err(GeesedError::ProfileInUse)
    ));
    assert!(matches!(
        GeesedTransport::accept_line(&line(-32010)),
        Err(GeesedError::GooseBinaryUnavailable(m)) if m == "m"
    ));
    assert!(matches!(
        GeesedTransport::accept_line(&line(-32011)),
        Err(GeesedError::SpawnFailed(m)) if m == "m"
    ));
    assert!(matches!(
        GeesedTransport::accept_line(&line(-1)),
        Err(GeesedError::Protocol(_))
    ));
}

#[test]
fn an_answer_that_is_no_json_breaks_the_protocol() {
    assert!(matches!(
        GeesedTransport::accept_line("nonsense"),
        Err(GeesedError::Protocol(_))
    ));
    assert!(matches!(
        GeesedTransport::accept_line(""),
        Err(GeesedError::Protocol(_))
    ));
}

#[test]
fn a_tab_shows_why_its_connection_failed() {
    let error: ConnectError = GeesedError::ProfileInUse;
    assert_eq!(
        format_acp_error(&error),
        "Profile already in use by another client"
    );
    assert_eq!(
        format_acp_error(&GeesedError::ProfileNotFound),
        "Profile not found"
    );
    assert_eq!(
        format_acp_error(&GeesedError::GooseBinaryUnavailable("x".to_string())),
        "Goose binary not found — set GEESE_GOOSE_BIN: x"
    );
    assert_eq!(
        format_acp_error(&GeesedError::SpawnFailed("x".to_string())),
        "Goose failed to spawn: x"
    );
    assert_eq!(
        format_acp_error(&GeesedError::SocketConnect("x".to_string())),
        "Could not connect to geesed: x"
    );
    assert_eq!(
        format_acp_error(&GeesedError::Protocol("x".to_string())),
        "ACP protocol error: x"
    );
}

#[test]
fn a_transport_error_keeps_the_words() {
    let error = GeesedError::SpawnFailed("x".to_string());
    let words = error.message();
    let transport = TransportError::from_geesed(error);
    assert!(transport.message().contains(&words));
}
