//! The panic hook and the build tasks.

use gander::startup::{
    build_chat, bundler_args, is_winit_xim_glx_bad_window_panic_message, no_bundler,
    panic_message, panic_notice, BuildStep,
};

#[test]
fn matches_winit_xim_glx_bad_window_panic_message() {
    let message = "Failed to unfocus input context: XError { description: \"GLXBadWindow\", error_code: 168, request_code: 149, minor_code: 32 }";
    assert!(is_winit_xim_glx_bad_window_panic_message(message));
}

#[test]
fn does_not_match_other_panics() {
    assert!(!is_winit_xim_glx_bad_window_panic_message(
        "Failed to unfocus input context: XError { description: \"BadWindow\" }"
    ));
    assert!(!is_winit_xim_glx_bad_window_panic_message(
        "thread 'main' panicked at something else"
    ));
}

#[test]
fn only_the_known_panic_is_replaced() {
    let known = "Failed to unfocus input context: XError { description: \"GLXBadWindow\" }";
    assert_eq!(
        panic_notice(Some(known)),
        Some("gander: GLXBadWindow on shutdown (winit/xim bug, ignored)")
    );
    assert_eq!(panic_notice(Some("boom")), None);
    assert_eq!(panic_notice(None), None);
}

#[test]
fn a_panic_message_is_a_literal_or_a_string() {
    let owned = "owned".to_string();
    assert_eq!(panic_message(Some("literal"), None), Some("literal"));
    assert_eq!(panic_message(None, Some(&owned)), Some("owned"));
    assert_eq!(panic_message(Some("literal"), Some(&owned)), Some("literal"));
    assert_eq!(panic_message(None, None), None);
}

#[test]
fn the_chat_page_is_built_where_the_bundler_is_found() {
    assert_eq!(build_chat(Some(true)), BuildStep::Bundle);
    assert_eq!(build_chat(Some(false)), BuildStep::NoBundler);
    assert_eq!(build_chat(None), BuildStep::NoBundler);
    assert!(no_bundler().starts_with("error: `trunk` not found on PATH.\n"));
    assert_eq!(bundler_args(false), ["build"]);
    assert_eq!(bundler_args(true), ["build", "--release"]);
}
