//! What happens around the program's main window: the panic hook and the build
//! tasks.

use crate::text::{contains, contains_text};
use vstd::prelude::*;

verus! {

/// The message of a panic, from its payload as a literal and as an owned
/// string. Any other payload has none.
pub fn panic_message<'a>(literal: Option<&'a str>, owned: Option<&'a String>) -> (res: Option<
    &'a str,
>)
    ensures
        match res {
            Some(message) => if literal is Some {
                message@ == literal->0@
            } else {
                owned is Some && message@ == owned->0@
            },
            None => literal is None && owned is None,
        },
{
    match literal {
        Some(message) => Some(message),
        None => match owned {
            Some(message) => Some(message.as_str()),
            None => None,
        },
    }
}

/// A panic of winit's input method on shutdown, when the window is gone.
pub open spec fn shutdown_noise(message: Seq<char>) -> bool {
    contains_text(message, "Failed to unfocus input context"@) && contains_text(
        message,
        "description: \"GLXBadWindow\""@,
    )
}

/// Whether a panic is the one that winit raises on shutdown, when the window
/// that held the input focus is gone.
pub fn is_winit_xim_glx_bad_window_panic_message(message: &str) -> (res: bool)
    ensures
        res == shutdown_noise(message@),
{
    contains(message, "Failed to unfocus input context") && contains(
        message,
        "description: \"GLXBadWindow\"",
    )
}

/// What the panic hook prints in place of the default report: `None` leaves the
/// panic to the default hook.
pub fn panic_notice(message: Option<&str>) -> (res: Option<&'static str>)
    ensures
        match res {
            Some(notice) => message is Some && shutdown_noise(message->0@) && notice@
                == "gander: GLXBadWindow on shutdown (winit/xim bug, ignored)"@,
            None => message is Some ==> !shutdown_noise(message->0@),
        },
{
    match message {
        Some(message) => if is_winit_xim_glx_bad_window_panic_message(message) {
            Some("gander: GLXBadWindow on shutdown (winit/xim bug, ignored)")
        } else {
            None
        },
        None => None,
    }
}

/// A step of the task that builds the chat page.
#[derive(Clone, Copy, Debug, PartialEq, Eq, Structural)]
pub enum BuildStep {
    /// Give up: the bundler is not installed.
    NoBundler,
    /// Run the bundler.
    Bundle,
}

/// What is printed where the bundler is not installed.
pub open spec fn no_bundler_words() -> Seq<char> {
    "error: `trunk` not found on PATH.\nInstall it with:  cargo install trunk\nThen re-run:      cargo xtask build-chat"@
}

/// The first step of the build: the bundler is probed for before it is run.
/// `probe` tells whether the probe ran and succeeded.
pub fn build_chat(probe: Option<bool>) -> (res: BuildStep)
    ensures
        res == (if probe == Some(true) {
            BuildStep::Bundle
        } else {
            BuildStep::NoBundler
        }),
{
    match probe {
        Some(true) => BuildStep::Bundle,
        _ => BuildStep::NoBundler,
    }
}

/// What is printed where the bundler is not installed.
pub fn no_bundler() -> (res: &'static str)
    ensures
        res@ == no_bundler_words(),
{
    "error: `trunk` not found on PATH.\nInstall it with:  cargo install trunk\nThen re-run:      cargo xtask build-chat"
}

/// The arguments that the bundler is run with.
pub fn bundler_args(release: bool) -> (res: Vec<&'static str>)
    ensures
        res.len() == (if release {
            2int
        } else {
            1int
        }),
        res[0]@ == "build"@,
        release ==> res[1]@ == "--release"@,
{
    let mut args: Vec<&'static str> = Vec::new();
    args.push("build");
    if release {
        args.push("--release");
    }
    args
}

} // verus!
