//! The bridge to the host, the page's `window.gander`.

use crate::json::Json;
use crate::text::{concat, concat3};
use vstd::prelude::*;

verus! {

/// What a look at `window.gander` found.
#[derive(Clone, Copy, Debug, PartialEq, Eq, Structural)]
pub enum Host {
    /// There is no window.
    NoWindow,
    /// The window could not be read.
    Unreadable,
    Undefined,
    Null,
    /// The object.
    Object,
}

/// Returns `true` if `window.gander` is available.
pub fn is_available(host: Host) -> (res: bool)
    ensures
        res == (host == Host::Object),
{
    match host {
        Host::Object => true,
        _ => false,
    }
}

/// What is to be done for a call of the host.
#[derive(Debug)]
pub enum HostCall {
    /// Nothing but a warning on the console.
    Warn(String),
    /// Nothing but an error on the console.
    Reject(String),
    /// Call the host with this value.
    Call(Json),
}

/// The warning for a call where there is no host.
pub open spec fn no_host(call: Seq<char>) -> Seq<char> {
    "gander-chat: window.gander is not available; "@ + call + " is a no-op"@
}

fn warn(call: &str) -> (res: HostCall)
    ensures
        res matches HostCall::Warn(words) && words@ == no_host(call@),
{
    HostCall::Warn(
        concat3("gander-chat: window.gander is not available; ", call, " is a no-op"),
    )
}

/// Sends the user's message.
pub fn send(host: Host, text: &str) -> (res: HostCall)
    ensures
        if host == Host::Object {
            res matches HostCall::Call(value) && value@ == crate::json::JsonView::String(text@)
        } else {
            res matches HostCall::Warn(words) && words@ == no_host("send()"@)
        },
{
    if is_available(host) {
        HostCall::Call(Json::String(text.to_owned()))
    } else {
        warn("send()")
    }
}

/// Posts a message that is given as JSON. `value` is what the page reads from
/// it, where it is JSON.
pub fn post_json(host: Host, json: &str, value: Option<Json>) -> (res: HostCall)
    ensures
        if host == Host::Object {
            match value {
                Some(value) => res matches HostCall::Call(posted) && posted@ == value@,
                None => res matches HostCall::Reject(words) && words@
                    == "gander-chat: post_json() received invalid JSON: "@ + json@,
            }
        } else {
            res matches HostCall::Warn(words) && words@ == no_host("post_json()"@)
        },
{
    if !is_available(host) {
        return warn("post_json()");
    }
    match value {
        Some(value) => HostCall::Call(value),
        None => HostCall::Reject(
            concat("gander-chat: post_json() received invalid JSON: ", json),
        ),
    }
}

/// Posts a message.
pub fn post_value(host: Host, value: Json) -> (res: HostCall)
    ensures
        if host == Host::Object {
            res matches HostCall::Call(posted) && posted@ == value@
        } else {
            res matches HostCall::Warn(words) && words@ == no_host("post_value()"@)
        },
{
    if is_available(host) {
        HostCall::Call(value)
    } else {
        warn("post_value()")
    }
}

/// The warning for a page that cannot subscribe to the host's events.
pub fn subscribe(host: Host) -> (warning: Option<String>)
    ensures
        match warning {
            Some(words) => host != Host::Object && words@ == no_host("subscribe()"@),
            None => host == Host::Object,
        },
{
    if is_available(host) {
        None
    } else {
        Some(
            concat3(
                "gander-chat: window.gander is not available; ",
                "subscribe()",
                " is a no-op",
            ),
        )
    }
}

} // verus!
