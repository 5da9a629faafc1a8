//! What a tab's page asks of the host. Each request is a JSON object whose
//! `type` says what it is.

use crate::acp::worker::AcpCommandView;
use crate::acp::AcpCommand;
use crate::app::update::TabNavDir;
use crate::json::{parsed, Json, JsonView};
use crate::text::str_eq;
use vstd::prelude::*;

verus! {

/// A request of a tab's page.
#[derive(Debug)]
pub enum PageRequest {
    /// For the connection of the tab.
    Command(AcpCommand),
    /// For the window: go to another tab.
    Navigate(TabNavDir),
}

/// The model of a [`PageRequest`].
pub ghost enum PageRequestView {
    Command(AcpCommandView),
    Navigate(TabNavDir),
}

impl View for PageRequest {
    type V = PageRequestView;

    open spec fn view(&self) -> PageRequestView {
        match self {
            PageRequest::Command(command) => PageRequestView::Command(command@),
            PageRequest::Navigate(dir) => PageRequestView::Navigate(*dir),
        }
    }
}

/// The request that a message of the page is: none where its type is unknown,
/// or where the text that goes with it is missing.
pub open spec fn request_of(message: JsonView) -> Option<PageRequestView> {
    match message.get_str("type"@) {
        Some(kind) => if kind == "ready"@ {
            Some(PageRequestView::Command(AcpCommandView::RequestSessionInfo))
        } else if kind == "session_new"@ {
            Some(PageRequestView::Command(AcpCommandView::SessionNew))
        } else if kind == "session_select"@ {
            match message.get_str("id"@) {
                Some(id) => Some(PageRequestView::Command(AcpCommandView::SessionSelect(id))),
                None => None,
            }
        } else if kind == "send"@ {
            match message.get_str("text"@) {
                Some(text) => Some(PageRequestView::Command(AcpCommandView::Prompt(text))),
                None => None,
            }
        } else if kind == "prev_tab"@ {
            Some(PageRequestView::Navigate(TabNavDir::Prev))
        } else if kind == "next_tab"@ {
            Some(PageRequestView::Navigate(TabNavDir::Next))
        } else {
            None
        },
        None => None,
    }
}

/// Reads a message of the page. One that is no JSON asks for nothing.
pub fn page_request(text: &str) -> (res: Option<PageRequest>)
    ensures
        match parsed(text@) {
            Ok(message) => request_of(message) == (match res {
                Some(request) => Some(request@),
                None => None,
            }),
            Err(_) => res is None,
        },
{
    match Json::parse(text) {
        Ok(message) => request_in(&message),
        Err(_) => None,
    }
}

/// The request that a message of the page is.
pub fn request_in(message: &Json) -> (res: Option<PageRequest>)
    ensures
        request_of(message@) == (match res {
            Some(request) => Some(request@),
            None => None,
        }),
{
    let kind: &str = match message.get_str("type") {
        Some(kind) => kind,
        None => {
            return None;
        },
    };
    if str_eq(kind, "ready") {
        Some(PageRequest::Command(AcpCommand::RequestSessionInfo))
    } else if str_eq(kind, "session_new") {
        Some(PageRequest::Command(AcpCommand::SessionNew))
    } else if str_eq(kind, "session_select") {
        match message.get_str("id") {
            Some(id) => Some(PageRequest::Command(AcpCommand::SessionSelect(id.to_owned()))),
            None => None,
        }
    } else if str_eq(kind, "send") {
        match message.get_str("text") {
            Some(text) => Some(PageRequest::Command(AcpCommand::Prompt(text.to_owned()))),
            None => None,
        }
    } else if str_eq(kind, "prev_tab") {
        Some(PageRequest::Navigate(TabNavDir::Prev))
    } else if str_eq(kind, "next_tab") {
        Some(PageRequest::Navigate(TabNavDir::Next))
    } else {
        None
    }
}

/// The messages that the chat page posts are understood: selecting a session
/// asks the connection for that session, and so on.
pub proof fn law_posts_are_understood(id: Seq<char>)
    ensures
        request_of(crate::chat::sidebar::select_command(id)) == Some(
            PageRequestView::Command(AcpCommandView::SessionSelect(id)),
        ),
        request_of(crate::chat::sidebar::bare_command("session_new"@)) == Some(
            PageRequestView::Command(AcpCommandView::SessionNew),
        ),
        request_of(crate::chat::sidebar::bare_command("ready"@)) == Some(
            PageRequestView::Command(AcpCommandView::RequestSessionInfo),
        ),
{
    reveal_strlit("type");
    reveal_strlit("id");
    reveal_strlit("ready");
    reveal_strlit("session_new");
    reveal_strlit("session_select");
    assert("type"@.len() == 4 && "id"@.len() == 2 && "ready"@.len() == 5);
    assert("session_new"@.len() == 11 && "session_select"@.len() == 14);
    reveal_with_fuel(crate::json::lookup, 3);
    let members = crate::chat::sidebar::select_command(id)->Object_0;
    assert(members.drop_first()[0] == members[1]);
}

/// What a page asks for reaches the one it is for, with what goes with it: a
/// prompt and the choice of a session their texts, and a step between tabs its
/// direction. A message of another type, or without its text, asks for nothing.
pub proof fn law_requests(message: JsonView, kind: Seq<char>)
    requires
        message.get("type"@) == Some(JsonView::String(kind)),
    ensures
        kind == "ready"@ ==> request_of(message) == Some(
            PageRequestView::Command(AcpCommandView::RequestSessionInfo),
        ),
        kind == "session_new"@ ==> request_of(message) == Some(
            PageRequestView::Command(AcpCommandView::SessionNew),
        ),
        kind == "prev_tab"@ ==> request_of(message) == Some(
            PageRequestView::Navigate(TabNavDir::Prev),
        ),
        kind == "next_tab"@ ==> request_of(message) == Some(
            PageRequestView::Navigate(TabNavDir::Next),
        ),
        kind == "session_select"@ ==> (match message.get("id"@) {
            Some(JsonView::String(id)) => request_of(message) == Some(
                PageRequestView::Command(AcpCommandView::SessionSelect(id)),
            ),
            _ => request_of(message) is None,
        }),
        kind == "send"@ ==> (match message.get("text"@) {
            Some(JsonView::String(text)) => request_of(message) == Some(
                PageRequestView::Command(AcpCommandView::Prompt(text)),
            ),
            _ => request_of(message) is None,
        }),
        kind != "ready"@ && kind != "session_new"@ && kind != "session_select"@ && kind != "send"@
            && kind != "prev_tab"@ && kind != "next_tab"@ ==> request_of(message) is None,
{
    reveal_strlit("ready");
    reveal_strlit("session_new");
    reveal_strlit("session_select");
    reveal_strlit("send");
    reveal_strlit("prev_tab");
    reveal_strlit("next_tab");
    assert("ready"@.len() == 5 && "session_new"@.len() == 11 && "session_select"@.len() == 14);
    assert("send"@.len() == 4 && "prev_tab"@.len() == 8 && "next_tab"@.len() == 8);
    assert("prev_tab"@[0] != "next_tab"@[0]);
}

} // verus!
