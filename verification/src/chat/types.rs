//! Messages and sessions of the chat page.

use crate::text::opt_text;
use vstd::prelude::*;

verus! {

/// Whether a message was written by the user or the assistant.
#[derive(Clone, Copy, Debug, PartialEq, Eq, Structural)]
pub enum Role {
    User,
    Assistant,
    /// A tool invocation or result.
    Tool,
}

/// A single chat message.
#[derive(Debug)]
pub struct ChatMessage {
    /// Stable, unique ID.
    pub id: u32,
    pub role: Role,
    /// Accumulated text. For a tool message the full tool-call snapshot as
    /// JSON, replaced on every update.
    pub content: String,
    /// `true` while the host is still streaming tokens for this message, or
    /// while the tool call is still in progress.
    pub streaming: bool,
    /// Set when the stream ended with an error.
    pub error: Option<String>,
    /// For tool messages: the tool call this card stands for.
    pub tool_call_id: Option<String>,
    /// HTML panel of the tool call, once it was fetched.
    pub ui_html: Option<String>,
    /// `true` while the panel is being fetched.
    pub ui_pending: bool,
    /// Whether the message lies in the mounted part of the list.
    pub visible: bool,
    /// Whether the user has expanded the card.
    pub expanded: bool,
}

/// The model of a [`ChatMessage`].
pub ghost struct MessageView {
    pub id: u32,
    pub role: Role,
    pub content: Seq<char>,
    pub streaming: bool,
    pub error: Option<Seq<char>>,
    pub tool_call_id: Option<Seq<char>>,
    pub ui_html: Option<Seq<char>>,
    pub ui_pending: bool,
    pub visible: bool,
    pub expanded: bool,
}

impl View for ChatMessage {
    type V = MessageView;

    open spec fn view(&self) -> MessageView {
        MessageView {
            id: self.id,
            role: self.role,
            content: self.content@,
            streaming: self.streaming,
            error: opt_text(self.error),
            tool_call_id: opt_text(self.tool_call_id),
            ui_html: opt_text(self.ui_html),
            ui_pending: self.ui_pending,
            visible: self.visible,
            expanded: self.expanded,
        }
    }
}

/// The models of a list of messages.
pub open spec fn message_views(messages: Seq<ChatMessage>) -> Seq<MessageView> {
    messages.map_values(|m: ChatMessage| m@)
}

impl MessageView {
    /// A message of the user.
    pub open spec fn user(id: u32, text: Seq<char>) -> MessageView {
        MessageView {
            id,
            role: Role::User,
            content: text,
            streaming: false,
            error: None,
            tool_call_id: None,
            ui_html: None,
            ui_pending: false,
            visible: true,
            expanded: false,
        }
    }

    /// A reply of the assistant that is yet to come.
    pub open spec fn assistant(id: u32) -> MessageView {
        MessageView {
            role: Role::Assistant,
            streaming: true,
            ..MessageView::user(id, Seq::empty())
        }
    }

    /// The card of a tool call in progress.
    pub open spec fn tool(id: u32, tool_call_id: Seq<char>, json: Seq<char>) -> MessageView {
        MessageView {
            role: Role::Tool,
            streaming: true,
            tool_call_id: Some(tool_call_id),
            ..MessageView::user(id, json)
        }
    }
}

impl ChatMessage {
    /// A message of the user.
    pub fn new_user(id: u32, text: &str) -> (res: ChatMessage)
        ensures
            res@ == MessageView::user(id, text@),
    {
        ChatMessage {
            id,
            role: Role::User,
            content: text.to_owned(),
            streaming: false,
            error: None,
            tool_call_id: None,
            ui_html: None,
            ui_pending: false,
            visible: true,
            expanded: false,
        }
    }

    /// A reply of the assistant that is yet to come.
    pub fn new_assistant(id: u32) -> (res: ChatMessage)
        ensures
            res@ == MessageView::assistant(id),
    {
        let res = ChatMessage {
            id,
            role: Role::Assistant,
            content: String::new(),
            streaming: true,
            error: None,
            tool_call_id: None,
            ui_html: None,
            ui_pending: false,
            visible: true,
            expanded: false,
        };
        assert(res.content@ =~= Seq::empty());
        res
    }

    /// The card of a tool call in progress.
    pub fn new_tool(id: u32, tool_call_id: String, json: String) -> (res: ChatMessage)
        ensures
            res@ == MessageView::tool(id, tool_call_id@, json@),
    {
        ChatMessage {
            id,
            role: Role::Tool,
            content: json,
            streaming: true,
            error: None,
            tool_call_id: Some(tool_call_id),
            ui_html: None,
            ui_pending: false,
            visible: true,
            expanded: false,
        }
    }
}

/// A session entry shown in the sidebar.
#[derive(Debug)]
pub struct SessionEntry {
    pub id: String,
    pub label: String,
    /// ISO 8601 time of the last activity, if the host gave one.
    pub last_active: Option<String>,
}

/// The model of a [`SessionEntry`].
pub ghost struct SessionEntryView {
    pub id: Seq<char>,
    pub label: Seq<char>,
    pub last_active: Option<Seq<char>>,
}

impl View for SessionEntry {
    type V = SessionEntryView;

    open spec fn view(&self) -> SessionEntryView {
        SessionEntryView {
            id: self.id@,
            label: self.label@,
            last_active: opt_text(self.last_active),
        }
    }
}

/// The models of a list of sessions.
pub open spec fn entry_views(entries: Seq<SessionEntry>) -> Seq<SessionEntryView> {
    entries.map_values(|e: SessionEntry| e@)
}

/// Which view the right-hand pane is currently rendering.
#[derive(Clone, Copy, Debug, PartialEq, Eq, Structural)]
pub enum ChatPaneView {
    /// The conversation.
    Chat,
    /// The full sessions listing.
    AllSessions,
}

/// How far the fetch of the full sessions listing has come.
#[derive(Debug)]
pub enum AllSessionsState {
    /// Never asked for.
    Idle,
    /// Asked for.
    Loading,
    Loaded(Vec<SessionEntry>),
    Failed(String),
}

/// The model of an [`AllSessionsState`].
pub ghost enum AllSessionsView {
    Idle,
    Loading,
    Loaded(Seq<SessionEntryView>),
    Failed(Seq<char>),
}

impl View for AllSessionsState {
    type V = AllSessionsView;

    open spec fn view(&self) -> AllSessionsView {
        match self {
            AllSessionsState::Idle => AllSessionsView::Idle,
            AllSessionsState::Loading => AllSessionsView::Loading,
            AllSessionsState::Loaded(entries) => AllSessionsView::Loaded(entry_views(entries@)),
            AllSessionsState::Failed(e) => AllSessionsView::Failed(e@),
        }
    }
}

} // verus!
