//! The ACP conversation with goose: its events, its commands, and what each
//! session update of the agent turns into.

pub mod laws;
pub mod resource;
pub mod sessions;
pub mod worker;

use crate::text::opt_text;
use crate::tool_call::{
    kept_by_id, law_update_keeps_id, ToolCall, ToolCallStatus, ToolCallUpdate, ToolCallUpdateView,
    ToolCallView, ToolCalls,
};
use crate::transport::geesed::{GeesedError, GeesedErrorView};
use vstd::prelude::*;

verus! {

/// Errors that can occur during the handshake.
pub type ConnectError = GeesedError;

/// A trimmed-down session descriptor for the sidebar.
#[derive(Debug)]
pub struct ListedSession {
    /// Goose session ID.
    pub id: String,
    /// Human-readable label.
    pub label: String,
    /// ISO 8601 time of the last activity, if reported by the agent.
    pub last_active: Option<String>,
}

/// The model of a [`ListedSession`].
pub ghost struct ListedSessionView {
    pub id: Seq<char>,
    pub label: Seq<char>,
    pub last_active: Option<Seq<char>>,
}

impl View for ListedSession {
    type V = ListedSessionView;

    open spec fn view(&self) -> ListedSessionView {
        ListedSessionView {
            id: self.id@,
            label: self.label@,
            last_active: opt_text(self.last_active),
        }
    }
}

impl Clone for ListedSession {
    fn clone(&self) -> (res: Self)
        ensures
            res@ == self@,
    {
        ListedSession {
            id: self.id.clone(),
            label: self.label.clone(),
            last_active: match &self.last_active {
                Some(time) => Some(time.clone()),
                None => None,
            },
        }
    }
}

/// The models of a list of sessions.
pub open spec fn listed_views(list: Seq<ListedSession>) -> Seq<ListedSessionView> {
    list.map_values(|s: ListedSession| s@)
}

/// Why the agent stopped.
#[derive(Debug, Clone, Copy, PartialEq, Eq, Structural)]
pub enum StopReason {
    EndTurn,
    MaxTokens,
    MaxTurnRequests,
    Refusal,
    Cancelled,
}

/// Events sent from the ACP worker to the tab.
#[derive(Debug)]
pub enum AcpEvent {
    /// A streaming text chunk from the agent.
    AgentText(String),
    /// A user message chunk (history replay only).
    UserText(String),
    /// Merged tool-call snapshot: emitted when the call is created and again
    /// on every update with the fully merged state.
    ToolCall(Box<ToolCall>),
    /// History replay starts: the message list is to be cleared.
    SessionLoadStart,
    /// History replay is complete.
    SessionLoadEnd,
    /// The assistant's response is complete.
    Complete(StopReason),
    /// An error mid-conversation.
    Error(String),
    /// The most recently active sessions of this profile.
    SessionList(Vec<ListedSession>),
    /// The active session has been established or switched.
    SessionActive(String),
    /// Session metadata for the footer bar.
    SessionInfo { cwd: String, model: String, tool_count: Option<u32> },
    /// HTML panel fetched for a tool call.
    ToolResource { tool_call_id: String, html: String },
}

/// The model of an [`AcpEvent`].
pub ghost enum AcpEventView {
    AgentText(Seq<char>),
    UserText(Seq<char>),
    ToolCall(ToolCallView),
    SessionLoadStart,
    SessionLoadEnd,
    Complete(StopReason),
    Error(Seq<char>),
    SessionList(Seq<ListedSessionView>),
    SessionActive(Seq<char>),
    SessionInfo { cwd: Seq<char>, model: Seq<char>, tool_count: Option<u32> },
    ToolResource { tool_call_id: Seq<char>, html: Seq<char> },
}

impl View for AcpEvent {
    type V = AcpEventView;

    open spec fn view(&self) -> AcpEventView {
        match self {
            AcpEvent::AgentText(t) => AcpEventView::AgentText(t@),
            AcpEvent::UserText(t) => AcpEventView::UserText(t@),
            AcpEvent::ToolCall(call) => AcpEventView::ToolCall(call@),
            AcpEvent::SessionLoadStart => AcpEventView::SessionLoadStart,
            AcpEvent::SessionLoadEnd => AcpEventView::SessionLoadEnd,
            AcpEvent::Complete(reason) => AcpEventView::Complete(*reason),
            AcpEvent::Error(m) => AcpEventView::Error(m@),
            AcpEvent::SessionList(list) => AcpEventView::SessionList(listed_views(list@)),
            AcpEvent::SessionActive(id) => AcpEventView::SessionActive(id@),
            AcpEvent::SessionInfo { cwd, model, tool_count } => AcpEventView::SessionInfo {
                cwd: cwd@,
                model: model@,
                tool_count: *tool_count,
            },
            AcpEvent::ToolResource { tool_call_id, html } => AcpEventView::ToolResource {
                tool_call_id: tool_call_id@,
                html: html@,
            },
        }
    }
}

/// The models of a list of events.
pub open spec fn event_views(events: Seq<AcpEvent>) -> Seq<AcpEventView> {
    events.map_values(|e: AcpEvent| e@)
}

/// Commands sent from the tab to the ACP worker.
#[derive(Debug)]
pub enum AcpCommand {
    /// Send a user prompt and begin streaming the reply.
    Prompt(String),
    /// Close the connection cleanly.
    Shutdown,
    /// Switch the active session to an existing session by ID.
    SessionSelect(String),
    /// Create a brand-new session and make it active.
    SessionNew,
    /// The page is ready: emit the session list and the active ID again.
    RequestSessionInfo,
}

/// A content block of a message chunk.
#[derive(Debug)]
pub enum ContentBlock {
    Text(String),
    /// Images, audio and resources.
    Other,
}

/// One update of a session, as the agent sent it.
#[derive(Debug)]
pub enum SessionUpdate {
    UserMessageChunk(ContentBlock),
    AgentMessageChunk(ContentBlock),
    ToolCall(ToolCall),
    ToolCallUpdate(ToolCallUpdate),
    /// Thoughts, plans and everything else.
    Other,
}

/// The model of a [`SessionUpdate`]. A chunk has its text where it is one.
pub ghost enum SessionUpdateView {
    UserMessageChunk(Option<Seq<char>>),
    AgentMessageChunk(Option<Seq<char>>),
    ToolCall(ToolCallView),
    ToolCallUpdate(ToolCallUpdateView),
    Other,
}

impl View for ContentBlock {
    type V = Option<Seq<char>>;

    open spec fn view(&self) -> Option<Seq<char>> {
        match self {
            ContentBlock::Text(t) => Some(t@),
            ContentBlock::Other => None,
        }
    }
}

impl View for SessionUpdate {
    type V = SessionUpdateView;

    open spec fn view(&self) -> SessionUpdateView {
        match self {
            SessionUpdate::UserMessageChunk(block) => SessionUpdateView::UserMessageChunk(block@),
            SessionUpdate::AgentMessageChunk(block) => SessionUpdateView::AgentMessageChunk(block@),
            SessionUpdate::ToolCall(call) => SessionUpdateView::ToolCall(call@),
            SessionUpdate::ToolCallUpdate(update) => SessionUpdateView::ToolCallUpdate(update@),
            SessionUpdate::Other => SessionUpdateView::Other,
        }
    }
}

/// A resource to be read for a tool call.
#[derive(Debug)]
pub struct PendingFetch {
    pub tool_call_id: String,
    pub uri: String,
    pub extension_name: String,
}

/// The model of a [`PendingFetch`].
pub ghost struct PendingFetchView {
    pub tool_call_id: Seq<char>,
    pub uri: Seq<char>,
    pub extension_name: Seq<char>,
}

impl View for PendingFetch {
    type V = PendingFetchView;

    open spec fn view(&self) -> PendingFetchView {
        PendingFetchView {
            tool_call_id: self.tool_call_id@,
            uri: self.uri@,
            extension_name: self.extension_name@,
        }
    }
}

/// The models of a queue of fetches.
pub open spec fn fetch_views(fetches: Seq<PendingFetch>) -> Seq<PendingFetchView> {
    fetches.map_values(|f: PendingFetch| f@)
}

/// The tool calls of a session by their ids.
pub type Calls = Map<Seq<char>, ToolCallView>;

/// The event for an update, given the calls known before it.
pub open spec fn update_event(update: SessionUpdateView, calls: Calls) -> Option<AcpEventView> {
    match update {
        SessionUpdateView::AgentMessageChunk(Some(text)) => Some(AcpEventView::AgentText(text)),
        SessionUpdateView::UserMessageChunk(Some(text)) => Some(AcpEventView::UserText(text)),
        SessionUpdateView::ToolCall(call) => Some(AcpEventView::ToolCall(call)),
        SessionUpdateView::ToolCallUpdate(update) => if calls.contains_key(update.tool_call_id) {
            Some(AcpEventView::ToolCall(calls[update.tool_call_id].after(update)))
        } else {
            None
        },
        _ => None,
    }
}

/// The calls known after an update.
pub open spec fn update_calls(update: SessionUpdateView, calls: Calls) -> Calls {
    match update {
        SessionUpdateView::ToolCall(call) => calls.insert(call.tool_call_id, call),
        SessionUpdateView::ToolCallUpdate(update) => if calls.contains_key(update.tool_call_id) {
            calls.insert(update.tool_call_id, calls[update.tool_call_id].after(update))
        } else {
            calls
        },
        _ => calls,
    }
}

/// The fetch that a merged call asks for: where it is completed and names both
/// a resource and an extension.
pub open spec fn fetch_of_call(call: ToolCallView) -> Option<PendingFetchView> {
    match (call.resource_uri(), call.extension_name()) {
        (Some(uri), Some(extension_name)) => if call.status == ToolCallStatus::Completed {
            Some(PendingFetchView { tool_call_id: call.tool_call_id, uri, extension_name })
        } else {
            None
        },
        _ => None,
    }
}

/// The fetches that an update adds to the queue: only an update to a known
/// call adds one.
pub open spec fn update_fetches(update: SessionUpdateView, calls: Calls) -> Seq<PendingFetchView> {
    match update {
        SessionUpdateView::ToolCallUpdate(update) => if calls.contains_key(update.tool_call_id) {
            match fetch_of_call(calls[update.tool_call_id].after(update)) {
                Some(fetch) => seq![fetch],
                None => Seq::empty(),
            }
        } else {
            Seq::empty()
        },
        _ => Seq::empty(),
    }
}

/// An update leaves each call under its own id. The event that it brings shows
/// the call that it is about, and the fetch that it queues is for that call.
pub proof fn law_updates_go_by_id(update: SessionUpdateView, calls: Calls)
    requires
        kept_by_id(calls),
    ensures
        kept_by_id(update_calls(update, calls)),
        update matches SessionUpdateView::ToolCallUpdate(change) ==> {
            &&& update_event(update, calls) matches Some(AcpEventView::ToolCall(call))
                ==> call.tool_call_id == change.tool_call_id
            &&& forall|i: int|
                0 <= i < update_fetches(update, calls).len() ==> (#[trigger] update_fetches(
                    update,
                    calls,
                )[i]).tool_call_id == change.tool_call_id
        },
{
    if let SessionUpdateView::ToolCallUpdate(change) = update {
        if calls.contains_key(change.tool_call_id) {
            law_update_keeps_id(calls[change.tool_call_id], change);
        }
    }
}

/// Maps one session update to its event, keeping the merged tool calls and the
/// queue of resource fetches up to date.
///
/// A tool call always goes out as a full snapshot, so that the receiver never
/// applies a change itself.
pub fn forward_update(
    update: SessionUpdate,
    tool_calls: &mut ToolCalls,
    pending_fetches: &mut Vec<PendingFetch>,
) -> (event: Option<AcpEvent>)
    ensures
        update_event(update@, old(tool_calls)@) == (match event {
            Some(event) => Some(event@),
            None => None,
        }),
        final(tool_calls)@ == update_calls(update@, old(tool_calls)@),
        fetch_views(final(pending_fetches)@) == fetch_views(old(pending_fetches)@)
            + update_fetches(update@, old(tool_calls)@),
        kept_by_id(old(tool_calls)@),
        kept_by_id(final(tool_calls)@),
{
    proof {
        tool_calls.law_calls_are_kept_by_id();
        law_updates_go_by_id(update@, tool_calls@);
    }
    let ghost calls = tool_calls@;
    let ghost queue = fetch_views(pending_fetches@);
    assert(queue + Seq::<PendingFetchView>::empty() =~= queue);
    match update {
        SessionUpdate::AgentMessageChunk(block) => match block {
            ContentBlock::Text(text) => Some(AcpEvent::AgentText(text)),
            ContentBlock::Other => None,
        },
        SessionUpdate::UserMessageChunk(block) => match block {
            ContentBlock::Text(text) => Some(AcpEvent::UserText(text)),
            ContentBlock::Other => None,
        },
        SessionUpdate::ToolCall(call) => {
            tool_calls.insert(call.clone());
            Some(AcpEvent::ToolCall(Box::new(call)))
        },
        SessionUpdate::ToolCallUpdate(update) => {
            match tool_calls.update(update) {
                Some(call) => {
                    if call.status == ToolCallStatus::Completed {
                        match (call.resource_uri(), call.extension_name()) {
                            (Some(uri), Some(extension_name)) => {
                                let fetch = PendingFetch {
                                    tool_call_id: call.tool_call_id.clone(),
                                    uri,
                                    extension_name,
                                };
                                let ghost added = fetch@;
                                pending_fetches.push(fetch);
                                assert(fetch_views(pending_fetches@) =~= queue + seq![added]);
                            },
                            _ => {},
                        }
                    }
                    Some(AcpEvent::ToolCall(Box::new(call)))
                },
                None => None,
            }
        },
        SessionUpdate::Other => None,
    }
}

/// What the one who waits for a connection learns: `ready` is what the worker
/// signalled, or nothing where it ended without a signal.
pub fn connect_outcome(ready: Option<Result<(), String>>) -> (res: Result<(), ConnectError>)
    ensures
        res is Ok <==> ready matches Some(Ok(_)),
        res matches Err(e) ==> e@ == GeesedErrorView::Protocol(
            match ready {
                Some(Err(words)) => words@,
                _ => "acp worker stopped unexpectedly"@,
            },
        ),
{
    match ready {
        Some(Ok(_)) => Ok(()),
        Some(Err(words)) => Err(GeesedError::Protocol(words)),
        None => Err(GeesedError::Protocol("acp worker stopped unexpectedly".to_owned())),
    }
}

} // verus!
