//! What each event of the host does to the chat page.
//!
//! While history is replayed, messages gather in a buffer. The end of the
//! replay puts the whole buffer in the place of the message list at once.

use crate::chat::types::{
    entry_views, message_views, AllSessionsState, AllSessionsView, ChatMessage, ChatPaneView,
    MessageView, SessionEntry, SessionEntryView,
};
use crate::json::{views, Json, JsonView};
use crate::text::{opt_text, str_eq, trim, trimmed};
use vstd::prelude::*;

verus! {

/// Fallback label used when a session has no title.
pub const DEFAULT_SESSION_LABEL: &'static str = "Session";

/// The state of the chat page.
#[derive(Debug)]
pub struct ChatState {
    pub messages: Vec<ChatMessage>,
    /// Messages of a history that is being replayed.
    pub replay_buffer: Vec<ChatMessage>,
    pub next_id: u32,
    pub input_text: String,
    /// True while an assistant reply is being streamed.
    pub sending: bool,
    /// True while a session's history is being replayed.
    pub replaying: bool,
    /// The assistant message that is receiving tokens.
    pub in_flight: Option<u32>,
    pub sessions: Vec<SessionEntry>,
    pub active_session_id: Option<String>,
    pub footer_cwd: Option<String>,
    pub footer_model: Option<String>,
    pub footer_tool_count: Option<u32>,
    pub pane_view: ChatPaneView,
    pub all_sessions: AllSessionsState,
}

/// The model of a [`ChatState`].
pub ghost struct ChatView {
    pub messages: Seq<MessageView>,
    pub replay_buffer: Seq<MessageView>,
    pub next_id: u32,
    pub input_text: Seq<char>,
    pub sending: bool,
    pub replaying: bool,
    pub in_flight: Option<u32>,
    pub sessions: Seq<SessionEntryView>,
    pub active_session_id: Option<Seq<char>>,
    pub footer_cwd: Option<Seq<char>>,
    pub footer_model: Option<Seq<char>>,
    pub footer_tool_count: Option<u32>,
    pub pane_view: ChatPaneView,
    pub all_sessions: AllSessionsView,
}

impl View for ChatState {
    type V = ChatView;

    open spec fn view(&self) -> ChatView {
        ChatView {
            messages: message_views(self.messages@),
            replay_buffer: message_views(self.replay_buffer@),
            next_id: self.next_id,
            input_text: self.input_text@,
            sending: self.sending,
            replaying: self.replaying,
            in_flight: self.in_flight,
            sessions: entry_views(self.sessions@),
            active_session_id: opt_text(self.active_session_id),
            footer_cwd: opt_text(self.footer_cwd),
            footer_model: opt_text(self.footer_model),
            footer_tool_count: self.footer_tool_count,
            pane_view: self.pane_view,
            all_sessions: self.all_sessions@,
        }
    }
}

/// The position of the message with an id, or the length of the list.
pub open spec fn place_of(list: Seq<MessageView>, id: u32) -> int
    decreases list.len(),
{
    if list.len() == 0 || list[0].id == id {
        0
    } else {
        1 + place_of(list.drop_first(), id)
    }
}

/// The position of the card of a tool call, or the length of the list.
pub open spec fn place_of_card(list: Seq<MessageView>, tool_call_id: Seq<char>) -> int
    decreases list.len(),
{
    if list.len() == 0 || list[0].tool_call_id == Some(tool_call_id) {
        0
    } else {
        1 + place_of_card(list.drop_first(), tool_call_id)
    }
}

/// A message that has stopped streaming.
pub open spec fn finished(m: MessageView) -> MessageView {
    MessageView { streaming: false, ..m }
}

/// What holds of a message list: ids are given out once, and no tool call has
/// two cards.
pub open spec fn list_wf(list: Seq<MessageView>, next_id: u32) -> bool {
    &&& forall|i: int| 0 <= i < list.len() ==> (#[trigger] list[i]).id < next_id
    &&& forall|i: int, j: int|
        0 <= i < j < list.len() ==> (#[trigger] list[i]).id != (#[trigger] list[j]).id
    &&& forall|i: int, j: int|
        0 <= i < j < list.len() && (#[trigger] list[i]).tool_call_id is Some ==> list[i].tool_call_id
            != (#[trigger] list[j]).tool_call_id
}

/// What a tool-call event says.
pub ghost struct CallView {
    /// The snapshot.
    pub text: Seq<char>,
    pub tool_call_id: Seq<char>,
    /// The call has completed or failed.
    pub is_done: bool,
    /// A panel of the call is on its way.
    pub ui_pending: bool,
}

/// A string member of an event, empty where there is none.
pub open spec fn field(event: JsonView, key: Seq<char>) -> Seq<char> {
    match event.get_str(key) {
        Some(s) => s,
        None => Seq::empty(),
    }
}

/// The call has completed or failed.
pub open spec fn terminal(status: Seq<char>) -> bool {
    status == "completed"@ || status == "failed"@
}

/// The result of a call names a resource.
pub open spec fn names_resource(call: JsonView) -> bool {
    match call.get("rawOutput"@) {
        Some(output) => match output.get("resourceUri"@) {
            Some(uri) => uri != JsonView::Null,
            None => false,
        },
        None => false,
    }
}

/// What a snapshot says from which the page reads `call`.
pub open spec fn call_said(text: Seq<char>, call: JsonView) -> CallView {
    let is_done = terminal(field(call, "status"@));
    CallView {
        text,
        tool_call_id: field(call, "toolCallId"@),
        is_done,
        ui_pending: is_done && names_resource(call),
    }
}

/// An item of a session list, where it has an id that is not empty.
pub open spec fn entry_of(item: JsonView) -> Option<SessionEntryView> {
    let id = field(item, "id"@);
    if id.len() == 0 {
        None
    } else {
        Some(
            SessionEntryView {
                id,
                label: match item.get_str("label"@) {
                    Some(label) => label,
                    None => DEFAULT_SESSION_LABEL@,
                },
                last_active: item.get_str("last_active"@),
            },
        )
    }
}

/// The sessions of a list of items, in their order.
pub open spec fn entries_of(items: Seq<JsonView>) -> Seq<SessionEntryView>
    decreases items.len(),
{
    if items.len() == 0 {
        Seq::empty()
    } else {
        let front = entries_of(items.drop_last());
        match entry_of(items.last()) {
            Some(entry) => front.push(entry),
            None => front,
        }
    }
}

/// The sessions of a session-list event.
pub open spec fn event_entries(event: JsonView) -> Seq<SessionEntryView> {
    match event.get("sessions"@) {
        Some(JsonView::Array(items)) => entries_of(items),
        _ => Seq::empty(),
    }
}

/// The list has a card of the call.
pub open spec fn has_card(list: Seq<MessageView>, call: CallView) -> bool {
    place_of_card(list, call.tool_call_id) < list.len()
}

/// The list with the state of a tool call on its card.
pub open spec fn card_updated(list: Seq<MessageView>, call: CallView) -> Seq<MessageView> {
    let at = place_of_card(list, call.tool_call_id);
    if at < list.len() {
        list.update(
            at,
            MessageView {
                content: call.text,
                streaming: !call.is_done,
                ui_pending: call.ui_pending || list[at].ui_pending,
                ..list[at]
            },
        )
    } else {
        list
    }
}

/// The list with the card of a call behind it, where it had none.
pub open spec fn with_card(
    list: Seq<MessageView>,
    call: CallView,
    is_new: bool,
    next_id: u32,
) -> Seq<MessageView> {
    if is_new {
        list.push(
            MessageView {
                streaming: !call.is_done,
                ui_pending: call.ui_pending,
                ..MessageView::tool(next_id, call.tool_call_id, call.text)
            },
        )
    } else {
        list
    }
}

/// The list after a snapshot of a tool call. `bubble` is the reply that was
/// streaming.
pub open spec fn with_call(
    list: Seq<MessageView>,
    call: CallView,
    bubble: Option<u32>,
    next_id: u32,
) -> Seq<MessageView> {
    let updated = card_updated(list, call);
    let is_new = !has_card(list, call);
    match bubble {
        Some(id) if call.ui_pending => {
            let at = place_of(updated, id);
            with_card(updated.remove(at), call, is_new, next_id).push(updated[at])
        },
        _ => with_card(updated, call, is_new, next_id),
    }
}

impl ChatView {
    /// The page before anything happened.
    pub open spec fn initial() -> ChatView {
        ChatView {
            messages: Seq::empty(),
            replay_buffer: Seq::empty(),
            next_id: 0,
            input_text: Seq::empty(),
            sending: false,
            replaying: false,
            in_flight: None,
            sessions: Seq::empty(),
            active_session_id: None,
            footer_cwd: None,
            footer_model: None,
            footer_tool_count: None,
            pane_view: ChatPaneView::Chat,
            all_sessions: AllSessionsView::Idle,
        }
    }

    /// The list that messages go to: the buffer while history is replayed.
    pub open spec fn dest(self) -> Seq<MessageView> {
        if self.replaying {
            self.replay_buffer
        } else {
            self.messages
        }
    }

    /// The page with another list in the place of the one that messages go to.
    pub open spec fn with_dest(self, list: Seq<MessageView>) -> ChatView {
        if self.replaying {
            ChatView { replay_buffer: list, ..self }
        } else {
            ChatView { messages: list, ..self }
        }
    }

    /// What holds of the page at all times.
    pub open spec fn wf(self) -> bool {
        &&& list_wf(self.messages, self.next_id)
        &&& list_wf(self.replay_buffer, self.next_id)
        &&& self.in_flight matches Some(id) ==> {
            let at = place_of(self.dest(), id);
            at < self.dest().len() && self.dest()[at].tool_call_id is None
        }
    }

    /// Adds a message to the list that messages go to.
    pub open spec fn pushed(self, m: MessageView) -> ChatView {
        ChatView { next_id: (self.next_id + 1) as u32, ..self.with_dest(self.dest().push(m)) }
    }

    /// Changes the reply that is streaming.
    pub open spec fn bubble_edited(self, f: spec_fn(MessageView) -> MessageView) -> ChatView {
        match self.in_flight {
            Some(id) => {
                let at = place_of(self.dest(), id);
                if at < self.dest().len() {
                    self.with_dest(self.dest().update(at, f(self.dest()[at])))
                } else {
                    self
                }
            },
            None => self,
        }
    }

    /// Ends the reply that is streaming.
    pub open spec fn bubble_closed(self) -> ChatView {
        ChatView {
            in_flight: None,
            ..self.bubble_edited(|m: MessageView| finished(m))
        }
    }

    /// A piece of the assistant's reply: it goes to the reply that is
    /// streaming, or begins one.
    pub open spec fn agent_text(self, chunk: Seq<char>) -> ChatView {
        let s = if self.in_flight is Some {
            self
        } else {
            ChatView {
                in_flight: Some(self.next_id),
                ..self.pushed(MessageView::assistant(self.next_id))
            }
        };
        s.bubble_edited(|m: MessageView| MessageView { content: m.content + chunk, ..m })
    }

    /// A message of the user, out of history.
    pub open spec fn user_text(self, text: Seq<char>) -> ChatView {
        let s = self.bubble_closed();
        s.pushed(MessageView::user(s.next_id, text))
    }

    /// A snapshot of a tool call: it goes to the card of the call, which is
    /// added where there is none. Where the call brings a panel, the reply that
    /// was streaming moves behind the card.
    pub open spec fn tool_call(self, call: CallView) -> ChatView {
        let s = self.bubble_closed();
        ChatView {
            next_id: if has_card(s.dest(), call) {
                s.next_id
            } else {
                (s.next_id + 1) as u32
            },
            ..s.with_dest(with_call(s.dest(), call, self.in_flight, s.next_id))
        }
    }

    /// The page without messages.
    pub open spec fn cleared(self) -> ChatView {
        ChatView {
            messages: Seq::empty(),
            replay_buffer: Seq::empty(),
            in_flight: None,
            sending: false,
            ..self
        }
    }

    /// The end of a replay: what has gathered becomes the message list.
    pub open spec fn load_end(self) -> ChatView {
        let s = self.bubble_closed();
        ChatView {
            messages: s.replay_buffer,
            replay_buffer: Seq::empty(),
            replaying: false,
            ..s
        }
    }

    /// The end of a reply.
    pub open spec fn done(self) -> ChatView {
        ChatView { sending: false, ..self.bubble_closed() }
    }

    /// The end of a reply in an error.
    pub open spec fn failed(self, message: Seq<char>) -> ChatView {
        ChatView {
            in_flight: None,
            sending: false,
            replaying: false,
            ..self.bubble_edited(
                |m: MessageView| MessageView { error: Some(message), streaming: false, ..m },
            )
        }
    }

    /// The footer's metadata. What is not given stays, but for the tool count.
    pub open spec fn info(self, event: JsonView) -> ChatView {
        ChatView {
            footer_cwd: match event.get_str("cwd"@) {
                Some(cwd) => Some(cwd),
                None => self.footer_cwd,
            },
            footer_model: match event.get_str("model"@) {
                Some(model) => Some(model),
                None => self.footer_model,
            },
            footer_tool_count: match event.get("tool_count"@) {
                Some(count) => count.as_count(),
                None => None,
            },
            ..self
        }
    }

    /// The page after an event of the host. An event of another type changes
    /// nothing. `call` is what the page reads from the snapshot that a tool-call
    /// event brings: null where it is no JSON.
    pub open spec fn after(self, event: JsonView, call: JsonView) -> ChatView {
        match event.get_str("type"@) {
            Some(kind) => {
                if kind == "agent_text"@ || kind == "token"@ {
                    self.agent_text(field(event, "content"@))
                } else if kind == "user_text"@ {
                    self.user_text(field(event, "content"@))
                } else if kind == "tool_call"@ {
                    self.tool_call(call_said(field(event, "call"@), call))
                } else if kind == "session_load_start"@ {
                    ChatView { replaying: true, ..self.cleared() }
                } else if kind == "session_load_end"@ {
                    self.load_end()
                } else if kind == "done"@ {
                    self.done()
                } else if kind == "error"@ {
                    self.failed(
                        match event.get_str("message"@) {
                            Some(message) => message,
                            None => "Unknown error"@,
                        },
                    )
                } else if kind == "session_list"@ {
                    ChatView { sessions: event_entries(event), ..self }
                } else if kind == "all_sessions_list"@ {
                    ChatView {
                        all_sessions: AllSessionsView::Loaded(event_entries(event)),
                        ..self
                    }
                } else if kind == "all_sessions_error"@ {
                    ChatView {
                        all_sessions: AllSessionsView::Failed(
                            match event.get_str("message"@) {
                                Some(message) => message,
                                None => "Failed to load sessions"@,
                            },
                        ),
                        ..self
                    }
                } else if kind == "session_active"@ {
                    ChatView { active_session_id: event.get_str("id"@), ..self.cleared() }
                } else if kind == "session_info"@ {
                    self.info(event)
                } else {
                    self
                }
            },
            None => self,
        }
    }

    /// The page after a panel was fetched: it goes to the card of its call.
    pub open spec fn panel(self, tool_call_id: Seq<char>, html: Seq<char>) -> ChatView {
        let at = place_of_card(self.dest(), tool_call_id);
        if at < self.dest().len() {
            self.with_dest(
                self.dest().update(
                    at,
                    MessageView { ui_pending: false, ui_html: Some(html), ..self.dest()[at] },
                ),
            )
        } else {
            self
        }
    }

    /// The page after an event, as far as panels go.
    pub open spec fn after_panel(self, event: JsonView) -> ChatView {
        if event.get_str("type"@) == Some("tool_resource"@) {
            self.panel(field(event, "tool_call_id"@), field(event, "html"@))
        } else {
            self
        }
    }

    /// The prompt that submitting sends: what was typed, without the white
    /// space around it. Nothing is sent while a reply or a replay is on.
    pub open spec fn prompt(self) -> Option<Seq<char>> {
        let text = trimmed(self.input_text);
        if text.len() == 0 || self.sending || self.replaying {
            None
        } else {
            Some(text)
        }
    }

    /// The page after submitting.
    pub open spec fn submitted(self) -> ChatView {
        match self.prompt() {
            Some(text) => ChatView {
                messages: self.messages.push(MessageView::user(self.next_id, text)).push(
                    MessageView::assistant((self.next_id + 1) as u32),
                ),
                next_id: (self.next_id + 2) as u32,
                in_flight: Some((self.next_id + 1) as u32),
                sending: true,
                input_text: Seq::empty(),
                ..self
            },
            None => self,
        }
    }
}

/// A position found by its id.
pub proof fn lemma_place_of(list: Seq<MessageView>, id: u32)
    ensures
        0 <= place_of(list, id) <= list.len(),
        place_of(list, id) < list.len() ==> list[place_of(list, id)].id == id,
        forall|i: int| 0 <= i < place_of(list, id) ==> (#[trigger] list[i]).id != id,
    decreases list.len(),
{
    if list.len() > 0 && list[0].id != id {
        let rest = list.drop_first();
        lemma_place_of(rest, id);
        assert forall|i: int| 0 <= i < place_of(list, id) implies (#[trigger] list[i]).id
            != id by {
            if i > 0 {
                assert(rest[i - 1] == list[i]);
            }
        }
    }
}

/// A position is where the id stands.
pub proof fn lemma_place_of_is(list: Seq<MessageView>, id: u32, at: int)
    requires
        0 <= at <= list.len(),
        forall|i: int| 0 <= i < at ==> (#[trigger] list[i]).id != id,
        at < list.len() ==> list[at].id == id,
    ensures
        place_of(list, id) == at,
{
    lemma_place_of(list, id);
    let found = place_of(list, id);
    if found < at {
        assert(list[found].id != id);
    }
}

/// A position found by its tool call.
pub proof fn lemma_place_of_card(list: Seq<MessageView>, tool_call_id: Seq<char>)
    ensures
        0 <= place_of_card(list, tool_call_id) <= list.len(),
        place_of_card(list, tool_call_id) < list.len() ==> list[place_of_card(
            list,
            tool_call_id,
        )].tool_call_id == Some(tool_call_id),
        forall|i: int|
            0 <= i < place_of_card(list, tool_call_id) ==> (#[trigger] list[i]).tool_call_id
                != Some(tool_call_id),
    decreases list.len(),
{
    if list.len() > 0 && list[0].tool_call_id != Some(tool_call_id) {
        let rest = list.drop_first();
        lemma_place_of_card(rest, tool_call_id);
        assert forall|i: int| 0 <= i < place_of_card(list, tool_call_id) implies (
        #[trigger] list[i]).tool_call_id != Some(tool_call_id) by {
            if i > 0 {
                assert(rest[i - 1] == list[i]);
            }
        }
    }
}

/// A position is where the card stands.
pub proof fn lemma_place_of_card_is(list: Seq<MessageView>, tool_call_id: Seq<char>, at: int)
    requires
        0 <= at <= list.len(),
        forall|i: int| 0 <= i < at ==> (#[trigger] list[i]).tool_call_id != Some(tool_call_id),
        at < list.len() ==> list[at].tool_call_id == Some(tool_call_id),
    ensures
        place_of_card(list, tool_call_id) == at,
{
    lemma_place_of_card(list, tool_call_id);
    let found = place_of_card(list, tool_call_id);
    if found < at {
        assert(list[found].tool_call_id != Some(tool_call_id));
    }
}

/// The position of the message with an id, or the length of the list.
fn position(list: &Vec<ChatMessage>, id: u32) -> (at: usize)
    ensures
        at == place_of(message_views(list@), id),
        at <= list.len(),
{
    let mut at: usize = 0;
    while at < list.len() && list[at].id != id
        invariant
            at <= list.len(),
            forall|i: int| 0 <= i < at ==> (#[trigger] message_views(list@)[i]).id != id,
        decreases list.len() - at,
    {
        at += 1;
    }
    proof {
        lemma_place_of_is(message_views(list@), id, at as int);
    }
    at
}

/// The position of the card of a tool call, or the length of the list.
fn card_position(list: &Vec<ChatMessage>, tool_call_id: &str) -> (at: usize)
    ensures
        at == place_of_card(message_views(list@), tool_call_id@),
        at <= list.len(),
{
    let mut at: usize = 0;
    while at < list.len()
        invariant
            at <= list.len(),
            forall|i: int|
                0 <= i < at ==> (#[trigger] message_views(list@)[i]).tool_call_id != Some(
                    tool_call_id@,
                ),
        decreases list.len() - at,
    {
        assert(message_views(list@)[at as int] == list[at as int]@);
        let found: bool = match &list[at].tool_call_id {
            Some(id) => str_eq(id.as_str(), tool_call_id),
            None => false,
        };
        if found {
            proof {
                lemma_place_of_card_is(message_views(list@), tool_call_id@, at as int);
            }
            return at;
        }
        at += 1;
    }
    proof {
        lemma_place_of_card_is(message_views(list@), tool_call_id@, at as int);
    }
    at
}

/// Puts a message in the place of another.
fn replace(list: &mut Vec<ChatMessage>, at: usize, m: ChatMessage)
    requires
        at < old(list).len(),
    ensures
        message_views(final(list)@) == message_views(old(list)@).update(at as int, m@),
{
    let ghost before = message_views(list@);
    let ghost model = m@;
    list.set(at, m);
    assert(message_views(list@) =~= before.update(at as int, model));
}

/// Adds a message behind the others.
fn push(list: &mut Vec<ChatMessage>, m: ChatMessage)
    ensures
        message_views(final(list)@) == message_views(old(list)@).push(m@),
{
    let ghost before = message_views(list@);
    let ghost model = m@;
    list.push(m);
    assert(message_views(list@) =~= before.push(model));
}

/// Takes a message out of a list.
fn take_out(list: &mut Vec<ChatMessage>, at: usize) -> (m: ChatMessage)
    requires
        at < old(list).len(),
    ensures
        m@ == message_views(old(list)@)[at as int],
        message_views(final(list)@) == message_views(old(list)@).remove(at as int),
{
    let ghost before = message_views(list@);
    let m: ChatMessage = list.remove(at);
    assert(message_views(list@) =~= before.remove(at as int));
    m
}

fn clone_opt_text(s: &Option<String>) -> (res: Option<String>)
    ensures
        opt_text(res) == opt_text(*s),
{
    match s {
        Some(s) => Some(s.clone()),
        None => None,
    }
}

impl Clone for ChatMessage {
    fn clone(&self) -> (res: Self)
        ensures
            res@ == self@,
    {
        ChatMessage {
            id: self.id,
            role: self.role,
            content: self.content.clone(),
            streaming: self.streaming,
            error: clone_opt_text(&self.error),
            tool_call_id: clone_opt_text(&self.tool_call_id),
            ui_html: clone_opt_text(&self.ui_html),
            ui_pending: self.ui_pending,
            visible: self.visible,
            expanded: self.expanded,
        }
    }
}

/// A string member of an event, empty where there is none.
fn string_field(event: &Json, key: &str) -> (res: String)
    ensures
        res@ == field(event@, key@),
{
    match event.get_str(key) {
        Some(s) => s.to_owned(),
        None => {
            let res: String = String::new();
            assert(res@ =~= Seq::empty());
            res
        },
    }
}

/// Return `true` for tool-call statuses that indicate the call is finished.
pub fn is_terminal_status(status: &str) -> (res: bool)
    ensures
        res == terminal(status@),
{
    str_eq(status, "completed") || str_eq(status, "failed")
}

/// What a tool-call event says.
#[derive(Debug)]
pub struct CallFields {
    /// The snapshot.
    pub text: String,
    pub tool_call_id: String,
    /// The call has completed or failed.
    pub is_done: bool,
    /// A panel of the call is on its way.
    pub ui_pending: bool,
}

impl View for CallFields {
    type V = CallView;

    open spec fn view(&self) -> CallView {
        CallView {
            text: self.text@,
            tool_call_id: self.tool_call_id@,
            is_done: self.is_done,
            ui_pending: self.ui_pending,
        }
    }
}

/// What a snapshot says from which the page reads `call`.
pub fn call_in(text: String, call: &Json) -> (res: CallFields)
    ensures
        res@ == call_said(text@, call@),
{
    let status: String = string_field(call, "status");
    let is_done: bool = is_terminal_status(status.as_str());
    let has_resource_uri: bool = match call.get("rawOutput") {
        Some(output) => match output.get("resourceUri") {
            Some(Json::Null) => false,
            Some(_) => true,
            None => false,
        },
        None => false,
    };
    CallFields {
        tool_call_id: string_field(call, "toolCallId"),
        is_done,
        ui_pending: is_done && has_resource_uri,
        text,
    }
}

/// Parse the `sessions` array of an event. An entry without an id is skipped.
pub fn parse_session_entries(event: &Json) -> (res: Vec<SessionEntry>)
    ensures
        entry_views(res@) == event_entries(event@),
{
    let mut entries: Vec<SessionEntry> = Vec::new();
    assert(entry_views(entries@) =~= Seq::empty());
    let items: &Vec<Json> = match event.get("sessions") {
        Some(sessions) => match sessions.as_array() {
            Some(items) => items,
            None => {
                return entries;
            },
        },
        None => {
            return entries;
        },
    };
    let ghost all = views(items@);
    let mut i: usize = 0;
    assert(all.take(0) =~= Seq::empty());
    while i < items.len()
        invariant
            i <= items.len(),
            all == views(items@),
            entry_views(entries@) == entries_of(all.take(i as int)),
        decreases items.len() - i,
    {
        let item: &Json = &items[i];
        let ghost before = entry_views(entries@);
        proof {
            assert(all[i as int] == item@);
            assert(all.take(i + 1).drop_last() =~= all.take(i as int));
            assert(all.take(i + 1).last() == item@);
            reveal_strlit("");
        }
        let id: String = string_field(item, "id");
        assert(id@.len() == 0 ==> id@ =~= ""@);
        if !str_eq(id.as_str(), "") {
            let label: String = match item.get_str("label") {
                Some(label) => label.to_owned(),
                None => DEFAULT_SESSION_LABEL.to_owned(),
            };
            let last_active: Option<String> = match item.get_str("last_active") {
                Some(time) => Some(time.to_owned()),
                None => None,
            };
            let entry = SessionEntry { id, label, last_active };
            let ghost model = entry@;
            entries.push(entry);
            assert(entry_views(entries@) =~= before.push(model));
        }
        i += 1;
    }
    assert(all.take(i as int) =~= all);
    entries
}

impl ChatState {
    /// The page before anything happened.
    pub fn new() -> (res: ChatState)
        ensures
            res@ == ChatView::initial(),
            res@.wf(),
    {
        let res = ChatState {
            messages: Vec::new(),
            replay_buffer: Vec::new(),
            next_id: 0,
            input_text: String::new(),
            sending: false,
            replaying: false,
            in_flight: None,
            sessions: Vec::new(),
            active_session_id: None,
            footer_cwd: None,
            footer_model: None,
            footer_tool_count: None,
            pane_view: ChatPaneView::Chat,
            all_sessions: AllSessionsState::Idle,
        };
        proof {
            assert(message_views(res.messages@) =~= Seq::empty());
            assert(message_views(res.replay_buffer@) =~= Seq::empty());
            assert(entry_views(res.sessions@) =~= Seq::empty());
            assert(res.input_text@ =~= Seq::empty());
        }
        res
    }

    /// Takes the list that messages go to out of the page.
    fn take_dest(&mut self) -> (list: Vec<ChatMessage>)
        ensures
            message_views(list@) == old(self)@.dest(),
            final(self)@ == old(self)@.with_dest(Seq::empty()),
    {
        let mut list: Vec<ChatMessage> = Vec::new();
        assert(message_views(list@) =~= Seq::empty());
        if self.replaying {
            core::mem::swap(&mut list, &mut self.replay_buffer);
        } else {
            core::mem::swap(&mut list, &mut self.messages);
        }
        list
    }

    /// Puts the list that messages go to back.
    fn put_dest(&mut self, list: Vec<ChatMessage>)
        ensures
            final(self)@ == old(self)@.with_dest(message_views(list@)),
    {
        if self.replaying {
            self.replay_buffer = list;
        } else {
            self.messages = list;
        }
    }

    /// Ends the reply that is streaming, with an error or without.
    fn close_bubble(&mut self, error: Option<String>)
        ensures
            ({
                let words = opt_text(error);
                final(self)@ == match words {
                    None => old(self)@.bubble_closed(),
                    Some(words) => (ChatView {
                        in_flight: None,
                        ..old(self)@.bubble_edited(
                            |m: MessageView|
                                MessageView { error: Some(words), streaming: false, ..m },
                        )
                    }),
                }
            }),
    {
        let ghost before = self@;
        match self.in_flight {
            Some(id) => {
                let mut list = self.take_dest();
                let at: usize = position(&list, id);
                if at < list.len() {
                    let mut m: ChatMessage = list[at].clone();
                    assert(m@ == before.dest()[at as int]);
                    m.streaming = false;
                    match error {
                        Some(words) => {
                            m.error = Some(words);
                        },
                        None => {},
                    }
                    replace(&mut list, at, m);
                }
                self.put_dest(list);
                self.in_flight = None;
            },
            None => {},
        }
    }

    /// A piece of the assistant's reply.
    fn agent_text(&mut self, chunk: &str)
        requires
            old(self)@.next_id < u32::MAX,
        ensures
            final(self)@ == old(self)@.agent_text(chunk@),
    {
        let ghost before = self@;
        let mut list = self.take_dest();
        let id: u32 = match self.in_flight {
            Some(id) => id,
            None => {
                let id: u32 = self.next_id;
                self.next_id = id + 1;
                push(&mut list, ChatMessage::new_assistant(id));
                self.in_flight = Some(id);
                id
            },
        };
        let at: usize = position(&list, id);
        if at < list.len() {
            let mut m: ChatMessage = list[at].clone();
            m.content.append(chunk);
            replace(&mut list, at, m);
        }
        self.put_dest(list);
    }

    /// A message of the user, out of history.
    fn user_text(&mut self, text: &str)
        requires
            old(self)@.next_id < u32::MAX,
        ensures
            final(self)@ == old(self)@.user_text(text@),
    {
        self.close_bubble(None);
        let mut list = self.take_dest();
        let id: u32 = self.next_id;
        self.next_id = id + 1;
        push(&mut list, ChatMessage::new_user(id, text));
        self.put_dest(list);
    }

    /// A snapshot of a tool call.
    pub fn tool_call(&mut self, call: CallFields)
        requires
            old(self)@.wf(),
            old(self)@.next_id < u32::MAX,
        ensures
            final(self)@ == old(self)@.tool_call(call@),
            final(self)@.wf(),
    {
        proof {
            lemma_tool_call_wf(self@, call@);
        }
        let ghost before = self@;
        let ghost model = call@;
        let bubble: Option<u32> = self.in_flight;
        self.close_bubble(None);
        let ghost closed = self@;
        let mut list = self.take_dest();
        let ghost start = message_views(list@);
        let at: usize = card_position(&list, call.tool_call_id.as_str());
        let is_new: bool = at == list.len();
        if !is_new {
            let mut m: ChatMessage = list[at].clone();
            m.content = call.text.clone();
            m.streaming = !call.is_done;
            if call.ui_pending {
                m.ui_pending = true;
            }
            replace(&mut list, at, m);
        }
        proof {
            assert(message_views(list@) == card_updated(start, model));
            if let Some(id) = before.in_flight {
                lemma_bubble_stays(before, model, id);
            }
        }
        let moved: Option<ChatMessage> = match bubble {
            Some(id) => if call.ui_pending {
                let from: usize = position(&list, id);
                Some(take_out(&mut list, from))
            } else {
                None
            },
            None => None,
        };
        if is_new {
            let id: u32 = self.next_id;
            self.next_id = id + 1;
            let mut card: ChatMessage = ChatMessage::new_tool(id, call.tool_call_id, call.text);
            card.streaming = !call.is_done;
            card.ui_pending = call.ui_pending;
            push(&mut list, card);
        }
        match moved {
            Some(m) => push(&mut list, m),
            None => {},
        }
        self.put_dest(list);
    }

    /// Forgets all messages.
    fn clear(&mut self)
        ensures
            final(self)@ == old(self)@.cleared(),
    {
        self.messages = Vec::new();
        self.replay_buffer = Vec::new();
        self.in_flight = None;
        self.sending = false;
        assert(message_views(self.messages@) =~= Seq::empty());
        assert(message_views(self.replay_buffer@) =~= Seq::empty());
    }

    /// The end of a replay.
    fn load_end(&mut self)
        ensures
            final(self)@ == old(self)@.load_end(),
    {
        self.close_bubble(None);
        let mut drained: Vec<ChatMessage> = Vec::new();
        core::mem::swap(&mut drained, &mut self.replay_buffer);
        self.messages = drained;
        self.replaying = false;
        assert(message_views(self.replay_buffer@) =~= Seq::empty());
    }

    /// The footer's metadata.
    fn info(&mut self, event: &Json)
        ensures
            final(self)@ == old(self)@.info(event@),
    {
        match event.get_str("cwd") {
            Some(cwd) => {
                self.footer_cwd = Some(cwd.to_owned());
            },
            None => {},
        }
        match event.get_str("model") {
            Some(model) => {
                self.footer_model = Some(model.to_owned());
            },
            None => {},
        }
        self.footer_tool_count = match event.get("tool_count") {
            Some(count) => count.as_count(),
            None => None,
        };
    }
}

/// Closing a reply and updating a card leaves the reply where it was.
proof fn lemma_bubble_stays(s: ChatView, call: CallView, id: u32)
    requires
        s.wf(),
        s.in_flight == Some(id),
    ensures
        ({
            let list = card_updated(s.bubble_closed().dest(), call);
            &&& place_of(list, id) == place_of(s.dest(), id)
            &&& place_of(list, id) < list.len()
            &&& list.len() == s.dest().len()
        }),
{
    let at = place_of(s.dest(), id);
    lemma_place_of(s.dest(), id);
    let closed = s.bubble_closed().dest();
    lemma_place_of_card(closed, call.tool_call_id);
    let list = card_updated(closed, call);
    assert forall|i: int| 0 <= i < list.len() implies (#[trigger] list[i]).id == s.dest()[i].id by {}
    lemma_place_of_is(list, id, at);
}

/// A list whose messages keep their ids and tool calls stays well-formed.
proof fn lemma_same_ids(a: Seq<MessageView>, b: Seq<MessageView>, next_id: u32)
    requires
        list_wf(a, next_id),
        a.len() == b.len(),
        forall|i: int|
            0 <= i < a.len() ==> (#[trigger] b[i]).id == a[i].id && b[i].tool_call_id
                == a[i].tool_call_id,
    ensures
        list_wf(b, next_id),
{
    assert forall|i: int, j: int| 0 <= i < j < b.len() implies (#[trigger] b[i]).id != (
    #[trigger] b[j]).id by {
        assert(a[i].id != a[j].id);
    }
    assert forall|i: int, j: int|
        0 <= i < j < b.len() && (#[trigger] b[i]).tool_call_id is Some implies b[i].tool_call_id
        != (#[trigger] b[j]).tool_call_id by {
        assert(a[i].tool_call_id != a[j].tool_call_id);
    }
}

/// A well-formed list stays so with a new message behind it.
proof fn lemma_push_wf(list: Seq<MessageView>, m: MessageView, next_id: u32)
    requires
        list_wf(list, next_id),
        next_id < u32::MAX,
        m.id == next_id,
        m.tool_call_id matches Some(id) ==> place_of_card(list, id) == list.len(),
    ensures
        list_wf(list.push(m), (next_id + 1) as u32),
{
    let b = list.push(m);
    if let Some(id) = m.tool_call_id {
        lemma_place_of_card(list, id);
    }
    assert forall|i: int| 0 <= i < b.len() implies (#[trigger] b[i]).id < next_id + 1 by {
        if i < list.len() {
            assert(b[i] == list[i]);
        }
    }
    assert forall|i: int, j: int| 0 <= i < j < b.len() implies (#[trigger] b[i]).id != (
    #[trigger] b[j]).id by {
        assert(b[i] == list[i]);
        if j < list.len() {
            assert(b[j] == list[j]);
        }
    }
    assert forall|i: int, j: int|
        0 <= i < j < b.len() && (#[trigger] b[i]).tool_call_id is Some implies b[i].tool_call_id
        != (#[trigger] b[j]).tool_call_id by {
        assert(b[i] == list[i]);
        if j < list.len() {
            assert(b[j] == list[j]);
        }
    }
}

/// A well-formed list stays so when ids go on.
proof fn lemma_later_wf(list: Seq<MessageView>, next_id: u32, later: u32)
    requires
        list_wf(list, next_id),
        next_id <= later,
    ensures
        list_wf(list, later),
{
}

/// A well-formed list stays so when one of its messages goes to its end.
proof fn lemma_remove_wf(list: Seq<MessageView>, at: int, next_id: u32)
    requires
        list_wf(list, next_id),
        0 <= at < list.len(),
    ensures
        list_wf(list.remove(at), next_id),
        forall|i: int|
            0 <= i < list.len() - 1 ==> (#[trigger] list.remove(at)[i]).id != list[at].id,
{
    let b = list.remove(at);
    assert forall|i: int| 0 <= i < b.len() implies (#[trigger] b[i]).id < next_id && b[i].id
        != list[at].id by {
        if i < at {
            assert(b[i] == list[i]);
        } else {
            assert(b[i] == list[i + 1]);
        }
    }
    assert forall|i: int, j: int| 0 <= i < j < b.len() implies (#[trigger] b[i]).id != (
    #[trigger] b[j]).id by {
        let x = if i < at {
            i
        } else {
            i + 1
        };
        let y = if j < at {
            j
        } else {
            j + 1
        };
        assert(b[i] == list[x] && b[j] == list[y]);
    }
    assert forall|i: int, j: int|
        0 <= i < j < b.len() && (#[trigger] b[i]).tool_call_id is Some implies b[i].tool_call_id
        != (#[trigger] b[j]).tool_call_id by {
        let x = if i < at {
            i
        } else {
            i + 1
        };
        let y = if j < at {
            j
        } else {
            j + 1
        };
        assert(b[i] == list[x] && b[j] == list[y]);
    }
}

pub proof fn lemma_closed_wf(s: ChatView)
    requires
        s.wf(),
    ensures
        s.bubble_closed().wf(),
        s.bubble_closed().next_id == s.next_id,
        s.bubble_closed().replaying == s.replaying,
        s.bubble_closed().in_flight is None,
        s.bubble_closed().dest().len() == s.dest().len(),
        forall|i: int|
            0 <= i < s.dest().len() ==> (#[trigger] s.bubble_closed().dest()[i]).id
                == s.dest()[i].id && s.bubble_closed().dest()[i].tool_call_id
                == s.dest()[i].tool_call_id,
{
    if let Some(id) = s.in_flight {
        lemma_place_of(s.dest(), id);
        lemma_same_ids(s.dest(), s.bubble_closed().dest(), s.next_id);
    }
}

pub proof fn lemma_agent_text_wf(s: ChatView, chunk: Seq<char>)
    requires
        s.wf(),
        s.next_id < u32::MAX,
    ensures
        s.agent_text(chunk).wf(),
{
    let s1 = if s.in_flight is Some {
        s
    } else {
        ChatView {
            in_flight: Some(s.next_id),
            ..s.pushed(MessageView::assistant(s.next_id))
        }
    };
    if s.in_flight is None {
        lemma_push_wf(s.dest(), MessageView::assistant(s.next_id), s.next_id);
        lemma_later_wf(s.messages, s.next_id, s1.next_id);
        lemma_later_wf(s.replay_buffer, s.next_id, s1.next_id);
        let at = s.dest().len() as int;
        assert forall|i: int| 0 <= i < at implies (#[trigger] s1.dest()[i]).id != s.next_id by {
            assert(s1.dest()[i] == s.dest()[i]);
        }
        lemma_place_of_is(s1.dest(), s.next_id, at);
    }
    let id = s1.in_flight->0;
    lemma_place_of(s1.dest(), id);
    let s2 = s.agent_text(chunk);
    lemma_same_ids(s1.dest(), s2.dest(), s1.next_id);
    assert forall|i: int| 0 <= i < place_of(s1.dest(), id) implies (#[trigger] s2.dest()[i]).id
        != id by {
        assert(s1.dest()[i].id != id);
    }
    lemma_place_of_is(s2.dest(), id, place_of(s1.dest(), id));
}

pub proof fn lemma_user_text_wf(s: ChatView, text: Seq<char>)
    requires
        s.wf(),
        s.next_id < u32::MAX,
    ensures
        s.user_text(text).wf(),
{
    lemma_closed_wf(s);
    let c = s.bubble_closed();
    lemma_push_wf(c.dest(), MessageView::user(c.next_id, text), c.next_id);
    lemma_later_wf(c.messages, c.next_id, (c.next_id + 1) as u32);
    lemma_later_wf(c.replay_buffer, c.next_id, (c.next_id + 1) as u32);
}

/// The list after a snapshot of a tool call is well-formed.
proof fn lemma_with_call_wf(
    list: Seq<MessageView>,
    call: CallView,
    bubble: Option<u32>,
    next_id: u32,
)
    requires
        list_wf(list, next_id),
        next_id < u32::MAX,
        bubble matches Some(id) ==> place_of(list, id) < list.len() && list[place_of(
            list,
            id,
        )].tool_call_id is None,
    ensures
        list_wf(
            with_call(list, call, bubble, next_id),
            if has_card(list, call) {
                next_id
            } else {
                (next_id + 1) as u32
            },
        ),
{
    lemma_place_of_card(list, call.tool_call_id);
    let is_new = !has_card(list, call);
    let updated = card_updated(list, call);
    lemma_same_ids(list, updated, next_id);
    let later = if is_new {
        (next_id + 1) as u32
    } else {
        next_id
    };
    match bubble {
        Some(id) if call.ui_pending => {
            lemma_place_of(list, id);
            let at = place_of(list, id);
            assert forall|i: int| 0 <= i < at implies (#[trigger] updated[i]).id != id by {
                assert(list[i].id != id);
            }
            lemma_place_of_is(updated, id, at);
            assert(updated[at].tool_call_id is None);
            let without = updated.remove(at);
            lemma_remove_wf(updated, at, next_id);
            if is_new {
                lemma_no_card(list, at, call);
            }
            lemma_with_card_wf(without, call, is_new, next_id);
            lemma_push_back(with_card(without, call, is_new, next_id), updated[at], without, later);
        },
        _ => {
            lemma_with_card_wf(updated, call, is_new, next_id);
        },
    }
}

/// A list without a card of a call has none without one of its messages.
proof fn lemma_no_card(list: Seq<MessageView>, gone: int, call: CallView)
    requires
        0 <= gone < list.len(),
        !has_card(list, call),
    ensures
        place_of_card(list.remove(gone), call.tool_call_id) == list.len() - 1,
{
    lemma_place_of_card(list, call.tool_call_id);
    let rest = list.remove(gone);
    assert forall|i: int| 0 <= i < rest.len() implies (#[trigger] rest[i]).tool_call_id != Some(
        call.tool_call_id,
    ) by {
        if i < gone {
            assert(rest[i] == list[i]);
        } else {
            assert(rest[i] == list[i + 1]);
        }
    }
    lemma_place_of_card_is(rest, call.tool_call_id, rest.len() as int);
}

proof fn lemma_with_card_wf(list: Seq<MessageView>, call: CallView, is_new: bool, next_id: u32)
    requires
        list_wf(list, next_id),
        next_id < u32::MAX,
        is_new ==> place_of_card(list, call.tool_call_id) == list.len(),
    ensures
        list_wf(
            with_card(list, call, is_new, next_id),
            if is_new {
                (next_id + 1) as u32
            } else {
                next_id
            },
        ),
        forall|i: int|
            0 <= i < list.len() ==> #[trigger] with_card(list, call, is_new, next_id)[i]
                == list[i],
        is_new ==> with_card(list, call, is_new, next_id).last().id == next_id,
{
    if is_new {
        lemma_push_wf(list, with_card(list, call, is_new, next_id).last(), next_id);
    }
}

/// A message that was taken out of a list can go back behind it.
proof fn lemma_push_back(
    list: Seq<MessageView>,
    m: MessageView,
    without: Seq<MessageView>,
    next_id: u32,
)
    requires
        list_wf(list, next_id),
        m.tool_call_id is None,
        m.id < next_id,
        without.len() <= list.len() <= without.len() + 1,
        forall|i: int| 0 <= i < without.len() ==> #[trigger] list[i] == without[i],
        forall|i: int| 0 <= i < without.len() ==> (#[trigger] without[i]).id != m.id,
        list.len() == without.len() + 1 ==> list.last().id != m.id,
    ensures
        list_wf(list.push(m), next_id),
{
    let b = list.push(m);
    assert forall|i: int| 0 <= i < list.len() implies (#[trigger] list[i]).id != m.id by {
        if i < without.len() {
            assert(without[i].id != m.id);
        }
    }
    assert forall|i: int, j: int| 0 <= i < j < b.len() implies (#[trigger] b[i]).id != (
    #[trigger] b[j]).id by {
        assert(b[i] == list[i]);
        if j < list.len() {
            assert(b[j] == list[j]);
        }
    }
    assert forall|i: int, j: int|
        0 <= i < j < b.len() && (#[trigger] b[i]).tool_call_id is Some implies b[i].tool_call_id
        != (#[trigger] b[j]).tool_call_id by {
        assert(b[i] == list[i]);
        if j < list.len() {
            assert(b[j] == list[j]);
        }
    }
}

pub proof fn lemma_tool_call_wf(s: ChatView, call: CallView)
    requires
        s.wf(),
        s.next_id < u32::MAX,
    ensures
        s.tool_call(call).wf(),
{
    lemma_closed_wf(s);
    let c = s.bubble_closed();
    if let Some(id) = s.in_flight {
        lemma_place_of(s.dest(), id);
        let at = place_of(s.dest(), id);
        assert forall|i: int| 0 <= i < at implies (#[trigger] c.dest()[i]).id != id by {
            assert(s.dest()[i].id != id);
        }
        lemma_place_of_is(c.dest(), id, at);
    }
    lemma_with_call_wf(c.dest(), call, s.in_flight, c.next_id);
    let next = s.tool_call(call);
    lemma_later_wf(c.messages, c.next_id, next.next_id);
    lemma_later_wf(c.replay_buffer, c.next_id, next.next_id);
}

/// Every event of the host leaves the page well-formed: ids are given out
/// once, no tool call has two cards, and the reply that is streaming is in the
/// list that messages go to.
pub proof fn law_events_keep_page_well_formed(s: ChatView, event: JsonView, call: JsonView)
    requires
        s.wf(),
        s.next_id < u32::MAX,
    ensures
        s.after(event, call).wf(),
{
    match event.get_str("type"@) {
        Some(kind) => {
            if kind == "agent_text"@ || kind == "token"@ {
                lemma_agent_text_wf(s, field(event, "content"@));
            } else if kind == "user_text"@ {
                lemma_user_text_wf(s, field(event, "content"@));
            } else if kind == "tool_call"@ {
                lemma_tool_call_wf(s, call_said(field(event, "call"@), call));
            } else if kind == "session_load_end"@ || kind == "done"@ {
                lemma_closed_wf(s);
            } else if kind == "error"@ {
                let message = match event.get_str("message"@) {
                    Some(message) => message,
                    None => "Unknown error"@,
                };
                lemma_failed_wf(s, message);
            }
        },
        None => {},
    }
}

/// A panel leaves the page well-formed too.
pub proof fn law_panels_keep_page_well_formed(s: ChatView, event: JsonView)
    requires
        s.wf(),
    ensures
        s.after_panel(event).wf(),
{
    lemma_panel_wf(s, field(event, "tool_call_id"@), field(event, "html"@));
}

proof fn lemma_failed_wf(s: ChatView, message: Seq<char>)
    requires
        s.wf(),
    ensures
        s.failed(message).wf(),
{
    if let Some(id) = s.in_flight {
        lemma_place_of(s.dest(), id);
        let edited = s.bubble_edited(
            |m: MessageView| MessageView { error: Some(message), streaming: false, ..m },
        );
        lemma_same_ids(s.dest(), edited.dest(), s.next_id);
    }
}

proof fn lemma_panel_wf(s: ChatView, tool_call_id: Seq<char>, html: Seq<char>)
    requires
        s.wf(),
    ensures
        s.panel(tool_call_id, html).wf(),
{
    lemma_place_of_card(s.dest(), tool_call_id);
    let next = s.panel(tool_call_id, html);
    lemma_same_ids(s.dest(), next.dest(), s.next_id);
    if let Some(id) = s.in_flight {
        lemma_place_of(s.dest(), id);
        let at = place_of(s.dest(), id);
        assert forall|i: int| 0 <= i < at implies (#[trigger] next.dest()[i]).id != id by {
            assert(s.dest()[i].id != id);
        }
        lemma_place_of_is(next.dest(), id, at);
    }
}

/// Takes an event of the host. `call` is what the page reads from the snapshot
/// that a tool-call event brings under `call`: null where it is no JSON. It is of
/// no account for other events.
pub fn handle_acp_core_bridge_event(state: &mut ChatState, event: &Json, call: &Json)
    requires
        old(state)@.wf(),
        old(state)@.next_id < u32::MAX,
    ensures
        final(state)@ == old(state)@.after(event@, call@),
        final(state)@.wf(),
{
    proof {
        law_events_keep_page_well_formed(state@, event@, call@);
    }
    let kind: &str = match event.get_str("type") {
        Some(kind) => kind,
        None => {
            return;
        },
    };
    if str_eq(kind, "agent_text") || str_eq(kind, "token") {
        let chunk: String = string_field(event, "content");
        state.agent_text(chunk.as_str());
    } else if str_eq(kind, "user_text") {
        let text: String = string_field(event, "content");
        state.user_text(text.as_str());
    } else if str_eq(kind, "tool_call") {
        state.tool_call(call_in(string_field(event, "call"), call));
    } else if str_eq(kind, "session_load_start") {
        state.clear();
        state.replaying = true;
    } else if str_eq(kind, "session_load_end") {
        state.load_end();
    } else if str_eq(kind, "done") {
        state.close_bubble(None);
        state.sending = false;
    } else if str_eq(kind, "error") {
        let message: String = match event.get_str("message") {
            Some(message) => message.to_owned(),
            None => "Unknown error".to_owned(),
        };
        state.close_bubble(Some(message));
        state.sending = false;
        state.replaying = false;
    } else if str_eq(kind, "session_list") {
        state.sessions = parse_session_entries(event);
    } else if str_eq(kind, "all_sessions_list") {
        state.all_sessions = AllSessionsState::Loaded(parse_session_entries(event));
    } else if str_eq(kind, "all_sessions_error") {
        let message: String = match event.get_str("message") {
            Some(message) => message.to_owned(),
            None => "Failed to load sessions".to_owned(),
        };
        state.all_sessions = AllSessionsState::Failed(message);
    } else if str_eq(kind, "session_active") {
        state.clear();
        state.active_session_id = match event.get_str("id") {
            Some(id) => Some(id.to_owned()),
            None => None,
        };
    } else if str_eq(kind, "session_info") {
        state.info(event);
    }
}

/// Takes an event of the host as far as panels go.
pub fn handle_goose_ext_bridge_event(state: &mut ChatState, event: &Json)
    requires
        old(state)@.wf(),
    ensures
        final(state)@ == old(state)@.after_panel(event@),
        final(state)@.wf(),
{
    proof {
        law_panels_keep_page_well_formed(state@, event@);
    }
    let is_panel: bool = match event.get_str("type") {
        Some(kind) => str_eq(kind, "tool_resource"),
        None => false,
    };
    if !is_panel {
        return;
    }
    let tool_call_id: String = string_field(event, "tool_call_id");
    let html: String = string_field(event, "html");
    let mut list = state.take_dest();
    let at: usize = card_position(&list, tool_call_id.as_str());
    if at < list.len() {
        let mut m: ChatMessage = list[at].clone();
        m.ui_pending = false;
        m.ui_html = Some(html);
        replace(&mut list, at, m);
    }
    state.put_dest(list);
}

/// Submits what was typed, and returns the prompt that is to be sent.
pub fn submit(state: &mut ChatState) -> (prompt: Option<String>)
    requires
        old(state)@.wf(),
        old(state)@.next_id + 1 < u32::MAX,
    ensures
        final(state)@ == old(state)@.submitted(),
        final(state)@.wf(),
        opt_text(prompt) == old(state)@.prompt(),
{
    let ghost before = state@;
    let text: String = trim(state.input_text.as_str()).to_owned();
    proof {
        reveal_strlit("");
        assert(text@.len() == 0 ==> text@ =~= ""@);
    }
    if str_eq(text.as_str(), "") || state.sending || state.replaying {
        return None;
    }
    let uid: u32 = state.next_id;
    state.next_id = uid + 2;
    let ghost first = before.messages.push(MessageView::user(uid, text@));
    push(&mut state.messages, ChatMessage::new_user(uid, text.as_str()));
    push(&mut state.messages, ChatMessage::new_assistant(uid + 1));
    state.in_flight = Some(uid + 1);
    state.sending = true;
    state.input_text = String::new();
    proof {
        assert(state.input_text@ =~= Seq::empty());
        lemma_push_wf(before.messages, MessageView::user(uid, text@), uid);
        lemma_push_wf(first, MessageView::assistant((uid + 1) as u32), (uid + 1) as u32);
        lemma_later_wf(before.replay_buffer, uid, (uid + 2) as u32);
        let at = first.len() as int;
        assert forall|i: int| 0 <= i < at implies (#[trigger] state@.messages[i]).id
            != uid + 1 by {
            assert(state@.messages[i] == first[i]);
        }
        lemma_place_of_is(state@.messages, (uid + 1) as u32, at);
    }
    Some(text)
}

} // verus!
