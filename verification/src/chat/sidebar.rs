//! The session list in the sidebar, the listing of all sessions, and the
//! accordion below them.

use crate::chat::events::{ChatState, ChatView};
use crate::chat::input::key_activates;
use crate::chat::time_ago::{ago, time_ago};
use crate::chat::types::{AllSessionsState, AllSessionsView, ChatPaneView, SessionEntry};
use crate::json::{lemma_object_view, member_views, Json, JsonView};
use crate::text::str_eq;
use crate::tool_call::push_member;
use vstd::prelude::*;

verus! {

/// A message to the host that is nothing but its type.
pub open spec fn bare_command(kind: Seq<char>) -> JsonView {
    JsonView::Object(seq![("type"@, JsonView::String(kind))])
}

/// The message that selects a session.
pub open spec fn select_command(id: Seq<char>) -> JsonView {
    JsonView::Object(
        seq![("type"@, JsonView::String("session_select"@)), ("id"@, JsonView::String(id))],
    )
}

fn command(kind: &str) -> (res: Json)
    ensures
        res@ == bare_command(kind@),
{
    let mut members: Vec<(String, Json)> = Vec::new();
    push_member(&mut members, "type", Json::String(kind.to_owned()));
    proof {
        lemma_object_view(members);
        assert(member_views(members@) =~= bare_command(kind@)->Object_0);
    }
    Json::Object(members)
}

/// The message that tells the host that the page is ready.
pub fn ready_message() -> (res: Json)
    ensures
        res@ == bare_command("ready"@),
{
    command("ready")
}

/// The message that selects a session.
fn select_message(id: &str) -> (res: Json)
    ensures
        res@ == select_command(id@),
{
    let mut members: Vec<(String, Json)> = Vec::new();
    push_member(&mut members, "type", Json::String("session_select".to_owned()));
    push_member(&mut members, "id", Json::String(id.to_owned()));
    proof {
        lemma_object_view(members);
        assert(member_views(members@) =~= select_command(id@)->Object_0);
    }
    Json::Object(members)
}

/// Whether a session is the active one.
pub open spec fn is_active_session(active: Option<Seq<char>>, id: Seq<char>) -> bool {
    active == Some(id)
}

/// Whether a session is the active one.
pub fn is_active(active: &Option<String>, id: &str) -> (res: bool)
    ensures
        res == is_active_session(crate::text::opt_text(*active), id@),
{
    match active {
        Some(active) => str_eq(active.as_str(), id),
        None => false,
    }
}

/// The class of a session in the sidebar.
pub fn session_class(active: bool) -> (res: &'static str)
    ensures
        res@ == (if active {
            "session-item session-item--active"@
        } else {
            "session-item"@
        }),
{
    if active {
        "session-item session-item--active"
    } else {
        "session-item"
    }
}

/// The class of a session in the listing of all sessions.
pub fn listing_class(active: bool) -> (res: &'static str)
    ensures
        res@ == (if active {
            "all-sessions-row all-sessions-row--active"@
        } else {
            "all-sessions-row"@
        }),
{
    if active {
        "all-sessions-row all-sessions-row--active"
    } else {
        "all-sessions-row"
    }
}

/// The class of a section's row.
pub fn row_class(open: bool) -> (res: &'static str)
    ensures
        res@ == (if open {
            "concertina-row concertina-row--open"@
        } else {
            "concertina-row"@
        }),
{
    if open {
        "concertina-row concertina-row--open"
    } else {
        "concertina-row"
    }
}

/// The class of the chevron in a section's row.
pub fn chevron_class(open: bool) -> (res: &'static str)
    ensures
        res@ == (if open {
            "concertina-chevron concertina-chevron--open"@
        } else {
            "concertina-chevron"@
        }),
{
    if open {
        "concertina-chevron concertina-chevron--open"
    } else {
        "concertina-chevron"
    }
}

/// When a session was last active, in words: nothing where that is not
/// reported. `elapsed_ms` are the milliseconds since then.
pub fn session_age(entry: &SessionEntry, elapsed_ms: Option<i64>) -> (res: String)
    ensures
        res@ == (if entry@.last_active is Some {
            ago(
                match elapsed_ms {
                    Some(ms) => Some(ms as int),
                    None => None,
                },
            )
        } else {
            Seq::empty()
        }),
{
    match &entry.last_active {
        Some(_) => time_ago(elapsed_ms),
        None => {
            let res: String = String::new();
            assert(res@ =~= Seq::empty());
            res
        },
    }
}

/// The Sessions section of the sidebar, which starts open.
#[derive(Clone, Copy, Debug, PartialEq, Eq, Structural)]
pub struct SessionsSection {
    pub open: bool,
}

impl SessionsSection {
    /// The section as it starts.
    pub fn new() -> (res: SessionsSection)
        ensures
            res.open,
    {
        SessionsSection { open: true }
    }

    /// Opens or closes the section.
    pub fn toggle(&mut self)
        ensures
            final(self).open == !old(self).open,
    {
        self.open = !self.open;
    }

    /// A key press on the section's row: Enter and Space toggle it. The result
    /// tells whether the press was used.
    pub fn on_key(&mut self, key: &str) -> (used: bool)
        ensures
            used == (key@ == "Enter"@ || key@ == " "@),
            final(self).open == (if used {
                !old(self).open
            } else {
                old(self).open
            }),
    {
        if key_activates(key) {
            self.toggle();
            true
        } else {
            false
        }
    }

    /// Asks for a new session, and opens the section so that it is seen.
    pub fn new_session(&mut self) -> (message: Json)
        ensures
            message@ == bare_command("session_new"@),
            final(self).open,
    {
        self.open = true;
        command("session_new")
    }
}

/// The accordion below the sessions: at most one of its sections is open, and
/// none at first.
#[derive(Clone, Copy, Debug, PartialEq, Eq, Structural)]
pub struct Concertina {
    pub open: Option<usize>,
}

/// The sections of the accordion.
pub fn concertina_label(section: usize) -> (res: Option<&'static str>)
    ensures
        match res {
            Some(label) => (section == 0 && label@ == "Extensions"@) || (section == 1 && label@
                == "Settings"@),
            None => section > 1,
        },
{
    if section == 0 {
        Some("Extensions")
    } else if section == 1 {
        Some("Settings")
    } else {
        None
    }
}

impl Concertina {
    /// The accordion as it starts.
    pub fn new() -> (res: Concertina)
        ensures
            res.open is None,
    {
        Concertina { open: None }
    }

    /// The accordion after a click on a section.
    pub open spec fn clicked(self, section: usize) -> Concertina {
        Concertina {
            open: if self.open == Some(section) {
                None
            } else {
                Some(section)
            },
        }
    }

    /// Opens a section in the place of any other, or closes it.
    pub fn click(&mut self, section: usize)
        ensures
            *final(self) == old(self).clicked(section),
    {
        let is_open: bool = match self.open {
            Some(open) => open == section,
            None => false,
        };
        self.open = if is_open {
            None
        } else {
            Some(section)
        };
    }

    /// Whether a section is open.
    pub fn is_open(&self, section: usize) -> (res: bool)
        ensures
            res == (self.open == Some(section)),
    {
        match self.open {
            Some(open) => open == section,
            None => false,
        }
    }
}

/// A click opens a closed section and closes an open one, and never leaves two
/// open.
pub proof fn law_one_section_open(c: Concertina, a: usize, b: usize)
    ensures
        c.open != Some(a) ==> c.clicked(a).open == Some(a),
        c.open == Some(a) ==> c.clicked(a).open is None,
        c.clicked(a).clicked(b).open == Some(a) ==> a == b,
{
}

impl ChatView {
    /// The page after the listing of all sessions was opened.
    pub open spec fn listing_opened(self) -> ChatView {
        ChatView {
            pane_view: ChatPaneView::AllSessions,
            all_sessions: if self.all_sessions is Idle {
                AllSessionsView::Loading
            } else {
                self.all_sessions
            },
            ..self
        }
    }
}

/// Opens the listing of all sessions. The list is asked for when it is opened
/// for the first time.
pub fn open_all_sessions(state: &mut ChatState) -> (message: Option<Json>)
    ensures
        final(state)@ == old(state)@.listing_opened(),
        match message {
            Some(message) => old(state)@.all_sessions is Idle && message@ == bare_command(
                "list_all_sessions"@,
            ),
            None => !(old(state)@.all_sessions is Idle),
        },
{
    state.pane_view = ChatPaneView::AllSessions;
    let idle: bool = match &state.all_sessions {
        AllSessionsState::Idle => true,
        _ => false,
    };
    if idle {
        state.all_sessions = AllSessionsState::Loading;
        Some(command("list_all_sessions"))
    } else {
        None
    }
}

/// Asks for the list of all sessions again.
pub fn refresh_all_sessions(state: &mut ChatState) -> (message: Json)
    ensures
        final(state)@ == (ChatView { all_sessions: AllSessionsView::Loading, ..old(state)@ }),
        message@ == bare_command("list_all_sessions"@),
{
    state.all_sessions = AllSessionsState::Loading;
    command("list_all_sessions")
}

/// Goes back to the conversation.
pub fn back_to_chat(state: &mut ChatState)
    ensures
        final(state)@ == (ChatView { pane_view: ChatPaneView::Chat, ..old(state)@ }),
{
    state.pane_view = ChatPaneView::Chat;
}

/// Selects a session, in the sidebar or in the listing, and shows the
/// conversation.
pub fn select_session(state: &mut ChatState, id: &str) -> (message: Json)
    ensures
        final(state)@ == (ChatView { pane_view: ChatPaneView::Chat, ..old(state)@ }),
        message@ == select_command(id@),
{
    state.pane_view = ChatPaneView::Chat;
    select_message(id)
}

/// The list of all sessions is asked for once: opening the listing again asks
/// for nothing.
pub proof fn law_listing_is_fetched_once(s: ChatView)
    ensures
        !(s.listing_opened().all_sessions is Idle),
        s.listing_opened().listing_opened() == s.listing_opened(),
{
}

/// Opening the listing of all sessions shows it. Where no list was asked for yet
/// it is being loaded, and a list that is there stays. Nothing else changes.
pub proof fn law_listing_is_shown(s: ChatView)
    ensures
        s.listing_opened().pane_view == ChatPaneView::AllSessions,
        s.all_sessions is Idle ==> s.listing_opened().all_sessions is Loading,
        !(s.all_sessions is Idle) ==> s.listing_opened().all_sessions == s.all_sessions,
        s.listing_opened() == (ChatView {
            pane_view: s.listing_opened().pane_view,
            all_sessions: s.listing_opened().all_sessions,
            ..s
        }),
{
}

/// What the page posts says what it is, and which session is meant.
pub proof fn law_posts_say_what_they_are(kind: Seq<char>, id: Seq<char>)
    ensures
        bare_command(kind).get("type"@) == Some(JsonView::String(kind)),
        select_command(id).get("type"@) == Some(JsonView::String("session_select"@)),
        select_command(id).get("id"@) == Some(JsonView::String(id)),
        is_active_session(Some(id), id),
        kind != id ==> !is_active_session(Some(id), kind),
        !is_active_session(None, id),
{
    reveal_strlit("type");
    reveal_strlit("id");
    assert("type"@.len() == 4 && "id"@.len() == 2);
    reveal_with_fuel(crate::json::lookup, 3);
    let members = select_command(id)->Object_0;
    assert(members.drop_first()[0] == members[1]);
}

} // verus!
