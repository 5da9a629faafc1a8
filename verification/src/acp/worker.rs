//! The worker that holds the conversation with goose for one tab.
//!
//! [`Worker::step`] takes what happened last and says which events go to the
//! tab and what is to be done next. Whoever runs the worker performs that
//! action and hands back its outcome.

use crate::acp::resource::{
    extract_html_from_read_resource_response, read_params, read_request, response_html,
};
use crate::acp::sessions::{summary_views, top_listed, top_sessions, SessionSummary};
use crate::acp::{
    event_views, fetch_views, forward_update, law_updates_go_by_id, listed_views, update_calls, update_event,
    update_fetches, AcpCommand, AcpEvent, AcpEventView, Calls, ListedSession, ListedSessionView,
    PendingFetch, PendingFetchView, SessionUpdate, SessionUpdateView, StopReason,
};
use crate::json::{Json, JsonView};
use crate::text::concat;
use crate::tool_call::{kept_by_id, ToolCalls};
use vstd::prelude::*;

verus! {

/// What the worker is waiting for.
#[derive(Debug)]
pub enum Phase {
    /// The answer to `initialize`.
    Initializing,
    /// The first session list.
    Listing,
    /// The first listed session to be loaded.
    Resuming(String),
    /// The resumed session to be attached.
    Attaching(String),
    /// A fresh session to be started.
    Creating,
    /// A command.
    Idle,
    /// A prompt to go out.
    Sending,
    /// The reply to a prompt.
    Streaming,
    /// A resource of a tool call.
    Reading(PendingFetch),
    /// A selected session to be loaded.
    Loading(String),
    /// A selected session to be attached.
    Switching(String),
    /// The history of a selected session.
    Replaying,
    /// A new session to be started.
    Starting,
    /// The session list after a new session.
    Refreshing,
    /// Nothing: the worker has ended.
    Stopped,
}

/// The model of a [`Phase`].
pub ghost enum PhaseView {
    Initializing,
    Listing,
    Resuming(Seq<char>),
    Attaching(Seq<char>),
    Creating,
    Idle,
    Sending,
    Streaming,
    Reading(PendingFetchView),
    Loading(Seq<char>),
    Switching(Seq<char>),
    Replaying,
    Starting,
    Refreshing,
    Stopped,
}

impl View for Phase {
    type V = PhaseView;

    open spec fn view(&self) -> PhaseView {
        match self {
            Phase::Initializing => PhaseView::Initializing,
            Phase::Listing => PhaseView::Listing,
            Phase::Resuming(id) => PhaseView::Resuming(id@),
            Phase::Attaching(id) => PhaseView::Attaching(id@),
            Phase::Creating => PhaseView::Creating,
            Phase::Idle => PhaseView::Idle,
            Phase::Sending => PhaseView::Sending,
            Phase::Streaming => PhaseView::Streaming,
            Phase::Reading(fetch) => PhaseView::Reading(fetch@),
            Phase::Loading(id) => PhaseView::Loading(id@),
            Phase::Switching(id) => PhaseView::Switching(id@),
            Phase::Replaying => PhaseView::Replaying,
            Phase::Starting => PhaseView::Starting,
            Phase::Refreshing => PhaseView::Refreshing,
            Phase::Stopped => PhaseView::Stopped,
        }
    }
}

/// What happened.
#[derive(Debug)]
pub enum WorkerInput {
    /// The agent answered `initialize`. `model` is its name for the footer.
    Initialized { model: String, cwd: String },
    /// The session list arrived, or could not be had.
    Listed(Option<Vec<SessionSummary>>),
    /// The session was loaded.
    Loaded,
    /// The session was attached.
    Attached,
    /// A session with this ID was started.
    Started(String),
    /// A session could not even be asked for.
    BuildFailed(String),
    /// The prompt went out.
    Sent,
    /// The session sent an update.
    Update(SessionUpdate),
    /// The session sent something else.
    OtherMessage,
    /// The reply has ended.
    Ended(StopReason),
    /// No message of the session is waiting.
    Drained,
    /// The answer to a resource read.
    Response(Json),
    /// What was to be done failed.
    Failed(String),
    /// The tab sent a command.
    Command(AcpCommand),
    /// No further command will come.
    Closed,
}

/// The model of an [`AcpCommand`].
pub ghost enum AcpCommandView {
    Prompt(Seq<char>),
    Shutdown,
    SessionSelect(Seq<char>),
    SessionNew,
    RequestSessionInfo,
}

impl View for AcpCommand {
    type V = AcpCommandView;

    open spec fn view(&self) -> AcpCommandView {
        match self {
            AcpCommand::Prompt(text) => AcpCommandView::Prompt(text@),
            AcpCommand::Shutdown => AcpCommandView::Shutdown,
            AcpCommand::SessionSelect(id) => AcpCommandView::SessionSelect(id@),
            AcpCommand::SessionNew => AcpCommandView::SessionNew,
            AcpCommand::RequestSessionInfo => AcpCommandView::RequestSessionInfo,
        }
    }
}

/// The model of a [`WorkerInput`]. A session list is given as it will be
/// listed.
pub ghost enum WorkerInputView {
    Initialized { model: Seq<char>, cwd: Seq<char> },
    Listed(Seq<ListedSessionView>),
    Loaded,
    Attached,
    Started(Seq<char>),
    BuildFailed(Seq<char>),
    Sent,
    Update(SessionUpdateView),
    OtherMessage,
    Ended(StopReason),
    Drained,
    Response(JsonView),
    Failed(Seq<char>),
    Command(AcpCommandView),
    Closed,
}

impl View for WorkerInput {
    type V = WorkerInputView;

    open spec fn view(&self) -> WorkerInputView {
        match self {
            WorkerInput::Initialized { model, cwd } => WorkerInputView::Initialized {
                model: model@,
                cwd: cwd@,
            },
            WorkerInput::Listed(list) => WorkerInputView::Listed(
                match list {
                    Some(list) => top_listed(summary_views(list@)),
                    None => Seq::empty(),
                },
            ),
            WorkerInput::Loaded => WorkerInputView::Loaded,
            WorkerInput::Attached => WorkerInputView::Attached,
            WorkerInput::Started(id) => WorkerInputView::Started(id@),
            WorkerInput::BuildFailed(e) => WorkerInputView::BuildFailed(e@),
            WorkerInput::Sent => WorkerInputView::Sent,
            WorkerInput::Update(update) => WorkerInputView::Update(update@),
            WorkerInput::OtherMessage => WorkerInputView::OtherMessage,
            WorkerInput::Ended(reason) => WorkerInputView::Ended(*reason),
            WorkerInput::Drained => WorkerInputView::Drained,
            WorkerInput::Response(response) => WorkerInputView::Response(response@),
            WorkerInput::Failed(e) => WorkerInputView::Failed(e@),
            WorkerInput::Command(command) => WorkerInputView::Command(command@),
            WorkerInput::Closed => WorkerInputView::Closed,
        }
    }
}

/// What is to be done next.
#[derive(Debug)]
pub enum WorkerAction {
    /// Keep waiting: what happened was not awaited.
    Wait,
    /// Ask for the session list.
    ListSessions,
    /// Load a session.
    LoadSession(String),
    /// Attach a loaded session.
    AttachSession(String),
    /// Start a new session.
    StartSession,
    /// Wait for a command.
    AwaitCommand,
    /// Send a prompt to the active session.
    SendPrompt(String),
    /// Wait for the next message of the session.
    ReadUpdate,
    /// Take the next message of the session without waiting.
    PollUpdate,
    /// Read a resource with these parameters.
    ReadResource(Json),
    /// End.
    Stop,
}

/// The model of a [`WorkerAction`].
pub ghost enum WorkerActionView {
    Wait,
    ListSessions,
    LoadSession(Seq<char>),
    AttachSession(Seq<char>),
    StartSession,
    AwaitCommand,
    SendPrompt(Seq<char>),
    ReadUpdate,
    PollUpdate,
    ReadResource(JsonView),
    Stop,
}

impl View for WorkerAction {
    type V = WorkerActionView;

    open spec fn view(&self) -> WorkerActionView {
        match self {
            WorkerAction::Wait => WorkerActionView::Wait,
            WorkerAction::ListSessions => WorkerActionView::ListSessions,
            WorkerAction::LoadSession(id) => WorkerActionView::LoadSession(id@),
            WorkerAction::AttachSession(id) => WorkerActionView::AttachSession(id@),
            WorkerAction::StartSession => WorkerActionView::StartSession,
            WorkerAction::AwaitCommand => WorkerActionView::AwaitCommand,
            WorkerAction::SendPrompt(text) => WorkerActionView::SendPrompt(text@),
            WorkerAction::ReadUpdate => WorkerActionView::ReadUpdate,
            WorkerAction::PollUpdate => WorkerActionView::PollUpdate,
            WorkerAction::ReadResource(params) => WorkerActionView::ReadResource(params@),
            WorkerAction::Stop => WorkerActionView::Stop,
        }
    }
}

/// The outcome of a step.
#[derive(Debug)]
pub struct WorkerStep {
    /// The connection has become usable.
    pub ready: bool,
    /// The events for the tab, in their order.
    pub events: Vec<AcpEvent>,
    pub action: WorkerAction,
}

/// The model of a [`WorkerStep`].
pub ghost struct WorkerStepView {
    pub ready: bool,
    pub events: Seq<AcpEventView>,
    pub action: WorkerActionView,
}

impl View for WorkerStep {
    type V = WorkerStepView;

    open spec fn view(&self) -> WorkerStepView {
        WorkerStepView {
            ready: self.ready,
            events: event_views(self.events@),
            action: self.action@,
        }
    }
}

/// The state of the worker.
#[derive(Debug)]
pub struct Worker {
    phase: Phase,
    tool_calls: ToolCalls,
    pending_fetches: Vec<PendingFetch>,
    active_id: String,
    listed: Vec<ListedSession>,
    cwd: String,
    model: String,
}

/// The model of a [`Worker`].
pub ghost struct WorkerView {
    pub phase: PhaseView,
    /// The tool calls of the session by their ids.
    pub calls: Calls,
    /// The resources still to be read.
    pub pending: Seq<PendingFetchView>,
    /// The active session.
    pub active: Seq<char>,
    /// The session list as it was last seen.
    pub listed: Seq<ListedSessionView>,
    pub cwd: Seq<char>,
    pub model: Seq<char>,
}

impl View for Worker {
    type V = WorkerView;

    closed spec fn view(&self) -> WorkerView {
        WorkerView {
            phase: self.phase@,
            calls: self.tool_calls@,
            pending: fetch_views(self.pending_fetches@),
            active: self.active_id@,
            listed: listed_views(self.listed@),
            cwd: self.cwd@,
            model: self.model@,
        }
    }
}

/// A worker and what its step gave.
pub type Stepped = (WorkerView, WorkerStepView);

/// The optional event as a list.
pub open spec fn as_list(event: Option<AcpEventView>) -> Seq<AcpEventView> {
    match event {
        Some(event) => seq![event],
        None => Seq::empty(),
    }
}

impl WorkerView {
    /// The worker as it starts.
    pub open spec fn initial() -> WorkerView {
        WorkerView {
            phase: PhaseView::Initializing,
            calls: Map::empty(),
            pending: Seq::empty(),
            active: Seq::empty(),
            listed: Seq::empty(),
            cwd: Seq::empty(),
            model: Seq::empty(),
        }
    }

    /// Goes on in `phase` with `events` and `action`.
    pub open spec fn goes(
        self,
        phase: PhaseView,
        events: Seq<AcpEventView>,
        action: WorkerActionView,
    ) -> Stepped {
        (WorkerView { phase, ..self }, WorkerStepView { ready: false, events, action })
    }

    /// Goes back to waiting for a command.
    pub open spec fn rests(self, events: Seq<AcpEventView>) -> Stepped {
        self.goes(PhaseView::Idle, events, WorkerActionView::AwaitCommand)
    }

    /// Ends with an error.
    pub open spec fn fails(self, error: Seq<char>) -> Stepped {
        self.goes(PhaseView::Stopped, seq![AcpEventView::Error(error)], WorkerActionView::Stop)
    }

    /// Becomes usable with `id` as its session, and reports it.
    pub open spec fn settles(self, id: Seq<char>) -> Stepped {
        let w = WorkerView { phase: PhaseView::Idle, active: id, ..self };
        (
            w,
            WorkerStepView {
                ready: true,
                events: w.info_events(),
                action: WorkerActionView::AwaitCommand,
            },
        )
    }

    /// Reads the next resource of the queue, or rests where there is none.
    pub open spec fn fetches(self, events: Seq<AcpEventView>) -> Stepped {
        if self.pending.len() == 0 {
            self.rests(events)
        } else {
            let fetch = self.pending[0];
            WorkerView { pending: self.pending.drop_first(), ..self }.goes(
                PhaseView::Reading(fetch),
                events,
                WorkerActionView::ReadResource(
                    read_request(self.active, fetch.uri, fetch.extension_name),
                ),
            )
        }
    }

    /// Takes in an update of the session.
    pub open spec fn forwards(
        self,
        update: SessionUpdateView,
        action: WorkerActionView,
    ) -> Stepped {
        WorkerView {
            calls: update_calls(update, self.calls),
            pending: self.pending + update_fetches(update, self.calls),
            ..self
        }.goes(self.phase, as_list(update_event(update, self.calls)), action)
    }

    /// Ends the replay of history. What the history asked for is not read.
    pub open spec fn replayed(self, events: Seq<AcpEventView>) -> Stepped {
        WorkerView { pending: Seq::empty(), ..self }.rests(
            events + seq![AcpEventView::SessionLoadEnd],
        )
    }

    /// The list and the active session, as events.
    pub open spec fn session_events(self) -> Seq<AcpEventView> {
        seq![AcpEventView::SessionList(self.listed), AcpEventView::SessionActive(self.active)]
    }

    /// All that is known of the session, as events.
    pub open spec fn info_events(self) -> Seq<AcpEventView> {
        self.session_events().push(
            AcpEventView::SessionInfo { cwd: self.cwd, model: self.model, tool_count: None },
        )
    }

    /// Carries out a command.
    pub open spec fn obeys(self, command: AcpCommandView) -> Stepped {
        match command {
            AcpCommandView::Prompt(text) => self.goes(
                PhaseView::Sending,
                Seq::empty(),
                WorkerActionView::SendPrompt(text),
            ),
            AcpCommandView::SessionSelect(id) => self.goes(
                PhaseView::Loading(id),
                Seq::empty(),
                WorkerActionView::LoadSession(id),
            ),
            AcpCommandView::SessionNew => self.goes(
                PhaseView::Starting,
                Seq::empty(),
                WorkerActionView::StartSession,
            ),
            AcpCommandView::RequestSessionInfo => self.rests(self.info_events()),
            AcpCommandView::Shutdown => self.goes(
                PhaseView::Stopped,
                Seq::empty(),
                WorkerActionView::Stop,
            ),
        }
    }

    /// The step of the worker on an input.
    pub open spec fn step(self, input: WorkerInputView) -> Stepped {
        match (self.phase, input) {
            (PhaseView::Initializing, WorkerInputView::Initialized { model, cwd }) => WorkerView {
                model,
                cwd,
                ..self
            }.goes(PhaseView::Listing, Seq::empty(), WorkerActionView::ListSessions),
            (PhaseView::Initializing, WorkerInputView::Failed(e)) => self.fails(e),
            (PhaseView::Listing, WorkerInputView::Listed(listed)) => {
                let w = WorkerView { listed, ..self };
                if listed.len() > 0 {
                    w.goes(
                        PhaseView::Resuming(listed[0].id),
                        Seq::empty(),
                        WorkerActionView::LoadSession(listed[0].id),
                    )
                } else {
                    w.goes(PhaseView::Creating, Seq::empty(), WorkerActionView::StartSession)
                }
            },
            (PhaseView::Resuming(id), WorkerInputView::Loaded) => self.goes(
                PhaseView::Attaching(id),
                Seq::empty(),
                WorkerActionView::AttachSession(id),
            ),
            (PhaseView::Resuming(_), WorkerInputView::Failed(_)) => self.goes(
                PhaseView::Creating,
                Seq::empty(),
                WorkerActionView::StartSession,
            ),
            (PhaseView::Attaching(id), WorkerInputView::Attached) => self.settles(id),
            (PhaseView::Attaching(_), WorkerInputView::Failed(e)) => self.fails(e),
            (PhaseView::Creating, WorkerInputView::Started(id)) => self.settles(id),
            (PhaseView::Creating, WorkerInputView::Failed(e)) => self.fails(e),
            (PhaseView::Creating, WorkerInputView::BuildFailed(e)) => self.fails(e),
            (PhaseView::Idle, WorkerInputView::Command(command)) => self.obeys(command),
            (PhaseView::Idle, WorkerInputView::Closed) => self.goes(
                PhaseView::Stopped,
                Seq::empty(),
                WorkerActionView::Stop,
            ),
            (PhaseView::Sending, WorkerInputView::Sent) => self.goes(
                PhaseView::Streaming,
                Seq::empty(),
                WorkerActionView::ReadUpdate,
            ),
            (PhaseView::Sending, WorkerInputView::Failed(e)) => self.rests(
                seq![AcpEventView::Error(e)],
            ),
            (PhaseView::Streaming, WorkerInputView::Update(update)) => self.forwards(
                update,
                WorkerActionView::ReadUpdate,
            ),
            (PhaseView::Streaming, WorkerInputView::OtherMessage) => self.goes(
                PhaseView::Streaming,
                Seq::empty(),
                WorkerActionView::ReadUpdate,
            ),
            (PhaseView::Streaming, WorkerInputView::Ended(reason)) => self.fetches(
                seq![AcpEventView::Complete(reason)],
            ),
            (PhaseView::Streaming, WorkerInputView::Failed(e)) => self.fetches(
                seq![AcpEventView::Error(e)],
            ),
            (PhaseView::Reading(fetch), WorkerInputView::Response(response)) => self.fetches(
                match response_html(response) {
                    Some(html) => seq![
                        AcpEventView::ToolResource { tool_call_id: fetch.tool_call_id, html },
                    ],
                    None => Seq::empty(),
                },
            ),
            (PhaseView::Reading(_), WorkerInputView::Failed(_)) => self.fetches(Seq::empty()),
            (PhaseView::Loading(id), WorkerInputView::Loaded) => self.goes(
                PhaseView::Switching(id),
                Seq::empty(),
                WorkerActionView::AttachSession(id),
            ),
            (PhaseView::Loading(_), WorkerInputView::Failed(e)) => self.rests(
                seq![AcpEventView::Error("session/load failed: "@ + e)],
            ),
            (PhaseView::Switching(id), WorkerInputView::Attached) => WorkerView {
                active: id,
                calls: Map::empty(),
                pending: Seq::empty(),
                ..self
            }.goes(
                PhaseView::Replaying,
                seq![AcpEventView::SessionActive(id), AcpEventView::SessionLoadStart],
                WorkerActionView::PollUpdate,
            ),
            (PhaseView::Switching(_), WorkerInputView::Failed(e)) => self.rests(
                seq![AcpEventView::Error("session switch failed: "@ + e)],
            ),
            (PhaseView::Replaying, WorkerInputView::Update(update)) => self.forwards(
                update,
                WorkerActionView::PollUpdate,
            ),
            (PhaseView::Replaying, WorkerInputView::OtherMessage) => self.goes(
                PhaseView::Replaying,
                Seq::empty(),
                WorkerActionView::PollUpdate,
            ),
            (PhaseView::Replaying, WorkerInputView::Drained) => self.replayed(Seq::empty()),
            (PhaseView::Replaying, WorkerInputView::Ended(_)) => self.replayed(Seq::empty()),
            (PhaseView::Replaying, WorkerInputView::Failed(e)) => self.replayed(
                seq![AcpEventView::Error(e)],
            ),
            (PhaseView::Starting, WorkerInputView::Started(id)) => WorkerView {
                active: id,
                ..self
            }.goes(PhaseView::Refreshing, Seq::empty(), WorkerActionView::ListSessions),
            (PhaseView::Starting, WorkerInputView::Failed(e)) => self.rests(
                seq![AcpEventView::Error("session/new failed: "@ + e)],
            ),
            (PhaseView::Starting, WorkerInputView::BuildFailed(e)) => self.fails(e),
            (PhaseView::Refreshing, WorkerInputView::Listed(listed)) => {
                let w = WorkerView { listed, ..self };
                w.rests(w.session_events())
            },
            _ => self.goes(self.phase, Seq::empty(), WorkerActionView::Wait),
        }
    }
}

/// No event.
fn silence() -> (res: Vec<AcpEvent>)
    ensures
        event_views(res@) == Seq::<AcpEventView>::empty(),
{
    let res: Vec<AcpEvent> = Vec::new();
    assert(event_views(res@) =~= Seq::empty());
    res
}

/// One event.
fn only(event: AcpEvent) -> (res: Vec<AcpEvent>)
    ensures
        event_views(res@) == seq![event@],
{
    let ghost model = event@;
    let mut res: Vec<AcpEvent> = Vec::new();
    res.push(event);
    assert(event_views(res@) =~= seq![model]);
    res
}

/// The events and one more.
fn also(events: Vec<AcpEvent>, event: AcpEvent) -> (res: Vec<AcpEvent>)
    ensures
        event_views(res@) == event_views(events@).push(event@),
{
    let ghost model = event@;
    let ghost before = event_views(events@);
    let mut res: Vec<AcpEvent> = events;
    res.push(event);
    assert(event_views(res@) =~= before.push(model));
    res
}

/// A copy of a session list.
pub(crate) fn clone_listed(list: &Vec<ListedSession>) -> (res: Vec<ListedSession>)
    ensures
        listed_views(res@) == listed_views(list@),
{
    let mut res: Vec<ListedSession> = Vec::new();
    let mut i: usize = 0;
    while i < list.len()
        invariant
            i <= list.len(),
            res.len() == i,
            forall|k: int| 0 <= k < i ==> (#[trigger] res[k])@ == list[k]@,
        decreases list.len() - i,
    {
        res.push(list[i].clone());
        i += 1;
    }
    assert(listed_views(res@) =~= listed_views(list@));
    res
}

/// The name of the agent that the footer shows: its title, else its name.
pub fn agent_model(title: Option<String>, name: String) -> (res: String)
    ensures
        res@ == (match title {
            Some(title) => title@,
            None => name@,
        }),
{
    match title {
        Some(title) => title,
        None => name,
    }
}

/// The session list of an answer, or none where there was no answer.
fn listed_of(list: Option<Vec<SessionSummary>>) -> (res: Vec<ListedSession>)
    ensures
        WorkerInput::Listed(list)@ == WorkerInputView::Listed(listed_views(res@)),
{
    match list {
        Some(list) => top_sessions(&list),
        None => {
            let res: Vec<ListedSession> = Vec::new();
            assert(listed_views(res@) =~= Seq::empty());
            res
        },
    }
}

impl Worker {
    /// Each tool call is kept under its own id.
    pub proof fn law_calls_are_kept_by_id(self)
        ensures
            kept_by_id(self@.calls),
    {
        self.tool_calls.law_calls_are_kept_by_id();
    }

    /// A worker that waits for the answer to `initialize`.
    pub fn new() -> (res: Worker)
        ensures
            res@ == WorkerView::initial(),
    {
        let res = Worker {
            phase: Phase::Initializing,
            tool_calls: ToolCalls::new(),
            pending_fetches: Vec::new(),
            active_id: String::new(),
            listed: Vec::new(),
            cwd: String::new(),
            model: String::new(),
        };
        assert(fetch_views(res.pending_fetches@) =~= Seq::empty());
        assert(listed_views(res.listed@) =~= Seq::empty());
        res
    }

    fn goes(&mut self, phase: Phase, events: Vec<AcpEvent>, action: WorkerAction) -> (res:
        WorkerStep)
        ensures
            (final(self)@, res@) == old(self)@.goes(phase@, event_views(events@), action@),
    {
        self.phase = phase;
        WorkerStep { ready: false, events, action }
    }

    fn rests(&mut self, events: Vec<AcpEvent>) -> (res: WorkerStep)
        ensures
            (final(self)@, res@) == old(self)@.rests(event_views(events@)),
    {
        self.goes(Phase::Idle, events, WorkerAction::AwaitCommand)
    }

    fn fails(&mut self, error: String) -> (res: WorkerStep)
        ensures
            (final(self)@, res@) == old(self)@.fails(error@),
    {
        self.goes(Phase::Stopped, only(AcpEvent::Error(error)), WorkerAction::Stop)
    }

    fn settles(&mut self, id: String) -> (res: WorkerStep)
        ensures
            (final(self)@, res@) == old(self)@.settles(id@),
    {
        self.active_id = id;
        self.phase = Phase::Idle;
        let events = self.info_events();
        WorkerStep { ready: true, events, action: WorkerAction::AwaitCommand }
    }

    fn fetches(&mut self, events: Vec<AcpEvent>) -> (res: WorkerStep)
        ensures
            (final(self)@, res@) == old(self)@.fetches(event_views(events@)),
    {
        if self.pending_fetches.len() == 0 {
            self.rests(events)
        } else {
            let ghost queue = self@.pending;
            let fetch: PendingFetch = self.pending_fetches.remove(0);
            assert(fetch_views(self.pending_fetches@) =~= queue.drop_first());
            let params: Json = read_params(
                self.active_id.as_str(),
                fetch.uri.as_str(),
                fetch.extension_name.as_str(),
            );
            self.goes(Phase::Reading(fetch), events, WorkerAction::ReadResource(params))
        }
    }

    fn forwards(&mut self, update: SessionUpdate, phase: Phase, action: WorkerAction) -> (res:
        WorkerStep)
        ensures
            (final(self)@, res@) == (WorkerView { phase: phase@, ..old(self)@ }).forwards(
                update@,
                action@,
            ),
    {
        self.phase = phase;
        let event = forward_update(update, &mut self.tool_calls, &mut self.pending_fetches);
        let events = match event {
            Some(event) => only(event),
            None => silence(),
        };
        WorkerStep { ready: false, events, action }
    }

    fn clear_pending(&mut self)
        ensures
            final(self)@ == (WorkerView { pending: Seq::empty(), ..old(self)@ }),
    {
        self.pending_fetches = Vec::new();
        assert(fetch_views(self.pending_fetches@) =~= Seq::empty());
    }

    fn replayed(&mut self, events: Vec<AcpEvent>) -> (res: WorkerStep)
        ensures
            (final(self)@, res@) == old(self)@.replayed(event_views(events@)),
    {
        self.clear_pending();
        let ghost before = event_views(events@);
        let events = also(events, AcpEvent::SessionLoadEnd);
        assert(event_views(events@) =~= before + seq![AcpEventView::SessionLoadEnd]);
        self.rests(events)
    }

    fn session_events(&self) -> (res: Vec<AcpEvent>)
        ensures
            event_views(res@) == self@.session_events(),
    {
        let list = clone_listed(&self.listed);
        let res = also(
            only(AcpEvent::SessionList(list)),
            AcpEvent::SessionActive(self.active_id.clone()),
        );
        assert(event_views(res@) =~= self@.session_events());
        res
    }

    fn info_events(&self) -> (res: Vec<AcpEvent>)
        ensures
            event_views(res@) == self@.info_events(),
    {
        let info = AcpEvent::SessionInfo {
            cwd: self.cwd.clone(),
            model: self.model.clone(),
            tool_count: None,
        };
        also(self.session_events(), info)
    }

    fn obeys(&mut self, command: AcpCommand) -> (res: WorkerStep)
        ensures
            (final(self)@, res@) == old(self)@.obeys(command@),
    {
        match command {
            AcpCommand::Prompt(text) => self.goes(
                Phase::Sending,
                silence(),
                WorkerAction::SendPrompt(text),
            ),
            AcpCommand::SessionSelect(id) => self.goes(
                Phase::Loading(id.clone()),
                silence(),
                WorkerAction::LoadSession(id),
            ),
            AcpCommand::SessionNew => self.goes(
                Phase::Starting,
                silence(),
                WorkerAction::StartSession,
            ),
            AcpCommand::RequestSessionInfo => {
                let events = self.info_events();
                self.rests(events)
            },
            AcpCommand::Shutdown => self.goes(Phase::Stopped, silence(), WorkerAction::Stop),
        }
    }

    /// Takes what happened, and says what goes to the tab and what is to be
    /// done next.
    pub fn step(&mut self, input: WorkerInput) -> (res: WorkerStep)
        ensures
            (final(self)@, res@) == old(self)@.step(input@),
    {
        let mut phase: Phase = Phase::Stopped;
        core::mem::swap(&mut phase, &mut self.phase);
        match (phase, input) {
            (Phase::Initializing, WorkerInput::Initialized { model, cwd }) => {
                self.model = model;
                self.cwd = cwd;
                self.goes(Phase::Listing, silence(), WorkerAction::ListSessions)
            },
            (Phase::Initializing, WorkerInput::Failed(e)) => self.fails(e),
            (Phase::Listing, WorkerInput::Listed(list)) => {
                self.listed = listed_of(list);
                if self.listed.len() > 0 {
                    let id: String = self.listed[0].id.clone();
                    self.goes(
                        Phase::Resuming(id.clone()),
                        silence(),
                        WorkerAction::LoadSession(id),
                    )
                } else {
                    self.goes(Phase::Creating, silence(), WorkerAction::StartSession)
                }
            },
            (Phase::Resuming(id), WorkerInput::Loaded) => self.goes(
                Phase::Attaching(id.clone()),
                silence(),
                WorkerAction::AttachSession(id),
            ),
            (Phase::Resuming(_), WorkerInput::Failed(_)) => self.goes(
                Phase::Creating,
                silence(),
                WorkerAction::StartSession,
            ),
            (Phase::Attaching(id), WorkerInput::Attached) => self.settles(id),
            (Phase::Attaching(_), WorkerInput::Failed(e)) => self.fails(e),
            (Phase::Creating, WorkerInput::Started(id)) => self.settles(id),
            (Phase::Creating, WorkerInput::Failed(e)) => self.fails(e),
            (Phase::Creating, WorkerInput::BuildFailed(e)) => self.fails(e),
            (Phase::Idle, WorkerInput::Command(command)) => self.obeys(command),
            (Phase::Idle, WorkerInput::Closed) => self.goes(
                Phase::Stopped,
                silence(),
                WorkerAction::Stop,
            ),
            (Phase::Sending, WorkerInput::Sent) => self.goes(
                Phase::Streaming,
                silence(),
                WorkerAction::ReadUpdate,
            ),
            (Phase::Sending, WorkerInput::Failed(e)) => self.rests(only(AcpEvent::Error(e))),
            (Phase::Streaming, WorkerInput::Update(update)) => self.forwards(
                update,
                Phase::Streaming,
                WorkerAction::ReadUpdate,
            ),
            (Phase::Streaming, WorkerInput::OtherMessage) => self.goes(
                Phase::Streaming,
                silence(),
                WorkerAction::ReadUpdate,
            ),
            (Phase::Streaming, WorkerInput::Ended(reason)) => self.fetches(
                only(AcpEvent::Complete(reason)),
            ),
            (Phase::Streaming, WorkerInput::Failed(e)) => self.fetches(only(AcpEvent::Error(e))),
            (Phase::Reading(fetch), WorkerInput::Response(response)) => {
                let events = match extract_html_from_read_resource_response(&response) {
                    Some(html) => only(
                        AcpEvent::ToolResource { tool_call_id: fetch.tool_call_id, html },
                    ),
                    None => silence(),
                };
                self.fetches(events)
            },
            (Phase::Reading(_), WorkerInput::Failed(_)) => self.fetches(silence()),
            (Phase::Loading(id), WorkerInput::Loaded) => self.goes(
                Phase::Switching(id.clone()),
                silence(),
                WorkerAction::AttachSession(id),
            ),
            (Phase::Loading(_), WorkerInput::Failed(e)) => self.rests(
                only(AcpEvent::Error(concat("session/load failed: ", e.as_str()))),
            ),
            (Phase::Switching(id), WorkerInput::Attached) => {
                self.active_id = id.clone();
                self.tool_calls.clear();
                self.clear_pending();
                let ghost active = id@;
                let events = also(only(AcpEvent::SessionActive(id)), AcpEvent::SessionLoadStart);
                assert(event_views(events@) =~= seq![
                    AcpEventView::SessionActive(active),
                    AcpEventView::SessionLoadStart,
                ]);
                self.goes(Phase::Replaying, events, WorkerAction::PollUpdate)
            },
            (Phase::Switching(_), WorkerInput::Failed(e)) => self.rests(
                only(AcpEvent::Error(concat("session switch failed: ", e.as_str()))),
            ),
            (Phase::Replaying, WorkerInput::Update(update)) => self.forwards(
                update,
                Phase::Replaying,
                WorkerAction::PollUpdate,
            ),
            (Phase::Replaying, WorkerInput::OtherMessage) => self.goes(
                Phase::Replaying,
                silence(),
                WorkerAction::PollUpdate,
            ),
            (Phase::Replaying, WorkerInput::Drained) => self.replayed(silence()),
            (Phase::Replaying, WorkerInput::Ended(_)) => self.replayed(silence()),
            (Phase::Replaying, WorkerInput::Failed(e)) => self.replayed(only(AcpEvent::Error(e))),
            (Phase::Starting, WorkerInput::Started(id)) => {
                self.active_id = id;
                self.goes(Phase::Refreshing, silence(), WorkerAction::ListSessions)
            },
            (Phase::Starting, WorkerInput::Failed(e)) => self.rests(
                only(AcpEvent::Error(concat("session/new failed: ", e.as_str()))),
            ),
            (Phase::Starting, WorkerInput::BuildFailed(e)) => self.fails(e),
            (Phase::Refreshing, WorkerInput::Listed(list)) => {
                self.listed = listed_of(list);
                let events = self.session_events();
                self.rests(events)
            },
            (phase, _) => self.goes(phase, silence(), WorkerAction::Wait),
        }
    }
}

impl WorkerView {
    /// The worker has a session, or had one until it ended.
    pub open spec fn settled(self) -> bool {
        match self.phase {
            PhaseView::Initializing => false,
            PhaseView::Listing => false,
            PhaseView::Resuming(_) => false,
            PhaseView::Attaching(_) => false,
            PhaseView::Creating => false,
            _ => true,
        }
    }

    /// Resources are queued only while a reply streams, while they are being
    /// read, or while history is replayed.
    pub open spec fn queue_in_use(self) -> bool {
        self.pending.len() > 0 ==> match self.phase {
            PhaseView::Streaming => true,
            PhaseView::Reading(_) => true,
            PhaseView::Replaying => true,
            _ => false,
        }
    }

    /// The worker after a list of inputs.
    pub open spec fn after(self, inputs: Seq<WorkerInputView>) -> WorkerView
        decreases inputs.len(),
    {
        if inputs.len() == 0 {
            self
        } else {
            self.step(inputs[0]).0.after(inputs.drop_first())
        }
    }

    /// The events that a list of inputs gives, in their order.
    pub open spec fn events(self, inputs: Seq<WorkerInputView>) -> Seq<AcpEventView>
        decreases inputs.len(),
    {
        if inputs.len() == 0 {
            Seq::empty()
        } else {
            self.step(inputs[0]).1.events + self.step(inputs[0]).0.events(inputs.drop_first())
        }
    }
}

/// The worker keeps each tool call under its own id.
pub proof fn law_calls_stay_by_id(w: WorkerView, input: WorkerInputView)
    requires
        kept_by_id(w.calls),
    ensures
        kept_by_id(WorkerView::initial().calls),
        kept_by_id(w.step(input).0.calls),
{
    if let WorkerInputView::Update(update) = input {
        law_updates_go_by_id(update, w.calls);
    }
}

/// A worker that has ended stays so, and says nothing more.
pub proof fn law_stopped_for_good(w: WorkerView, input: WorkerInputView)
    requires
        w.phase == PhaseView::Stopped,
    ensures
        w.step(input).0 == w,
        w.step(input).1.events.len() == 0,
{
}

/// The queue of resources is in use only where it may be: a worker at rest has
/// an empty queue.
pub proof fn law_queue_in_use(w: WorkerView, input: WorkerInputView)
    requires
        w.queue_in_use(),
    ensures
        w.step(input).0.queue_in_use(),
{
}

/// Readiness is signalled once: by the step that settles the worker, and by no
/// later one.
pub proof fn law_ready_once(w: WorkerView, input: WorkerInputView)
    ensures
        w.settled() ==> w.step(input).0.settled() && !w.step(input).1.ready,
        w.step(input).1.ready ==> !w.settled() && w.step(input).0.settled(),
{
}

/// Before it is ready the worker reports nothing but the error it ends with,
/// and when it becomes ready it reports the sessions and what it knows of its
/// own.
pub proof fn law_quiet_until_ready(w: WorkerView, input: WorkerInputView)
    requires
        !w.settled(),
    ensures
        w.step(input).1.ready ==> w.step(input).1.events == w.step(input).0.info_events(),
        !w.step(input).1.ready && w.step(input).1.events.len() > 0 ==> w.step(input).0.phase
            == PhaseView::Stopped && w.step(input).1.events.len() == 1 && w.step(
            input,
        ).1.events[0] is Error,
{
}

/// A change of the active session is reported by the step that makes it, or,
/// for a new session, once the session list is there.
pub proof fn law_active_changes_are_reported(
    w: WorkerView,
    input: WorkerInputView,
    listed: Seq<ListedSessionView>,
)
    requires
        w.step(input).0.active != w.active,
    ensures
        ({
            let (next, out) = w.step(input);
            let report = AcpEventView::SessionActive(next.active);
            ||| out.events.contains(report)
            ||| {
                &&& next.phase == PhaseView::Refreshing
                &&& next.step(WorkerInputView::Listed(listed)).1.events.contains(report)
            }
        }),
{
    let (next, out) = w.step(input);
    if w.phase is Switching {
        assert(out.events[0] == AcpEventView::SessionActive(next.active));
    } else if out.ready {
        assert(out.events[1] == AcpEventView::SessionActive(next.active));
    } else {
        let after = next.step(WorkerInputView::Listed(listed));
        assert(after.1.events[1] == AcpEventView::SessionActive(next.active));
    }
}

/// Selecting a session replays its history between a start and an end, with
/// the active session reported ahead of both. In between stands one event for
/// each update that has one, in the order of the updates.
pub proof fn law_history_is_replayed(w: WorkerView, id: Seq<char>, updates: Seq<SessionUpdateView>)
    requires
        w.phase == PhaseView::Idle,
    ensures
        ({
            let inputs = seq![
                WorkerInputView::Command(AcpCommandView::SessionSelect(id)),
                WorkerInputView::Loaded,
                WorkerInputView::Attached,
            ] + as_inputs(updates) + seq![WorkerInputView::Drained];
            &&& w.events(inputs) == seq![
                AcpEventView::SessionActive(id),
                AcpEventView::SessionLoadStart,
            ] + update_events(updates, Map::empty()) + seq![AcpEventView::SessionLoadEnd]
            &&& w.after(inputs).phase == PhaseView::Idle
            &&& w.after(inputs).active == id
            &&& w.after(inputs).pending.len() == 0
        }),
{
    let tail = as_inputs(updates) + seq![WorkerInputView::Drained];
    let head = seq![
        WorkerInputView::Command(AcpCommandView::SessionSelect(id)),
        WorkerInputView::Loaded,
        WorkerInputView::Attached,
    ];
    let inputs = head + as_inputs(updates) + seq![WorkerInputView::Drained];
    let i1 = inputs.drop_first();
    let i2 = i1.drop_first();
    assert(i2.drop_first() =~= tail);
    assert(inputs[0] == head[0] && i1[0] == head[1] && i2[0] == head[2]);
    let w1 = w.step(inputs[0]).0;
    let w2 = w1.step(i1[0]).0;
    let w3 = w2.step(i2[0]).0;
    lemma_replay(w3, updates);
    assert(w2.events(i2) == w2.step(i2[0]).1.events + w3.events(tail));
    assert(w1.events(i1) =~= w2.events(i2));
    assert(w.events(inputs) =~= w1.events(i1));
    assert(w2.after(i2) == w3.after(tail));
    assert(w1.after(i1) == w2.after(i2));
    assert(w.after(inputs) == w1.after(i1));
    assert(w.events(inputs) =~= seq![
        AcpEventView::SessionActive(id),
        AcpEventView::SessionLoadStart,
    ] + update_events(updates, Map::empty()) + seq![AcpEventView::SessionLoadEnd]);
}

/// Updates as inputs.
pub open spec fn as_inputs(updates: Seq<SessionUpdateView>) -> Seq<WorkerInputView> {
    updates.map_values(|u: SessionUpdateView| WorkerInputView::Update(u))
}

/// The events of a list of updates, given the calls known before them.
pub open spec fn update_events(updates: Seq<SessionUpdateView>, calls: Calls) -> Seq<AcpEventView>
    decreases updates.len(),
{
    if updates.len() == 0 {
        Seq::empty()
    } else {
        as_list(update_event(updates[0], calls)) + update_events(
            updates.drop_first(),
            update_calls(updates[0], calls),
        )
    }
}

proof fn lemma_replay(w: WorkerView, updates: Seq<SessionUpdateView>)
    requires
        w.phase == PhaseView::Replaying,
    ensures
        ({
            let inputs = as_inputs(updates) + seq![WorkerInputView::Drained];
            &&& w.events(inputs) == update_events(updates, w.calls)
                + seq![AcpEventView::SessionLoadEnd]
            &&& w.after(inputs).phase == PhaseView::Idle
            &&& w.after(inputs).active == w.active
            &&& w.after(inputs).pending.len() == 0
        }),
    decreases updates.len(),
{
    let inputs = as_inputs(updates) + seq![WorkerInputView::Drained];
    let rest = inputs.drop_first();
    if updates.len() == 0 {
        assert(inputs[0] == WorkerInputView::Drained);
        assert(rest =~= Seq::empty());
        reveal_with_fuel(WorkerView::events, 2);
        reveal_with_fuel(WorkerView::after, 2);
        assert(w.events(inputs) =~= seq![AcpEventView::SessionLoadEnd]);
        assert(update_events(updates, w.calls) + seq![AcpEventView::SessionLoadEnd] =~= seq![
            AcpEventView::SessionLoadEnd,
        ]);
    } else {
        assert(inputs[0] == WorkerInputView::Update(updates[0]));
        assert(rest =~= as_inputs(updates.drop_first()) + seq![WorkerInputView::Drained]);
        let next = w.step(inputs[0]).0;
        lemma_replay(next, updates.drop_first());
        assert(w.events(inputs) =~= update_events(updates, w.calls)
            + seq![AcpEventView::SessionLoadEnd]);
    }
}

/// A replay of history reads no resource, whatever the history asked for.
pub proof fn law_history_reads_no_resource(w: WorkerView, input: WorkerInputView)
    requires
        w.phase == PhaseView::Replaying,
    ensures
        !(w.step(input).1.action is ReadResource),
        w.step(input).0.phase == PhaseView::Replaying || w.step(input).0.pending.len() == 0,
{
}

/// Once a reply has ended, each queued resource is read, one after the other
/// and in the order of the queue, and then the worker rests.
pub proof fn law_every_queued_resource_is_read(
    w: WorkerView,
    fetch: PendingFetchView,
    responses: Seq<JsonView>,
)
    requires
        w.phase == PhaseView::Reading(fetch),
        responses.len() == w.pending.len() + 1,
    ensures
        ({
            let inputs = responses.map_values(|r: JsonView| WorkerInputView::Response(r));
            &&& w.events(inputs) == panel_events(seq![fetch] + w.pending, responses)
            &&& w.after(inputs).phase == PhaseView::Idle
        }),
    decreases responses.len(),
{
    let inputs = responses.map_values(|r: JsonView| WorkerInputView::Response(r));
    let queue = seq![fetch] + w.pending;
    let next = w.step(inputs[0]).0;
    let rest = responses.drop_first();
    assert(inputs.drop_first() =~= rest.map_values(|r: JsonView| WorkerInputView::Response(r)));
    if w.pending.len() == 0 {
        reveal_with_fuel(WorkerView::events, 2);
        reveal_with_fuel(WorkerView::after, 2);
        assert(inputs.drop_first() =~= Seq::empty());
        assert(rest =~= Seq::empty());
        reveal_with_fuel(panel_events, 2);
        assert(w.events(inputs) =~= panel_events(queue, responses));
    } else {
        law_every_queued_resource_is_read(next, w.pending[0], rest);
        assert(queue.drop_first() =~= seq![w.pending[0]] + w.pending.drop_first());
        assert(w.events(inputs) =~= panel_events(queue, responses));
    }
}

/// The panels that answers to a queue of reads give.
pub open spec fn panel_events(
    queue: Seq<PendingFetchView>,
    responses: Seq<JsonView>,
) -> Seq<AcpEventView>
    decreases queue.len(),
{
    if queue.len() == 0 || responses.len() == 0 {
        Seq::empty()
    } else {
        (match response_html(responses[0]) {
            Some(html) => seq![
                AcpEventView::ToolResource { tool_call_id: queue[0].tool_call_id, html },
            ],
            None => Seq::empty(),
        }) + panel_events(queue.drop_first(), responses.drop_first())
    }
}

} // verus!
