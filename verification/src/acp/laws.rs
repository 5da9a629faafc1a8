//! What holds of a conversation as a whole.

use crate::acp::resource::{first_html, html_of_item, read_request, response_html};
use crate::acp::sessions::{by_recency, law_by_recency_sorts, top_listed, LISTED_SESSIONS};
use crate::acp::sessions::{time_before, SessionSummaryView};
use crate::acp::worker::{
    as_inputs, update_events, AcpCommandView, PhaseView, WorkerActionView, WorkerInputView,
    WorkerView,
};
use crate::acp::{
    update_calls, update_event, update_fetches, AcpEventView, Calls, ListedSessionView,
    PendingFetchView, SessionUpdateView, StopReason,
};
use crate::json::JsonView;
use crate::tool_call::{ToolCallStatus, ToolCallView};
use vstd::prelude::*;

verus! {

/// What the agent says and does reaches the tab: each piece of text as it came,
/// each call in full, each change of a known call as the call that is kept from
/// then on. Nothing else does.
pub proof fn law_updates_are_told(update: SessionUpdateView, calls: Calls)
    ensures
        match update {
            SessionUpdateView::AgentMessageChunk(Some(text)) => update_event(update, calls) == Some(
                AcpEventView::AgentText(text),
            ),
            SessionUpdateView::UserMessageChunk(Some(text)) => update_event(update, calls) == Some(
                AcpEventView::UserText(text),
            ),
            SessionUpdateView::ToolCall(call) => {
                &&& update_event(update, calls) == Some(AcpEventView::ToolCall(call))
                &&& update_calls(update, calls)[call.tool_call_id] == call
            },
            SessionUpdateView::ToolCallUpdate(change) => if calls.contains_key(
                change.tool_call_id,
            ) {
                update_event(update, calls) == Some(
                    AcpEventView::ToolCall(update_calls(update, calls)[change.tool_call_id]),
                )
            } else {
                update_event(update, calls) is None && update_calls(update, calls) == calls
            },
            _ => update_event(update, calls) is None && update_calls(update, calls) == calls,
        },
        update is AgentMessageChunk || update is UserMessageChunk ==> update_calls(update, calls)
            == calls,
{
}

/// An update touches the call with its id and no other, and forgets none.
pub proof fn law_other_calls_stay(update: SessionUpdateView, calls: Calls, other: Seq<char>)
    requires
        update matches SessionUpdateView::ToolCall(call) ==> call.tool_call_id != other,
        update matches SessionUpdateView::ToolCallUpdate(change) ==> change.tool_call_id != other,
    ensures
        update_calls(update, calls).contains_key(other) == calls.contains_key(other),
        calls.contains_key(other) ==> update_calls(update, calls)[other] == calls[other],
{
}

/// The text that stands under a key of an optional value.
pub open spec fn text_under(value: Option<JsonView>, key: Seq<char>) -> Option<Seq<char>> {
    match value {
        Some(value) => match value.get(key) {
            Some(JsonView::String(text)) => Some(text),
            _ => None,
        },
        None => None,
    }
}

/// What stands under a key of an optional value.
pub open spec fn under(value: Option<JsonView>, key: Seq<char>) -> Option<JsonView> {
    match value {
        Some(value) => value.get(key),
        None => None,
    }
}

/// The metadata of a call as a value.
pub open spec fn meta_value(call: ToolCallView) -> Option<JsonView> {
    match call.meta {
        Some(meta) => Some(JsonView::Object(meta)),
        None => None,
    }
}

/// A panel is queued for reading exactly when a change leaves a known call
/// completed, with `resourceUri` in its output and the name of an extension in
/// its metadata: one read, for that call, of that resource, from that
/// extension.
pub proof fn law_completed_calls_are_fetched(update: SessionUpdateView, calls: Calls)
    ensures
        match update {
            SessionUpdateView::ToolCallUpdate(change) => {
                let merged = update_calls(update, calls)[change.tool_call_id];
                let uri = text_under(merged.raw_output, "resourceUri"@);
                let name = text_under(
                    under(under(meta_value(merged), "goose"@), "toolCall"@),
                    "extensionName"@,
                );
                if calls.contains_key(change.tool_call_id) && merged.status
                    == ToolCallStatus::Completed && uri is Some && name is Some {
                    update_fetches(update, calls) == seq![
                        PendingFetchView {
                            tool_call_id: merged.tool_call_id,
                            uri: uri->0,
                            extension_name: name->0,
                        },
                    ]
                } else {
                    update_fetches(update, calls).len() == 0
                }
            },
            _ => update_fetches(update, calls).len() == 0,
        },
{
}

/// The panels that a list of updates asks for, given the calls known before
/// them.
pub open spec fn all_fetches(updates: Seq<SessionUpdateView>, calls: Calls) -> Seq<PendingFetchView>
    decreases updates.len(),
{
    if updates.len() == 0 {
        Seq::empty()
    } else {
        update_fetches(updates[0], calls) + all_fetches(
            updates.drop_first(),
            update_calls(updates[0], calls),
        )
    }
}

proof fn lemma_streaming(w: WorkerView, updates: Seq<SessionUpdateView>, last: WorkerInputView)
    requires
        w.phase == PhaseView::Streaming,
    ensures
        ({
            let end = w.after(as_inputs(updates));
            &&& end.phase == PhaseView::Streaming
            &&& end.active == w.active
            &&& end.listed == w.listed
            &&& end.pending == w.pending + all_fetches(updates, w.calls)
            &&& w.events(as_inputs(updates) + seq![last]) == update_events(updates, w.calls)
                + end.step(last).1.events
            &&& w.after(as_inputs(updates) + seq![last]) == end.step(last).0
        }),
    decreases updates.len(),
{
    let inputs = as_inputs(updates) + seq![last];
    let rest = inputs.drop_first();
    reveal_with_fuel(WorkerView::events, 2);
    reveal_with_fuel(WorkerView::after, 2);
    if updates.len() == 0 {
        assert(as_inputs(updates) =~= Seq::empty());
        assert(w.pending + all_fetches(updates, w.calls) =~= w.pending);
        assert(inputs[0] == last);
        assert(rest =~= Seq::empty());
        assert(w.events(inputs) =~= update_events(updates, w.calls) + w.step(last).1.events);
    } else {
        assert(inputs[0] == WorkerInputView::Update(updates[0]));
        assert(rest =~= as_inputs(updates.drop_first()) + seq![last]);
        assert(as_inputs(updates)[0] == inputs[0]);
        assert(as_inputs(updates).drop_first() =~= as_inputs(updates.drop_first()));
        let next = w.step(inputs[0]).0;
        lemma_streaming(next, updates.drop_first(), last);
        let end = w.after(as_inputs(updates));
        assert(end.pending =~= w.pending + all_fetches(updates, w.calls));
        assert(w.events(inputs) =~= update_events(updates, w.calls) + end.step(last).1.events);
    }
}

/// What a reply asks for is queued as it streams: each panel once, in the order
/// in which the calls completed, behind those that waited already.
pub proof fn law_reply_queues_its_panels(w: WorkerView, updates: Seq<SessionUpdateView>)
    requires
        w.phase == PhaseView::Streaming,
    ensures
        w.after(as_inputs(updates)).pending == w.pending + all_fetches(updates, w.calls),
        w.after(as_inputs(updates)).phase == PhaseView::Streaming,
{
    lemma_streaming(w, updates, WorkerInputView::OtherMessage);
}

/// A prompt goes to the agent as it is, and its reply to the tab as it streams:
/// one event for each update that has one, in the order of the updates, and
/// then the end of the reply or the error that cut it off. The session stays
/// the same.
pub proof fn law_reply_is_streamed(
    w: WorkerView,
    text: Seq<char>,
    updates: Seq<SessionUpdateView>,
    reason: StopReason,
    error: Seq<char>,
)
    requires
        w.phase == PhaseView::Idle,
    ensures
        ({
            let prompt = seq![
                WorkerInputView::Command(AcpCommandView::Prompt(text)),
                WorkerInputView::Sent,
            ];
            let ended = prompt + (as_inputs(updates) + seq![WorkerInputView::Ended(reason)]);
            let failed = prompt + (as_inputs(updates) + seq![WorkerInputView::Failed(error)]);
            &&& w.step(prompt[0]).1.action == WorkerActionView::SendPrompt(text)
            &&& w.events(ended) == update_events(updates, w.calls) + seq![
                AcpEventView::Complete(reason),
            ]
            &&& w.events(failed) == update_events(updates, w.calls) + seq![
                AcpEventView::Error(error),
            ]
            &&& w.after(ended).active == w.active
            &&& w.after(ended).listed == w.listed
        }),
{
    lemma_prompt(w, text, updates, WorkerInputView::Ended(reason));
    lemma_prompt(w, text, updates, WorkerInputView::Failed(error));
}

proof fn lemma_prompt(
    w: WorkerView,
    text: Seq<char>,
    updates: Seq<SessionUpdateView>,
    last: WorkerInputView,
)
    requires
        w.phase == PhaseView::Idle,
        last is Ended || last is Failed,
    ensures
        ({
            let prompt = seq![
                WorkerInputView::Command(AcpCommandView::Prompt(text)),
                WorkerInputView::Sent,
            ];
            let inputs = prompt + (as_inputs(updates) + seq![last]);
            &&& w.events(inputs) == update_events(updates, w.calls) + seq![
                (match last {
                    WorkerInputView::Ended(reason) => AcpEventView::Complete(reason),
                    _ => AcpEventView::Error(last->Failed_0),
                }),
            ]
            &&& w.after(inputs).active == w.active
            &&& w.after(inputs).listed == w.listed
        }),
{
    let prompt = seq![
        WorkerInputView::Command(AcpCommandView::Prompt(text)),
        WorkerInputView::Sent,
    ];
    let tail = as_inputs(updates) + seq![last];
    let inputs = prompt + tail;
    let i1 = inputs.drop_first();
    assert(inputs[0] == prompt[0]);
    assert(i1[0] == prompt[1]);
    assert(i1.drop_first() =~= tail);
    let w1 = w.step(inputs[0]).0;
    let w2 = w1.step(i1[0]).0;
    lemma_streaming(w2, updates, last);
    reveal_with_fuel(WorkerView::events, 3);
    reveal_with_fuel(WorkerView::after, 3);
    assert(w1.events(i1) =~= w2.events(tail));
    assert(w.events(inputs) =~= w1.events(i1));
    assert(w.after(inputs) == w2.after(tail));
}

/// While a reply streams the worker goes on reading it until it ends, and what
/// is no update says nothing.
pub proof fn law_reply_is_read_to_its_end(w: WorkerView, update: SessionUpdateView)
    requires
        w.phase == PhaseView::Streaming,
    ensures
        w.step(WorkerInputView::Update(update)).1.action == WorkerActionView::ReadUpdate,
        w.step(WorkerInputView::OtherMessage).1.action == WorkerActionView::ReadUpdate,
        w.step(WorkerInputView::OtherMessage).1.events.len() == 0,
        w.step(WorkerInputView::OtherMessage).0 == w,
{
}

/// A new connection asks for the sessions. It resumes the first of them, or
/// starts a new one where there is none or the first cannot be loaded. Once it
/// has a session it is ready, and reports the sessions, the active one, and the
/// directory and the agent that it learnt of.
pub proof fn law_connecting(
    model: Seq<char>,
    cwd: Seq<char>,
    listed: Seq<ListedSessionView>,
    fresh: Seq<char>,
    error: Seq<char>,
)
    ensures
        ({
            let (w1, o1) = WorkerView::initial().step(WorkerInputView::Initialized { model, cwd });
            let (w2, o2) = w1.step(WorkerInputView::Listed(listed));
            let (w3, o3) = w2.step(WorkerInputView::Loaded);
            let (w4, o4) = w3.step(WorkerInputView::Attached);
            let (f3, p3) = w2.step(WorkerInputView::Failed(error));
            let (f4, p4) = f3.step(WorkerInputView::Started(fresh));
            let (e3, q3) = w2.step(WorkerInputView::Started(fresh));
            let info = AcpEventView::SessionInfo { cwd, model, tool_count: None };
            &&& o1.action == WorkerActionView::ListSessions && !o1.ready
            &&& listed.len() > 0 ==> {
                let id = listed[0].id;
                let about = |active: Seq<char>|
                    seq![
                        AcpEventView::SessionList(listed),
                        AcpEventView::SessionActive(active),
                        info,
                    ];
                &&& o2.action == WorkerActionView::LoadSession(id) && !o2.ready
                &&& o3.action == WorkerActionView::AttachSession(id) && !o3.ready
                &&& o4.ready && w4.active == id && w4.phase == PhaseView::Idle
                &&& o4.events =~= about(id)
                &&& p3.action == WorkerActionView::StartSession && p3.events.len() == 0
                &&& p4.ready && f4.active == fresh && f4.phase == PhaseView::Idle
                &&& p4.events =~= about(fresh)
            }
            &&& listed.len() == 0 ==> {
                &&& o2.action == WorkerActionView::StartSession && !o2.ready
                &&& q3.ready && e3.active == fresh && e3.phase == PhaseView::Idle
                &&& q3.events =~= seq![
                    AcpEventView::SessionList(listed),
                    AcpEventView::SessionActive(fresh),
                    info,
                ]
            }
        }),
{
}

/// A new session is started and the sessions are listed again. Then the tab
/// learns of the list and of the new session, which is active.
pub proof fn law_new_session(
    w: WorkerView,
    id: Seq<char>,
    listed: Seq<ListedSessionView>,
)
    requires
        w.phase == PhaseView::Idle,
    ensures
        ({
            let (w1, o1) = w.step(WorkerInputView::Command(AcpCommandView::SessionNew));
            let (w2, o2) = w1.step(WorkerInputView::Started(id));
            let (w3, o3) = w2.step(WorkerInputView::Listed(listed));
            &&& o1.action == WorkerActionView::StartSession && o1.events.len() == 0
            &&& o2.action == WorkerActionView::ListSessions && o2.events.len() == 0
            &&& o3.events =~= seq![
                AcpEventView::SessionList(listed),
                AcpEventView::SessionActive(id),
            ]
            &&& w3.phase == PhaseView::Idle && w3.active == id && w3.listed == listed
            &&& o3.action == WorkerActionView::AwaitCommand
        }),
{
}

/// A page that asks is told what is known, and nothing changes.
pub proof fn law_session_info_on_request(w: WorkerView)
    requires
        w.phase == PhaseView::Idle,
    ensures
        ({
            let (next, out) = w.step(WorkerInputView::Command(AcpCommandView::RequestSessionInfo));
            &&& next == w
            &&& out.events =~= seq![
                AcpEventView::SessionList(w.listed),
                AcpEventView::SessionActive(w.active),
                AcpEventView::SessionInfo { cwd: w.cwd, model: w.model, tool_count: None },
            ]
            &&& out.action == WorkerActionView::AwaitCommand
        }),
{
}

/// Selecting a session loads it and then attaches it, under the id that was
/// given. Only then is it the active one, with no tool call of the session
/// before it.
pub proof fn law_switching(w: WorkerView, id: Seq<char>)
    requires
        w.phase == PhaseView::Idle,
    ensures
        ({
            let (w1, o1) = w.step(WorkerInputView::Command(AcpCommandView::SessionSelect(id)));
            let (w2, o2) = w1.step(WorkerInputView::Loaded);
            let (w3, o3) = w2.step(WorkerInputView::Attached);
            &&& o1.action == WorkerActionView::LoadSession(id) && w1.active == w.active
            &&& o2.action == WorkerActionView::AttachSession(id) && w2.active == w.active
            &&& o3.action == WorkerActionView::PollUpdate && w3.active == id
            &&& w3.calls == Map::<Seq<char>, ToolCallView>::empty()
            &&& w3.pending.len() == 0 && w3.listed == w.listed
        }),
{
}

/// What goes wrong is told, with the words of what failed. A session that
/// cannot be loaded, attached or started leaves the active one in place, and
/// the worker waits for the next command.
pub proof fn law_failures_are_told(w: WorkerView, id: Seq<char>, text: Seq<char>, error: Seq<char>)
    requires
        w.phase == PhaseView::Idle,
    ensures
        ({
            let failed = WorkerInputView::Failed(error);
            let sending = w.step(WorkerInputView::Command(AcpCommandView::Prompt(text))).0;
            let loading = w.step(WorkerInputView::Command(AcpCommandView::SessionSelect(id))).0;
            let switching = loading.step(WorkerInputView::Loaded).0;
            let starting = w.step(WorkerInputView::Command(AcpCommandView::SessionNew)).0;
            let refused = starting.step(WorkerInputView::BuildFailed(error));
            &&& sending.step(failed).0 == w && loading.step(failed).0 == w
            &&& switching.step(failed).0 == w && starting.step(failed).0 == w
            &&& sending.step(failed).1.events =~= seq![AcpEventView::Error(error)]
            &&& loading.step(failed).1.events =~= seq![
                AcpEventView::Error("session/load failed: "@ + error),
            ]
            &&& switching.step(failed).1.events =~= seq![
                AcpEventView::Error("session switch failed: "@ + error),
            ]
            &&& starting.step(failed).1.events =~= seq![
                AcpEventView::Error("session/new failed: "@ + error),
            ]
            &&& refused.0.phase == PhaseView::Stopped
            &&& refused.1.events =~= seq![AcpEventView::Error(error)]
        }),
{
}

/// A connection that cannot be set up ends with the error, and is never ready.
pub proof fn law_failed_setup_ends(w: WorkerView, error: Seq<char>)
    requires
        w.phase is Initializing || w.phase is Attaching || w.phase is Creating,
    ensures
        ({
            let (next, out) = w.step(WorkerInputView::Failed(error));
            &&& next.phase == PhaseView::Stopped && !out.ready
            &&& out.events =~= seq![AcpEventView::Error(error)]
            &&& out.action == WorkerActionView::Stop
        }),
        w.phase is Creating ==> w.step(WorkerInputView::BuildFailed(error)) == w.step(
            WorkerInputView::Failed(error),
        ),
{
}

/// The worker ends where it is told to, or where no further command can come,
/// and says nothing of it.
pub proof fn law_ending(w: WorkerView)
    requires
        w.phase == PhaseView::Idle,
    ensures
        ({
            let (told, a) = w.step(WorkerInputView::Command(AcpCommandView::Shutdown));
            let (left, b) = w.step(WorkerInputView::Closed);
            &&& told.phase == PhaseView::Stopped && left.phase == PhaseView::Stopped
            &&& a.action == WorkerActionView::Stop && b.action == WorkerActionView::Stop
            &&& a.events.len() == 0 && b.events.len() == 0
        }),
{
}

/// Once a reply has ended, however it did, the first panel of the queue is read,
/// in the active session, by its own URI and extension, or where there is none
/// the worker waits for a command. The answer goes to the tab under the call
/// that the panel is for. A read that fails says nothing, and the next panel is
/// read.
pub proof fn law_panels_are_read(
    w: WorkerView,
    reason: StopReason,
    response: JsonView,
    error: Seq<char>,
)
    requires
        w.phase == PhaseView::Streaming,
    ensures
        ({
            let (next, out) = w.step(WorkerInputView::Ended(reason));
            let (cut, cut_out) = w.step(WorkerInputView::Failed(error));
            let (shown, told) = next.step(WorkerInputView::Response(response));
            let (missed, silent) = next.step(WorkerInputView::Failed(error));
            &&& next == cut && out.action == cut_out.action
            &&& w.pending.len() == 0 ==> next.phase == PhaseView::Idle && out.action
                == WorkerActionView::AwaitCommand
            &&& w.pending.len() > 0 ==> {
                let fetch = w.pending[0];
                &&& out.action matches WorkerActionView::ReadResource(params)
                &&& params.get("sessionId"@) == Some(JsonView::String(w.active))
                &&& params.get("uri"@) == Some(JsonView::String(fetch.uri))
                &&& params.get("extensionName"@) == Some(JsonView::String(fetch.extension_name))
                &&& next.pending == w.pending.drop_first()
                &&& response_html(response) matches Some(html) ==> told.events =~= seq![
                    AcpEventView::ToolResource { tool_call_id: fetch.tool_call_id, html },
                ]
                &&& response_html(response) is None ==> told.events.len() == 0
                &&& silent.events.len() == 0
                &&& shown == missed && told.action == silent.action
                &&& w.pending.len() > 1 ==> told.action is ReadResource
                &&& w.pending.len() == 1 ==> shown.phase == PhaseView::Idle
            }
        }),
{
    if w.pending.len() > 0 {
        let fetch = w.pending[0];
        law_read_names_its_panel(w.active, fetch.uri, fetch.extension_name);
    }
}

/// A read names the session, the resource and the extension.
pub proof fn law_read_names_its_panel(
    session_id: Seq<char>,
    uri: Seq<char>,
    extension_name: Seq<char>,
)
    ensures
        ({
            let params = read_request(session_id, uri, extension_name);
            &&& params.get("sessionId"@) == Some(JsonView::String(session_id))
            &&& params.get("uri"@) == Some(JsonView::String(uri))
            &&& params.get("extensionName"@) == Some(JsonView::String(extension_name))
        }),
{
    reveal_strlit("sessionId");
    reveal_strlit("uri");
    reveal_strlit("extensionName");
    assert("sessionId"@.len() == 9 && "uri"@.len() == 3 && "extensionName"@.len() == 13);
    reveal_with_fuel(crate::json::lookup, 4);
}

/// What comes at a time when it is not awaited changes nothing and says
/// nothing.
pub proof fn law_commands_wait_their_turn(w: WorkerView, command: AcpCommandView)
    requires
        w.phase != PhaseView::Idle,
    ensures
        w.step(WorkerInputView::Command(command)).0 == w,
        w.step(WorkerInputView::Command(command)).1.events.len() == 0,
{
}

/// An item is a panel exactly where its type is `text/html`, with or without
/// parameters, and it has a text: then the panel is that text.
pub proof fn law_html_items(item: JsonView, mime: Seq<char>, text: Seq<char>)
    requires
        item.get("mimeType"@) == Some(JsonView::String(mime)),
        item.get("text"@) == Some(JsonView::String(text)),
    ensures
        mime == "text/html"@ ==> html_of_item(item) == Some(text),
        (exists|more: Seq<char>| mime == "text/html;"@ + more) ==> html_of_item(item) == Some(text),
        html_of_item(item) is Some ==> mime == "text/html"@ || (exists|more: Seq<char>|
            mime == "text/html;"@ + more),
{
    if exists|more: Seq<char>| mime == "text/html;"@ + more {
        let more = choose|more: Seq<char>| mime == "text/html;"@ + more;
        assert(("text/html;"@ + more).subrange(0, "text/html;"@.len() as int) =~= "text/html;"@);
    }
    if "text/html;"@.is_prefix_of(mime) {
        let more = mime.skip("text/html;"@.len() as int);
        assert(mime =~= "text/html;"@ + more);
    }
}

/// The panel in an answer is the text of the first item that is one.
pub proof fn law_first_panel_counts(
    response: JsonView,
    result: JsonView,
    items: Seq<JsonView>,
    at: int,
)
    requires
        response.get("result"@) == Some(result),
        result.get("contents"@) == Some(JsonView::Array(items)),
        0 <= at < items.len(),
        html_of_item(items[at]) is Some,
        forall|i: int| 0 <= i < at ==> html_of_item(#[trigger] items[i]) is None,
    ensures
        response_html(response) == html_of_item(items[at]),
{
    lemma_first_html(items, at);
}

proof fn lemma_first_html(items: Seq<JsonView>, at: int)
    requires
        0 <= at < items.len(),
        html_of_item(items[at]) is Some,
        forall|i: int| 0 <= i < at ==> html_of_item(#[trigger] items[i]) is None,
    ensures
        first_html(items) == html_of_item(items[at]),
    decreases at,
{
    if at > 0 {
        let rest = items.drop_first();
        assert(html_of_item(items[0]) is None);
        assert forall|i: int| 0 <= i < at - 1 implies html_of_item(#[trigger] rest[i]) is None by {
            assert(rest[i] == items[i + 1]);
        }
        lemma_first_html(rest, at - 1);
    }
}

/// An answer without a list of contents holds no panel.
pub proof fn law_no_contents_no_panel(response: JsonView)
    requires
        response.get("result"@) matches Some(result) ==> !(result.get("contents"@) matches Some(
            JsonView::Array(_),
        )),
    ensures
        response_html(response) is None,
{
}

/// A session is listed under its id and its time, with its title as its label.
pub proof fn law_listed_under_its_id(s: SessionSummaryView)
    ensures
        s.listed().id == s.session_id,
        s.listed().last_active == s.updated_at,
        s.title matches Some(title) ==> title.len() > 0 ==> s.listed().label == title,
        (s.title matches Some(title) ==> title.len() == 0) ==> s.listed().label == "Session"@,
{
}

/// The list holds sessions of the agent only, and where it leaves some out,
/// none of those was active after one that it holds.
pub proof fn law_newest_are_listed(sessions: Seq<SessionSummaryView>)
    ensures
        sessions.len() >= LISTED_SESSIONS ==> top_listed(sessions).len() == LISTED_SESSIONS,
        sessions.len() < LISTED_SESSIONS ==> top_listed(sessions).len() == sessions.len(),
        LISTED_SESSIONS == 5,
        forall|i: int|
            0 <= i < top_listed(sessions).len() ==> exists|j: int|
                0 <= j < sessions.len() && (#[trigger] sessions[j]).listed() == (
                #[trigger] top_listed(sessions)[i]),
        forall|j: int|
            0 <= j < sessions.len() ==> top_listed(sessions).contains(
                (#[trigger] sessions[j]).listed(),
            ) || (forall|i: int|
                0 <= i < top_listed(sessions).len() ==> !time_before(
                    (#[trigger] top_listed(sessions)[i]).last_active,
                    sessions[j].updated_at,
                )),
{
    broadcast use vstd::seq_lib::group_seq_properties;

    let all = sessions.map_values(|s: SessionSummaryView| s.listed());
    let sorted = by_recency(all);
    let top = top_listed(sessions);
    law_by_recency_sorts(all);
    all.to_multiset_ensures();
    sorted.to_multiset_ensures();
    assert forall|i: int| 0 <= i < top.len() implies exists|j: int|
        0 <= j < sessions.len() && (#[trigger] sessions[j]).listed() == (#[trigger] top[i]) by {
        assert(sorted[i] == top[i]);
        assert(sorted.contains(top[i]));
        assert(sorted.to_multiset().count(top[i]) > 0);
        assert(all.to_multiset().count(top[i]) > 0);
        assert(all.contains(top[i]));
        let j = choose|j: int| 0 <= j < all.len() && all[j] == top[i];
        assert(sessions[j].listed() == top[i]);
    }
    assert forall|j: int| 0 <= j < sessions.len() implies top.contains(
        (#[trigger] sessions[j]).listed(),
    ) || (forall|i: int|
        0 <= i < top.len() ==> !time_before(
            (#[trigger] top[i]).last_active,
            sessions[j].updated_at,
        )) by {
        let s = sessions[j].listed();
        assert(all[j] == s);
        assert(all.contains(s));
        assert(all.to_multiset().count(s) > 0);
        assert(sorted.to_multiset().count(s) > 0);
        assert(sorted.contains(s));
        let k = choose|k: int| 0 <= k < sorted.len() && sorted[k] == s;
        if k < top.len() {
            assert(top[k] == s);
        } else {
            assert forall|i: int| 0 <= i < top.len() implies !time_before(
                (#[trigger] top[i]).last_active,
                sessions[j].updated_at,
            ) by {
                assert(top[i] == sorted[i]);
                assert(!time_before(sorted[i].last_active, sorted[k].last_active));
            }
        }
    }
}

/// A session of which no time is known comes after every one with a time, and
/// times compare as their texts do, character by character.
pub proof fn law_times_compare_as_texts(
    same: Seq<char>,
    a: char,
    b: char,
    rest: Seq<char>,
    more: Seq<char>,
)
    requires
        (a as int) < (b as int),
    ensures
        time_before(None, Some(same)),
        !time_before(Some(same), None),
        time_before(Some(same + seq![a] + rest), Some(same + seq![b] + more)),
        !time_before(Some(same + seq![b] + more), Some(same + seq![a] + rest)),
        time_before(Some(same), Some(same + seq![a] + rest)),
        !time_before(Some(same), Some(same)),
    decreases same.len(),
{
    let x = same + seq![a] + rest;
    let y = same + seq![b] + more;
    if same.len() == 0 {
        assert(x[0] == a && y[0] == b);
    } else {
        let tail = same.drop_first();
        law_times_compare_as_texts(tail, a, b, rest, more);
        assert(x[0] == same[0] && y[0] == same[0]);
        assert(x.drop_first() =~= tail + seq![a] + rest);
        assert(y.drop_first() =~= tail + seq![b] + more);
    }
}

/// A session list that could not be had counts as an empty one.
pub proof fn law_missing_list_is_empty()
    ensures
        crate::acp::worker::WorkerInput::Listed(None)@ == WorkerInputView::Listed(Seq::empty()),
{
}

/// A replay goes on until nothing of it is left, and always tells its end, also
/// where it is cut off by an error, which is told first. What is no update says
/// nothing.
pub proof fn law_replay_always_ends(
    w: WorkerView,
    update: SessionUpdateView,
    reason: StopReason,
    error: Seq<char>,
)
    requires
        w.phase == PhaseView::Replaying,
    ensures
        ({
            let (drained, a) = w.step(WorkerInputView::Drained);
            let (ended, b) = w.step(WorkerInputView::Ended(reason));
            let (failed, c) = w.step(WorkerInputView::Failed(error));
            let (more, d) = w.step(WorkerInputView::Update(update));
            let (other, e) = w.step(WorkerInputView::OtherMessage);
            &&& drained.phase == PhaseView::Idle && ended.phase == PhaseView::Idle
            &&& failed.phase == PhaseView::Idle && failed.active == w.active
            &&& a.events =~= seq![AcpEventView::SessionLoadEnd]
            &&& b.events =~= seq![AcpEventView::SessionLoadEnd]
            &&& c.events =~= seq![AcpEventView::Error(error), AcpEventView::SessionLoadEnd]
            &&& more.phase == PhaseView::Replaying && d.action == WorkerActionView::PollUpdate
            &&& other == w && e.events.len() == 0 && e.action == WorkerActionView::PollUpdate
        }),
{
}

} // verus!
