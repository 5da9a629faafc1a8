//! What holds of the chat page across events.

use crate::acp::ListedSessionView;
use crate::app::publish::{list_json, listed_json};
use crate::chat::events::{
    call_said, card_updated, entries_of, entry_of, event_entries, finished, has_card,
    law_events_keep_page_well_formed, lemma_place_of, lemma_place_of_card, lemma_place_of_is,
    place_of, place_of_card, CallView, ChatView,
};
use crate::chat::message::{class_of, title_of};
use crate::chat::types::{MessageView, Role, SessionEntryView};
use crate::json::{lookup, JsonView};
use crate::tool_call::{law_wire_keys, ToolCallStatus, ToolCallView};
use vstd::prelude::*;

verus! {

/// Two pieces of a reply are one longer piece.
pub proof fn law_pieces_join(s: ChatView, a: Seq<char>, b: Seq<char>)
    requires
        s.wf(),
        s.next_id < u32::MAX,
    ensures
        s.agent_text(a).agent_text(b) == s.agent_text(a + b),
{
    let started = if s.in_flight is Some {
        s
    } else {
        ChatView {
            in_flight: Some(s.next_id),
            ..s.pushed(MessageView::assistant(s.next_id))
        }
    };
    let id = started.in_flight->0;
    let list = started.dest();
    lemma_place_of(list, id);
    let at = place_of(list, id);
    if s.in_flight is None {
        assert forall|i: int| 0 <= i < s.dest().len() implies (#[trigger] list[i]).id != id by {
            assert(list[i] == s.dest()[i]);
        }
        lemma_place_of_is(list, id, s.dest().len() as int);
    }
    let one = s.agent_text(a);
    assert forall|i: int| 0 <= i < at implies (#[trigger] one.dest()[i]).id != id by {
        assert(list[i].id != id);
    }
    lemma_place_of_is(one.dest(), id, at);
    assert((list[at].content + a) + b =~= list[at].content + (a + b));
    assert(one.agent_text(b).dest() =~= s.agent_text(a + b).dest());
    if s.replaying {
        assert(one.agent_text(b).messages == s.agent_text(a + b).messages);
    } else {
        assert(one.agent_text(b).replay_buffer == s.agent_text(a + b).replay_buffer);
    }
}

/// While history is replayed, the messages on screen stay as they are until
/// the replay ends or another session comes up.
pub proof fn law_replay_leaves_screen(s: ChatView, event: JsonView, call: JsonView)
    requires
        s.replaying,
        event.get_str("type"@) matches Some(kind) ==> kind != "session_load_end"@ && kind
            != "session_load_start"@ && kind != "session_active"@,
    ensures
        s.after(event, call).messages == s.messages,
        s.after_panel(event).messages == s.messages,
{
}

/// The end of a replay puts on screen all that was replayed, in its order, and
/// leaves nothing behind.
pub proof fn law_replay_ends_with_all(s: ChatView)
    requires
        s.wf(),
        s.replaying,
    ensures
        s.load_end().messages.len() == s.replay_buffer.len(),
        forall|i: int|
            0 <= i < s.replay_buffer.len() ==> #[trigger] s.load_end().messages[i] == (
            if s.in_flight == Some(s.replay_buffer[i].id) {
                finished(s.replay_buffer[i])
            } else {
                s.replay_buffer[i]
            }),
        s.load_end().replay_buffer.len() == 0,
        s.load_end().in_flight is None,
        !s.load_end().replaying,
{
    if let Some(id) = s.in_flight {
        lemma_place_of(s.dest(), id);
        let at = place_of(s.dest(), id);
        assert forall|i: int| 0 <= i < s.replay_buffer.len() implies #[trigger] s.load_end().messages[i]
            == (if s.in_flight == Some(s.replay_buffer[i].id) {
            finished(s.replay_buffer[i])
        } else {
            s.replay_buffer[i]
        }) by {
            if i != at {
                assert(s.replay_buffer[i].id != s.replay_buffer[at].id);
            }
        }
    }
}

/// The page after a list of events, one after the other, each with what the
/// page reads from its snapshot.
pub open spec fn after_all(s: ChatView, events: Seq<(JsonView, JsonView)>) -> ChatView
    decreases events.len(),
{
    if events.len() == 0 {
        s
    } else {
        after_all(s, events.drop_last()).after(events.last().0, events.last().1)
    }
}

/// The event belongs to a replay: it neither begins nor ends one, fails, nor
/// brings another session up.
pub open spec fn in_replay(event: JsonView) -> bool {
    event.get_str("type"@) matches Some(kind) ==> {
        &&& kind != "session_load_start"@ && kind != "session_load_end"@
        &&& kind != "session_active"@ && kind != "error"@
    }
}

/// An event of a replay leaves the replay on, and gives out at most one id.
proof fn lemma_replay_step(s: ChatView, event: JsonView, call: JsonView)
    requires
        s.wf(),
        s.replaying,
        s.next_id < u32::MAX,
        in_replay(event),
    ensures
        s.after(event, call).wf(),
        s.after(event, call).replaying,
        s.after(event, call).messages == s.messages,
        s.after(event, call).next_id <= s.next_id + 1,
{
    law_events_keep_page_well_formed(s, event, call);
    law_replay_leaves_screen(s, event, call);
}

proof fn lemma_replay(s: ChatView, events: Seq<(JsonView, JsonView)>)
    requires
        s.wf(),
        s.replaying,
        s.next_id + events.len() <= u32::MAX,
        forall|i: int| 0 <= i < events.len() ==> in_replay((#[trigger] events[i]).0),
    ensures
        after_all(s, events).wf(),
        after_all(s, events).replaying,
        after_all(s, events).messages == s.messages,
        after_all(s, events).next_id <= s.next_id + events.len(),
    decreases events.len(),
{
    if events.len() > 0 {
        let front = events.drop_last();
        assert forall|i: int| 0 <= i < front.len() implies in_replay((#[trigger] front[i]).0) by {
            assert(front[i] == events[i]);
        }
        lemma_replay(s, front);
        lemma_replay_step(after_all(s, front), events.last().0, events.last().1);
    }
}

/// The first and the last event of a replay.
proof fn lemma_replay_ends(s: ChatView, start: JsonView, end: JsonView)
    requires
        start.get_str("type"@) == Some("session_load_start"@),
        end.get_str("type"@) == Some("session_load_end"@),
    ensures
        s.after(start, JsonView::Null) == (ChatView { replaying: true, ..s.cleared() }),
        s.after(end, JsonView::Null) == s.load_end(),
{
    reveal_strlit("agent_text");
    reveal_strlit("token");
    reveal_strlit("user_text");
    reveal_strlit("tool_call");
    reveal_strlit("session_load_start");
    reveal_strlit("session_load_end");
    assert("agent_text"@.len() == 10 && "token"@.len() == 5);
    assert("user_text"@.len() == 9 && "tool_call"@.len() == 9);
    assert("session_load_start"@.len() == 18 && "session_load_end"@.len() == 16);
}

/// A replay, whatever it brings, leaves the screen empty from its first event
/// up to its last. The last puts on screen what has gathered, in its order and
/// with the reply that was streaming ended, and leaves nothing behind.
pub proof fn law_replay_comes_up_at_once(
    s: ChatView,
    start: JsonView,
    events: Seq<(JsonView, JsonView)>,
    end: JsonView,
)
    requires
        s.wf(),
        s.next_id + events.len() <= u32::MAX,
        start.get_str("type"@) == Some("session_load_start"@),
        forall|i: int| 0 <= i < events.len() ==> in_replay((#[trigger] events[i]).0),
        end.get_str("type"@) == Some("session_load_end"@),
    ensures
        forall|k: int|
            0 <= k <= events.len() ==> {
                let page = #[trigger] after_all(s.after(start, JsonView::Null), events.take(k));
                page.wf() && page.replaying && page.messages.len() == 0
            },
        ({
            let last = after_all(s.after(start, JsonView::Null), events);
            let page = last.after(end, JsonView::Null);
            &&& page.messages.len() == last.replay_buffer.len()
            &&& forall|i: int|
                0 <= i < page.messages.len() ==> #[trigger] page.messages[i] == (
                if last.in_flight == Some(last.replay_buffer[i].id) {
                    finished(last.replay_buffer[i])
                } else {
                    last.replay_buffer[i]
                })
            &&& page.replay_buffer.len() == 0
            &&& page.in_flight is None
            &&& !page.replaying
        }),
{
    let begun = s.after(start, JsonView::Null);
    lemma_replay_ends(s, start, end);
    assert(begun.wf());
    assert forall|k: int| 0 <= k <= events.len() implies {
        let page = #[trigger] after_all(begun, events.take(k));
        page.wf() && page.replaying && page.messages.len() == 0
    } by {
        assert forall|i: int| 0 <= i < k implies in_replay((#[trigger] events.take(k)[i]).0) by {
            assert(events.take(k)[i] == events[i]);
        }
        lemma_replay(begun, events.take(k));
    }
    lemma_replay(begun, events);
    let last = after_all(begun, events);
    lemma_replay_ends(last, start, end);
    law_replay_ends_with_all(last);
}

/// An event of an unknown type changes nothing.
pub proof fn law_unknown_events_are_ignored(s: ChatView, event: JsonView, call: JsonView)
    requires
        event.get_str("type"@) matches Some(kind) ==> {
            &&& kind != "agent_text"@ && kind != "token"@ && kind != "user_text"@
            &&& kind != "tool_call"@ && kind != "tool_resource"@
            &&& kind != "session_load_start"@ && kind != "session_load_end"@
            &&& kind != "done"@ && kind != "error"@
            &&& kind != "session_list"@ && kind != "session_active"@ && kind != "session_info"@
            &&& kind != "all_sessions_list"@ && kind != "all_sessions_error"@
        },
    ensures
        s.after(event, call) == s,
        s.after_panel(event) == s,
{
}

/// A reply that is streaming ends where a tool call comes in, so that what the
/// assistant says next stands in a message of its own behind the card.
pub proof fn law_tool_call_ends_reply(s: ChatView, call: CallView)
    ensures
        s.tool_call(call).in_flight is None,
{
}

/// A further snapshot of a call without a panel changes its card and adds no
/// message.
pub proof fn law_snapshot_stays_on_its_card(s: ChatView, call: CallView)
    requires
        s.wf(),
        has_card(s.bubble_closed().dest(), call),
        !call.ui_pending,
    ensures
        s.tool_call(call).dest().len() == s.dest().len(),
        s.tool_call(call).next_id == s.next_id,
        ({
            let at = place_of_card(s.bubble_closed().dest(), call.tool_call_id);
            &&& s.tool_call(call).dest()[at].content == call.text
            &&& s.tool_call(call).dest()[at].tool_call_id == Some(call.tool_call_id)
            &&& s.tool_call(call).dest()[at].streaming == !call.is_done
        }),
{
    lemma_place_of_card(s.bubble_closed().dest(), call.tool_call_id);
    if let Some(id) = s.in_flight {
        lemma_place_of(s.dest(), id);
    }
}

/// Where a call brings a panel, what the assistant said before it moves behind
/// the card.
pub proof fn law_panel_comes_before_reply(s: ChatView, call: CallView)
    requires
        s.wf(),
        s.in_flight is Some,
        call.ui_pending,
        !has_card(s.bubble_closed().dest(), call),
    ensures
        ({
            let list = s.tool_call(call).dest();
            let bubble = s.dest()[place_of(s.dest(), s.in_flight->0)];
            &&& list.len() == s.dest().len() + 1
            &&& list.last() == finished(bubble)
            &&& list[list.len() - 2].role == Role::Tool
            &&& list[list.len() - 2].tool_call_id == Some(call.tool_call_id)
        }),
{
    let id = s.in_flight->0;
    let at = place_of(s.dest(), id);
    lemma_place_of(s.dest(), id);
    let list = s.bubble_closed().dest();
    lemma_place_of_card(list, call.tool_call_id);
    assert forall|i: int| 0 <= i < at implies (#[trigger] list[i]).id != id by {
        assert(s.dest()[i].id != id);
    }
    lemma_place_of_is(list, id, at);
    assert(card_updated(list, call) == list);
}

/// A session that becomes active starts with an empty page.
pub proof fn law_active_session_starts_empty(s: ChatView, event: JsonView, call: JsonView)
    requires
        event.get_str("type"@) == Some("session_active"@),
    ensures
        s.after(event, call).messages.len() == 0,
        s.after(event, call).replay_buffer.len() == 0,
        s.after(event, call).in_flight is None,
        !s.after(event, call).sending,
        s.after(event, call).active_session_id == event.get_str("id"@),
{
    lemma_types_differ();
}

/// Submitting does nothing while a reply or a replay is on, and where nothing
/// but white space was typed.
pub proof fn law_no_prompt_out_of_turn(s: ChatView)
    requires
        s.sending || s.replaying || crate::text::trimmed(s.input_text).len() == 0,
    ensures
        s.prompt() is None,
        s.submitted() == s,
{
}

/// After a prompt went out, further ones wait until the reply is done or has
/// failed.
pub proof fn law_one_prompt_at_a_time(s: ChatView)
    requires
        s.prompt() is Some,
    ensures
        s.submitted().prompt() is None,
        s.submitted().done().sending == false,
{
}

proof fn lemma_types_differ()
    ensures
        "session_active"@ != "agent_text"@,
        "session_active"@ != "token"@,
        "session_active"@ != "user_text"@,
        "session_active"@ != "tool_call"@,
        "session_active"@ != "session_load_start"@,
        "session_active"@ != "session_load_end"@,
        "session_active"@ != "done"@,
        "session_active"@ != "error"@,
        "session_active"@ != "session_list"@,
        "session_active"@ != "all_sessions_list"@,
        "session_active"@ != "all_sessions_error"@,
{
    reveal_strlit("session_active");
    reveal_strlit("agent_text");
    reveal_strlit("token");
    reveal_strlit("user_text");
    reveal_strlit("tool_call");
    reveal_strlit("session_load_start");
    reveal_strlit("session_load_end");
    reveal_strlit("done");
    reveal_strlit("error");
    reveal_strlit("session_list");
    reveal_strlit("all_sessions_list");
    reveal_strlit("all_sessions_error");
    assert("session_active"@.len() == 14);
    assert("agent_text"@.len() == 10);
    assert("token"@.len() == 5);
    assert("user_text"@.len() == 9);
    assert("tool_call"@.len() == 9);
    assert("session_load_start"@.len() == 18);
    assert("session_load_end"@.len() == 16);
    assert("done"@.len() == 4);
    assert("error"@.len() == 5);
    assert("session_list"@.len() == 12);
    assert("all_sessions_list"@.len() == 17);
    assert("all_sessions_error"@.len() == 18);
}

/// The card of a tool call shows the call: where the page reads the call as it
/// was sent, the card has the id, the title and the status of the call, and
/// expects a panel where the call is over and names a resource.
pub proof fn law_card_shows_the_call(call: ToolCallView, text: Seq<char>)
    ensures
        ({
            let said = call_said(text, call.json());
            &&& said.tool_call_id == call.tool_call_id
            &&& said.is_done == (call.status == ToolCallStatus::Completed || call.status
                == ToolCallStatus::Failed)
            &&& said.is_done && call.resource_uri() is Some ==> said.ui_pending
        }),
        title_of(call.json()) == call.title,
        class_of(call.json()) == (match call.status {
            ToolCallStatus::Pending => "pending"@,
            ToolCallStatus::InProgress => "running"@,
            ToolCallStatus::Completed => "success"@,
            ToolCallStatus::Failed => "failure"@,
        }),
{
    law_wire_keys(call, "status"@);
    reveal_strlit("completed");
    reveal_strlit("failed");
    reveal_strlit("in_progress");
    assert("completed"@.len() == 9 && "failed"@.len() == 6 && "in_progress"@.len() == 11);
}

/// The session list that the page is told arrives as it was sent, where every
/// session has an id.
pub proof fn law_session_list_arrives(list: Seq<ListedSessionView>, event: JsonView)
    requires
        event.get("sessions"@) == Some(list_json(list)),
        forall|i: int| 0 <= i < list.len() ==> (#[trigger] list[i]).id.len() > 0,
    ensures
        event_entries(event) == list.map_values(
            |s: ListedSessionView|
                SessionEntryView { id: s.id, label: s.label, last_active: s.last_active },
        ),
{
    lemma_entries_of_list(list);
}

proof fn lemma_entries_of_list(list: Seq<ListedSessionView>)
    requires
        forall|i: int| 0 <= i < list.len() ==> (#[trigger] list[i]).id.len() > 0,
    ensures
        entries_of(list_json(list)->Array_0) == list.map_values(
            |s: ListedSessionView|
                SessionEntryView { id: s.id, label: s.label, last_active: s.last_active },
        ),
    decreases list.len(),
{
    let items = list_json(list)->Array_0;
    if list.len() > 0 {
        lemma_entries_of_list(list.drop_last());
        assert(list_json(list.drop_last())->Array_0 =~= items.drop_last());
        lemma_entry_of_listed(list.last());
    }
}

proof fn lemma_entry_of_listed(s: ListedSessionView)
    requires
        s.id.len() > 0,
    ensures
        entry_of(listed_json(s)) == Some(
            SessionEntryView { id: s.id, label: s.label, last_active: s.last_active },
        ),
{
    reveal_strlit("id");
    reveal_strlit("label");
    reveal_strlit("last_active");
    assert("id"@.len() == 2 && "label"@.len() == 5 && "last_active"@.len() == 11);
    reveal_with_fuel(lookup, 4);
    let members = listed_json(s)->Object_0;
    assert(members.drop_first().drop_first()[0] == members[2]);
    assert(members.drop_first()[0] == members[1]);
}

} // verus!
