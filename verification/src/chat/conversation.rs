//! What the page shows of a conversation: which message an event adds or
//! changes, and which it leaves alone.

use crate::chat::events::{
    call_said, card_updated, entries_of, entry_of, has_card, lemma_agent_text_wf, lemma_closed_wf,
    lemma_place_of, lemma_place_of_card, lemma_place_of_is, lemma_user_text_wf, place_of,
    place_of_card, CallView, ChatView,
};
use crate::chat::types::{AllSessionsView, MessageView, Role, SessionEntryView};
use crate::json::JsonView;
use crate::text::trimmed;
use vstd::prelude::*;

verus! {

/// A message as it stands once the reply in flight has ended.
pub open spec fn settled(m: MessageView, in_flight: Option<u32>) -> MessageView {
    MessageView { streaming: m.streaming && in_flight != Some(m.id), ..m }
}

/// The front of a list is another one whose reply in flight has ended.
pub open spec fn all_settled(
    list: Seq<MessageView>,
    before: Seq<MessageView>,
    in_flight: Option<u32>,
) -> bool {
    &&& list.len() >= before.len()
    &&& forall|i: int|
        0 <= i < before.len() ==> (#[trigger] list[i]) == settled(before[i], in_flight)
}

/// The lists agree but for the reply in flight, which has another piece at its
/// end.
pub open spec fn reply_extended(
    list: Seq<MessageView>,
    before: Seq<MessageView>,
    in_flight: Option<u32>,
    chunk: Seq<char>,
) -> bool {
    &&& list.len() == before.len()
    &&& forall|i: int|
        0 <= i < before.len() ==> {
            let m = before[i];
            &&& in_flight == Some(m.id) ==> (#[trigger] list[i]) == (MessageView {
                content: m.content + chunk,
                ..m
            })
            &&& in_flight != Some(m.id) ==> list[i] == m
        }
}

/// The pages agree in all but their messages, the reply in flight and the next
/// id.
pub open spec fn same_surroundings(a: ChatView, b: ChatView) -> bool {
    &&& a.input_text == b.input_text
    &&& a.replaying == b.replaying
    &&& a.sessions == b.sessions
    &&& a.active_session_id == b.active_session_id
    &&& a.footer_cwd == b.footer_cwd
    &&& a.footer_model == b.footer_model
    &&& a.footer_tool_count == b.footer_tool_count
    &&& a.pane_view == b.pane_view
    &&& a.all_sessions == b.all_sessions
    &&& a.replaying ==> a.messages == b.messages
    &&& !a.replaying ==> a.replay_buffer == b.replay_buffer
}

/// Ending the reply in flight changes nothing but that it streams.
proof fn lemma_settled(s: ChatView)
    requires
        s.wf(),
    ensures
        s.bubble_closed().dest().len() == s.dest().len(),
        all_settled(s.bubble_closed().dest(), s.dest(), s.in_flight),
        same_surroundings(s.bubble_closed(), s),
        s.bubble_closed().in_flight is None,
        s.bubble_closed().next_id == s.next_id,
        s.bubble_closed().sending == s.sending,
{
    if let Some(id) = s.in_flight {
        lemma_place_of(s.dest(), id);
        let at = place_of(s.dest(), id);
        let before = s.dest();
        let list = s.bubble_closed().dest();
        assert forall|i: int| 0 <= i < before.len() implies (#[trigger] list[i]) == settled(
            before[i],
            s.in_flight,
        ) by {
            if i < at {
                assert(before[i].id != before[at].id);
            } else if i > at {
                assert(before[at].id != before[i].id);
            }
        }
    }
}

/// A message of the user stands behind all others, as it was written. It ends
/// the reply that was in flight: what the assistant says next belongs to
/// another message. No earlier message changes otherwise.
pub proof fn law_user_message_ends_reply(s: ChatView, text: Seq<char>)
    requires
        s.wf(),
        s.next_id < u32::MAX,
    ensures
        ({
            let n = s.user_text(text);
            &&& n.in_flight is None
            &&& n.next_id == s.next_id + 1
            &&& n.sending == s.sending
            &&& same_surroundings(n, s)
            &&& n.dest().len() == s.dest().len() + 1
            &&& all_settled(n.dest(), s.dest(), s.in_flight)
            &&& n.dest().last() == (MessageView {
                id: s.next_id,
                role: Role::User,
                content: text,
                streaming: false,
                error: None,
                tool_call_id: None,
                ui_html: None,
                ui_pending: false,
                visible: true,
                expanded: false,
            })
        }),
{
    lemma_settled(s);
    let list = s.user_text(text).dest();
    let closed = s.bubble_closed().dest();
    assert forall|i: int| 0 <= i < s.dest().len() implies (#[trigger] list[i]) == settled(
        s.dest()[i],
        s.in_flight,
    ) by {
        assert(list[i] == closed[i]);
    }
}

/// A piece of the assistant's text goes to the end of the reply in flight, or
/// begins a reply behind all other messages. No other message changes.
pub proof fn law_text_goes_to_the_reply(s: ChatView, chunk: Seq<char>)
    requires
        s.wf(),
        s.next_id < u32::MAX,
    ensures
        ({
            let n = s.agent_text(chunk);
            &&& same_surroundings(n, s)
            &&& n.sending == s.sending
            &&& s.in_flight is None ==> {
                &&& n.in_flight == Some(s.next_id)
                &&& n.next_id == s.next_id + 1
                &&& n.dest() =~= s.dest().push(
                    MessageView {
                        id: s.next_id,
                        role: Role::Assistant,
                        content: chunk,
                        streaming: true,
                        error: None,
                        tool_call_id: None,
                        ui_html: None,
                        ui_pending: false,
                        visible: true,
                        expanded: false,
                    },
                )
            }
            &&& s.in_flight is Some ==> {
                &&& n.in_flight == s.in_flight
                &&& n.next_id == s.next_id
                &&& reply_extended(n.dest(), s.dest(), s.in_flight, chunk)
            }
        }),
{
    let n = s.agent_text(chunk);
    let started = if s.in_flight is Some {
        s
    } else {
        ChatView { in_flight: Some(s.next_id), ..s.pushed(MessageView::assistant(s.next_id)) }
    };
    let id = started.in_flight->0;
    let list = started.dest();
    lemma_place_of(list, id);
    let at = place_of(list, id);
    if s.in_flight is None {
        assert forall|i: int| 0 <= i < s.dest().len() implies (#[trigger] list[i]).id != id by {
            assert(list[i] == s.dest()[i]);
        }
        lemma_place_of_is(list, id, s.dest().len() as int);
        assert(list[at].content + chunk =~= chunk);
    } else {
        let before = s.dest();
        let after = n.dest();
        assert forall|i: int| 0 <= i < before.len() implies {
            let m = before[i];
            &&& s.in_flight == Some(m.id) ==> (#[trigger] after[i]) == (MessageView {
                content: m.content + chunk,
                ..m
            })
            &&& s.in_flight != Some(m.id) ==> after[i] == m
        } by {
            if i < at {
                assert(before[i].id != before[at].id);
            } else if i > at {
                assert(before[at].id != before[i].id);
            }
        }
    }
}

/// The page after turns of a conversation: each a message of the user and a
/// reply.
pub open spec fn after_turns(s: ChatView, turns: Seq<(Seq<char>, Seq<char>)>) -> ChatView
    decreases turns.len(),
{
    if turns.len() == 0 {
        s
    } else {
        after_turns(s, turns.drop_last()).user_text(turns.last().0).agent_text(turns.last().1)
    }
}

/// A list holds turns of a conversation from position `from` on: each question,
/// and behind it its reply. All replies but the last have ended.
pub open spec fn holds_turns(
    list: Seq<MessageView>,
    from: int,
    turns: Seq<(Seq<char>, Seq<char>)>,
) -> bool {
    &&& list.len() == from + 2 * turns.len()
    &&& forall|i: int|
        0 <= i < turns.len() ==> {
            let (question, reply) = #[trigger] turns[i];
            &&& list[from + 2 * i].role == Role::User
            &&& list[from + 2 * i].content == question
            &&& list[from + 2 * i + 1].role == Role::Assistant
            &&& list[from + 2 * i + 1].content == reply
            &&& i + 1 < turns.len() ==> !list[from + 2 * i + 1].streaming
        }
}

/// The lists hold the same texts by the same roles, as far as the second goes.
pub open spec fn same_texts(list: Seq<MessageView>, before: Seq<MessageView>) -> bool {
    &&& list.len() >= before.len()
    &&& forall|i: int|
        0 <= i < before.len() ==> (#[trigger] list[i]).content == before[i].content
            && list[i].role == before[i].role
}

/// Turns of a conversation stand on the page one behind the other, each message
/// with its own text: the question, and behind it its reply.
pub proof fn law_turns_stand_in_order(s: ChatView, turns: Seq<(Seq<char>, Seq<char>)>)
    requires
        s.wf(),
        s.next_id + 2 * turns.len() <= u32::MAX,
    ensures
        ({
            let n = after_turns(s, turns);
            &&& n.wf()
            &&& n.next_id == s.next_id + 2 * turns.len()
            &&& n.replaying == s.replaying
            &&& holds_turns(n.dest(), s.dest().len() as int, turns)
            &&& same_texts(n.dest(), s.dest())
            &&& turns.len() > 0 ==> n.in_flight == Some(n.dest().last().id)
        }),
    decreases turns.len(),
{
    if turns.len() > 0 {
        let front = turns.drop_last();
        let (question, reply) = turns.last();
        law_turns_stand_in_order(s, front);
        let a = after_turns(s, front);
        law_user_message_ends_reply(a, question);
        lemma_user_text_wf(a, question);
        let b = a.user_text(question);
        law_text_goes_to_the_reply(b, reply);
        lemma_agent_text_wf(b, reply);
        let n = b.agent_text(reply);
        assert(n.dest().drop_last() =~= b.dest());
        lemma_turn(a.dest(), b.dest(), n.dest(), a.in_flight, s.dest(), turns);
    }
}

proof fn lemma_turn(
    a: Seq<MessageView>,
    b: Seq<MessageView>,
    n: Seq<MessageView>,
    in_flight: Option<u32>,
    before: Seq<MessageView>,
    turns: Seq<(Seq<char>, Seq<char>)>,
)
    requires
        turns.len() > 0,
        holds_turns(a, before.len() as int, turns.drop_last()),
        same_texts(a, before),
        turns.len() > 1 ==> in_flight == Some(a.last().id),
        b.len() == a.len() + 1,
        all_settled(b, a, in_flight),
        b.last().role == Role::User,
        b.last().content == turns.last().0,
        n.len() == b.len() + 1,
        n.drop_last() == b,
        n.last().role == Role::Assistant,
        n.last().content == turns.last().1,
    ensures
        holds_turns(n, before.len() as int, turns),
        same_texts(n, before),
{
    let k = before.len() as int;
    let front = turns.drop_last();
    assert forall|i: int| 0 <= i < a.len() implies (#[trigger] n[i]) == settled(a[i], in_flight) by {
        assert(n[i] == n.drop_last()[i]);
        assert(b[i] == settled(a[i], in_flight));
    }
    assert(n[a.len() as int] == n.drop_last()[a.len() as int]);
    assert forall|i: int| 0 <= i < turns.len() implies {
        let (question, reply) = #[trigger] turns[i];
        &&& n[k + 2 * i].role == Role::User
        &&& n[k + 2 * i].content == question
        &&& n[k + 2 * i + 1].role == Role::Assistant
        &&& n[k + 2 * i + 1].content == reply
        &&& i + 1 < turns.len() ==> !n[k + 2 * i + 1].streaming
    } by {
        if i + 1 < turns.len() {
            assert(turns[i] == front[i]);
            let p = k + 2 * i;
            assert(n[p] == settled(a[p], in_flight));
            assert(n[p + 1] == settled(a[p + 1], in_flight));
            if i + 1 == front.len() {
                assert(a.last() == a[p + 1]);
            }
        }
    }
}

/// The list without the reply in flight, where it moves behind the card.
pub open spec fn staying(s: ChatView, call: CallView) -> Seq<MessageView> {
    if call.ui_pending && s.in_flight is Some {
        s.dest().remove(place_of(s.dest(), s.in_flight->0))
    } else {
        s.dest()
    }
}

/// A message of the list after a snapshot of a call: the card of the call shows
/// it, and the reply in flight has ended.
pub open spec fn with_snapshot(m: MessageView, call: CallView, in_flight: Option<u32>) -> MessageView {
    if m.tool_call_id == Some(call.tool_call_id) {
        MessageView {
            content: call.text,
            streaming: !call.is_done,
            ui_pending: call.ui_pending || m.ui_pending,
            ..m
        }
    } else {
        settled(m, in_flight)
    }
}

/// The front of a list is another one after a snapshot of a call.
pub open spec fn all_snapshots(
    list: Seq<MessageView>,
    before: Seq<MessageView>,
    call: CallView,
    in_flight: Option<u32>,
) -> bool {
    &&& list.len() >= before.len()
    &&& forall|i: int|
        0 <= i < before.len() ==> (#[trigger] list[i]) == with_snapshot(before[i], call, in_flight)
}

/// The list has a card of the call.
pub open spec fn knows_call(list: Seq<MessageView>, call: CallView) -> bool {
    exists|i: int|
        0 <= i < list.len() && (#[trigger] list[i]).tool_call_id == Some(call.tool_call_id)
}

proof fn lemma_snapshots(s: ChatView, call: CallView)
    requires
        s.wf(),
    ensures
        ({
            let list = s.bubble_closed().dest();
            let updated = card_updated(list, call);
            &&& has_card(list, call) == knows_call(s.dest(), call)
            &&& updated.len() == s.dest().len()
            &&& all_snapshots(updated, s.dest(), call, s.in_flight)
        }),
{
    lemma_settled(s);
    lemma_closed_wf(s);
    let id = call.tool_call_id;
    let old_list = s.dest();
    let list = s.bubble_closed().dest();
    lemma_place_of_card(list, id);
    let at = place_of_card(list, id);
    assert forall|i: int| 0 <= i < list.len() && i != at implies (#[trigger] old_list[i]).tool_call_id
        != Some(id) by {
        assert(list[i] == settled(old_list[i], s.in_flight));
        if i < at {
            assert(list[i].tool_call_id != Some(id));
        } else if list[i].tool_call_id == Some(id) {
            assert(list[at].tool_call_id != list[i].tool_call_id);
        }
    }
    if at < list.len() {
        assert(list[at] == settled(old_list[at], s.in_flight));
        assert(old_list[at].tool_call_id == Some(id));
    }
    let updated = card_updated(list, call);
    assert forall|i: int| 0 <= i < updated.len() implies (#[trigger] updated[i]) == with_snapshot(
        old_list[i],
        call,
        s.in_flight,
    ) by {
        assert(list[i] == settled(old_list[i], s.in_flight));
    }
    assert(all_snapshots(updated, old_list, call, s.in_flight));
}

/// A snapshot of a tool call stands on the card of that call: its text, whether
/// the call still runs, and whether a panel is to come. A call without a card
/// gets one behind the other messages. The reply in flight ends, and where a
/// panel is to come it moves behind the card. No other message changes.
pub proof fn law_call_stands_on_its_card(s: ChatView, call: CallView)
    requires
        s.wf(),
        s.next_id < u32::MAX,
    ensures
        ({
            let n = s.tool_call(call);
            let kept = staying(s, call);
            let added = if knows_call(s.dest(), call) {
                0int
            } else {
                1
            };
            &&& n.in_flight is None
            &&& n.sending == s.sending
            &&& same_surroundings(n, s)
            &&& n.next_id == s.next_id + added
            &&& n.dest().len() == s.dest().len() + added
            &&& all_snapshots(n.dest(), kept, call, s.in_flight)
            &&& added == 1 ==> n.dest()[kept.len() as int] == (MessageView {
                id: s.next_id,
                role: Role::Tool,
                content: call.text,
                streaming: !call.is_done,
                error: None,
                tool_call_id: Some(call.tool_call_id),
                ui_html: None,
                ui_pending: call.ui_pending,
                visible: true,
                expanded: false,
            })
            &&& call.ui_pending && s.in_flight is Some ==> n.dest().last() == settled(
                s.dest()[place_of(s.dest(), s.in_flight->0)],
                s.in_flight,
            )
        }),
{
    lemma_settled(s);
    lemma_snapshots(s, call);
    let list = s.bubble_closed().dest();
    let updated = card_updated(list, call);
    let after = s.tool_call(call).dest();
    let kept = staying(s, call);
    match s.in_flight {
        Some(bubble) if call.ui_pending => {
            lemma_place_of(s.dest(), bubble);
            let place = place_of(s.dest(), bubble);
            assert forall|i: int| 0 <= i < place implies (#[trigger] updated[i]).id != bubble by {
                assert(updated[i] == with_snapshot(s.dest()[i], call, s.in_flight));
                assert(s.dest()[i].id != bubble);
            }
            assert(updated[place] == with_snapshot(s.dest()[place], call, s.in_flight));
            lemma_place_of_is(updated, bubble, place);
            assert forall|i: int| 0 <= i < kept.len() implies (#[trigger] after[i])
                == with_snapshot(kept[i], call, s.in_flight) by {
                let k = if i < place {
                    i
                } else {
                    i + 1
                };
                assert(kept[i] == s.dest()[k]);
                assert(after[i] == updated[k]);
            }
        },
        _ => {
            assert forall|i: int| 0 <= i < kept.len() implies (#[trigger] after[i])
                == with_snapshot(kept[i], call, s.in_flight) by {
                assert(after[i] == updated[i]);
            }
        },
    }
}

/// The end of a reply ends the reply in flight, and the next prompt may come. No
/// text changes.
pub proof fn law_reply_ends(s: ChatView)
    requires
        s.wf(),
    ensures
        ({
            let n = s.done();
            &&& n.in_flight is None && !n.sending
            &&& n.next_id == s.next_id
            &&& same_surroundings(n, s)
            &&& n.dest().len() == s.dest().len()
            &&& all_settled(n.dest(), s.dest(), s.in_flight)
        }),
{
    lemma_settled(s);
}

/// The lists agree but for the reply in flight, which has ended in an error.
pub open spec fn error_shown(
    list: Seq<MessageView>,
    before: Seq<MessageView>,
    in_flight: Option<u32>,
    words: Seq<char>,
) -> bool {
    &&& list.len() == before.len()
    &&& forall|i: int|
        0 <= i < before.len() ==> {
            let m = before[i];
            &&& in_flight == Some(m.id) ==> (#[trigger] list[i]) == (MessageView {
                error: Some(words),
                streaming: false,
                ..m
            })
            &&& in_flight != Some(m.id) ==> list[i] == m
        }
}

/// The lists agree but for the card of a call, which has its panel.
pub open spec fn panel_shown(
    list: Seq<MessageView>,
    before: Seq<MessageView>,
    id: Seq<char>,
    html: Seq<char>,
) -> bool {
    &&& list.len() == before.len()
    &&& forall|i: int|
        0 <= i < before.len() ==> {
            let m = before[i];
            &&& m.tool_call_id == Some(id) ==> (#[trigger] list[i]) == (MessageView {
                ui_html: Some(html),
                ui_pending: false,
                ..m
            })
            &&& m.tool_call_id != Some(id) ==> list[i] == m
        }
}

/// An error stands on the reply in flight, which it ends, and the next prompt
/// may come. No other message changes.
pub proof fn law_error_stands_on_the_reply(s: ChatView, words: Seq<char>)
    requires
        s.wf(),
    ensures
        ({
            let n = s.failed(words);
            let list = if s.replaying {
                n.replay_buffer
            } else {
                n.messages
            };
            &&& n.in_flight is None && !n.sending && !n.replaying
            &&& n.next_id == s.next_id && n.input_text == s.input_text
            &&& n.sessions == s.sessions && n.active_session_id == s.active_session_id
            &&& s.replaying ==> n.messages == s.messages
            &&& !s.replaying ==> n.replay_buffer == s.replay_buffer
            &&& error_shown(list, s.dest(), s.in_flight, words)
        }),
{
    if let Some(id) = s.in_flight {
        lemma_place_of(s.dest(), id);
        let at = place_of(s.dest(), id);
        let before = s.dest();
        assert forall|i: int| 0 <= i < before.len() && i != at implies (#[trigger] before[i]).id
            != id by {
            if i < at {
                assert(before[i].id != before[at].id);
            } else {
                assert(before[at].id != before[i].id);
            }
        }
    }
}

/// A panel stands on the card of its call, and is no longer awaited. No other
/// message changes, and a panel of an unknown call changes nothing.
pub proof fn law_panel_stands_on_its_card(s: ChatView, id: Seq<char>, html: Seq<char>)
    requires
        s.wf(),
    ensures
        ({
            let n = s.panel(id, html);
            &&& n.in_flight == s.in_flight && n.sending == s.sending && n.next_id == s.next_id
            &&& same_surroundings(n, s)
            &&& panel_shown(n.dest(), s.dest(), id, html)
        }),
{
    let list = s.dest();
    lemma_place_of_card(list, id);
    let at = place_of_card(list, id);
    assert forall|i: int| 0 <= i < list.len() && i != at implies (#[trigger] list[i]).tool_call_id
        != Some(id) by {
        if i > at && list[i].tool_call_id == Some(id) {
            assert(list[at].tool_call_id != list[i].tool_call_id);
        }
    }
}

/// Submitting sends what was typed, without the white space around it. The page
/// shows it as a message of the user, and behind it an empty reply that is in
/// flight. The input is empty again.
pub proof fn law_submitted_prompt_is_shown(s: ChatView)
    requires
        !s.sending,
        !s.replaying,
        trimmed(s.input_text).len() > 0,
        s.next_id + 1 < u32::MAX,
    ensures
        ({
            let n = s.submitted();
            let k = s.messages.len() as int;
            &&& s.prompt() == Some(trimmed(s.input_text))
            &&& n.messages.len() == k + 2
            &&& forall|i: int| 0 <= i < k ==> (#[trigger] n.messages[i]) == s.messages[i]
            &&& n.messages[k].role == Role::User
            &&& n.messages[k].content == trimmed(s.input_text)
            &&& n.messages[k].id == s.next_id && !n.messages[k].streaming
            &&& n.messages[k + 1].role == Role::Assistant
            &&& n.messages[k + 1].content.len() == 0
            &&& n.messages[k + 1].streaming
            &&& n.in_flight == Some(n.messages[k + 1].id)
            &&& n.messages[k + 1].id == s.next_id + 1
            &&& n.next_id == s.next_id + 2
            &&& n.sending && n.input_text.len() == 0
            &&& n.replay_buffer == s.replay_buffer && n.sessions == s.sessions
            &&& n.active_session_id == s.active_session_id && n.replaying == s.replaying
        }),
{
}

/// The replay of a history begins with an empty page, and nothing of an earlier
/// replay.
pub proof fn law_replay_begins_empty(s: ChatView, event: JsonView, call: JsonView)
    requires
        event.get_str("type"@) == Some("session_load_start"@),
    ensures
        ({
            let n = s.after(event, call);
            &&& n.messages.len() == 0 && n.replay_buffer.len() == 0
            &&& n.in_flight is None && !n.sending && n.replaying
            &&& n.next_id == s.next_id && n.sessions == s.sessions
            &&& n.active_session_id == s.active_session_id && n.input_text == s.input_text
        }),
{
    lemma_event_types();
}

proof fn lemma_event_types()
    ensures
        "agent_text"@.len() == 10,
        "token"@.len() == 5,
        "user_text"@.len() == 9,
        "tool_call"@.len() == 9,
        "user_text"@[0] != "tool_call"@[0],
        "session_load_start"@.len() == 18,
        "session_load_end"@.len() == 16,
        "done"@.len() == 4,
        "error"@.len() == 5,
        "error"@[0] != "token"@[0],
        "session_list"@.len() == 12,
        "session_active"@.len() == 14,
        "session_info"@.len() == 12,
        "session_info"@[8] != "session_list"@[8],
        "all_sessions_list"@.len() == 17,
        "all_sessions_error"@.len() == 18,
        "all_sessions_error"@[0] != "session_load_start"@[0],
        "tool_resource"@.len() == 13,
{
    reveal_strlit("agent_text");
    reveal_strlit("token");
    reveal_strlit("user_text");
    reveal_strlit("tool_call");
    reveal_strlit("session_load_start");
    reveal_strlit("session_load_end");
    reveal_strlit("done");
    reveal_strlit("error");
    reveal_strlit("session_list");
    reveal_strlit("session_active");
    reveal_strlit("session_info");
    reveal_strlit("all_sessions_list");
    reveal_strlit("all_sessions_error");
    reveal_strlit("tool_resource");
}

/// A member of an event as a text: empty where it has none.
pub open spec fn text_of(event: JsonView, key: Seq<char>) -> Seq<char> {
    match event.get(key) {
        Some(JsonView::String(text)) => text,
        _ => Seq::empty(),
    }
}

/// Each event does what its type says, with what it brings: pieces of text,
/// messages, snapshots, ends, errors and panels.
pub proof fn law_events_by_type(s: ChatView, event: JsonView, call: JsonView, kind: Seq<char>)
    requires
        event.get("type"@) == Some(JsonView::String(kind)),
    ensures
        kind == "agent_text"@ || kind == "token"@ ==> s.after(event, call) == s.agent_text(
            text_of(event, "content"@),
        ),
        kind == "user_text"@ ==> s.after(event, call) == s.user_text(text_of(event, "content"@)),
        kind == "tool_call"@ ==> s.after(event, call) == s.tool_call(
            call_said(text_of(event, "call"@), call),
        ),
        kind == "session_load_end"@ ==> s.after(event, call) == s.load_end(),
        kind == "done"@ ==> s.after(event, call) == s.done(),
        kind == "error"@ && event.get("message"@) is Some && event.get("message"@)->0 is String
            ==> s.after(event, call) == s.failed(text_of(event, "message"@)),
        kind == "error"@ && event.get("message"@) is None ==> s.after(event, call) == s.failed(
            "Unknown error"@,
        ),
        kind == "tool_resource"@ ==> s.after(event, call) == s && s.after_panel(event) == s.panel(
            text_of(event, "tool_call_id"@),
            text_of(event, "html"@),
        ),
        kind != "tool_resource"@ ==> s.after_panel(event) == s,
{
    lemma_event_types();
}

/// The session list of the sidebar is the one that the host sent last. The list
/// of all sessions is the one that it sent on request, or the words of why it
/// could not. Neither touches anything else.
pub proof fn law_session_lists(
    s: ChatView,
    event: JsonView,
    call: JsonView,
    kind: Seq<char>,
    items: Seq<JsonView>,
)
    requires
        event.get("type"@) == Some(JsonView::String(kind)),
        event.get("sessions"@) == Some(JsonView::Array(items)),
    ensures
        kind == "session_list"@ ==> s.after(event, call) == (ChatView {
            sessions: entries_of(items),
            ..s
        }),
        kind == "all_sessions_list"@ ==> s.after(event, call) == (ChatView {
            all_sessions: AllSessionsView::Loaded(entries_of(items)),
            ..s
        }),
        kind == "all_sessions_error"@ && event.get("message"@) is None ==> s.after(event, call) == (
        ChatView { all_sessions: AllSessionsView::Failed("Failed to load sessions"@), ..s }),
        kind == "all_sessions_error"@ && event.get("message"@) is Some && event.get("message"@)->0
            is String ==> s.after(event, call) == (ChatView {
            all_sessions: AllSessionsView::Failed(text_of(event, "message"@)),
            ..s
        }),
{
    lemma_event_types();
}

/// Sessions stand in a list in the order in which they came, each with its id,
/// label and time. One without an id is left out.
pub proof fn law_session_entries(items: Seq<JsonView>, item: JsonView)
    ensures
        entries_of(Seq::<JsonView>::empty()).len() == 0,
        text_of(item, "id"@).len() == 0 ==> entries_of(items.push(item)) == entries_of(items),
        text_of(item, "id"@).len() > 0 ==> entries_of(items.push(item)) == entries_of(items).push(
            SessionEntryView {
                id: text_of(item, "id"@),
                label: match item.get("label"@) {
                    Some(JsonView::String(label)) => label,
                    _ => "Session"@,
                },
                last_active: match item.get("last_active"@) {
                    Some(JsonView::String(time)) => Some(time),
                    _ => None,
                },
            },
        ),
{
    assert(items.push(item).drop_last() =~= items);
    assert(entry_of(item) is Some == (text_of(item, "id"@).len() > 0));
}

/// The footer shows what the host sent last. What it did not send stays, but
/// for the number of tools.
pub proof fn law_footer_info(s: ChatView, event: JsonView, call: JsonView)
    requires
        event.get("type"@) == Some(JsonView::String("session_info"@)),
    ensures
        ({
            let n = s.after(event, call);
            &&& event.get("cwd"@) matches Some(JsonView::String(cwd)) ==> n.footer_cwd == Some(cwd)
            &&& event.get("cwd"@) is None ==> n.footer_cwd == s.footer_cwd
            &&& event.get("model"@) matches Some(JsonView::String(model)) ==> n.footer_model
                == Some(model)
            &&& event.get("model"@) is None ==> n.footer_model == s.footer_model
            &&& event.get("tool_count"@) matches Some(JsonView::Int(count)) ==> 0 <= count
                <= u32::MAX ==> n.footer_tool_count == Some(count as u32)
            &&& event.get("tool_count"@) is None ==> n.footer_tool_count is None
            &&& event.get("tool_count"@) == Some(JsonView::Null) ==> n.footer_tool_count is None
            &&& n == (ChatView {
                footer_cwd: n.footer_cwd,
                footer_model: n.footer_model,
                footer_tool_count: n.footer_tool_count,
                ..s
            })
        }),
{
    lemma_event_types();
}

/// A panel is awaited exactly where the call is over, in success or in failure,
/// and its output names a resource.
pub proof fn law_panel_is_awaited(text: Seq<char>, call: JsonView)
    ensures
        ({
            let said = call_said(text, call);
            let status = text_of(call, "status"@);
            let output = call.get("rawOutput"@);
            &&& said.text == text
            &&& said.tool_call_id == text_of(call, "toolCallId"@)
            &&& said.is_done == (status == "completed"@ || status == "failed"@)
            &&& said.ui_pending == (said.is_done && output is Some && output->0.get(
                "resourceUri"@,
            ) is Some && output->0.get("resourceUri"@) != Some(JsonView::Null))
        }),
{
}

/// A session that becomes active takes the page over: no message of the one
/// before stays, and no reply is awaited. All else stays.
pub proof fn law_active_session_takes_over(s: ChatView, event: JsonView, call: JsonView)
    requires
        event.get("type"@) == Some(JsonView::String("session_active"@)),
    ensures
        ({
            let n = s.after(event, call);
            &&& n.messages.len() == 0 && n.replay_buffer.len() == 0
            &&& n.in_flight is None && !n.sending
            &&& event.get("id"@) matches Some(JsonView::String(id)) ==> n.active_session_id
                == Some(id)
            &&& n == (ChatView {
                messages: n.messages,
                replay_buffer: n.replay_buffer,
                in_flight: n.in_flight,
                sending: n.sending,
                active_session_id: n.active_session_id,
                ..s
            })
        }),
{
    lemma_event_types();
}

/// The end of a replay changes nothing but the messages and that the replay is
/// over.
pub proof fn law_replay_end_keeps_the_rest(s: ChatView)
    requires
        s.wf(),
    ensures
        s.load_end() == (ChatView {
            messages: s.load_end().messages,
            replay_buffer: s.load_end().replay_buffer,
            in_flight: s.load_end().in_flight,
            replaying: false,
            ..s
        }),
        s.replaying ==> same_texts(s.load_end().messages, s.replay_buffer)
            && s.load_end().messages.len() == s.replay_buffer.len(),
{
    lemma_settled(s);
    if s.replaying {
        let list = s.load_end().messages;
        let closed = s.bubble_closed().dest();
        assert(list == closed);
        assert forall|i: int| 0 <= i < s.replay_buffer.len() implies (#[trigger] list[i]).content
            == s.replay_buffer[i].content && list[i].role == s.replay_buffer[i].role by {
            assert(closed[i] == settled(s.dest()[i], s.in_flight));
        }
    }
}

/// Turns that are replayed come up as they were: each question and behind it its
/// reply, all of them ended.
pub proof fn law_replayed_turns_come_up_in_order(
    s: ChatView,
    turns: Seq<(Seq<char>, Seq<char>)>,
    i: int,
)
    requires
        s.wf(),
        s.replaying,
        s.replay_buffer.len() == 0,
        s.next_id + 2 * turns.len() <= u32::MAX,
        0 <= i < turns.len(),
    ensures
        ({
            let n = after_turns(s, turns).load_end();
            &&& n.messages.len() == 2 * turns.len()
            &&& n.messages[2 * i].role == Role::User
            &&& n.messages[2 * i].content == turns[i].0
            &&& n.messages[2 * i + 1].role == Role::Assistant
            &&& n.messages[2 * i + 1].content == turns[i].1
            &&& !n.messages[2 * i + 1].streaming
            &&& n.in_flight is None && !n.replaying
        }),
{
    law_turns_stand_in_order(s, turns);
    let last = after_turns(s, turns);
    lemma_settled(last);
    law_replay_end_keeps_the_rest(last);
    let closed = last.bubble_closed().dest();
    let list = last.load_end().messages;
    assert(list == closed);
    assert(turns[i] == (turns[i].0, turns[i].1));
    assert(closed[2 * i] == settled(last.dest()[2 * i], last.in_flight));
    assert(closed[2 * i + 1] == settled(last.dest()[2 * i + 1], last.in_flight));
    if i + 1 == turns.len() {
        assert(last.dest().last() == last.dest()[2 * i + 1]);
    }
}

} // verus!
