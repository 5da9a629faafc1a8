//! What a tab's page is told: each event as a call of the page's
//! `window.gander._publish`.

use crate::acp::{listed_views, AcpEvent, AcpEventView, ConnectError, ListedSession, ListedSessionView};
use crate::json::{
    compact, distinct_keys, law_well_keyed_is_keyed, lemma_array_view, lemma_object_view,
    member_views, plain, reads_as, views, well_keyed, Json, JsonView,
};
use crate::text::{concat, concat3, decimal, decimal_text};
use crate::tool_call::push_member;
use crate::transport::geesed::{GeesedError, GeesedErrorView};
use vstd::prelude::*;

verus! {

/// A text as a JSON string literal, which is a literal of the page's language
/// too.
pub open spec fn literal(s: Seq<char>) -> Seq<char> {
    compact(JsonView::String(s))
}

/// A listed session as the page gets it.
pub open spec fn listed_json(s: ListedSessionView) -> JsonView {
    JsonView::Object(
        seq![
            ("id"@, JsonView::String(s.id)),
            ("label"@, JsonView::String(s.label)),
            (
                "last_active"@,
                match s.last_active {
                    Some(time) => JsonView::String(time),
                    None => JsonView::Null,
                },
            ),
        ],
    )
}

/// The session list as the page gets it.
pub open spec fn list_json(list: Seq<ListedSessionView>) -> JsonView {
    JsonView::Array(list.map_values(|s: ListedSessionView| listed_json(s)))
}

/// The call that tells the page an event.
pub open spec fn published(event: AcpEventView) -> Seq<char> {
    match event {
        AcpEventView::AgentText(text) => "window.gander._publish({type:'agent_text',content:"@
            + literal(text) + "})"@,
        AcpEventView::UserText(text) => "window.gander._publish({type:'user_text',content:"@
            + literal(text) + "})"@,
        AcpEventView::ToolCall(call) => "window.gander._publish({type:'tool_call',call:"@
            + literal(call.text()) + "})"@,
        AcpEventView::SessionLoadStart => "window.gander._publish({type:'session_load_start'})"@,
        AcpEventView::SessionLoadEnd => "window.gander._publish({type:'session_load_end'})"@,
        AcpEventView::Complete(_) => "window.gander._publish({type:'done'})"@,
        AcpEventView::Error(message) => "window.gander._publish({type:'error',message:"@
            + literal(message) + "})"@,
        AcpEventView::SessionList(list) => "window.gander._publish({type:'session_list',sessions:"@
            + compact(list_json(list)) + "})"@,
        AcpEventView::SessionActive(id) => "window.gander._publish({type:'session_active',id:"@
            + literal(id) + ",history:[]})"@,
        AcpEventView::SessionInfo { cwd, model, tool_count } =>
        "window.gander._publish({type:'session_info',cwd:"@ + literal(cwd) + ",model:"@ + literal(
            model,
        ) + ",tool_count:"@ + (match tool_count {
            Some(n) => decimal(n as nat),
            None => "null"@,
        }) + "})"@,
        AcpEventView::ToolResource { tool_call_id, html } =>
        "window.gander._publish({type:'tool_resource',tool_call_id:"@ + literal(tool_call_id)
            + ",html:"@ + literal(html) + "})"@,
    }
}

/// Serialize a string as a JSON string literal, which reads back as the string.
pub fn json_str(s: &str) -> (res: String)
    ensures
        res@ == literal(s@),
        reads_as(res@, JsonView::String(s@)),
{
    let value = Json::String(s.to_owned());
    proof {
        law_well_keyed_is_keyed(value@);
    }
    value.to_text()
}

/// A listed session as the page gets it.
fn session_json(s: &ListedSession) -> (res: Json)
    ensures
        res@ == listed_json(s@),
{
    let mut members: Vec<(String, Json)> = Vec::new();
    push_member(&mut members, "id", Json::String(s.id.clone()));
    push_member(&mut members, "label", Json::String(s.label.clone()));
    let last_active = match &s.last_active {
        Some(time) => Json::String(time.clone()),
        None => Json::Null,
    };
    push_member(&mut members, "last_active", last_active);
    proof {
        lemma_object_view(members);
        assert(member_views(members@) =~= listed_json(s@)->Object_0);
    }
    Json::Object(members)
}

proof fn lemma_list_keys(list: Seq<ListedSessionView>)
    ensures
        well_keyed(list_json(list)),
{
    reveal_strlit("id");
    reveal_strlit("label");
    reveal_strlit("last_active");
    assert("id"@.len() == 2 && "label"@.len() == 5 && "last_active"@.len() == 11);
    reveal_with_fuel(well_keyed, 4);
    assert forall|i: int| 0 <= i < list.len() implies well_keyed(
        #[trigger] list_json(list)->Array_0[i],
    ) by {
        let members = listed_json(list[i])->Object_0;
        assert(list_json(list)->Array_0[i] == listed_json(list[i]));
        assert(distinct_keys(members));
        assert forall|k: int| 0 <= k < members.len() implies well_keyed(
            (#[trigger] members[k]).1,
        ) by {}
    }
}

/// No key of a listed session is one that `serde_json` keeps for itself.
proof fn lemma_list_plain(list: Seq<ListedSessionView>)
    ensures
        plain(list_json(list), 127),
{
    reveal_strlit("$serde_json::private::");
    reveal_strlit("id");
    reveal_strlit("label");
    reveal_strlit("last_active");
    assert("id"@.len() == 2 && "label"@.len() == 5 && "last_active"@.len() == 11);
    assert("$serde_json::private::"@.len() == 22);
    assert forall|i: int| 0 <= i < list.len() implies plain(
        #[trigger] list_json(list)->Array_0[i],
        126,
    ) by {
        let members = listed_json(list[i])->Object_0;
        assert(list_json(list)->Array_0[i] == listed_json(list[i]));
        assert forall|k: int| 0 <= k < members.len() implies plain(
            (#[trigger] members[k]).1,
            125,
        ) by {}
    }
}

/// The session list as the page gets it, in a text that reads back as it.
fn sessions_text(list: &Vec<ListedSession>) -> (res: String)
    ensures
        res@ == compact(list_json(listed_views(list@))),
        reads_as(res@, list_json(listed_views(list@))),
{
    let mut items: Vec<Json> = Vec::new();
    let mut i: usize = 0;
    while i < list.len()
        invariant
            i <= list.len(),
            items.len() == i,
            forall|k: int| 0 <= k < i ==> (#[trigger] items[k])@ == listed_json(list[k]@),
        decreases list.len() - i,
    {
        items.push(session_json(&list[i]));
        i += 1;
    }
    proof {
        lemma_array_view(items);
        assert(views(items@) =~= list_json(listed_views(list@))->Array_0);
        lemma_list_keys(listed_views(list@));
        lemma_list_plain(listed_views(list@));
        law_well_keyed_is_keyed(list_json(listed_views(list@)));
    }
    Json::Array(items).to_text()
}

/// The call that tells the page an event.
pub fn acp_event_to_js(event: &AcpEvent) -> (js: String)
    ensures
        js@ == published(event@),
{
    match event {
        AcpEvent::AgentText(text) => concat3(
            "window.gander._publish({type:'agent_text',content:",
            json_str(text.as_str()).as_str(),
            "})",
        ),
        AcpEvent::UserText(text) => concat3(
            "window.gander._publish({type:'user_text',content:",
            json_str(text.as_str()).as_str(),
            "})",
        ),
        AcpEvent::ToolCall(call) => concat3(
            "window.gander._publish({type:'tool_call',call:",
            json_str(call.to_text().as_str()).as_str(),
            "})",
        ),
        AcpEvent::SessionLoadStart => "window.gander._publish({type:'session_load_start'})".to_owned(),
        AcpEvent::SessionLoadEnd => "window.gander._publish({type:'session_load_end'})".to_owned(),
        AcpEvent::Complete(_) => "window.gander._publish({type:'done'})".to_owned(),
        AcpEvent::Error(message) => concat3(
            "window.gander._publish({type:'error',message:",
            json_str(message.as_str()).as_str(),
            "})",
        ),
        AcpEvent::SessionList(list) => concat3(
            "window.gander._publish({type:'session_list',sessions:",
            sessions_text(list).as_str(),
            "})",
        ),
        AcpEvent::SessionActive(id) => concat3(
            "window.gander._publish({type:'session_active',id:",
            json_str(id.as_str()).as_str(),
            ",history:[]})",
        ),
        AcpEvent::SessionInfo { cwd, model, tool_count } => {
            let mut js: String = concat3(
                "window.gander._publish({type:'session_info',cwd:",
                json_str(cwd.as_str()).as_str(),
                ",model:",
            );
            js.append(json_str(model.as_str()).as_str());
            js.append(",tool_count:");
            match tool_count {
                Some(n) => js.append(decimal_text(*n as u64).as_str()),
                None => js.append("null"),
            }
            js.append("})");
            js
        },
        AcpEvent::ToolResource { tool_call_id, html } => {
            let mut js: String = concat3(
                "window.gander._publish({type:'tool_resource',tool_call_id:",
                json_str(tool_call_id.as_str()).as_str(),
                ",html:",
            );
            js.append(json_str(html.as_str()).as_str());
            js.append("})");
            js
        },
    }
}

/// The words that a tab shows for a connection that failed.
pub open spec fn tab_error(error: GeesedErrorView) -> Seq<char> {
    match error {
        GeesedErrorView::ProfileNotFound => "Profile not found"@,
        GeesedErrorView::ProfileInUse => "Profile already in use by another client"@,
        GeesedErrorView::GooseBinaryUnavailable(m) =>
        "Goose binary not found — set GEESE_GOOSE_BIN: "@ + m,
        GeesedErrorView::SpawnFailed(m) => "Goose failed to spawn: "@ + m,
        GeesedErrorView::SocketConnect(m) => "Could not connect to geesed: "@ + m,
        GeesedErrorView::Protocol(m) => "ACP protocol error: "@ + m,
    }
}

/// The words that a tab shows for a connection that failed.
pub fn format_acp_error(error: &ConnectError) -> (res: String)
    ensures
        res@ == tab_error(error@),
{
    match error {
        GeesedError::ProfileNotFound => "Profile not found".to_owned(),
        GeesedError::ProfileInUse => "Profile already in use by another client".to_owned(),
        GeesedError::GooseBinaryUnavailable(m) => concat(
            "Goose binary not found — set GEESE_GOOSE_BIN: ",
            m.as_str(),
        ),
        GeesedError::SpawnFailed(m) => concat("Goose failed to spawn: ", m.as_str()),
        GeesedError::SocketConnect(m) => concat("Could not connect to geesed: ", m.as_str()),
        GeesedError::Protocol(m) => concat("ACP protocol error: ", m.as_str()),
    }
}

/// A text occurs in another.
pub open spec fn holds_text(whole: Seq<char>, part: Seq<char>) -> bool {
    exists|at: int|
        0 <= at && at + part.len() <= whole.len() && #[trigger] whole.subrange(
            at,
            at + part.len() as int,
        ) == part
}

proof fn lemma_holds(before: Seq<char>, part: Seq<char>, after: Seq<char>)
    ensures
        holds_text(before + part + after, part),
{
    let whole = before + part + after;
    let at = before.len() as int;
    assert(whole.subrange(at, at + part.len() as int) =~= part);
}

/// The page is told an event with all that it brings: each text whole, as a
/// literal.
pub proof fn law_events_are_published_whole(
    text: Seq<char>,
    more: Seq<char>,
    call: crate::tool_call::ToolCallView,
    list: Seq<ListedSessionView>,
)
    ensures
        holds_text(published(AcpEventView::AgentText(text)), literal(text)),
        holds_text(published(AcpEventView::UserText(text)), literal(text)),
        holds_text(published(AcpEventView::Error(text)), literal(text)),
        holds_text(published(AcpEventView::SessionActive(text)), literal(text)),
        holds_text(published(AcpEventView::ToolCall(call)), literal(call.text())),
        holds_text(published(AcpEventView::SessionList(list)), compact(list_json(list))),
        ({
            let panel = published(AcpEventView::ToolResource { tool_call_id: text, html: more });
            holds_text(panel, literal(text)) && holds_text(panel, literal(more))
        }),
        forall|n: Option<u32>|
            {
                let info = #[trigger] published(
                    AcpEventView::SessionInfo { cwd: text, model: more, tool_count: n },
                );
                &&& holds_text(info, literal(text))
                &&& holds_text(info, literal(more))
                &&& n is Some ==> holds_text(info, decimal(n->0 as nat))
            },
{
    let end = "})"@;
    lemma_holds("window.gander._publish({type:'agent_text',content:"@, literal(text), end);
    lemma_holds("window.gander._publish({type:'user_text',content:"@, literal(text), end);
    lemma_holds("window.gander._publish({type:'error',message:"@, literal(text), end);
    lemma_holds(
        "window.gander._publish({type:'session_active',id:"@,
        literal(text),
        ",history:[]})"@,
    );
    lemma_holds("window.gander._publish({type:'tool_call',call:"@, literal(call.text()), end);
    lemma_holds(
        "window.gander._publish({type:'session_list',sessions:"@,
        compact(list_json(list)),
        end,
    );
    let panel = published(AcpEventView::ToolResource { tool_call_id: text, html: more });
    let head = "window.gander._publish({type:'tool_resource',tool_call_id:"@;
    lemma_holds(head, literal(text), ",html:"@ + literal(more) + end);
    assert(panel =~= head + literal(text) + (",html:"@ + literal(more) + end));
    lemma_holds(head + literal(text) + ",html:"@, literal(more), end);
    assert forall|n: Option<u32>|
        {
            let info = #[trigger] published(
                AcpEventView::SessionInfo { cwd: text, model: more, tool_count: n },
            );
            &&& holds_text(info, literal(text))
            &&& holds_text(info, literal(more))
            &&& n is Some ==> holds_text(info, decimal(n->0 as nat))
        } by {
        let info = published(AcpEventView::SessionInfo { cwd: text, model: more, tool_count: n });
        let start = "window.gander._publish({type:'session_info',cwd:"@;
        let count = match n {
            Some(n) => decimal(n as nat),
            None => "null"@,
        };
        let tail = ",tool_count:"@ + count + end;
        lemma_holds(start, literal(text), ",model:"@ + literal(more) + tail);
        assert(info =~= start + literal(text) + (",model:"@ + literal(more) + tail));
        lemma_holds(start + literal(text) + ",model:"@, literal(more), tail);
        assert(info =~= start + literal(text) + ",model:"@ + literal(more) + tail);
        let front = start + literal(text) + ",model:"@ + literal(more) + ",tool_count:"@;
        lemma_holds(front, count, end);
        assert(info =~= front + count + end);
    }
}

/// A listed session reaches the page with its id, its label and its time.
pub proof fn law_listed_session_is_whole(s: ListedSessionView)
    ensures
        listed_json(s).get("id"@) == Some(JsonView::String(s.id)),
        listed_json(s).get("label"@) == Some(JsonView::String(s.label)),
        s.last_active matches Some(time) ==> listed_json(s).get("last_active"@) == Some(
            JsonView::String(time),
        ),
        s.last_active is None ==> listed_json(s).get("last_active"@) == Some(JsonView::Null),
{
    reveal_strlit("id");
    reveal_strlit("label");
    reveal_strlit("last_active");
    assert("id"@.len() == 2 && "label"@.len() == 5 && "last_active"@.len() == 11);
    reveal_with_fuel(crate::json::lookup, 4);
    let members = listed_json(s)->Object_0;
    assert(members.drop_first()[0] == members[1]);
    assert(members.drop_first().drop_first()[0] == members[2]);
}

/// A tab says why its connection failed, with the words of the error where it
/// has any.
pub proof fn law_tab_errors(words: Seq<char>)
    ensures
        holds_text(tab_error(GeesedErrorView::GooseBinaryUnavailable(words)), words),
        holds_text(tab_error(GeesedErrorView::SpawnFailed(words)), words),
        holds_text(tab_error(GeesedErrorView::SocketConnect(words)), words),
        holds_text(tab_error(GeesedErrorView::Protocol(words)), words),
{
    let none = Seq::<char>::empty();
    lemma_holds("Goose binary not found — set GEESE_GOOSE_BIN: "@, words, none);
    lemma_holds("Goose failed to spawn: "@, words, none);
    lemma_holds("Could not connect to geesed: "@, words, none);
    lemma_holds("ACP protocol error: "@, words, none);
    assert("Goose binary not found — set GEESE_GOOSE_BIN: "@ + words + none
        =~= "Goose binary not found — set GEESE_GOOSE_BIN: "@ + words);
    assert("Goose failed to spawn: "@ + words + none =~= "Goose failed to spawn: "@ + words);
    assert("Could not connect to geesed: "@ + words + none =~= "Could not connect to geesed: "@
        + words);
    assert("ACP protocol error: "@ + words + none =~= "ACP protocol error: "@ + words);
}

} // verus!
