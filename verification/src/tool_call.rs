//! Tool calls of the agent, and the updates that arrive for them.

use crate::json::{
    clone_members, compact, get_member, keyed, law_well_keyed_is_keyed, lookup, member_views,
    merge_members, merged, plain, reads_as, views, well_keyed, Json, JsonView, Members,
};
use crate::text::str_eq;
use vstd::prelude::*;

verus! {

/// Category of a tool.
#[derive(Debug, Clone, Copy, PartialEq, Eq, Structural)]
pub enum ToolKind {
    Read,
    Edit,
    Delete,
    Move,
    Search,
    Execute,
    Think,
    Fetch,
    SwitchMode,
    Other,
}

/// Execution status of a tool call.
#[derive(Debug, Clone, Copy, PartialEq, Eq, Structural)]
pub enum ToolCallStatus {
    Pending,
    InProgress,
    Completed,
    Failed,
}

/// A tool call as the agent reported it, with every update merged in.
///
/// Content blocks and locations are carried in their JSON form.
#[derive(Debug)]
pub struct ToolCall {
    pub tool_call_id: String,
    pub title: String,
    pub kind: ToolKind,
    pub status: ToolCallStatus,
    pub content: Vec<Json>,
    pub locations: Vec<Json>,
    pub raw_input: Option<Json>,
    pub raw_output: Option<Json>,
    pub meta: Option<Vec<(String, Json)>>,
}

/// The model of a [`ToolCall`].
pub ghost struct ToolCallView {
    pub tool_call_id: Seq<char>,
    pub title: Seq<char>,
    pub kind: ToolKind,
    pub status: ToolCallStatus,
    pub content: Seq<JsonView>,
    pub locations: Seq<JsonView>,
    pub raw_input: Option<JsonView>,
    pub raw_output: Option<JsonView>,
    pub meta: Option<Members>,
}

/// The fields that an update changes.
#[derive(Debug)]
pub struct ToolCallUpdateFields {
    pub kind: Option<ToolKind>,
    pub status: Option<ToolCallStatus>,
    pub title: Option<String>,
    pub content: Option<Vec<Json>>,
    pub locations: Option<Vec<Json>>,
    pub raw_input: Option<Json>,
    pub raw_output: Option<Json>,
}

/// The model of [`ToolCallUpdateFields`].
pub ghost struct FieldsView {
    pub kind: Option<ToolKind>,
    pub status: Option<ToolCallStatus>,
    pub title: Option<Seq<char>>,
    pub content: Option<Seq<JsonView>>,
    pub locations: Option<Seq<JsonView>>,
    pub raw_input: Option<JsonView>,
    pub raw_output: Option<JsonView>,
}

/// An update to an earlier tool call.
#[derive(Debug)]
pub struct ToolCallUpdate {
    pub tool_call_id: String,
    pub fields: ToolCallUpdateFields,
    pub meta: Option<Vec<(String, Json)>>,
}

/// The model of a [`ToolCallUpdate`].
pub ghost struct ToolCallUpdateView {
    pub tool_call_id: Seq<char>,
    pub fields: FieldsView,
    pub meta: Option<Members>,
}

/// The model of an optional JSON value.
pub open spec fn opt_json(value: Option<Json>) -> Option<JsonView> {
    match value {
        Some(value) => Some(value@),
        None => None,
    }
}

/// The model of optional object members.
pub open spec fn opt_members(members: Option<Vec<(String, Json)>>) -> Option<Members> {
    match members {
        Some(members) => Some(member_views(members@)),
        None => None,
    }
}

/// The model of an optional list of values.
pub open spec fn opt_views(items: Option<Vec<Json>>) -> Option<Seq<JsonView>> {
    match items {
        Some(items) => Some(views(items@)),
        None => None,
    }
}

impl View for ToolCall {
    type V = ToolCallView;

    open spec fn view(&self) -> ToolCallView {
        ToolCallView {
            tool_call_id: self.tool_call_id@,
            title: self.title@,
            kind: self.kind,
            status: self.status,
            content: views(self.content@),
            locations: views(self.locations@),
            raw_input: opt_json(self.raw_input),
            raw_output: opt_json(self.raw_output),
            meta: opt_members(self.meta),
        }
    }
}

impl View for ToolCallUpdateFields {
    type V = FieldsView;

    open spec fn view(&self) -> FieldsView {
        FieldsView {
            kind: self.kind,
            status: self.status,
            title: crate::text::opt_text(self.title),
            content: opt_views(self.content),
            locations: opt_views(self.locations),
            raw_input: opt_json(self.raw_input),
            raw_output: opt_json(self.raw_output),
        }
    }
}

impl View for ToolCallUpdate {
    type V = ToolCallUpdateView;

    open spec fn view(&self) -> ToolCallUpdateView {
        ToolCallUpdateView {
            tool_call_id: self.tool_call_id@,
            fields: self.fields@,
            meta: opt_members(self.meta),
        }
    }
}

/// `new` where it is given, else `old_value`.
pub open spec fn or_else<T>(new: Option<T>, old_value: T) -> T {
    match new {
        Some(new) => new,
        None => old_value,
    }
}

/// `new` where it is given, else `old_value`.
pub open spec fn or_keep<T>(new: Option<T>, old_value: Option<T>) -> Option<T> {
    match new {
        Some(new) => Some(new),
        None => old_value,
    }
}

impl ToolCallView {
    /// The call with each given field in place of the old one. The id and the
    /// metadata stay.
    pub open spec fn updated(self, fields: FieldsView) -> ToolCallView {
        ToolCallView {
            title: or_else(fields.title, self.title),
            kind: or_else(fields.kind, self.kind),
            status: or_else(fields.status, self.status),
            content: or_else(fields.content, self.content),
            locations: or_else(fields.locations, self.locations),
            raw_input: or_keep(fields.raw_input, self.raw_input),
            raw_output: or_keep(fields.raw_output, self.raw_output),
            ..self
        }
    }

    /// The call with the metadata of an update merged in, top-level key by
    /// top-level key.
    pub open spec fn with_meta(self, update: Option<Members>) -> ToolCallView {
        ToolCallView {
            meta: match (self.meta, update) {
                (Some(meta), Some(update)) => Some(merged(meta, update)),
                (None, Some(update)) => Some(update),
                (meta, None) => meta,
            },
            ..self
        }
    }

    /// The call after an update.
    pub open spec fn after(self, update: ToolCallUpdateView) -> ToolCallView {
        self.with_meta(update.meta).updated(update.fields)
    }

    /// `rawOutput.resourceUri`, where it is a string.
    pub open spec fn resource_uri(self) -> Option<Seq<char>> {
        match self.raw_output {
            Some(output) => output.get_str("resourceUri"@),
            None => None,
        }
    }

    /// `_meta.goose.toolCall.extensionName`, where it is a string.
    pub open spec fn extension_name(self) -> Option<Seq<char>> {
        match self.meta {
            Some(meta) => match lookup(meta, "goose"@) {
                Some(goose) => match goose.get("toolCall"@) {
                    Some(call) => call.get_str("extensionName"@),
                    None => None,
                },
                None => None,
            },
            None => None,
        }
    }
}

/// A copy of a list of values.
pub(crate) fn clone_list(items: &Vec<Json>) -> (copies: Vec<Json>)
    ensures
        views(copies@) == views(items@),
{
    let mut copies: Vec<Json> = Vec::new();
    let mut i: usize = 0;
    while i < items.len()
        invariant
            i <= items.len(),
            copies.len() == i,
            forall|k: int| 0 <= k < i ==> (#[trigger] copies[k])@ == items[k]@,
        decreases items.len() - i,
    {
        copies.push(items[i].clone());
        i += 1;
    }
    assert(views(copies@) =~= views(items@));
    copies
}

/// A copy of an optional value.
pub(crate) fn clone_opt(value: &Option<Json>) -> (copy: Option<Json>)
    ensures
        opt_json(copy) == opt_json(*value),
{
    match value {
        Some(value) => Some(value.clone()),
        None => None,
    }
}

impl Clone for ToolCall {
    fn clone(&self) -> (res: Self)
        ensures
            res@ == self@,
    {
        ToolCall {
            tool_call_id: self.tool_call_id.clone(),
            title: self.title.clone(),
            kind: self.kind,
            status: self.status,
            content: clone_list(&self.content),
            locations: clone_list(&self.locations),
            raw_input: clone_opt(&self.raw_input),
            raw_output: clone_opt(&self.raw_output),
            meta: match &self.meta {
                Some(meta) => Some(clone_members(meta)),
                None => None,
            },
        }
    }
}

impl ToolCall {
    /// A pending call with an id and a title and nothing else.
    pub fn new(tool_call_id: String, title: String) -> (res: ToolCall)
        ensures
            res@ == (ToolCallView {
                tool_call_id: tool_call_id@,
                title: title@,
                kind: ToolKind::Other,
                status: ToolCallStatus::Pending,
                content: Seq::empty(),
                locations: Seq::empty(),
                raw_input: None,
                raw_output: None,
                meta: None,
            }),
    {
        let res = ToolCall {
            tool_call_id,
            title,
            kind: ToolKind::Other,
            status: ToolCallStatus::Pending,
            content: Vec::new(),
            locations: Vec::new(),
            raw_input: None,
            raw_output: None,
            meta: None,
        };
        assert(views(res.content@) =~= Seq::empty());
        assert(views(res.locations@) =~= Seq::empty());
        res
    }

    /// `rawOutput.resourceUri`, where it is a string.
    pub fn resource_uri(&self) -> (res: Option<String>)
        ensures
            crate::text::opt_text(res) == self@.resource_uri(),
    {
        match &self.raw_output {
            Some(output) => match output.get_str("resourceUri") {
                Some(uri) => Some(uri.to_owned()),
                None => None,
            },
            None => None,
        }
    }

    /// `_meta.goose.toolCall.extensionName`, where it is a string.
    pub fn extension_name(&self) -> (res: Option<String>)
        ensures
            crate::text::opt_text(res) == self@.extension_name(),
    {
        match &self.meta {
            Some(meta) => match get_member(meta, "goose") {
                Some(goose) => match goose.get("toolCall") {
                    Some(call) => match call.get_str("extensionName") {
                        Some(name) => Some(name.to_owned()),
                        None => None,
                    },
                    None => None,
                },
                None => None,
            },
            None => None,
        }
    }

    /// Merges the metadata of an update into the call.
    pub fn merge_meta(&mut self, update: Option<Vec<(String, Json)>>)
        ensures
            final(self)@ == old(self)@.with_meta(opt_members(update)),
    {
        match update {
            Some(update) => {
                let mut slot: Option<Vec<(String, Json)>> = None;
                core::mem::swap(&mut slot, &mut self.meta);
                match slot {
                    Some(mut meta) => {
                        merge_members(&mut meta, &update);
                        self.meta = Some(meta);
                    },
                    None => {
                        self.meta = Some(update);
                    },
                }
            },
            None => {},
        }
    }
}

impl ToolCallUpdateFields {
    /// An update that changes nothing.
    pub fn new() -> (res: ToolCallUpdateFields)
        ensures
            res@ == (FieldsView {
                kind: None,
                status: None,
                title: None,
                content: None,
                locations: None,
                raw_input: None,
                raw_output: None,
            }),
    {
        ToolCallUpdateFields {
            kind: None,
            status: None,
            title: None,
            content: None,
            locations: None,
            raw_input: None,
            raw_output: None,
        }
    }
}

impl ToolKind {
    /// The name on the wire.
    pub open spec fn wire_name(self) -> Seq<char> {
        match self {
            ToolKind::Read => "read"@,
            ToolKind::Edit => "edit"@,
            ToolKind::Delete => "delete"@,
            ToolKind::Move => "move"@,
            ToolKind::Search => "search"@,
            ToolKind::Execute => "execute"@,
            ToolKind::Think => "think"@,
            ToolKind::Fetch => "fetch"@,
            ToolKind::SwitchMode => "switch_mode"@,
            ToolKind::Other => "other"@,
        }
    }

    /// The name on the wire.
    pub fn name(self) -> (res: &'static str)
        ensures
            res@ == self.wire_name(),
    {
        match self {
            ToolKind::Read => "read",
            ToolKind::Edit => "edit",
            ToolKind::Delete => "delete",
            ToolKind::Move => "move",
            ToolKind::Search => "search",
            ToolKind::Execute => "execute",
            ToolKind::Think => "think",
            ToolKind::Fetch => "fetch",
            ToolKind::SwitchMode => "switch_mode",
            ToolKind::Other => "other",
        }
    }
}

impl ToolCallStatus {
    /// The name on the wire.
    pub open spec fn wire_name(self) -> Seq<char> {
        match self {
            ToolCallStatus::Pending => "pending"@,
            ToolCallStatus::InProgress => "in_progress"@,
            ToolCallStatus::Completed => "completed"@,
            ToolCallStatus::Failed => "failed"@,
        }
    }

    /// The name on the wire.
    pub fn name(self) -> (res: &'static str)
        ensures
            res@ == self.wire_name(),
    {
        match self {
            ToolCallStatus::Pending => "pending",
            ToolCallStatus::InProgress => "in_progress",
            ToolCallStatus::Completed => "completed",
            ToolCallStatus::Failed => "failed",
        }
    }
}

/// One member where `value` is given, none where it is not.
pub open spec fn member_if(key: Seq<char>, value: Option<JsonView>) -> Members {
    match value {
        Some(value) => seq![(key, value)],
        None => Seq::empty(),
    }
}

impl ToolCallView {
    /// The kind, where it is not the default.
    pub open spec fn json_kind(self) -> Option<JsonView> {
        if self.kind == ToolKind::Other {
            None
        } else {
            Some(JsonView::String(self.kind.wire_name()))
        }
    }

    /// The status, where it is not the default.
    pub open spec fn json_status(self) -> Option<JsonView> {
        if self.status == ToolCallStatus::Pending {
            None
        } else {
            Some(JsonView::String(self.status.wire_name()))
        }
    }

    /// The members of the call on the wire: the id and the title, and every
    /// other field that differs from its default.
    pub open spec fn json_members(self) -> Members {
        seq![
            ("toolCallId"@, JsonView::String(self.tool_call_id)),
            ("title"@, JsonView::String(self.title)),
        ] + member_if("kind"@, self.json_kind()) + member_if("status"@, self.json_status())
            + member_if("content"@, list_if(self.content)) + member_if(
            "locations"@,
            list_if(self.locations),
        ) + member_if("rawInput"@, self.raw_input) + member_if("rawOutput"@, self.raw_output)
            + member_if(
            "_meta"@,
            match self.meta {
                Some(meta) => Some(JsonView::Object(meta)),
                None => None,
            },
        )
    }

    /// The call on the wire.
    pub open spec fn json(self) -> JsonView {
        JsonView::Object(self.json_members())
    }

    /// The text of the call on the wire.
    pub open spec fn text(self) -> Seq<char> {
        compact(keyed(self.json()))
    }
}

/// A list that is not empty.
pub open spec fn list_if(items: Seq<JsonView>) -> Option<JsonView> {
    if items.len() == 0 {
        None
    } else {
        Some(JsonView::Array(items))
    }
}

/// Adds a member behind the others.
pub(crate) fn push_member(members: &mut Vec<(String, Json)>, key: &str, value: Json)
    ensures
        member_views(final(members)@) == member_views(old(members)@) + seq![(key@, value@)],
{
    let ghost before = member_views(members@);
    let ghost entry = (key@, value@);
    members.push((key.to_owned(), value));
    assert(member_views(members@) =~= before + seq![entry]);
}

/// Adds a member behind the others where its value is given.
pub(crate) fn push_member_if(members: &mut Vec<(String, Json)>, key: &str, value: Option<Json>)
    ensures
        member_views(final(members)@) == member_views(old(members)@) + member_if(
            key@,
            opt_json(value),
        ),
{
    match value {
        Some(value) => push_member(members, key, value),
        None => {
            assert(member_views(members@) + Seq::<(Seq<char>, JsonView)>::empty() =~= member_views(
                members@,
            ));
        },
    }
}

/// A copy of a list that is not empty.
fn list_json(items: &Vec<Json>) -> (res: Option<Json>)
    ensures
        opt_json(res) == list_if(views(items@)),
{
    if items.len() == 0 {
        None
    } else {
        let copies = clone_list(items);
        proof {
            crate::json::lemma_array_view(copies);
        }
        Some(Json::Array(copies))
    }
}

impl ToolCall {
    /// The call on the wire, with camel-case keys.
    pub fn to_json(&self) -> (res: Json)
        ensures
            res@ == self@.json(),
    {
        let mut members: Vec<(String, Json)> = Vec::new();
        assert(member_views(members@) =~= Seq::empty());
        push_member(&mut members, "toolCallId", Json::String(self.tool_call_id.clone()));
        push_member(&mut members, "title", Json::String(self.title.clone()));
        assert(member_views(members@) =~= seq![
            ("toolCallId"@, JsonView::String(self.tool_call_id@)),
            ("title"@, JsonView::String(self.title@)),
        ]);
        let kind = if self.kind == ToolKind::Other {
            None
        } else {
            Some(Json::String(self.kind.name().to_owned()))
        };
        push_member_if(&mut members, "kind", kind);
        let status = if self.status == ToolCallStatus::Pending {
            None
        } else {
            Some(Json::String(self.status.name().to_owned()))
        };
        push_member_if(&mut members, "status", status);
        push_member_if(&mut members, "content", list_json(&self.content));
        push_member_if(&mut members, "locations", list_json(&self.locations));
        push_member_if(&mut members, "rawInput", clone_opt(&self.raw_input));
        push_member_if(&mut members, "rawOutput", clone_opt(&self.raw_output));
        let meta = match &self.meta {
            Some(meta) => {
                let copies = clone_members(meta);
                proof {
                    crate::json::lemma_object_view(copies);
                }
                Some(Json::Object(copies))
            },
            None => None,
        };
        push_member_if(&mut members, "_meta", meta);
        proof {
            crate::json::lemma_object_view(members);
        }
        Json::Object(members)
    }

    /// The text of the call on the wire. It reads back as the call where its
    /// values hold integers only and nest less deep than the reader follows.
    pub fn to_text(&self) -> (res: String)
        ensures
            res@ == self@.text(),
            well_keyed(self@.json()) && plain(self@.json(), 127) ==> reads_as(
                res@,
                self@.json(),
            ),
    {
        let json = self.to_json();
        proof {
            if well_keyed(self@.json()) {
                law_well_keyed_is_keyed(self@.json());
            }
        }
        json.to_text()
    }
}

/// Apply the fields of an update onto an existing call in place.
pub fn apply_tool_call_update(tc: &mut ToolCall, fields: ToolCallUpdateFields)
    ensures
        final(tc)@ == old(tc)@.updated(fields@),
{
    if let Some(kind) = fields.kind {
        tc.kind = kind;
    }
    if let Some(status) = fields.status {
        tc.status = status;
    }
    if let Some(title) = fields.title {
        tc.title = title;
    }
    if let Some(content) = fields.content {
        tc.content = content;
    }
    if let Some(locations) = fields.locations {
        tc.locations = locations;
    }
    if let Some(raw_input) = fields.raw_input {
        tc.raw_input = Some(raw_input);
    }
    if let Some(raw_output) = fields.raw_output {
        tc.raw_output = Some(raw_output);
    }
}

/// Each call is kept under its own id.
pub open spec fn kept_by_id(calls: Map<Seq<char>, ToolCallView>) -> bool {
    forall|id: Seq<char>| #[trigger] calls.contains_key(id) ==> calls[id].tool_call_id == id
}

/// The tool calls of one session, one for each id.
#[derive(Debug)]
pub struct ToolCalls {
    calls: Vec<ToolCall>,
}

impl View for ToolCalls {
    type V = Map<Seq<char>, ToolCallView>;

    closed spec fn view(&self) -> Map<Seq<char>, ToolCallView> {
        Map::new(
            |id: Seq<char>| exists|i: int| self.holds(id, i),
            |id: Seq<char>| self.calls[choose|i: int| self.holds(id, i)]@,
        )
    }
}

impl ToolCalls {
    /// The call with `id` stands at position `i`.
    spec fn holds(self, id: Seq<char>, i: int) -> bool {
        0 <= i < self.calls.len() && self.calls[i].tool_call_id@ == id
    }

    /// No two calls have the same id.
    #[verifier::type_invariant]
    spec fn distinct(self) -> bool {
        forall|i: int, j: int|
            0 <= i < j < self.calls.len() ==> (#[trigger] self.calls[i]).tool_call_id@ != (
            #[trigger] self.calls[j]).tool_call_id@
    }

    proof fn lemma_lookup(self, id: Seq<char>, i: int)
        requires
            self.distinct(),
            self.holds(id, i),
        ensures
            self@.contains_key(id),
            self@[id] == self.calls[i]@,
    {
        let k = choose|k: int| self.holds(id, k);
        assert(self.holds(id, k));
        assert(k == i);
    }

    /// Each call is kept under its own id.
    pub proof fn law_calls_are_kept_by_id(self)
        ensures
            kept_by_id(self@),
    {
        assert forall|id: Seq<char>| #[trigger] self@.contains_key(id) implies
            self@[id].tool_call_id == id by {
            let i = choose|i: int| self.holds(id, i);
            assert(self.holds(id, i));
        }
    }

    /// No call yet.
    pub fn new() -> (res: ToolCalls)
        ensures
            res@ == Map::<Seq<char>, ToolCallView>::empty(),
    {
        let res = ToolCalls { calls: Vec::new() };
        assert(res@ =~= Map::empty());
        res
    }

    /// Forgets every call.
    pub fn clear(&mut self)
        ensures
            final(self)@ == Map::<Seq<char>, ToolCallView>::empty(),
    {
        *self = ToolCalls::new();
    }

    /// The position of the call with `id`, or the number of calls.
    fn position(&self, id: &str) -> (at: usize)
        ensures
            at <= self.calls.len(),
            at < self.calls.len() ==> self.holds(id@, at as int),
            at == self.calls.len() ==> !self@.contains_key(id@),
    {
        let mut at: usize = 0;
        while at < self.calls.len()
            invariant
                at <= self.calls.len(),
                forall|i: int| 0 <= i < at ==> !self.holds(id@, i),
            decreases self.calls.len() - at,
        {
            if str_eq(self.calls[at].tool_call_id.as_str(), id) {
                return at;
            }
            at += 1;
        }
        at
    }

    /// Keeps a call under its id, in place of an earlier one with that id.
    pub fn insert(&mut self, call: ToolCall)
        ensures
            final(self)@ == old(self)@.insert(call@.tool_call_id, call@),
    {
        proof {
            use_type_invariant(&*self);
        }
        let ghost before = *self;
        let ghost model = call@;
        let at: usize = self.position(call.tool_call_id.as_str());
        let mut calls: Vec<ToolCall> = Vec::new();
        core::mem::swap(&mut calls, &mut self.calls);
        if at < calls.len() {
            calls.set(at, call);
        } else {
            calls.push(call);
        }
        proof {
            assert forall|i: int, j: int| 0 <= i < j < calls.len() implies (
            #[trigger] calls[i]).tool_call_id@ != (#[trigger] calls[j]).tool_call_id@ by {
                if at == before.calls.len() {
                    if j == at {
                        if calls[i].tool_call_id@ == model.tool_call_id {
                            before.lemma_lookup(model.tool_call_id, i);
                        }
                    }
                }
            }
        }
        *self = ToolCalls { calls };
        proof {
            let want = before@.insert(model.tool_call_id, model);
            assert forall|id: Seq<char>| self@.contains_key(id) == want.contains_key(id) by {
                if self@.contains_key(id) {
                    let i = choose|i: int| self.holds(id, i);
                    if i != at {
                        before.lemma_lookup(id, i);
                    }
                }
                if id == model.tool_call_id {
                    self.lemma_lookup(id, at as int);
                } else if before@.contains_key(id) {
                    let i = choose|i: int| before.holds(id, i);
                    assert(self.holds(id, i));
                }
            }
            assert forall|id: Seq<char>| self@.contains_key(id) implies self@[id] == want[id] by {
                if id == model.tool_call_id {
                    self.lemma_lookup(id, at as int);
                } else {
                    let i = choose|i: int| self.holds(id, i);
                    self.lemma_lookup(id, i);
                    before.lemma_lookup(id, i);
                }
            }
            assert(self@ =~= want);
        }
    }

    /// Merges an update into the call with its id, and returns the merged
    /// call. Without such a call nothing changes.
    pub fn update(&mut self, update: ToolCallUpdate) -> (res: Option<ToolCall>)
        ensures
            ({
                let id = update@.tool_call_id;
                let calls = old(self)@;
                if calls.contains_key(id) {
                    &&& res matches Some(call) && call@ == calls[id].after(update@)
                    &&& final(self)@ == calls.insert(id, calls[id].after(update@))
                } else {
                    res is None && final(self)@ == calls
                }
            }),
    {
        proof {
            use_type_invariant(&*self);
        }
        let at: usize = self.position(update.tool_call_id.as_str());
        if at == self.calls.len() {
            return None;
        }
        proof {
            self.lemma_lookup(update@.tool_call_id, at as int);
        }
        let mut call: ToolCall = self.calls[at].clone();
        call.merge_meta(update.meta);
        apply_tool_call_update(&mut call, update.fields);
        let merged_call: ToolCall = call.clone();
        self.insert(call);
        Some(merged_call)
    }
}

/// A lookup goes through the members in their order.
proof fn lemma_lookup_concat(a: Members, b: Members, key: Seq<char>)
    ensures
        lookup(a + b, key) == (match lookup(a, key) {
            Some(value) => Some(value),
            None => lookup(b, key),
        }),
    decreases a.len(),
{
    if a.len() == 0 {
        assert(a + b =~= b);
    } else {
        assert((a + b).drop_first() =~= a.drop_first() + b);
        lemma_lookup_concat(a.drop_first(), b, key);
    }
}

/// A lookup in a single member.
proof fn lemma_lookup_one(key: Seq<char>, value: Option<JsonView>, wanted: Seq<char>)
    ensures
        lookup(member_if(key, value), wanted) == (if wanted == key {
            value
        } else {
            None
        }),
{
    reveal_with_fuel(lookup, 2);
}

/// The call on the wire gives each field under its camel-case key, and nothing
/// under any other key.
pub proof fn law_wire_keys(call: ToolCallView, key: Seq<char>)
    ensures
        call.json().get("toolCallId"@) == Some(JsonView::String(call.tool_call_id)),
        call.json().get("title"@) == Some(JsonView::String(call.title)),
        call.json().get("kind"@) == call.json_kind(),
        call.json().get("status"@) == call.json_status(),
        call.json().get("content"@) == list_if(call.content),
        call.json().get("locations"@) == list_if(call.locations),
        call.json().get("rawInput"@) == call.raw_input,
        call.json().get("rawOutput"@) == call.raw_output,
        call.json().get("_meta"@) == (match call.meta {
            Some(meta) => Some(JsonView::Object(meta)),
            None => None,
        }),
        call.json().get(key) is Some ==> {
            ||| key == "toolCallId"@
            ||| key == "title"@
            ||| key == "kind"@
            ||| key == "status"@
            ||| key == "content"@
            ||| key == "locations"@
            ||| key == "rawInput"@
            ||| key == "rawOutput"@
            ||| key == "_meta"@
        },
{
    lemma_wire_lookup(call, key);
    lemma_wire_lookup(call, "toolCallId"@);
    lemma_wire_lookup(call, "title"@);
    lemma_wire_lookup(call, "kind"@);
    lemma_wire_lookup(call, "status"@);
    lemma_wire_lookup(call, "content"@);
    lemma_wire_lookup(call, "locations"@);
    lemma_wire_lookup(call, "rawInput"@);
    lemma_wire_lookup(call, "rawOutput"@);
    lemma_wire_lookup(call, "_meta"@);
    reveal_strlit("toolCallId");
    reveal_strlit("title");
    reveal_strlit("kind");
    reveal_strlit("status");
    reveal_strlit("content");
    reveal_strlit("locations");
    reveal_strlit("rawInput");
    reveal_strlit("rawOutput");
    reveal_strlit("_meta");
    assert("toolCallId"@.len() == 10 && "title"@.len() == 5 && "kind"@.len() == 4);
    assert("status"@.len() == 6 && "content"@.len() == 7 && "locations"@.len() == 9);
    assert("rawInput"@.len() == 8 && "rawOutput"@.len() == 9 && "_meta"@.len() == 5);
    assert("title"@[0] != "_meta"@[0]);
    assert("rawOutput"@[0] != "locations"@[0]);
}

/// What the call on the wire gives under a key.
proof fn lemma_wire_lookup(call: ToolCallView, key: Seq<char>)
    ensures
        call.json().get(key) == (if key == "toolCallId"@ {
            Some(JsonView::String(call.tool_call_id))
        } else if key == "title"@ {
            Some(JsonView::String(call.title))
        } else if key == "kind"@ && call.json_kind() is Some {
            call.json_kind()
        } else if key == "status"@ && call.json_status() is Some {
            call.json_status()
        } else if key == "content"@ && list_if(call.content) is Some {
            list_if(call.content)
        } else if key == "locations"@ && list_if(call.locations) is Some {
            list_if(call.locations)
        } else if key == "rawInput"@ && call.raw_input is Some {
            call.raw_input
        } else if key == "rawOutput"@ && call.raw_output is Some {
            call.raw_output
        } else if key == "_meta"@ {
            match call.meta {
                Some(meta) => Some(JsonView::Object(meta)),
                None => None,
            }
        } else {
            None
        }),
{
    let meta = match call.meta {
        Some(meta) => Some(JsonView::Object(meta)),
        None => None,
    };
    let a0 = seq![
        ("toolCallId"@, JsonView::String(call.tool_call_id)),
        ("title"@, JsonView::String(call.title)),
    ];
    let a1 = a0 + member_if("kind"@, call.json_kind());
    let a2 = a1 + member_if("status"@, call.json_status());
    let a3 = a2 + member_if("content"@, list_if(call.content));
    let a4 = a3 + member_if("locations"@, list_if(call.locations));
    let a5 = a4 + member_if("rawInput"@, call.raw_input);
    let a6 = a5 + member_if("rawOutput"@, call.raw_output);
    let a7 = a6 + member_if("_meta"@, meta);
    assert(a7 == call.json_members());
    lemma_lookup_concat(a6, member_if("_meta"@, meta), key);
    lemma_lookup_one("_meta"@, meta, key);
    lemma_lookup_concat(a5, member_if("rawOutput"@, call.raw_output), key);
    lemma_lookup_one("rawOutput"@, call.raw_output, key);
    lemma_lookup_concat(a4, member_if("rawInput"@, call.raw_input), key);
    lemma_lookup_one("rawInput"@, call.raw_input, key);
    lemma_lookup_concat(a3, member_if("locations"@, list_if(call.locations)), key);
    lemma_lookup_one("locations"@, list_if(call.locations), key);
    lemma_lookup_concat(a2, member_if("content"@, list_if(call.content)), key);
    lemma_lookup_one("content"@, list_if(call.content), key);
    lemma_lookup_concat(a1, member_if("status"@, call.json_status()), key);
    lemma_lookup_one("status"@, call.json_status(), key);
    lemma_lookup_concat(a0, member_if("kind"@, call.json_kind()), key);
    lemma_lookup_one("kind"@, call.json_kind(), key);
    reveal_with_fuel(lookup, 3);
    assert(a0.drop_first() =~= seq![("title"@, JsonView::String(call.title))]);
}

/// An update without metadata keeps the metadata of the call, so the name of
/// the extension that arrived with the call stays.
pub proof fn law_update_without_meta_keeps_extension(
    call: ToolCallView,
    update: ToolCallUpdateView,
)
    requires
        update.meta is None,
    ensures
        call.after(update).meta == call.meta,
        call.after(update).extension_name() == call.extension_name(),
{
}

/// An update whose metadata has no `goose` member keeps the name of the
/// extension too.
pub proof fn law_update_of_other_meta_keeps_extension(
    call: ToolCallView,
    update: ToolCallUpdateView,
)
    requires
        call.meta is Some,
        update.meta matches Some(meta) && crate::json::last_of(meta, "goose"@) is None,
    ensures
        call.after(update).extension_name() == call.extension_name(),
{
    crate::json::law_merge_then_get(call.meta->0, update.meta->0, "goose"@);
}

/// An update never changes the id of a call.
pub proof fn law_update_keeps_id(call: ToolCallView, update: ToolCallUpdateView)
    ensures
        call.after(update).tool_call_id == call.tool_call_id,
{
}

/// Applying the same fields twice is applying them once.
pub proof fn law_update_is_idempotent(call: ToolCallView, fields: FieldsView)
    ensures
        call.updated(fields).updated(fields) == call.updated(fields),
{
}

/// A field that an update gives is the field of the call from then on, whatever
/// it was before. A field that it does not give stays as it was.
pub proof fn law_update_sets_what_it_gives(call: ToolCallView, update: ToolCallUpdateView)
    ensures
        ({
            let next = call.after(update);
            let given = update.fields;
            &&& given.status matches Some(status) ==> next.status == status
            &&& given.status is None ==> next.status == call.status
            &&& given.title matches Some(title) ==> next.title == title
            &&& given.title is None ==> next.title == call.title
            &&& given.kind matches Some(kind) ==> next.kind == kind
            &&& given.kind is None ==> next.kind == call.kind
            &&& given.content matches Some(content) ==> next.content == content
            &&& given.content is None ==> next.content == call.content
            &&& given.locations matches Some(locations) ==> next.locations == locations
            &&& given.locations is None ==> next.locations == call.locations
            &&& given.raw_input is Some ==> next.raw_input == given.raw_input
            &&& given.raw_input is None ==> next.raw_input == call.raw_input
            &&& given.raw_output is Some ==> next.raw_output == given.raw_output
            &&& given.raw_output is None ==> next.raw_output == call.raw_output
        }),
        call.updated(update.fields).meta == call.meta,
        call.updated(update.fields).tool_call_id == call.tool_call_id,
        ({
            let next = call.updated(update.fields);
            let same = call.after(update);
            &&& next.status == same.status && next.title == same.title && next.kind == same.kind
            &&& next.content == same.content && next.locations == same.locations
            &&& next.raw_input == same.raw_input && next.raw_output == same.raw_output
        }),
{
}

/// The metadata of an update is put into that of the call key by key: what it
/// gives under a key stands there from then on, and every other key keeps what
/// it had.
pub proof fn law_update_merges_meta(call: ToolCallView, update: ToolCallUpdateView, key: Seq<char>)
    ensures
        ({
            let before = match call.meta {
                Some(meta) => lookup(meta, key),
                None => None,
            };
            let next = call.after(update).meta;
            match update.meta {
                Some(given) => {
                    &&& next is Some
                    &&& call.meta is Some ==> lookup(next->0, key) == (match crate::json::last_of(
                        given,
                        key,
                    ) {
                        Some(value) => Some(value),
                        None => before,
                    })
                    &&& call.meta is None ==> next->0 == given
                },
                None => next == call.meta,
            }
        }),
{
    if call.meta is Some && update.meta is Some {
        crate::json::law_merge_then_get(call.meta->0, update.meta->0, key);
    }
}

/// On the wire a status and a kind have the names of the protocol. The defaults
/// are left out, and so are empty lists.
pub proof fn law_wire_values(call: ToolCallView)
    ensures
        call.json().get("status"@) == (match call.status {
            ToolCallStatus::Pending => None,
            ToolCallStatus::InProgress => Some(JsonView::String("in_progress"@)),
            ToolCallStatus::Completed => Some(JsonView::String("completed"@)),
            ToolCallStatus::Failed => Some(JsonView::String("failed"@)),
        }),
        call.json().get("kind"@) == (match call.kind {
            ToolKind::Read => Some(JsonView::String("read"@)),
            ToolKind::Edit => Some(JsonView::String("edit"@)),
            ToolKind::Delete => Some(JsonView::String("delete"@)),
            ToolKind::Move => Some(JsonView::String("move"@)),
            ToolKind::Search => Some(JsonView::String("search"@)),
            ToolKind::Execute => Some(JsonView::String("execute"@)),
            ToolKind::Think => Some(JsonView::String("think"@)),
            ToolKind::Fetch => Some(JsonView::String("fetch"@)),
            ToolKind::SwitchMode => Some(JsonView::String("switch_mode"@)),
            ToolKind::Other => None,
        }),
        call.content.len() > 0 ==> call.json().get("content"@) == Some(
            JsonView::Array(call.content),
        ),
        call.content.len() == 0 ==> call.json().get("content"@) is None,
        call.locations.len() > 0 ==> call.json().get("locations"@) == Some(
            JsonView::Array(call.locations),
        ),
        call.locations.len() == 0 ==> call.json().get("locations"@) is None,
{
    law_wire_keys(call, "status"@);
}

/// The resource of a call is the text under `resourceUri` of its output, and its
/// extension the text under `goose`, `toolCall`, `extensionName` of its
/// metadata.
pub proof fn law_panel_of_a_call(
    call: ToolCallView,
    output: JsonView,
    uri: Seq<char>,
    meta: Members,
    goose: JsonView,
    inner: JsonView,
    name: Seq<char>,
)
    ensures
        call.raw_output == Some(output) && output.get("resourceUri"@) == Some(
            JsonView::String(uri),
        ) ==> call.resource_uri() == Some(uri),
        call.raw_output is None ==> call.resource_uri() is None,
        call.raw_output == Some(output) && output.get("resourceUri"@) is None
            ==> call.resource_uri() is None,
        call.meta == Some(meta) && lookup(meta, "goose"@) == Some(goose) && goose.get("toolCall"@)
            == Some(inner) && inner.get("extensionName"@) == Some(JsonView::String(name))
            ==> call.extension_name() == Some(name),
        call.meta is None ==> call.extension_name() is None,
        call.meta == Some(meta) && lookup(meta, "goose"@) is None
            ==> call.extension_name() is None,
{
}

} // verus!
