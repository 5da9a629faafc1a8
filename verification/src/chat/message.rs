//! How a message is shown: its bubble, or the card of its tool call.

use crate::chat::types::{ChatMessage, MessageView, Role};
use crate::json::{Json, JsonView};
use crate::markdown::{html_of_markdown, render};
use crate::text::{concat, opt_text, str_eq};
use vstd::prelude::*;

verus! {

/// The title of a tool call.
pub open spec fn title_of(call: JsonView) -> Seq<char> {
    match call.get_str("title"@) {
        Some(title) => title,
        None => "(tool)"@,
    }
}

/// The class that a status is shown with.
pub open spec fn class_of_status(status: Option<Seq<char>>) -> Seq<char> {
    if status == Some("in_progress"@) {
        "running"@
    } else if status == Some("completed"@) {
        "success"@
    } else if status == Some("failed"@) {
        "failure"@
    } else {
        "pending"@
    }
}

/// The class that a tool call is shown with.
pub open spec fn class_of(call: JsonView) -> Seq<char> {
    class_of_status(call.get_str("status"@))
}

/// A member of a tool call is there and not null.
pub open spec fn has_value(call: JsonView, key: Seq<char>) -> bool {
    match call.get(key) {
        Some(value) => value != JsonView::Null,
        None => false,
    }
}

/// The title of a tool call. `call` is what the page reads from the snapshot:
/// null where it is no JSON.
pub fn parse_tool_title(call: &Json) -> (res: String)
    ensures
        res@ == title_of(call@),
{
    match call.get_str("title") {
        Some(title) => title.to_owned(),
        None => "(tool)".to_owned(),
    }
}

/// The class that a tool-call card is shown with: it goes by the status in the
/// snapshot alone.
pub fn tool_status_class(call: &Json) -> (res: &'static str)
    ensures
        res@ == class_of(call@),
{
    match call.get_str("status") {
        Some(status) => if str_eq(status, "in_progress") {
            "running"
        } else if str_eq(status, "completed") {
            "success"
        } else if str_eq(status, "failed") {
            "failure"
        } else {
            "pending"
        },
        None => "pending",
    }
}

/// A member of a tool call that its card shows: the page writes its value,
/// indented, below the label.
#[derive(Clone, Copy, Debug)]
pub struct Section {
    pub label: &'static str,
    /// The key of the member.
    pub key: &'static str,
}

/// The labels and keys of a list of sections.
pub open spec fn section_views(sections: Seq<Section>) -> Seq<(Seq<char>, Seq<char>)> {
    sections.map_values(|s: Section| (s.label@, s.key@))
}

/// The input and the output of a call, each where it has one.
pub open spec fn io_of(call: JsonView) -> Seq<(Seq<char>, Seq<char>)> {
    (if has_value(call, "rawInput"@) {
        seq![("Input"@, "rawInput"@)]
    } else {
        Seq::empty()
    }) + (if has_value(call, "rawOutput"@) {
        seq![("Output"@, "rawOutput"@)]
    } else {
        Seq::empty()
    })
}

fn member_has_value(call: &Json, key: &str) -> (res: bool)
    ensures
        res == has_value(call@, key@),
{
    match call.get(key) {
        Some(value) => match value {
            Json::Null => false,
            _ => true,
        },
        None => false,
    }
}

/// The input and the output of a tool call, each where it has one.
pub fn parse_tool_io(call: &Json) -> (res: Vec<Section>)
    ensures
        section_views(res@) == io_of(call@),
{
    let mut sections: Vec<Section> = Vec::new();
    if member_has_value(call, "rawInput") {
        sections.push(Section { label: "Input", key: "rawInput" });
    }
    if member_has_value(call, "rawOutput") {
        sections.push(Section { label: "Output", key: "rawOutput" });
    }
    assert(section_views(sections@) =~= io_of(call@));
    sections
}

/// A bubble of the user or the assistant.
#[derive(Debug)]
pub struct Bubble {
    pub class: &'static str,
    /// The body as HTML, or `None` for the skeleton of a message that is not
    /// mounted.
    pub html: Option<String>,
    /// Whether the cursor blinks.
    pub cursor: bool,
    pub error: Option<String>,
}

/// The card of a tool call.
#[derive(Debug)]
pub struct Card {
    pub spine_class: String,
    pub gear_class: String,
    pub title: String,
    pub chevron_class: &'static str,
    /// The input and the output, where the card is expanded and mounted.
    pub body: Option<Vec<Section>>,
}

/// What a message looks like.
#[derive(Debug)]
pub enum Rendered {
    Bubble(Bubble),
    Card(Card),
}

/// The class of a bubble.
pub open spec fn bubble_class(role: Role) -> Seq<char> {
    if role == Role::User {
        "message message--user"@
    } else {
        "message message--assistant"@
    }
}

/// A bubble shows the message.
pub open spec fn bubble_shows(b: Bubble, m: MessageView) -> bool {
    &&& b.class@ == bubble_class(m.role)
    &&& opt_text(b.html) == (if m.visible {
        Some(html_of_markdown(m.content, true, true, true))
    } else {
        None
    })
    &&& b.cursor == m.streaming
    &&& opt_text(b.error) == m.error
}

/// A card shows a message as the tool call that was read from it.
pub open spec fn card_shows(c: Card, m: MessageView, call: JsonView) -> bool {
    &&& c.spine_class@ == "tool-call-spine tool-call-spine--"@ + class_of(call)
    &&& c.gear_class@ == "tool-call-gear tool-call-gear--"@ + class_of(call)
    &&& c.title@ == title_of(call)
    &&& c.chevron_class@ == (if m.expanded {
        "tool-call-chevron tool-call-chevron--open"@
    } else {
        "tool-call-chevron"@
    })
    &&& match c.body {
        Some(sections) => m.expanded && m.visible && section_views(sections@) == io_of(call),
        None => !(m.expanded && m.visible),
    }
}

/// What a message looks like. `call` is what the page reads from the content of
/// a tool message: null where it is no JSON.
pub fn render_message(m: &ChatMessage, call: &Json) -> (res: Rendered)
    ensures
        match res {
            Rendered::Bubble(b) => m@.role != Role::Tool && bubble_shows(b, m@),
            Rendered::Card(c) => m@.role == Role::Tool && card_shows(c, m@, call@),
        },
{
    if m.role == Role::Tool {
        let class: &'static str = tool_status_class(call);
        let body: Option<Vec<Section>> = if m.expanded && m.visible {
            Some(parse_tool_io(call))
        } else {
            None
        };
        return Rendered::Card(
            Card {
                spine_class: concat("tool-call-spine tool-call-spine--", class),
                gear_class: concat("tool-call-gear tool-call-gear--", class),
                title: parse_tool_title(call),
                chevron_class: if m.expanded {
                    "tool-call-chevron tool-call-chevron--open"
                } else {
                    "tool-call-chevron"
                },
                body,
            },
        );
    }
    let html: Option<String> = if m.visible {
        Some(render(m.content.as_str()))
    } else {
        None
    };
    Rendered::Bubble(
        Bubble {
            class: if m.role == Role::User {
                "message message--user"
            } else {
                "message message--assistant"
            },
            html,
            cursor: m.streaming,
            error: match &m.error {
                Some(e) => Some(e.clone()),
                None => None,
            },
        },
    )
}

/// Opens or closes the body of a card.
pub fn toggle_expanded(m: &mut ChatMessage)
    ensures
        final(m)@ == (MessageView { expanded: !old(m)@.expanded, ..old(m)@ }),
{
    m.expanded = !m.expanded;
}

/// What stands in the place of a tool call's panel.
#[derive(Debug)]
pub enum Panel {
    /// Nothing: the call has no panel.
    Absent,
    /// A placeholder.
    Placeholder,
    /// The panel, in a sandboxed frame.
    Frame { name: String, srcdoc: String },
}

/// Script that lets a panel report its height, so that its frame can be sized.
pub const HEIGHT_REPORTER_SCRIPT: &'static str = "<script>\n(function(){\n  if (window.__ganderHeightReporter) return;\n  window.__ganderHeightReporter = true;\n  function measure(){\n    var d = document.documentElement;\n    var b = document.body;\n    return Math.max(\n      d ? d.scrollHeight : 0,\n      d ? d.offsetHeight : 0,\n      b ? b.scrollHeight : 0,\n      b ? b.offsetHeight : 0\n    );\n  }\n  var last = -1;\n  function post(){\n    try {\n      var h = measure();\n      if (h === last) return;\n      last = h;\n      parent.postMessage({ type: \"gander.iframe.height\", id: window.name, height: h }, \"*\");\n    } catch (e) {}\n  }\n  function start(){\n    post();\n    if (\"ResizeObserver\" in window && document.documentElement) {\n      try { new ResizeObserver(post).observe(document.documentElement); } catch (e) {}\n    }\n    window.addEventListener(\"load\", post);\n    window.addEventListener(\"resize\", post);\n  }\n  if (document.readyState === \"loading\") {\n    document.addEventListener(\"DOMContentLoaded\", start);\n  } else {\n    start();\n  }\n})();\n</script>";

/// Build the document of a panel's frame: the panel, and the script that
/// reports its height.
pub fn build_srcdoc(html: &str) -> (res: String)
    ensures
        res@ == html@ + HEIGHT_REPORTER_SCRIPT@,
{
    concat(html, HEIGHT_REPORTER_SCRIPT)
}

/// What stands in the place of a tool call's panel. A panel that is not
/// mounted gives way to a placeholder.
pub fn panel(m: &ChatMessage) -> (res: Panel)
    ensures
        match res {
            Panel::Absent => m@.ui_html is None && !m@.ui_pending,
            Panel::Placeholder => if m@.ui_html is Some {
                !m@.visible
            } else {
                m@.ui_pending
            },
            Panel::Frame { name, srcdoc } => {
                &&& m@.visible
                &&& m@.ui_html matches Some(html) && srcdoc@ == html + HEIGHT_REPORTER_SCRIPT@
                &&& name@ == (match m@.tool_call_id {
                    Some(id) => id,
                    None => Seq::empty(),
                })
            },
        },
{
    match &m.ui_html {
        Some(html) => {
            if !m.visible {
                return Panel::Placeholder;
            }
            let name: String = match &m.tool_call_id {
                Some(id) => id.clone(),
                None => {
                    let name: String = String::new();
                    assert(name@ =~= Seq::empty());
                    name
                },
            };
            Panel::Frame { name, srcdoc: build_srcdoc(html.as_str()) }
        },
        None => if m.ui_pending {
            Panel::Placeholder
        } else {
            Panel::Absent
        },
    }
}

/// A card has the title of its call, or a name for any tool. It shows the input
/// and the output, each where the call has one.
pub proof fn law_card_contents(call: JsonView, title: Seq<char>)
    ensures
        call.get("title"@) == Some(JsonView::String(title)) ==> title_of(call) == title,
        call.get("title"@) is None ==> title_of(call) == "(tool)"@,
        io_of(call).contains(("Input"@, "rawInput"@)) == (call.get("rawInput"@) is Some && call.get(
            "rawInput"@,
        ) != Some(JsonView::Null)),
        io_of(call).contains(("Output"@, "rawOutput"@)) == (call.get("rawOutput"@) is Some
            && call.get("rawOutput"@) != Some(JsonView::Null)),
        io_of(call).len() <= 2,
        io_of(call).len() == 2 ==> io_of(call)[0].1 == "rawInput"@ && io_of(call)[1].1
            == "rawOutput"@,
{
    reveal_strlit("Input");
    reveal_strlit("Output");
    assert("Input"@.len() == 5 && "Output"@.len() == 6);
    let shown = io_of(call);
    if has_value(call, "rawInput"@) {
        assert(shown[0] == ("Input"@, "rawInput"@));
    }
    if has_value(call, "rawOutput"@) {
        assert(shown[shown.len() - 1] == ("Output"@, "rawOutput"@));
    }
}

/// A card has the class of the status of its call. An unknown status, or none,
/// counts as pending.
pub proof fn law_card_class(call: JsonView, status: Seq<char>)
    requires
        call.get("status"@) == Some(JsonView::String(status)),
    ensures
        status == "in_progress"@ ==> class_of(call) == "running"@,
        status == "completed"@ ==> class_of(call) == "success"@,
        status == "failed"@ ==> class_of(call) == "failure"@,
        status != "in_progress"@ && status != "completed"@ && status != "failed"@ ==> class_of(call)
            == "pending"@,
{
    reveal_strlit("in_progress");
    reveal_strlit("completed");
    reveal_strlit("failed");
    assert("completed"@.len() == 9 && "failed"@.len() == 6 && "in_progress"@.len() == 11);
}

} // verus!
