//! Extension handlers: the boundary between the pure ACP worker and what is
//! specific to one agent.

pub mod goose;

use crate::tool_call::ToolCall;
use vstd::prelude::*;

verus! {

/// Outbound work an extension handler wants the worker to perform.
#[derive(Debug)]
pub enum ExtRequest {
    /// Fetch a resource by URI and deliver the HTML to the UI.
    ReadResource { tool_call_id: String, uri: String, extension_name: String },
}

/// Events emitted by extension handlers.
#[derive(Debug)]
pub enum ExtEvent {
    /// The handler wants the worker to perform an outbound request.
    Request(ExtRequest),
    /// Session metadata for the footer bar.
    SessionInfo { cwd: String, model: String, tool_count: Option<u32> },
    /// HTML panel fetched for a tool call.
    ToolResource { tool_call_id: String, html: String },
}

/// The model of an [`ExtEvent`].
pub ghost enum ExtEventView {
    ReadResource { tool_call_id: Seq<char>, uri: Seq<char>, extension_name: Seq<char> },
    SessionInfo { cwd: Seq<char>, model: Seq<char>, tool_count: Option<u32> },
    ToolResource { tool_call_id: Seq<char>, html: Seq<char> },
}

impl View for ExtEvent {
    type V = ExtEventView;

    open spec fn view(&self) -> ExtEventView {
        match self {
            ExtEvent::Request(
                ExtRequest::ReadResource { tool_call_id, uri, extension_name },
            ) => ExtEventView::ReadResource {
                tool_call_id: tool_call_id@,
                uri: uri@,
                extension_name: extension_name@,
            },
            ExtEvent::SessionInfo { cwd, model, tool_count } => ExtEventView::SessionInfo {
                cwd: cwd@,
                model: model@,
                tool_count: *tool_count,
            },
            ExtEvent::ToolResource { tool_call_id, html } => ExtEventView::ToolResource {
                tool_call_id: tool_call_id@,
                html: html@,
            },
        }
    }
}

/// The models of a list of events.
pub open spec fn ext_event_views(events: Seq<ExtEvent>) -> Seq<ExtEventView> {
    events.map_values(|e: ExtEvent| e@)
}

/// Inspects tool-call snapshots; may emit zero or more extension events.
///
/// A handler never gates the pure ACP path.
pub trait ExtHandler {
    fn on_tool_call_completed(&self, tc: &ToolCall) -> (events: Vec<ExtEvent>);
}

} // verus!
