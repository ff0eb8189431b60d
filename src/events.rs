//! What the engine reports to its consumer.
use vstd::prelude::*;
use crate::json::Json;

verus! {

/// A tool that the server offers.
#[derive(Debug, PartialEq)]
pub struct ToolInfo {
    pub name: String,
    pub description: String,
    pub input_schema: Json,
}

/// The tool as its contract sees it: name, description and input schema.
pub type ToolView = (Seq<char>, Seq<char>, Json);

impl ToolInfo {
    pub open spec fn view(&self) -> ToolView {
        (self.name@, self.description@, self.input_schema)
    }

    /// The one-line summary `name: description`.
    pub fn summary(&self) -> (r: String)
        ensures
            r@ == self.name@ + ": "@ + self.description@,
    {
        let a = crate::text::join2(self.name.as_str(), ": ");
        crate::text::join2(a.as_str(), self.description.as_str())
    }
}

pub open spec fn tool_views(v: Seq<ToolInfo>) -> Seq<ToolView> {
    v.map_values(|t: ToolInfo| t.view())
}

/// An event handed to the consumer.
#[derive(Debug, PartialEq)]
pub enum McpClientEvent {
    Connected,
    Disconnected,
    Message(String),
    Error(String),
    ToolsListed(Vec<ToolInfo>),
    Debug(String),
}

/// An event as contracts see it.
pub enum EventView {
    Connected,
    Disconnected,
    Message(Seq<char>),
    Error(Seq<char>),
    ToolsListed(Seq<ToolView>),
    Debug(Seq<char>),
}

impl McpClientEvent {
    pub open spec fn view(&self) -> EventView {
        match self {
            McpClientEvent::Connected => EventView::Connected,
            McpClientEvent::Disconnected => EventView::Disconnected,
            McpClientEvent::Message(s) => EventView::Message(s@),
            McpClientEvent::Error(s) => EventView::Error(s@),
            McpClientEvent::ToolsListed(v) => EventView::ToolsListed(tool_views(v@)),
            McpClientEvent::Debug(s) => EventView::Debug(s@),
        }
    }
}

pub open spec fn event_views(v: Seq<McpClientEvent>) -> Seq<EventView> {
    v.map_values(|e: McpClientEvent| e.view())
}

/// Appends `e` to `out`.
pub fn emit(out: &mut Vec<McpClientEvent>, e: McpClientEvent)
    ensures
        event_views(final(out)@) == event_views(old(out)@).push(e.view()),
{
    out.push(e);
    assert(event_views(out@) =~= event_views(old(out)@).push(e.view()));
}

/// A message event holding the text `s`.
pub fn message(s: &str) -> (r: McpClientEvent)
    ensures
        r.view() == EventView::Message(s@),
{
    McpClientEvent::Message(String::from_str(s))
}

/// A diagnostic event holding the text `s`.
pub fn debug(s: &str) -> (r: McpClientEvent)
    ensures
        r.view() == EventView::Debug(s@),
{
    McpClientEvent::Debug(String::from_str(s))
}

/// An error event holding the text `s`.
pub fn error(s: &str) -> (r: McpClientEvent)
    ensures
        r.view() == EventView::Error(s@),
{
    McpClientEvent::Error(String::from_str(s))
}

} // verus!
