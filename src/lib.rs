//! A client for tool servers that speak JSON-RPC over Server-Sent Events.
//!
//! The protocol engine:
//! - `url`: resolving the announced session endpoint against the base URL;
//! - `sse`: incremental parsing of the event stream into frames;
//! - `json`: the JSON documents the engine reads, and the calls into `serde_json`;
//! - `rpc`: request ids, the table of requests awaiting a reply, request documents;
//! - `format`: bounding and wrapping payload text for display;
//! - `classify`: turning decoded messages into events for the consumer;
//! - `session`: the connection state machine and the request dispatcher;
//! - `events`: the events and tool descriptions handed to the consumer.
//!
//! Around it, the interactive front end's logic: `command` (the colon-command
//! language), `args` (command words to tool arguments), `completion`, `state`,
//! `mode`, `tool_formatter`, `ui_state` and `app` (the key-handling state machine).
use vstd::prelude::*;

pub mod text;
pub mod url;
pub mod sse;
pub mod format;
pub mod json;
pub mod events;
pub mod rpc;
pub mod classify;
pub mod session;
pub mod command;
pub mod args;
pub mod mode;
pub mod state;
pub mod completion;
pub mod tool_formatter;
pub mod ui_state;
pub mod app;

verus! {

/// Largest number of lines of one payload shown before the rest is cut.
pub const MAX_DISPLAY_LINES: usize = 200;

} // verus!
