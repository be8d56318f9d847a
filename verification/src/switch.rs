//! The decisions of a switch that polls a device for its status.

use vstd::prelude::*;
use crate::error::EngineError;
use crate::ws::{is_json, json_error_text, json_value, parse_value};

verus! {

/// What the poller got next from the device after sending its query.
pub enum PollReply {
    /// A text frame.
    Text(String),
    /// Any other frame.
    Other,
    /// The connection failed, with the description of the failure.
    Failed(String),
    /// The connection has no more frames.
    Closed,
}

/// What the poller does next.
pub enum PollAction {
    /// Shows the JSON value that the device sent, then queries again.
    Show(serde_json::Value),
    /// Queries again.
    Query,
    /// Stops, with the outcome of polling.
    Stop(Result<(), EngineError>),
}

/// The step of the poller: a text reply that is JSON is shown, one that is not
/// ends polling with the engine's JSON error, carrying `serde_json`'s
/// description; a failed connection ends it with the engine's websocket error,
/// a closed one ends it without error; any other
/// frame is passed over.
pub fn poll_step(reply: PollReply) -> (res: PollAction)
    ensures
        match reply {
            PollReply::Text(text) => if is_json(text@) {
                res matches PollAction::Show(value) && value == json_value(text@)
            } else {
                res matches PollAction::Stop(Err(EngineError::SerdeError(why))) && why@ == json_error_text(text@)
            },
            PollReply::Other => res is Query,
            PollReply::Failed(why) => res == PollAction::Stop(Err(EngineError::WebSocketError(why))),
            PollReply::Closed => res == PollAction::Stop(Ok(())),
        },
{
    match reply {
        PollReply::Text(text) => match parse_value(text.as_str()) {
            Ok(value) => PollAction::Show(value),
            Err(e) => PollAction::Stop(Err(e)),
        },
        PollReply::Other => PollAction::Query,
        PollReply::Failed(why) => PollAction::Stop(Err(EngineError::WebSocketError(why))),
        PollReply::Closed => PollAction::Stop(Ok(())),
    }
}

/// What the switch serving its query got next from a device connected to it.
pub enum ServeIncoming {
    /// A text frame.
    Text(String),
    /// Any other frame.
    Other,
    /// Reading from the connection failed.
    Failed,
    /// The connection has no more frames.
    Closed,
}

/// What the serving switch does next.
#[derive(Debug, PartialEq, Eq)]
pub enum ServeAction {
    /// Shows the text that the device sent, then answers with the query.
    ShowAndReply(String),
    /// Answers with the query.
    Reply,
    /// Stops serving the device, without error.
    Stop,
}

/// The step of a switch serving its query to a connected device: every frame
/// is answered with the query, a text frame being shown first; serving stops,
/// without error, when the connection fails or has no more frames.
pub fn serve_step(next: ServeIncoming) -> (res: ServeAction)
    ensures
        match next {
            ServeIncoming::Text(text) => res == ServeAction::ShowAndReply(text),
            ServeIncoming::Other => res is Reply,
            ServeIncoming::Failed => res is Stop,
            ServeIncoming::Closed => res is Stop,
        },
{
    match next {
        ServeIncoming::Text(text) => ServeAction::ShowAndReply(text),
        ServeIncoming::Other => ServeAction::Reply,
        ServeIncoming::Failed => ServeAction::Stop,
        ServeIncoming::Closed => ServeAction::Stop,
    }
}

} // verus!
