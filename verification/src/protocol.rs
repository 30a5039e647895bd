//! The messages that travel between the server, its workers and Prometheus.

use crate::scrape::{ReadyBroadcast, RequestSend};
use vstd::prelude::*;

verus! {

/// The status of a posted response that gives none.
pub fn default_error_status() -> (status: u16)
    ensures
        status == 500,
{
    500
}

/// The wire version of a worker that gives none.
pub fn default_version() -> (version: u16)
    ensures
        version == 1,
{
    1
}

/// The name of a worker that gives none.
pub fn default_worker() -> (name: String)
    ensures
        name@ == "unknown"@,
{
    "unknown".to_owned()
}

/// A response that was posted as a form.
pub struct FormResponse {
    pub status: u16,
    pub body: String,
}

/// What the server tells a worker.
pub enum ServerMessage {
    /// Asks whether the worker is ready to serve the request.
    Ready { uid: String },
    /// Asks for a resource.
    Request { uid: String, resource: String },
}

/// What a worker tells the server.
pub enum ClientMessage {
    Register { instance: String, worker: String, version: u16 },
    Ping,
    Pong,
    /// The worker is ready to serve the request.
    Ready { uid: String, worker: String },
    /// What the exporter returned.
    Response { uid: String, status: u16, body: String },
}

/// The text by which the server asks whether a worker is alive.
pub const PING_TEXT: &'static str = "{\"type\":\"ping\"}";

/// The text by which the server answers that question of a worker.
pub const PONG_TEXT: &'static str = "{\"type\":\"pong\"}";

impl ReadyBroadcast {
    /// What each candidate is asked.
    pub fn message(&self) -> (message: ServerMessage)
        ensures
            message matches ServerMessage::Ready { uid } && uid@ == self.uid@,
    {
        ServerMessage::Ready { uid: self.uid.clone() }
    }
}

impl RequestSend {
    /// What the worker is asked for.
    pub fn message(&self) -> (message: ServerMessage)
        ensures
            message matches ServerMessage::Request { uid, resource } && uid@ == self.uid@
                && resource@ == self.scrape.resource@,
    {
        ServerMessage::Request { uid: self.uid.clone(), resource: self.scrape.resource.clone() }
    }
}

} // verus!
