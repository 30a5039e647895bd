//! What a worker of protocol version 1 or 2 tells the server.

use vstd::prelude::*;

verus! {

/// The name of a worker that gives none.
pub fn default_worker_name() -> (name: String)
    ensures
        name@ == "unknown"@,
{
    "unknown".to_owned()
}

/// The protocol version of a worker that gives none.
pub fn default_version() -> (version: u16)
    ensures
        version == 1,
{
    1
}

/// A worker wants to be registered.
#[derive(Debug)]
pub struct WSRegisterRequest {
    pub message_type: String,
    pub instance: String,
    pub worker: String,
    pub version: u16,
}

/// What the exporter returned.
#[derive(Debug)]
pub struct WSProxyCallResponse {
    pub message_type: String,
    pub uid: String,
    pub body: String,
    pub status: u16,
}

/// A worker is ready to serve a request.
#[derive(Debug)]
pub struct WSProxyReadyResponse {
    pub message_type: String,
    pub uid: String,
    pub worker: String,
}

} // verus!
