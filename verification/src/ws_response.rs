//! What the server tells a worker of protocol version 1 or 2.

use vstd::prelude::*;

verus! {

/// Asks a worker for a resource.
#[derive(Debug)]
pub struct WSCallResourceRequest {
    pub message_type: String,
    pub uid: String,
    pub resource: String,
}

/// Asks a worker whether it is ready to serve a request.
#[derive(Debug)]
pub struct WSReadyRequest {
    pub message_type: String,
    pub uid: String,
}

} // verus!
