//! Reasons a server may give when it disconnects a node.

use vstd::prelude::*;

verus! {

/// Why a node was kicked from the server.
#[derive(Debug, Clone, Copy, PartialEq, Eq, Structural)]
pub enum KickReason {
    /// An error occurred on the server side while processing the request.
    InternalServerError,
    /// Server reached maximum number of clients.
    CapacityReached,
    /// Invalid request.
    BadRequest,
    /// Client has sent too many requests.
    TooManyRequests,
    /// Unknown reason.
    Unspecified,
}

} // verus!
