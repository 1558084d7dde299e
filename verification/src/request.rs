//! Errors of the client core's request path.
use vstd::prelude::*;

verus! {

/// Common request errors.
#[derive(Debug, Clone, Copy, PartialEq, Eq, Structural)]
pub enum RequestError {
    /// Failed to allocate a new object ID. No ID available.
    NoIdAvailable,
    /// Failed to communicate with event mediator.
    MediatorDown,
    /// Request channel dropped.
    RequestQueueDown,
}

} // verus!
