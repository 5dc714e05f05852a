use vstd::prelude::*;

verus! {

/// Stable error categories surfaced to callers.
#[derive(Debug, Clone, Copy, PartialEq, Eq, Structural)]
pub enum ErrorKind {
    InvalidArgument,
    NotFound,
    NotWhitelisted,
    Conflict,
    TransportFailure,
    Internal,
}

} // verus!
