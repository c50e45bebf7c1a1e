//! The broker's error taxonomy. Each kind maps to a distinct transport
//! status class, so a kind must never be collapsed into a generic failure.

use vstd::prelude::*;

verus! {

/// Why a broker operation failed.
///
/// - `Connection`: the backend or its connection pool is unreachable.
/// - `NoSuchQueue`: an operation named a queue that does not exist; expected
///   and client-correctable.
/// - `BadRequest`: input validation failed; nothing was applied.
/// - `NotFound`: a resource other than a queue is absent (distinct from
///   `NoSuchQueue` so deletion paths can be told apart).
/// - `Staging`: a staged job record could not be persisted or read.
/// - `Internal`: an unexpected backend failure.
#[derive(Clone, Copy, Debug, PartialEq, Eq, Structural)]
pub enum ErrorKind {
    Connection,
    NoSuchQueue,
    BadRequest,
    NotFound,
    Staging,
    Internal,
}

impl ErrorKind {
    /// The transport status this kind must surface as: expected absences are
    /// client errors (4xx), everything else is a server error (5xx).
    pub fn status_code(&self) -> (r: u16)
        ensures
            r == match *self {
                ErrorKind::Connection => 503u16,
                ErrorKind::NoSuchQueue => 404u16,
                ErrorKind::BadRequest => 400u16,
                ErrorKind::NotFound => 404u16,
                ErrorKind::Staging => 500u16,
                ErrorKind::Internal => 500u16,
            },
    {
        match *self {
            ErrorKind::Connection => 503,
            ErrorKind::NoSuchQueue => 404,
            ErrorKind::BadRequest => 400,
            ErrorKind::NotFound => 404,
            ErrorKind::Staging => 500,
            ErrorKind::Internal => 500,
        }
    }
}

} // verus!
