//! What can go wrong when a schema is fetched, and how an answer is
//! judged.

use vstd::prelude::*;

verus! {

/// Why a schema could not be fetched.
#[derive(Debug, Clone, PartialEq, Eq)]
pub enum FetchError {
    /// The request could not be made.
    FetchFailed { reason: String },
    /// The server answered with a status that is no success.
    StatusNotOk { status: u16 },
    /// The body of the answer could not be read.
    BodyReadFailed { reason: String },
}

/// Whether a status says that the request succeeded: it is one of the
/// two hundreds.
pub open spec fn is_success(status: u16) -> bool {
    200 <= status <= 299
}

/// Judges the status of an answer: the body is read only behind a
/// status that says success.
pub fn check_status(status: u16) -> (r: Result<(), FetchError>)
    ensures
        is_success(status) ==> r is Ok,
        !is_success(status) ==> r == Err::<(), FetchError>(FetchError::StatusNotOk { status }),
{
    if 200 <= status && status <= 299 {
        Ok(())
    } else {
        Err(FetchError::StatusNotOk { status })
    }
}

} // verus!
