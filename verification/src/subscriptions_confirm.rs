//! The confirmation endpoint's types: the query parameter it expects and its
//! error. The token lookup and the status update happen at the edge.

use vstd::prelude::*;

verus! {

/// Failure of the confirmation endpoint; always an internal error.
#[derive(Debug)]
pub enum ConfirmError {
    ConfirmSubscriberFailedError(String),
}

impl ConfirmError {
    /// The HTTP status the error is reported with.
    pub fn status_code(&self) -> (r: u16)
        ensures
            r == 500,
    {
        500
    }
}

/// The query parameters of a confirmation request.
pub struct Parameters {
    pub subscription_token: String,
}

} // verus!
