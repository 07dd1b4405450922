//! The login endpoint's error taxonomy; the session and redirect handling
//! around it happens at the edge.

use vstd::prelude::*;

verus! {

/// Failure of a login attempt.
#[derive(Debug)]
pub enum LoginError {
    /// Unknown username or wrong password.
    AuthError(String),
    /// Anything else.
    UnexpectedError(String),
}

impl LoginError {
    /// The message flashed back to the login form, which never leaks why the
    /// attempt failed beyond its kind.
    pub fn message(&self) -> (r: &'static str)
        ensures
            r@ == (match *self {
                LoginError::AuthError(_) => "Authentication failed"@,
                LoginError::UnexpectedError(_) => "Something went wrong"@,
            }),
    {
        match self {
            LoginError::AuthError(_) => "Authentication failed",
            LoginError::UnexpectedError(_) => "Something went wrong",
        }
    }
}

} // verus!
