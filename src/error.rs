//! The kinds of failure that the stores report.
use vstd::prelude::*;

verus! {

/// A failed store operation.
#[derive(Debug, Clone, Copy, PartialEq, Eq, Structural)]
pub enum ServerError {
    /// Registration under a name that is already taken.
    UserExists,
    /// Login failed; whether the name or the password was wrong is not told.
    UserOrPasswdIncorrect,
    /// No session has the identifier given.
    InvalidSession,
    /// No todo item of the user's list has the identifier given.
    NotFound,
    /// The user has no todo list: registration did not precede the call.
    UserNotRegistered,
    /// A session whose user cannot be found.
    InternalError,
}

impl ServerError {
    /// A short message for the caller.
    pub fn message(&self) -> (r: &'static str) {
        match self {
            ServerError::UserExists => "user exists",
            ServerError::UserOrPasswdIncorrect => "user or password incorrect",
            ServerError::InvalidSession => "invalid session",
            ServerError::NotFound => "not found",
            ServerError::UserNotRegistered => "internal error",
            ServerError::InternalError => "internal error",
        }
    }
}

} // verus!
