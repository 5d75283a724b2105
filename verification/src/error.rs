//! The error taxonomy of the core: every operation returns one of these typed
//! failures instead of aborting the process.

use vstd::prelude::*;

verus! {

/// Failure of a session read: the session, or the requested field of its
/// data, does not exist for the caller's app.
#[derive(Debug, Clone, Copy, PartialEq, Eq, Structural)]
pub enum SessionError {
    AttributeNotPresent,
}

/// Failure of a credential check against an app's stored credential.
#[derive(Debug, Clone, Copy, PartialEq, Eq, Structural)]
pub enum TokenError {
    BadAppToken,
}

/// What any core operation can fail with.
#[derive(Debug, Clone, Copy, PartialEq, Eq, Structural)]
pub enum Error {
    /// An admin-gated operation was attempted with a credential that does not
    /// match any stored admin credential.
    BadAdminCredential,
    /// An app-scoped operation was attempted with a credential that does not
    /// match the target app's stored credential.
    BadAppCredential,
    /// The requested session or field does not exist for the given app.
    AttributeNotPresent,
    /// The underlying store rejected the operation: a fresh identifier or
    /// credential collided with a stored one, or no row matched a replace.
    StorageFailure,
}

impl SessionError {
    /// A rendering of the error for the boundary layer.
    pub fn message(&self) -> (r: &'static str)
        ensures
            r@ == "Session attribute not present"@,
    {
        "Session attribute not present"
    }
}

impl TokenError {
    /// A rendering of the error for the boundary layer.
    pub fn message(&self) -> (r: &'static str)
        ensures
            r@ == "Bad app token"@,
    {
        "Bad app token"
    }
}

impl From<SessionError> for Error {
    /// Each session failure names the matching kind of the shared taxonomy.
    fn from(e: SessionError) -> (r: Error) {
        match e {
            SessionError::AttributeNotPresent => Error::AttributeNotPresent,
        }
    }
}

impl vstd::std_specs::convert::FromSpecImpl<SessionError> for Error {
    open spec fn obeys_from_spec() -> bool {
        true
    }

    open spec fn from_spec(e: SessionError) -> Error {
        Error::AttributeNotPresent
    }
}

impl From<TokenError> for Error {
    /// Each credential failure names the matching kind of the shared taxonomy.
    fn from(e: TokenError) -> (r: Error) {
        match e {
            TokenError::BadAppToken => Error::BadAppCredential,
        }
    }
}

impl vstd::std_specs::convert::FromSpecImpl<TokenError> for Error {
    open spec fn obeys_from_spec() -> bool {
        true
    }

    open spec fn from_spec(e: TokenError) -> Error {
        Error::BadAppCredential
    }
}

} // verus!
