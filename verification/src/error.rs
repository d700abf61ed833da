//! The closed error enumeration and the mapping from native status codes.
//!
//! Every native entry point reports an integer status: zero for success,
//! a nonzero code for a specific failure kind. [`status_to_result`] is the
//! single place where a raw status becomes a typed error. Local encoding
//! failures, which never reach the native layer, have their own variant
//! ([`Error::TooLong`]).

use vstd::prelude::*;

verus! {

/// A failure surfaced by the session: either a native status code decoded
/// into its named kind, or a local encoding failure.
#[derive(Debug, Clone, Copy, PartialEq, Eq, Structural)]
pub enum Error {
    /// Native status: the service is unavailable.
    ServiceUnavailable,
    /// Native status: the call-table version does not match.
    InvalidVersion,
    /// Native status: the native lock could not be taken.
    LockFailed,
    /// Native status: an internal failure.
    InternalError,
    /// Native status: a malformed payload.
    InvalidPayload,
    /// Native status: a malformed command.
    InvalidCommand,
    /// Native status: missing permissions.
    InvalidPermissions,
    /// Native status: the requested value has not been fetched yet.
    NotFetched,
    /// Native status: the requested value does not exist.
    NotFound,
    /// Native status: a conflicting mutation.
    Conflict,
    /// Native status: a malformed secret.
    InvalidSecret,
    /// Native status: the user is not authenticated.
    NotAuthenticated,
    /// Native status: the lobby is full.
    LobbyFull,
    /// Native status: the native session is not running.
    NotRunning,
    /// Native status: a buffer was too small on the native side.
    InsufficientBuffer,
    /// Native status: the call was rate limited.
    RateLimited,
    /// Native status: the transaction was aborted.
    TransactionAborted,
    /// A nonzero native status code outside the named set.
    Undefined(u32),
    /// Local encoding failure: a string does not fit the fixed-size native
    /// representation. Such a value is rejected before any native call.
    TooLong,
}

/// The error a nonzero native status code decodes to.
pub open spec fn error_of_status(status: u32) -> Error {
    if status == 1 {
        Error::ServiceUnavailable
    } else if status == 2 {
        Error::InvalidVersion
    } else if status == 3 {
        Error::LockFailed
    } else if status == 4 {
        Error::InternalError
    } else if status == 5 {
        Error::InvalidPayload
    } else if status == 6 {
        Error::InvalidCommand
    } else if status == 7 {
        Error::InvalidPermissions
    } else if status == 8 {
        Error::NotFetched
    } else if status == 9 {
        Error::NotFound
    } else if status == 10 {
        Error::Conflict
    } else if status == 11 {
        Error::InvalidSecret
    } else if status == 15 {
        Error::NotAuthenticated
    } else if status == 21 {
        Error::LobbyFull
    } else if status == 27 {
        Error::NotRunning
    } else if status == 28 {
        Error::InsufficientBuffer
    } else if status == 34 {
        Error::RateLimited
    } else if status == 43 {
        Error::TransactionAborted
    } else {
        Error::Undefined(status)
    }
}

/// What a native status code means: zero is success, anything else decodes
/// to exactly one [`Error`].
pub open spec fn spec_status_to_result(status: u32) -> Result<(), Error> {
    if status == 0 {
        Ok(())
    } else {
        Err(error_of_status(status))
    }
}

/// Decodes a raw native status code.
pub fn status_to_result(status: u32) -> (r: Result<(), Error>)
    ensures
        r == spec_status_to_result(status),
{
    if status == 0 {
        Ok(())
    } else if status == 1 {
        Err(Error::ServiceUnavailable)
    } else if status == 2 {
        Err(Error::InvalidVersion)
    } else if status == 3 {
        Err(Error::LockFailed)
    } else if status == 4 {
        Err(Error::InternalError)
    } else if status == 5 {
        Err(Error::InvalidPayload)
    } else if status == 6 {
        Err(Error::InvalidCommand)
    } else if status == 7 {
        Err(Error::InvalidPermissions)
    } else if status == 8 {
        Err(Error::NotFetched)
    } else if status == 9 {
        Err(Error::NotFound)
    } else if status == 10 {
        Err(Error::Conflict)
    } else if status == 11 {
        Err(Error::InvalidSecret)
    } else if status == 15 {
        Err(Error::NotAuthenticated)
    } else if status == 21 {
        Err(Error::LobbyFull)
    } else if status == 27 {
        Err(Error::NotRunning)
    } else if status == 28 {
        Err(Error::InsufficientBuffer)
    } else if status == 34 {
        Err(Error::RateLimited)
    } else if status == 43 {
        Err(Error::TransactionAborted)
    } else {
        Err(Error::Undefined(status))
    }
}

} // verus!
