//! Errors of the presence engine and how they are reported to clients.

use vstd::prelude::*;

verus! {

/// Which list of a presence list update named an unknown user.
#[derive(Clone, Copy, Debug, PartialEq, Eq, Structural)]
pub enum ListSide {
    Invite,
    Drop,
}

/// An error of the presence engine.
#[derive(Clone, Debug, PartialEq, Eq)]
pub enum ApiError {
    /// The authenticated user may not act on the given user.
    Unauthorized,
    /// No presence status was ever recorded for the user.
    NotFound,
    /// The request body is malformed or holds an unknown value.
    BadJson,
    /// A presence list update named users that do not exist.
    UnknownUsers(ListSide, Vec<String>),
    /// A stored value cannot be decoded.
    DataCorruption,
    /// The clock reads a time before a stored timestamp.
    ClockError,
    /// The storage layer failed.
    Internal,
}

/// The HTTP status that reports an error.
pub open spec fn status_code_of(e: ApiError) -> u16 {
    match e {
        ApiError::Unauthorized => 403,
        ApiError::NotFound => 404,
        ApiError::BadJson => 400,
        ApiError::UnknownUsers(_, _) => 422,
        _ => 500,
    }
}

impl ApiError {
    /// The HTTP status that reports this error.
    pub fn status_code(&self) -> (r: u16)
        ensures
            r == status_code_of(*self),
    {
        match self {
            ApiError::Unauthorized => 403,
            ApiError::NotFound => 404,
            ApiError::BadJson => 400,
            ApiError::UnknownUsers(_, _) => 422,
            _ => 500,
        }
    }

    /// The machine-readable error code sent to the client.
    pub fn errcode(&self) -> (r: &'static str)
        ensures
            r@ == match *self {
                ApiError::Unauthorized => "M_FORBIDDEN"@,
                ApiError::NotFound => "M_NOT_FOUND"@,
                ApiError::BadJson => "M_BAD_JSON"@,
                ApiError::UnknownUsers(_, _) => "M_INVALID_PARAM"@,
                _ => "M_UNKNOWN"@,
            },
    {
        match self {
            ApiError::Unauthorized => "M_FORBIDDEN",
            ApiError::NotFound => "M_NOT_FOUND",
            ApiError::BadJson => "M_BAD_JSON",
            ApiError::UnknownUsers(_, _) => "M_INVALID_PARAM",
            _ => "M_UNKNOWN",
        }
    }
}

} // verus!
