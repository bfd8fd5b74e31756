//! The error taxonomy of the listing endpoint.

use vstd::prelude::*;

verus! {

/// The stable, machine-readable kind of a request failure.
#[derive(Clone, Copy, PartialEq, Eq, Structural, Debug)]
pub enum ErrorKind {
    /// A query parameter is malformed or out of range; never retried.
    InvalidFilter,
    /// The continuation token is corrupt or was issued for a different
    /// filter set; the client must restart pagination from the first page.
    InvalidToken,
    /// The VM service was unreachable, errored or timed out; the client may
    /// retry with backoff.
    UpstreamUnavailable,
}

impl ErrorKind {
    /// The HTTP status class of each kind: invalid input is the client's
    /// fault, upstream unavailability is a service failure.
    pub open spec fn spec_status(self) -> u16 {
        match self {
            ErrorKind::InvalidFilter => 400,
            ErrorKind::InvalidToken => 400,
            ErrorKind::UpstreamUnavailable => 503,
        }
    }

    /// HTTP status code carried by a response of this kind.
    pub fn status(&self) -> (s: u16)
        ensures
            s == self.spec_status(),
    {
        match self {
            ErrorKind::InvalidFilter => 400,
            ErrorKind::InvalidToken => 400,
            ErrorKind::UpstreamUnavailable => 503,
        }
    }
}

/// An error reported to the client: a kind plus the name of the offending
/// query field (empty when no single field is at fault).  The response
/// body's human-readable message is built from these two parts alone, so no
/// internal detail can leak into it.
#[derive(Debug)]
pub struct ApiError {
    pub kind: ErrorKind,
    pub field: String,
}

impl ApiError {
    /// A malformed-filter error naming the offending query field.
    pub fn invalid_filter(field: &str) -> (e: ApiError)
        ensures
            e.kind == ErrorKind::InvalidFilter,
            e.field@ == field@,
    {
        ApiError { kind: ErrorKind::InvalidFilter, field: String::from_str(field) }
    }

    /// A continuation-token error; no single field is named.
    pub fn invalid_token() -> (e: ApiError)
        ensures
            e.kind == ErrorKind::InvalidToken,
            e.field@ == Seq::<char>::empty(),
    {
        ApiError { kind: ErrorKind::InvalidToken, field: String::new() }
    }

    /// An upstream-failure error; no single field is named.
    pub fn upstream_unavailable() -> (e: ApiError)
        ensures
            e.kind == ErrorKind::UpstreamUnavailable,
            e.field@ == Seq::<char>::empty(),
    {
        ApiError { kind: ErrorKind::UpstreamUnavailable, field: String::new() }
    }
}

} // verus!
