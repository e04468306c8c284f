use vstd::prelude::*;
use crate::models::QueryError;

verus! {

/// What a client request can fail with, from configuration mistakes through
/// transport failures to the service's own query errors.
#[derive(Debug)]
pub enum Error {
    InvalidCatalog,
    InvalidSchema,
    InvalidSource,
    InvalidUser,
    InvalidProperties,
    DuplicateHeader(String),
    EmptyAuth,
    BasicAuthWithHttp,
    /// A transport-level failure, with the HTTP status when one was seen.
    HttpError(Option<u16>, String),
    /// A response with a non-success HTTP status.
    HttpNotOk(u16, String),
    QueryError(QueryError),
    InconsistentData,
    EmptyData,
    ReachMaxAttempt(usize),
    InvalidHost(String),
}

/// Whether an error is the transient service-unavailable kind that a
/// bounded retry may recover from; every other error is terminal.
pub open spec fn spec_need_retry(e: Error) -> bool {
    match e {
        Error::HttpError(status, _) => status == Some(503u16),
        Error::HttpNotOk(code, _) => code == 503,
        _ => false,
    }
}

/// Decides whether a failed attempt should be retried.
pub fn need_retry(e: &Error) -> (r: bool)
    ensures
        r == spec_need_retry(*e),
{
    match e {
        Error::HttpError(status, _) => match status {
            Some(code) => *code == 503,
            None => false,
        },
        Error::HttpNotOk(code, _) => *code == 503,
        _ => false,
    }
}

} // verus!
