//! Errors of the broker and the HTTP status each one is answered with.
use vstd::prelude::*;

verus! {

/// A refusal at the request boundary.
#[derive(Clone, Copy, Debug, PartialEq, Eq, Structural)]
pub enum HttpError {
    /// the Authorization header is not of the form `Bearer <key>`
    MalformedHeader,
    /// no API user holds the presented key
    Unauthorized,
    /// the API user may not take this kind of work
    Forbidden,
}

#[derive(Clone, Copy, Debug, PartialEq, Eq, Structural)]
pub enum Error {
    /// the store did not create a record
    CreateError,
    /// a move is not legal in the position it is played from
    PositionError,
    /// a ply has no score that can be sent downstream
    IncompleteIrwinAnalysis,
    /// a number does not fit the narrower type it is converted to
    TryFromIntError,
    HttpError(HttpError),
    /// the job is unknown or held by another worker
    NotFound,
    /// the store failed
    Unknown,
}

/// The HTTP status and message a request that failed with `e` is answered with.
pub open spec fn status_of(e: Error) -> (u16, Seq<char>) {
    match e {
        Error::NotFound => (404, "NOT_FOUND"@),
        Error::HttpError(HttpError::Forbidden) => (403, "FORBIDDEN"@),
        Error::HttpError(_) => (401, "UNAUTHORIZED"@),
        _ => (500, "UNHANDLED_REJECTION"@),
    }
}

/// A JSON error body.
#[derive(Clone, Debug)]
pub struct ErrorMessage {
    pub code: u16,
    pub message: String,
}

/// The answer to a request that failed with `e`.
pub fn recover(e: Error) -> (r: ErrorMessage)
    ensures
        (r.code, r.message@) == status_of(e),
{
    let (code, message) = match e {
        Error::NotFound => (404u16, "NOT_FOUND"),
        Error::HttpError(HttpError::Forbidden) => (403u16, "FORBIDDEN"),
        Error::HttpError(_) => (401u16, "UNAUTHORIZED"),
        _ => (500u16, "UNHANDLED_REJECTION"),
    };
    ErrorMessage { code, message: message.to_string() }
}

/// The status of a reply that carries `value` when there is one: 200 with a
/// body, else 204 without.
pub fn json_object_or_no_content<T>(value: &Option<T>) -> (r: u16)
    ensures
        value is Some ==> r == 200,
        value is None ==> r == 204,
{
    match value {
        Some(_) => 200,
        None => 204,
    }
}

} // verus!
