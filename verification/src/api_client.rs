//! Clients of the photo servers: request contents and the interpretation of responses. The
//! HTTP exchange itself is done by the caller.

pub mod immich_client;
pub mod syno_client;

use vstd::prelude::*;

verus! {

/// Logging in to the photo server failed; the message says why.
#[derive(Debug, Clone, PartialEq, Eq)]
pub struct LoginError(pub String);

/// An HTTP response whose status is not a success.
#[derive(Debug, Clone, Copy, PartialEq, Eq, Structural)]
pub struct InvalidHttpResponse(pub u16);

/// HTTP success: a status in 200..=299 (as `http::StatusCode::is_success` decides).
pub open spec fn is_success_spec(status: u16) -> bool {
    200 <= status < 300
}

/// Whether an HTTP status is a success.
pub fn is_success_status(status: u16) -> (r: bool)
    ensures
        r == is_success_spec(status),
{
    200 <= status && status < 300
}

/// What a response is read as: the body's reading when the status is a success, otherwise the
/// status as an error.
pub fn read_response<T>(status: u16, body: T) -> (r: Result<T, InvalidHttpResponse>)
    ensures
        is_success_spec(status) ==> r == Ok::<T, InvalidHttpResponse>(body),
        !is_success_spec(status) ==> r == Err::<T, InvalidHttpResponse>(InvalidHttpResponse(status)),
{
    if is_success_status(status) {
        Ok(body)
    } else {
        Err(InvalidHttpResponse(status))
    }
}

} // verus!
