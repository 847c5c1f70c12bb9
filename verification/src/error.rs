//! The errors that the client reports.
use vstd::prelude::*;

verus! {

/// The error of the HTTP client, carried through unopened.
#[verifier::external_type_specification]
#[verifier::external_body]
pub struct ExHttpError(reqwest::Error);

/// The error of the JSON decoder, carried through unopened.
#[verifier::external_type_specification]
#[verifier::external_body]
pub struct ExJsonError(serde_json::Error);

#[derive(Debug)]
pub enum PocketApiError {
    /// The base URL cannot take path segments (or is no URL at all).
    InvalidBaseUrl,
    /// Sending the request or receiving the reply body failed.
    RequestError(String, reqwest::Error),
    /// The reply body is not the JSON that was expected.
    JsonParseError(String, serde_json::Error),
    /// The API refused the request: HTTP status, `X-Error-Code`, `X-Error`.
    PocketApiError(u16, String, String),
    /// The API refused the request without saying why.
    PocketUnknownApiError(u16),
    /// The reply reports a status other than 1.
    PocketInvalidApiStatus(i64),
}

/// The context given to a failed request.
pub open spec fn request_failed_context(err_context: Seq<char>) -> Seq<char> {
    "Request failed with context: "@ + err_context
}

/// The context given to a reply whose body could not be received.
pub open spec fn body_receive_failed_context(err_context: Seq<char>) -> Seq<char> {
    "Body receive failed with context: "@ + err_context
}

/// The context given to a reply whose body is not the expected JSON.
pub open spec fn body_parse_failed_context(err_context: Seq<char>) -> Seq<char> {
    "Body json parse failed with context: "@ + err_context
}

/// The error for a request that could not be sent.
pub fn request_failed(err_context: &str, err: reqwest::Error) -> (e: PocketApiError)
    ensures
        e matches PocketApiError::RequestError(c, x) && c@ == request_failed_context(err_context@)
            && x == err,
{
    let c = "Request failed with context: ".to_owned().concat(err_context);
    PocketApiError::RequestError(c, err)
}

/// The error for a reply whose body could not be received.
pub fn body_receive_failed(err_context: &str, err: reqwest::Error) -> (e: PocketApiError)
    ensures
        e matches PocketApiError::RequestError(c, x) && c@ == body_receive_failed_context(
            err_context@,
        ) && x == err,
{
    let c = "Body receive failed with context: ".to_owned().concat(err_context);
    PocketApiError::RequestError(c, err)
}

/// The error for a reply whose body is not the expected JSON.
pub fn body_parse_failed(err_context: &str, err: serde_json::Error) -> (e: PocketApiError)
    ensures
        e matches PocketApiError::JsonParseError(c, x) && c@ == body_parse_failed_context(
            err_context@,
        ) && x == err,
{
    let c = "Body json parse failed with context: ".to_owned().concat(err_context);
    PocketApiError::JsonParseError(c, err)
}

} // verus!
