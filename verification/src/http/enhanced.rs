//! The resilient request path: what a response's status means, the headers
//! every such request carries, and which failures are worth retrying.

use crate::retry::RetryableError;
use crate::text::{append, owned, parse_u64, spec_parse_u64};
use crate::version;
use vstd::prelude::*;

verus! {

/// How a request on the resilient path failed.
#[derive(Debug, Clone)]
pub enum HttpError {
    /// The request timed out.
    Timeout(String),
    /// The request did not get through, or its answer did not parse.
    Network(String),
    /// The server answered with an error status.
    ServerError { status: u16, message: String },
    /// Too many requests; the server may say after how many seconds to try
    /// again.
    RateLimited { retry_after: Option<u64> },
    /// The credentials were refused.
    AuthenticationFailed { status: u16 },
    /// Nothing at that path.
    NotFound { message: String },
}

/// The text of a body, or `fallback` when it could not be read.
pub open spec fn body_or(body: Option<String>, fallback: Seq<char>) -> Seq<char> {
    match body {
        Some(b) => b@,
        None => fallback,
    }
}

/// The wait a `retry-after` header asks for, in seconds, when it parses
/// as a whole number.
pub open spec fn retry_after_secs(header: Option<Seq<char>>) -> Option<u64> {
    match header {
        Some(h) => spec_parse_u64(h),
        None => None,
    }
}

/// What a response with status `status` stands for: 401 a refused
/// credential, 404 nothing there (with the body, or `Not found` when it
/// could not be read), 429 a rate limit with the wait the `retry-after`
/// header asks for, any other status outside 200..=299 a server error
/// (with the body, or `Unknown error`), and success otherwise.
pub fn classify_response(status: u16, body: Option<String>, retry_after: Option<&str>) -> (r: Result<(), HttpError>)
    ensures
        status == 401 ==> r == Err::<(), HttpError>(HttpError::AuthenticationFailed { status }),
        status == 404 ==> (r matches Err(HttpError::NotFound { message }) && message@ == body_or(
            body,
            "Not found"@,
        )),
        status == 429 ==> r == Err::<(), HttpError>(
            HttpError::RateLimited {
                retry_after: retry_after_secs(
                    match retry_after {
                        Some(h) => Some(h@),
                        None => None,
                    },
                ),
            },
        ),
        status != 401 && status != 404 && status != 429 && !(200 <= status <= 299) ==> (r matches Err(
            HttpError::ServerError { status: s, message },
        ) && s == status && message@ == body_or(body, "Unknown error"@)),
        200 <= status <= 299 ==> r is Ok,
{
    if status == 401 {
        return Err(HttpError::AuthenticationFailed { status });
    }
    if status == 404 {
        let message = match body {
            Some(b) => b,
            None => owned("Not found"),
        };
        return Err(HttpError::NotFound { message });
    }
    if status == 429 {
        let wait = match retry_after {
            Some(h) => parse_u64(h),
            None => None,
        };
        return Err(HttpError::RateLimited { retry_after: wait });
    }
    if status < 200 || status > 299 {
        let message = match body {
            Some(b) => b,
            None => owned("Unknown error"),
        };
        return Err(HttpError::ServerError { status, message });
    }
    Ok(())
}

/// The headers of a request on the resilient path: the user agent, the
/// request id, the protocol version, the library, and for a body the JSON
/// content type.
pub fn request_headers(request_id: &str, json_body: bool) -> (h: Vec<(String, String)>)
    ensures
        h@.len() == (if json_body { 5int } else { 4int }),
        h@[0].0@ == "User-Agent"@ && h@[0].1@ == "ably-rust-sdk/0.1.0"@,
        json_body ==> h@[1].0@ == "Content-Type"@ && h@[1].1@ == "application/json"@,
        ({
            let k: int = if json_body { 2 } else { 1 };
            &&& h@[k].0@ == "X-Request-ID"@ && h@[k].1@ == request_id@
            &&& h@[k + 1].0@ == "X-Ably-Version"@ && h@[k + 1].1@ == "3"@
            &&& h@[k + 2].0@ == "X-Ably-Lib"@ && h@[k + 2].1@ == "rust-"@ + "0.1.0"@
        }),
{
    let mut h: Vec<(String, String)> = Vec::new();
    h.push((owned("User-Agent"), owned("ably-rust-sdk/0.1.0")));
    if json_body {
        h.push((owned("Content-Type"), owned("application/json")));
    }
    h.push((owned("X-Request-ID"), owned(request_id)));
    h.push((owned("X-Ably-Version"), owned("3")));
    let mut lib = owned("rust-");
    append(&mut lib, version());
    h.push((owned("X-Ably-Lib"), lib));
    h
}

/// Whether a failure is worth retrying.
pub open spec fn spec_http_retryable(e: HttpError) -> bool {
    match e {
        HttpError::Timeout(_) => true,
        HttpError::Network(_) => true,
        HttpError::ServerError { status, .. } => status == 502 || status == 503 || status == 504,
        HttpError::RateLimited { .. } => false,
        HttpError::AuthenticationFailed { .. } => false,
        HttpError::NotFound { .. } => false,
    }
}

impl RetryableError for HttpError {
    /// Timeouts and network failures are worth retrying, and the server
    /// errors that may pass (502, 503, 504); rate limits, refused
    /// credentials and missing paths are not.
    fn is_retryable(&self) -> (b: bool)
        ensures
            b == spec_http_retryable(*self),
    {
        match self {
            HttpError::Timeout(_) => true,
            HttpError::Network(_) => true,
            HttpError::ServerError { status, .. } => *status == 502 || *status == 503 || *status == 504,
            HttpError::RateLimited { .. } => false,
            HttpError::AuthenticationFailed { .. } => false,
            HttpError::NotFound { .. } => false,
        }
    }
}

} // verus!
