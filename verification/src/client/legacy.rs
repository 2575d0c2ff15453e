//! The builder of the minimal REST client.

use crate::error::{AblyError, AblyResult, ErrorCode, IntoText};
use crate::protocol::messages::opt_text;
use crate::text::{append, owned, parse_u64, spec_parse_u64};
use crate::time::duration_as_millis;
use std::time::Duration;
use vstd::prelude::*;

verus! {

/// Builder of the minimal REST client: an API key and a request timeout in
/// milliseconds, both optional.
pub struct RestClientBuilder {
    api_key: Option<String>,
    timeout_ms: Option<u64>,
}

impl Default for RestClientBuilder {
    fn default() -> (b: RestClientBuilder)
        ensures
            b.spec_api_key() is None,
            b.spec_timeout_ms() is None,
    {
        RestClientBuilder { api_key: None, timeout_ms: None }
    }
}

impl RestClientBuilder {
    /// The API key set, if any.
    pub closed spec fn spec_api_key(&self) -> Option<Seq<char>> {
        opt_text(self.api_key)
    }

    /// The timeout set, in milliseconds, if any.
    pub closed spec fn spec_timeout_ms(&self) -> Option<u64> {
        self.timeout_ms
    }

    /// Sets the API key.
    pub fn api_key<K: IntoText>(self, key: K) -> (b: RestClientBuilder)
        ensures
            b.spec_api_key() == Some(key.text_view()),
            b.spec_timeout_ms() == self.spec_timeout_ms(),
    {
        RestClientBuilder { api_key: Some(key.into_text()), ..self }
    }

    /// Sets the request timeout, in milliseconds.
    pub fn timeout_ms(self, timeout: u64) -> (b: RestClientBuilder)
        ensures
            b.spec_api_key() == self.spec_api_key(),
            b.spec_timeout_ms() == Some(timeout),
    {
        RestClientBuilder { timeout_ms: Some(timeout), ..self }
    }

    /// What the client is built from: the API key, empty when none was set,
    /// and the timeout in milliseconds, if one was set.
    pub fn into_settings(self) -> (r: (String, Option<u64>))
        ensures
            r.0@ == match self.spec_api_key() {
                Some(k) => k,
                None => Seq::<char>::empty(),
            },
            r.1 == self.spec_timeout_ms(),
    {
        let key = match self.api_key {
            Some(k) => k,
            None => String::new(),
        };
        (key, self.timeout_ms)
    }
}

/// Consecutive failures after which the client stops calling the server.
pub const FAILURE_LIMIT: u32 = 5;

/// Whether a request may go out after `failures` consecutive failures:
/// from `FAILURE_LIMIT` on, it fails at once as the circuit breaker being
/// open.
pub fn check_failure_gate(failures: u32) -> (r: AblyResult<()>)
    ensures
        r is Ok <==> failures < FAILURE_LIMIT,
        r matches Err(e) ==> e matches AblyError::CircuitBreakerOpen { message } && message@
            == "Too many consecutive failures"@,
{
    if failures >= FAILURE_LIMIT {
        Err(AblyError::CircuitBreakerOpen { message: owned("Too many consecutive failures") })
    } else {
        Ok(())
    }
}

/// The wait a `retry-after` header asks for: its value in seconds, when it
/// parses as a whole number.
pub open spec fn retry_after_is(wait: Option<Duration>, header: Option<Seq<char>>) -> bool {
    match header {
        Some(h) => match spec_parse_u64(h) {
            Some(secs) => wait matches Some(d) && duration_as_millis(d) == secs * 1000,
            None => wait is None,
        },
        None => wait is None,
    }
}

/// Checks the status of a server-time response: 401 is an authentication
/// failure, 429 a rate limit with the wait the `retry-after` header asks
/// for, any other status outside 200..=299 an API error that shows the
/// status as `status_text` renders it.
pub fn check_time_status(status: u16, status_text: &str, retry_after: Option<&str>) -> (r: AblyResult<()>)
    ensures
        status == 401 ==> (r matches Err(AblyError::Authentication { message, code }) && message@
            == "Authentication failed"@ && code == Some(ErrorCode::Unauthorized)),
        status == 429 ==> (r matches Err(AblyError::RateLimited { message, retry_after: wait }) && message@
            == "Rate limit exceeded"@ && retry_after_is(
            wait,
            match retry_after {
                Some(h) => Some(h@),
                None => None,
            },
        )),
        status != 401 && status != 429 && !(200 <= status <= 299) ==> (r matches Err(
            AblyError::Api { code, message },
        ) && code == status && message@ == "API error: "@ + status_text@),
        200 <= status <= 299 ==> r is Ok,
{
    if status == 401 {
        return Err(
            AblyError::Authentication {
                message: owned("Authentication failed"),
                code: Some(ErrorCode::Unauthorized),
            },
        );
    }
    if status == 429 {
        let wait = match retry_after {
            Some(h) => match parse_u64(h) {
                Some(secs) => Some(Duration::from_secs(secs)),
                None => None,
            },
            None => None,
        };
        return Err(AblyError::RateLimited { message: owned("Rate limit exceeded"), retry_after: wait });
    }
    if status < 200 || status > 299 {
        let mut message = owned("API error: ");
        append(&mut message, status_text);
        return Err(AblyError::Api { code: status, message });
    }
    Ok(())
}

/// The server time: the first of the times the server answered with.
pub fn first_server_time(times: &Vec<i64>) -> (r: AblyResult<i64>)
    ensures
        times@.len() > 0 ==> r == Ok::<i64, AblyError>(times@[0]),
        times@.len() == 0 ==> (r matches Err(AblyError::Decode { message }) && message@
            == "Empty time response"@),
{
    if times.len() > 0 {
        Ok(times[0])
    } else {
        Err(AblyError::Decode { message: owned("Empty time response") })
    }
}

/// Checks the status of a response to publishing on `channel`: 401 is an
/// authentication failure, any other status outside 200..=299 an API
/// error, both naming the channel.
pub fn check_publish_status(channel: &str, status: u16) -> (r: AblyResult<()>)
    ensures
        status == 401 ==> (r matches Err(AblyError::Authentication { message, code }) && message@
            == "Authentication failed for channel: "@ + channel@ && code == Some(ErrorCode::Unauthorized)),
        status != 401 && !(200 <= status <= 299) ==> (r matches Err(AblyError::Api { code, message })
            && code == status && message@ == "Failed to publish to channel: "@ + channel@),
        200 <= status <= 299 ==> r is Ok,
{
    if status == 401 {
        let mut message = owned("Authentication failed for channel: ");
        append(&mut message, channel);
        return Err(AblyError::Authentication { message, code: Some(ErrorCode::Unauthorized) });
    }
    if status < 200 || status > 299 {
        let mut message = owned("Failed to publish to channel: ");
        append(&mut message, channel);
        return Err(AblyError::Api { code: status, message });
    }
    Ok(())
}

} // verus!
