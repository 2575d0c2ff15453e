//! Resilience of HTTP requests: a circuit breaker, a rate limiter, the
//! headers every request carries, the errors a response stands for, and
//! request metrics.

use crate::error::{spec_from_ably_code_matches, AblyError, AblyResult};
use crate::text::{append, decimal, owned, u64_to_string};
use crate::time::{
    duration_as_millis, duration_as_nanos, duration_debug, duration_debug_text, elapsed_since, gap_nanos,
    instant_gap_nanos, instant_now,
};
use std::time::Duration;
use std::time::Instant;
use vstd::prelude::*;

verus! {

/// The states of a circuit breaker.
#[derive(Debug, Clone, Copy, PartialEq, Eq, Structural)]
pub enum CircuitBreakerState {
    /// Requests go through.
    Closed,
    /// Requests are refused until the recovery timeout has passed.
    Open,
    /// A few requests go through to test the service.
    HalfOpen,
}

/// What deciding a call does to breaker `b0`, leaving `b1` with outcome
/// `r`, `recovered` telling whether the recovery timeout has passed since
/// the last failure.
pub open spec fn allow_step(b0: CircuitBreaker, b1: CircuitBreaker, r: AblyResult<()>, recovered: bool) -> bool {
    &&& match b0.spec_state() {
        CircuitBreakerState::Open => if b0.spec_has_failed() && recovered {
            r is Ok && b1.spec_state() == CircuitBreakerState::HalfOpen && b1.spec_failures() == b0.spec_failures()
                && b1.spec_successes() == b0.spec_successes()
        } else {
            (r matches Err(e) && is_breaker_open_error(e)) && b1.spec_state() == b0.spec_state()
                && b1.spec_failures() == b0.spec_failures() && b1.spec_successes() == b0.spec_successes()
        },
        CircuitBreakerState::HalfOpen => r is Ok && if b0.spec_successes() >= b0.spec_half_open_requests() {
            b1.spec_state() == CircuitBreakerState::Closed && b1.spec_failures() == 0 && b1.spec_successes() == 0
        } else {
            b1.spec_state() == b0.spec_state() && b1.spec_failures() == b0.spec_failures() && b1.spec_successes()
                == b0.spec_successes()
        },
        CircuitBreakerState::Closed => r is Ok && b1.spec_state() == b0.spec_state() && b1.spec_failures()
            == b0.spec_failures() && b1.spec_successes() == b0.spec_successes(),
    }
    &&& b1.spec_threshold() == b0.spec_threshold()
    &&& b1.spec_half_open_requests() == b0.spec_half_open_requests()
    &&& b1.spec_has_failed() == b0.spec_has_failed()
}

/// Stops calling a failing service: after `failure_threshold` failures in
/// a row it opens, refusing calls until `recovery_timeout` has passed since
/// the last failure; then it lets calls through half-open, and closes again
/// after `half_open_requests` successes.
#[derive(Debug, Clone)]
pub struct CircuitBreaker {
    failure_threshold: u32,
    recovery_timeout: Duration,
    half_open_requests: u32,
    state: CircuitBreakerState,
    failure_count: u32,
    success_count: u32,
    last_failure_time: Option<Instant>,
}

/// The error of a refused call.
pub open spec fn is_breaker_open_error(e: AblyError) -> bool {
    e matches AblyError::CircuitBreakerOpen { message } && message@ == "Circuit breaker is open"@
}

impl CircuitBreaker {
    /// The state.
    pub closed spec fn spec_state(&self) -> CircuitBreakerState {
        self.state
    }

    /// Failures since the last reset.
    pub closed spec fn spec_failures(&self) -> u32 {
        self.failure_count
    }

    /// Successes while half-open.
    pub closed spec fn spec_successes(&self) -> u32 {
        self.success_count
    }

    /// Failures that open the breaker.
    pub closed spec fn spec_threshold(&self) -> u32 {
        self.failure_threshold
    }

    /// Successes that close the half-open breaker.
    pub closed spec fn spec_half_open_requests(&self) -> u32 {
        self.half_open_requests
    }

    /// Whether a failure was ever recorded.
    pub closed spec fn spec_has_failed(&self) -> bool {
        self.last_failure_time is Some
    }

    /// Whether the recovery timeout has passed since the last failure when
    /// the clock reads `now`; never, when no failure was recorded.
    pub closed spec fn spec_recovered_by(&self, now: Instant) -> bool {
        match self.last_failure_time {
            Some(t) => instant_gap_nanos(now, t) >= duration_as_nanos(self.recovery_timeout),
            None => false,
        }
    }

    /// A closed breaker.
    pub fn new(failure_threshold: u32, recovery_timeout: Duration) -> (b: CircuitBreaker)
        ensures
            b.spec_state() == CircuitBreakerState::Closed,
            b.spec_failures() == 0 && b.spec_successes() == 0,
            b.spec_threshold() == failure_threshold,
            b.spec_half_open_requests() == 3,
            !b.spec_has_failed(),
    {
        CircuitBreaker {
            failure_threshold,
            recovery_timeout,
            half_open_requests: 3,
            state: CircuitBreakerState::Closed,
            failure_count: 0,
            success_count: 0,
            last_failure_time: None,
        }
    }

    /// The state.
    pub fn state(&self) -> (s: CircuitBreakerState)
        ensures
            s == self.spec_state(),
    {
        self.state
    }

    /// The failures in a row counted.
    pub fn failure_count(&self) -> (n: u32)
        ensures
            n == self.spec_failures(),
    {
        self.failure_count
    }

    /// Decides whether a call may go through, given whether the recovery
    /// timeout has passed since the last failure. An open breaker refuses
    /// the call, unless it has recovered, in which case it turns half-open;
    /// a half-open breaker that has had enough successes closes.
    pub fn allow_call(&mut self, recovered: bool) -> (r: AblyResult<()>)
        ensures
            allow_step(*old(self), *final(self), r, recovered),
    {
        match self.state {
            CircuitBreakerState::Open => {
                if self.last_failure_time.is_some() && recovered {
                    self.state = CircuitBreakerState::HalfOpen;
                    Ok(())
                } else {
                    Err(AblyError::CircuitBreakerOpen { message: owned("Circuit breaker is open") })
                }
            },
            CircuitBreakerState::HalfOpen => {
                if self.success_count >= self.half_open_requests {
                    self.state = CircuitBreakerState::Closed;
                    self.failure_count = 0;
                    self.success_count = 0;
                }
                Ok(())
            },
            CircuitBreakerState::Closed => Ok(()),
        }
    }

    /// Decides whether a call may go through, reading from the clock
    /// whether the recovery timeout has passed since the last failure.
    pub fn before_call(&mut self) -> (r: AblyResult<()>)
        ensures
            old(self).spec_has_failed() ==> exists|now: Instant|
                #[trigger] allow_step(*old(self), *final(self), r, old(self).spec_recovered_by(now)),
            !old(self).spec_has_failed() ==> allow_step(*old(self), *final(self), r, false),
            old(self).spec_state() == CircuitBreakerState::Closed ==> r is Ok,
            old(self).spec_state() == CircuitBreakerState::Open && !old(self).spec_has_failed() ==> (r matches Err(
                e,
            ) && is_breaker_open_error(e)),
    {
        let ghost b0 = *self;
        let ghost mut reading: Option<Instant> = None;
        let recovered = match &self.last_failure_time {
            Some(t) => {
                let elapsed = elapsed_since(t);
                proof {
                    let now = choose|now: Instant| duration_as_nanos(elapsed) == #[trigger] instant_gap_nanos(now, *t);
                    reading = Some(now);
                }
                elapsed.as_nanos() >= self.recovery_timeout.as_nanos()
            },
            None => false,
        };
        proof {
            if let Some(now) = reading {
                assert(recovered == b0.spec_recovered_by(now));
            }
        }
        let r = self.allow_call(recovered);
        proof {
            if let Some(now) = reading {
                assert(allow_step(b0, *self, r, b0.spec_recovered_by(now)));
            }
        }
        r
    }

    /// Records a successful call: counted while half-open; it clears the
    /// failures while closed.
    pub fn on_success(&mut self)
        ensures
            final(self).spec_state() == old(self).spec_state(),
            final(self).spec_successes() == (if old(self).spec_state() == CircuitBreakerState::HalfOpen {
                (if old(self).spec_successes() == u32::MAX { 0 } else { (old(self).spec_successes() + 1) as u32 })
            } else {
                old(self).spec_successes()
            }),
            final(self).spec_failures() == (if old(self).spec_state() == CircuitBreakerState::Closed {
                0
            } else {
                old(self).spec_failures()
            }),
            final(self).spec_threshold() == old(self).spec_threshold(),
            final(self).spec_half_open_requests() == old(self).spec_half_open_requests(),
            final(self).spec_has_failed() == old(self).spec_has_failed(),
    {
        match self.state {
            CircuitBreakerState::HalfOpen => {
                self.success_count = self.success_count.wrapping_add(1);
            },
            CircuitBreakerState::Closed => {
                self.failure_count = 0;
            },
            _ => {},
        }
    }

    /// Records a failed call: one more failure, now; the breaker opens
    /// once the failures reach the threshold.
    pub fn on_failure(&mut self)
        requires
            old(self).spec_failures() < u32::MAX,
        ensures
            final(self).spec_failures() == old(self).spec_failures() + 1,
            final(self).spec_has_failed(),
            final(self).spec_state() == (if old(self).spec_failures() + 1 >= old(self).spec_threshold() {
                CircuitBreakerState::Open
            } else {
                old(self).spec_state()
            }),
            final(self).spec_successes() == old(self).spec_successes(),
            final(self).spec_threshold() == old(self).spec_threshold(),
            final(self).spec_half_open_requests() == old(self).spec_half_open_requests(),
    {
        let failures = self.failure_count + 1;
        self.failure_count = failures;
        self.last_failure_time = Some(instant_now());
        if failures >= self.failure_threshold {
            self.state = CircuitBreakerState::Open;
        }
    }

    /// Records the outcome of a call that went through.
    pub fn after_call(&mut self, success: bool)
        requires
            !success ==> old(self).spec_failures() < u32::MAX,
        ensures
            final(self).spec_threshold() == old(self).spec_threshold(),
            final(self).spec_half_open_requests() == old(self).spec_half_open_requests(),
            success ==> {
                &&& final(self).spec_state() == old(self).spec_state()
                &&& final(self).spec_successes() == (if old(self).spec_state() == CircuitBreakerState::HalfOpen {
                    (if old(self).spec_successes() == u32::MAX { 0 } else { (old(self).spec_successes() + 1) as u32 })
                } else {
                    old(self).spec_successes()
                })
                &&& final(self).spec_failures() == (if old(self).spec_state() == CircuitBreakerState::Closed {
                    0
                } else {
                    old(self).spec_failures()
                })
                &&& final(self).spec_has_failed() == old(self).spec_has_failed()
            },
            !success ==> {
                &&& final(self).spec_failures() == old(self).spec_failures() + 1
                &&& final(self).spec_has_failed()
                &&& final(self).spec_state() == (if old(self).spec_failures() + 1 >= old(self).spec_threshold() {
                    CircuitBreakerState::Open
                } else {
                    old(self).spec_state()
                })
                &&& final(self).spec_successes() == old(self).spec_successes()
            },
    {
        if success {
            self.on_success();
        } else {
            self.on_failure();
        }
    }
}

/// The state of a breaker in state `s` with `f` failures and threshold
/// `t` after `k` more failures in a row, as `on_failure` moves it.
pub open spec fn state_after_failures(s: CircuitBreakerState, f: nat, t: nat, k: nat) -> CircuitBreakerState
    decreases k,
{
    if k == 0 {
        s
    } else {
        state_after_failures(if f + 1 >= t { CircuitBreakerState::Open } else { s }, f + 1, t, (k - 1) as nat)
    }
}

/// Failures in a row open a breaker once they reach the threshold, and an
/// open breaker stays open under failures.
pub proof fn law_failures_open_breaker(s: CircuitBreakerState, f: nat, t: nat, k: nat)
    requires
        k >= 1,
        f + k >= t,
    ensures
        state_after_failures(s, f, t, k) == CircuitBreakerState::Open,
    decreases k,
{
    if k > 1 {
        let s1 = if f + 1 >= t { CircuitBreakerState::Open } else { s };
        law_failures_open_breaker(s1, f + 1, t, (k - 1) as nat);
    } else {
        assert(state_after_failures(CircuitBreakerState::Open, f + 1, t, 0) == CircuitBreakerState::Open);
    }
}

/// Limits requests to `max_requests` in any sliding `window`.
#[derive(Debug, Clone)]
pub struct RateLimiter {
    max_requests: u32,
    window: Duration,
    requests: Vec<Instant>,
}

/// The request times still inside the window at `now`, in order.
pub open spec fn within_window(rs: Seq<Instant>, now: Instant, window_nanos: u128) -> Seq<Instant>
    decreases rs.len(),
{
    if rs.len() == 0 {
        rs
    } else if instant_gap_nanos(now, rs.last()) < window_nanos {
        within_window(rs.drop_last(), now, window_nanos).push(rs.last())
    } else {
        within_window(rs.drop_last(), now, window_nanos)
    }
}

/// The wait is there and lasts `nanos` nanoseconds.
pub open spec fn retry_nanos_is(d: Option<Duration>, nanos: u128) -> bool {
    d matches Some(w) && duration_as_nanos(w) == nanos
}

/// The error of a request over the limit.
pub open spec fn is_rate_limited_error(e: AblyError, max: u32, window: Duration, retry_nanos: u128) -> bool {
    e matches AblyError::RateLimited { message, retry_after } && message@ == "Rate limit exceeded: "@
        + decimal(max as nat) + " requests in "@ + duration_debug(window) && retry_nanos_is(retry_after, retry_nanos)
}

/// What counting a request at time `now` does to a limiter `l0`, leaving
/// `l1` with outcome `r`: the requests that left the window are forgotten;
/// if the window still holds the limit, the request is refused with the
/// time until the oldest request leaves it, else it is counted.
pub open spec fn rate_step(l0: RateLimiter, l1: RateLimiter, r: AblyResult<()>, now: Instant) -> bool {
    let kept = within_window(l0.spec_requests(), now, duration_as_nanos(l0.spec_window()));
    &&& if kept.len() >= l0.spec_max() && kept.len() > 0 {
        &&& r matches Err(e) && is_rate_limited_error(e, l0.spec_max(), l0.spec_window(),
            (duration_as_nanos(l0.spec_window()) - instant_gap_nanos(now, kept[0])) as u128)
        &&& l1.spec_requests() == kept
    } else {
        &&& r is Ok
        &&& l1.spec_requests() == kept.push(now)
    }
    &&& l1.spec_max() == l0.spec_max()
    &&& l1.spec_window() == l0.spec_window()
}

impl RateLimiter {
    /// The times of the requests counted, oldest first.
    pub closed spec fn spec_requests(&self) -> Seq<Instant> {
        self.requests@
    }

    /// The most requests in a window.
    pub closed spec fn spec_max(&self) -> u32 {
        self.max_requests
    }

    /// The window.
    pub closed spec fn spec_window(&self) -> Duration {
        self.window
    }

    /// A limiter with no request counted.
    pub fn new(max_requests: u32, window: Duration) -> (l: RateLimiter)
        ensures
            l.spec_requests().len() == 0,
            l.spec_max() == max_requests,
            l.spec_window() == window,
    {
        RateLimiter { max_requests, window, requests: Vec::new() }
    }

    /// The window.
    pub fn window(&self) -> (d: Duration)
        ensures
            d == self.spec_window(),
    {
        self.window
    }

    /// Counts a request at time `now`, unless the window already holds the
    /// limit: then the request is refused, with the time until the oldest
    /// request leaves the window.
    pub fn check_rate_limit_at(&mut self, now: Instant) -> (r: AblyResult<()>)
        ensures
            rate_step(*old(self), *final(self), r, now),
    {
        let window_nanos = self.window.as_nanos();
        let ghost r0 = self.requests@;
        let mut kept: Vec<Instant> = Vec::new();
        let mut i: usize = 0;
        while i < self.requests.len()
            invariant
                0 <= i <= self.requests@.len(),
                self.requests@ == r0,
                window_nanos == duration_as_nanos(self.window),
                kept@ == within_window(r0.take(i as int), now, window_nanos),
                forall|j: int| 0 <= j < kept@.len() ==> instant_gap_nanos(now, #[trigger] kept@[j]) < window_nanos,
            decreases self.requests@.len() - i,
        {
            proof {
                assert(r0.take(i + 1).drop_last() =~= r0.take(i as int));
                assert(r0.take(i + 1).last() == r0[i as int]);
            }
            let t = self.requests[i];
            if gap_nanos(&now, &t) < window_nanos {
                kept.push(t);
            }
            i = i + 1;
        }
        proof {
            assert(r0.take(r0.len() as int) =~= r0);
        }
        if kept.len() >= self.max_requests as usize && kept.len() > 0 {
            let oldest = kept[0];
            let gap = gap_nanos(&now, &oldest);
            let diff: u128 = window_nanos - gap;
            assert(diff / 1_000_000_000 <= u64::MAX) by (nonlinear_arith)
                requires
                    diff <= u64::MAX as u128 * 1_000_000_000 + 999_999_999,
            ;
            let wait = Duration::new((diff / 1_000_000_000) as u64, (diff % 1_000_000_000) as u32);
            let mut message = owned("Rate limit exceeded: ");
            append(&mut message, u64_to_string(self.max_requests as u64).as_str());
            append(&mut message, " requests in ");
            append(&mut message, duration_debug_text(&self.window).as_str());
            self.requests = kept;
            return Err(AblyError::RateLimited { message, retry_after: Some(wait) });
        }
        kept.push(now);
        self.requests = kept;
        Ok(())
    }

    /// Counts a request now, unless the window already holds the limit.
    pub fn check_rate_limit(&mut self) -> (r: AblyResult<()>)
        ensures
            exists|now: Instant| #[trigger] rate_step(*old(self), *final(self), r, now),
            old(self).spec_requests().len() < old(self).spec_max() ==> r is Ok,
    {
        let now = instant_now();
        proof {
            lemma_within_window_shorter(self.requests@, now, duration_as_nanos(self.window));
        }
        self.check_rate_limit_at(now)
    }
}

/// Dropping requests that left the window never makes more of them.
pub proof fn lemma_within_window_shorter(rs: Seq<Instant>, now: Instant, w: u128)
    ensures
        within_window(rs, now, w).len() <= rs.len(),
    decreases rs.len(),
{
    if rs.len() > 0 {
        lemma_within_window_shorter(rs.drop_last(), now, w);
    }
}

/// The version of the library.
pub const SDK_VERSION: &'static str = "0.1.0";

/// A header value as `HeaderValue::from_str` accepts it: visible ASCII,
/// spaces and tabs, and bytes past ASCII.
pub open spec fn is_header_text(s: Seq<char>) -> bool {
    forall|i: int| 0 <= i < s.len() ==> ((#[trigger] s[i] as u32) >= 32 && (s[i] as u32) != 127) || s[i] == '\t'
}

/// Adds the headers every request carries.
#[derive(Debug, Clone)]
pub struct RequestInterceptor {
    client_id: String,
    sdk_version: String,
}

impl RequestInterceptor {
    /// The client id sent.
    pub closed spec fn spec_client_id(&self) -> Seq<char> {
        self.client_id@
    }

    /// The library version sent.
    pub closed spec fn spec_version(&self) -> Seq<char> {
        self.sdk_version@
    }

    /// An interceptor for `client_id`, sending this library's version.
    pub fn new(client_id: String) -> (i: RequestInterceptor)
        ensures
            i.spec_client_id() == client_id@,
            i.spec_version() == SDK_VERSION@,
    {
        RequestInterceptor { client_id, sdk_version: owned(SDK_VERSION) }
    }

    /// The headers to add, in order: the protocol version, the library and
    /// the client id (`unknown` when it cannot be a header value).
    pub fn header_values(&self) -> (h: Vec<(String, String)>)
        ensures
            h@.len() == 3,
            h@[0].0@ == "X-Ably-Version"@ && h@[0].1@ == "3"@,
            h@[1].0@ == "X-Ably-Lib"@ && h@[1].1@ == "rust-"@ + self.spec_version(),
            h@[2].0@ == "X-Ably-ClientId"@ && h@[2].1@ == (if is_header_text(self.spec_client_id()) {
                self.spec_client_id()
            } else {
                "unknown"@
            }),
    {
        let mut h: Vec<(String, String)> = Vec::new();
        h.push((owned("X-Ably-Version"), owned("3")));
        let mut lib = owned("rust-");
        append(&mut lib, self.sdk_version.as_str());
        h.push((owned("X-Ably-Lib"), lib));
        let client = if header_text_ok(self.client_id.as_str()) {
            self.client_id.clone()
        } else {
            owned("unknown")
        };
        h.push((owned("X-Ably-ClientId"), client));
        h
    }
}

fn header_text_ok(s: &str) -> (b: bool)
    ensures
        b == is_header_text(s@),
{
    let chars = crate::text::chars_of(s);
    let mut i: usize = 0;
    while i < chars.len()
        invariant
            chars@ == s@,
            0 <= i <= chars@.len(),
            forall|j: int| 0 <= j < i ==> ((#[trigger] chars@[j] as u32) >= 32 && (chars@[j] as u32) != 127)
                || chars@[j] == '\t',
        decreases chars@.len() - i,
    {
        let c = chars[i];
        let code = c as u32;
        if !((code >= 32 && code != 127) || c == '\t') {
            return false;
        }
        i = i + 1;
    }
    true
}

/// What a response's status says, when no Ably error could be read from
/// its body.
pub open spec fn spec_status_error(e: AblyError, status: u16, status_text: Seq<char>) -> bool {
    if status == 429 {
        e matches AblyError::RateLimited { message, retry_after } && message@ == "Rate limit exceeded"@
            && retry_after is None
    } else if status == 401 || status == 403 {
        e matches AblyError::Authentication { message, code } && message@ == "Authentication failed: "@
            + status_text && code is None
    } else if 500 <= status <= 599 {
        e matches AblyError::Internal { message } && message@ == "Server error: "@ + status_text
    } else {
        e matches AblyError::Api { code, message } && code == status && message@ == "HTTP error: "@ + status_text
    }
}

/// Checks responses for Ably errors.
pub struct ResponseValidator;

impl ResponseValidator {
    /// The outcome a response stands for: success for a 2xx status; else
    /// the Ably error of its body, when it has one (its code and message);
    /// else the error of its status, `status_text` being the status as
    /// HTTP renders it (`404 Not Found`).
    pub fn validate_status(status: u16, status_text: &str, ably_error: Option<(u16, String)>) -> (r: AblyResult<()>)
        ensures
            200 <= status <= 299 ==> r is Ok,
            !(200 <= status <= 299) ==> (r matches Err(e) && match ably_error {
                Some((code, message)) => spec_from_ably_code_matches(e, code, message@),
                None => spec_status_error(e, status, status_text@),
            }),
    {
        if 200 <= status && status <= 299 {
            return Ok(());
        }
        match ably_error {
            Some((code, message)) => Err(AblyError::from_ably_code(code, message.as_str())),
            None => {
                if status == 429 {
                    Err(AblyError::RateLimited { message: owned("Rate limit exceeded"), retry_after: None })
                } else if status == 401 || status == 403 {
                    let mut message = owned("Authentication failed: ");
                    append(&mut message, status_text);
                    Err(AblyError::Authentication { message, code: None })
                } else if 500 <= status && status <= 599 {
                    let mut message = owned("Server error: ");
                    append(&mut message, status_text);
                    Err(AblyError::Internal { message })
                } else {
                    let mut message = owned("HTTP error: ");
                    append(&mut message, status_text);
                    Err(AblyError::Api { code: status, message })
                }
            },
        }
    }
}

/// Counts requests, their outcomes and their latency.
#[derive(Debug, Clone, Copy, PartialEq, Eq, Structural)]
pub struct ConnectionMetrics {
    pub total_requests: u64,
    pub successful_requests: u64,
    pub failed_requests: u64,
    /// The summed latency, in milliseconds.
    pub total_latency_ms: u64,
}

/// `a + b`, wrapping around as atomic counters do.
pub open spec fn wrapping(a: u64, b: u64) -> u64 {
    if a + b > u64::MAX {
        (a + b - u64::MAX - 1) as u64
    } else {
        (a + b) as u64
    }
}

impl ConnectionMetrics {
    /// Metrics with nothing counted.
    pub fn new() -> (m: ConnectionMetrics)
        ensures
            m == (ConnectionMetrics { total_requests: 0, successful_requests: 0, failed_requests: 0, total_latency_ms: 0 }),
    {
        ConnectionMetrics { total_requests: 0, successful_requests: 0, failed_requests: 0, total_latency_ms: 0 }
    }

    /// Counts a request, its outcome and its latency (in whole
    /// milliseconds, truncated to 64 bits); counters wrap around.
    pub fn record_request(&mut self, success: bool, latency: Duration)
        ensures
            final(self).total_requests == wrapping(old(self).total_requests, 1),
            final(self).successful_requests == (if success {
                wrapping(old(self).successful_requests, 1)
            } else {
                old(self).successful_requests
            }),
            final(self).failed_requests == (if success {
                old(self).failed_requests
            } else {
                wrapping(old(self).failed_requests, 1)
            }),
            final(self).total_latency_ms == wrapping(old(self).total_latency_ms, duration_as_millis(latency) as u64),
    {
        self.total_requests = self.total_requests.wrapping_add(1);
        if success {
            self.successful_requests = self.successful_requests.wrapping_add(1);
        } else {
            self.failed_requests = self.failed_requests.wrapping_add(1);
        }
        let ms = latency.as_millis() as u64;
        self.total_latency_ms = self.total_latency_ms.wrapping_add(ms);
    }
}

} // verus!
