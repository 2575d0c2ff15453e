use ably_core::auth::AuthMode;
use ably_core::error::AblyError;
use ably_core::http::config::HttpConfig;
use ably_core::http::resilience::{CircuitBreakerState, ResponseValidator};
use ably_core::http::{authorization_header, full_url, split_query, CircuitBreaker, RateLimiter};
use std::time::{Duration, Instant};

#[test]
fn test_circuit_breaker_opens_after_threshold() {
    let mut cb = CircuitBreaker::new(3, Duration::from_secs(1));
    for _ in 0..3 {
        cb.before_call().unwrap();
        cb.after_call(false);
    }
    assert_eq!(cb.state(), CircuitBreakerState::Open);
    let result = cb.before_call();
    assert!(result.is_err());
    assert!(matches!(result.unwrap_err(), AblyError::CircuitBreakerOpen { .. }));
}

#[test]
fn breaker_half_opens_after_recovery() {
    let mut cb = CircuitBreaker::new(1, Duration::from_secs(1));
    cb.on_failure();
    assert_eq!(cb.state(), CircuitBreakerState::Open);
    assert!(cb.allow_call(false).is_err());
    assert!(cb.allow_call(true).is_ok());
    assert_eq!(cb.state(), CircuitBreakerState::HalfOpen);
}

#[test]
fn success_clears_failures_while_closed() {
    let mut cb = CircuitBreaker::new(2, Duration::from_secs(1));
    cb.after_call(false);
    cb.after_call(true);
    cb.after_call(false);
    assert_eq!(cb.state(), CircuitBreakerState::Closed);
}

#[test]
fn test_rate_limiter() {
    let mut limiter = RateLimiter::new(2, Duration::from_secs(1));
    assert!(limiter.check_rate_limit().is_ok());
    assert!(limiter.check_rate_limit().is_ok());
    let result = limiter.check_rate_limit();
    assert!(result.is_err());
    assert!(matches!(result.unwrap_err(), AblyError::RateLimited { .. }));
}

#[test]
fn rate_limiter_forgets_old_requests() {
    let mut limiter = RateLimiter::new(1, Duration::from_millis(10));
    let start = Instant::now();
    assert!(limiter.check_rate_limit_at(start).is_ok());
    assert!(limiter.check_rate_limit_at(start).is_err());
    assert!(limiter.check_rate_limit_at(start + Duration::from_millis(20)).is_ok());
}

#[test]
fn status_validation() {
    assert!(ResponseValidator::validate_status(204, "204 No Content", None).is_ok());
    match ResponseValidator::validate_status(404, "404 Not Found", None) {
        Err(AblyError::Api { code, message }) => {
            assert_eq!(code, 404);
            assert_eq!(message, "HTTP error: 404 Not Found");
        }
        other => panic!("unexpected {:?}", other),
    }
    assert!(matches!(
        ResponseValidator::validate_status(503, "503 Service Unavailable", None),
        Err(AblyError::Internal { .. })
    ));
    assert!(matches!(
        ResponseValidator::validate_status(429, "429 Too Many Requests", None),
        Err(AblyError::RateLimited { .. })
    ));
}

#[test]
fn request_urls() {
    assert_eq!(full_url("https://rest.ably.io", "/time"), "https://rest.ably.io/time");
    assert_eq!(full_url("https://rest.ably.io", "https://other/x"), "https://other/x");
}

#[test]
fn authorization_headers() {
    let key = Some(AuthMode::ApiKey("app.key:secret".to_string()));
    assert_eq!(authorization_header(&key).as_deref(), Some("Basic YXBwLmtleTpzZWNyZXQ="));
    let token = Some(AuthMode::Token("tok".to_string()));
    assert_eq!(authorization_header(&token).as_deref(), Some("Bearer tok"));
    assert_eq!(authorization_header(&None), None);
}

#[test]
fn query_strings_split_into_pairs() {
    let pairs = split_query("limit=10&direction=backwards&flag&x=a=b");
    assert_eq!(
        pairs,
        vec![
            ("limit".to_string(), "10".to_string()),
            ("direction".to_string(), "backwards".to_string()),
            ("x".to_string(), "a=b".to_string()),
        ]
    );
    assert!(split_query("").is_empty());
}

#[test]
fn http_config_defaults() {
    let c = HttpConfig::default();
    assert_eq!(c.timeout, Duration::from_secs(10));
    assert_eq!(c.max_retries, 3);
    assert_eq!(c.base_url, "https://rest.ably.io");
    let b = HttpConfig::builder().max_retries(7).base_url("https://x").build();
    assert_eq!(b.max_retries, 7);
    assert_eq!(b.base_url, "https://x");
    assert_eq!(b.connect_timeout, Duration::from_secs(5));
}

#[test]
fn open_breaker_half_opens_only_after_recovery_timeout() {
    let mut waiting = CircuitBreaker::new(1, Duration::from_secs(3600));
    waiting.after_call(false);
    assert_eq!(waiting.state(), CircuitBreakerState::Open);
    assert!(waiting.before_call().is_err());
    assert_eq!(waiting.state(), CircuitBreakerState::Open);
    let mut recovered = CircuitBreaker::new(1, Duration::from_nanos(0));
    recovered.after_call(false);
    assert_eq!(recovered.state(), CircuitBreakerState::Open);
    assert!(recovered.before_call().is_ok());
    assert_eq!(recovered.state(), CircuitBreakerState::HalfOpen);
}

#[test]
fn rate_limiter_accepts_a_window_past_u64_nanoseconds() {
    let mut limiter = RateLimiter::new(1, Duration::from_secs(u64::MAX));
    assert!(limiter.check_rate_limit().is_ok());
    match limiter.check_rate_limit() {
        Err(AblyError::RateLimited { retry_after: Some(w), .. }) => {
            assert!(w > Duration::from_secs(u64::MAX - 3600));
        }
        other => panic!("unexpected {:?}", other),
    }
}
