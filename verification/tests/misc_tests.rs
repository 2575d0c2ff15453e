use ably_core::error::ably_codes::AblyErrorCode;
use ably_core::logging::advanced::{redact_sensitive, TraceContext};
use ably_core::logging::{correlation_id_for, generate_correlation_id, redact, LogLevel};
use ably_core::replay::state_recovery::RecoveryState;
use ably_core::replay::ReplayOptions;
use ably_core::version;

#[test]
fn test_version() {
    assert_eq!(version(), "0.1.0");
}

#[test]
fn test_sensitive_redaction() {
    assert_eq!(redact_sensitive("key.id:secret"), "[API_KEY_REDACTED]");
    assert_eq!(redact_sensitive("4111-1111-1111-1111"), "[CARD_REDACTED]");
    assert_eq!(redact_sensitive("user@example.com"), "u@[REDACTED]");
    assert_eq!(redact_sensitive("normal text"), "normal text");
}

#[test]
fn test_trace_context() {
    let parent = TraceContext::new();
    let child = parent.child();
    assert_eq!(parent.trace_id, child.trace_id);
    assert_ne!(parent.span_id, child.span_id);
    assert_eq!(child.parent_span_id, Some(parent.span_id));
}

#[test]
fn test_replay_options_default() {
    let options = ReplayOptions::default();
    assert_eq!(options.max_messages, 1000);
    assert_eq!(options.time_range_seconds, 3600);
    assert!(options.include_presence);
    assert!(!options.compress_state);
    assert_eq!(options.batch_size, 100);
    assert_eq!(options.timeout_seconds, 30);
}

#[test]
fn test_recovery_state_enum() {
    match RecoveryState::Healthy {
        RecoveryState::Healthy => assert!(true),
        _ => assert!(false),
    }
}

#[test]
fn correlation_ids_count_up() {
    let mut counter = 41;
    assert_eq!(generate_correlation_id(&mut counter), "corr_41");
    assert_eq!(generate_correlation_id(&mut counter), "corr_42");
    assert_eq!(counter, 43);
    assert_eq!(correlation_id_for(0), "corr_0");
    let mut top = u64::MAX;
    assert_eq!(generate_correlation_id(&mut top), format!("corr_{}", u64::MAX));
    assert_eq!(top, 0);
}

#[test]
fn levels_and_redaction() {
    assert_eq!(LogLevel::Warn.as_str(), "warn");
    assert_eq!(redact("anything"), "[REDACTED]");
    assert_eq!(redact_sensitive("1234567812345678"), "[CARD_REDACTED]");
    assert_eq!(redact_sensitive("a@b@c"), "a@b@c");
}

#[test]
fn default_messages_are_distinct_and_nonempty() {
    let codes = [
        AblyErrorCode::BadRequest,
        AblyErrorCode::TokenExpired,
        AblyErrorCode::TokenRevoked,
        AblyErrorCode::TimeoutError,
        AblyErrorCode::InvalidUseOfBasicAuthOverHttp,
        AblyErrorCode::RequestFailed,
        AblyErrorCode::Forbidden,
        AblyErrorCode::NotFound,
    ];
    assert_eq!(AblyErrorCode::TokenExpired.default_message(), "Token expired");
    assert_eq!(
        AblyErrorCode::InvalidUseOfBasicAuthOverHttp.default_message(),
        "Invalid use of basic auth over non-TLS connection"
    );
    assert_eq!(AblyErrorCode::RequestFailed.default_message(), "Request failed");
    for (i, a) in codes.iter().enumerate() {
        assert!(!a.default_message().is_empty());
        for b in codes.iter().skip(i + 1) {
            assert_ne!(a.default_message(), b.default_message());
        }
    }
}
