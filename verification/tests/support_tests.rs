use ably_core::auth::AuthMode;
use ably_core::protocol::json::JsonValue;
use ably_core::protocol::messages::Message;
use ably_core::replay::channel_replay::{message_matches_filter, MessageFilter};
use ably_core::replay::history_replay::ChannelSerialTracker;
use ably_core::replay::{ReplayOptions, SnapshotMetadata, StateSnapshot};
use ably_core::strmap::StringMap;
use ably_core::text::parse_u64;
use ably_core::transport::resilience::calculate_backoff;
use ably_core::transport::{build_ws_url, reconnect_delay_ms};
use std::time::{Duration, SystemTime, UNIX_EPOCH};
use ably_core::protocol::encoding::data_encoding::{decode_payload, encode_plan, encoding_step, EncodingStep};
use ably_core::http::enhanced::{classify_response, request_headers, HttpError};
use ably_core::retry::RetryableError;
use ably_core::error::advanced::{retry_allowed, retry_base_delay_ms};

fn sensor_message() -> Message {
    let mut m = Message::empty();
    m.id = Some("msg1".to_string());
    m.data = Some(JsonValue::Number("25.5".to_string()));
    m.client_id = Some("sensor1".to_string());
    m.timestamp = Some(1234567890);
    m
}

#[test]
fn test_message_filter_name_pattern() {
    let mut message = sensor_message();
    message.name = Some("state:temperature".to_string());
    let filter = MessageFilter::NamePattern("state:".to_string());
    assert!(message_matches_filter(&message, &filter, Some("25.5")));
    let filter = MessageFilter::NamePattern("event:".to_string());
    assert!(!message_matches_filter(&message, &filter, Some("25.5")));
}

#[test]
fn test_message_filter_client_id() {
    let mut message = sensor_message();
    message.name = Some("temperature".to_string());
    let filter = MessageFilter::ClientId("sensor1".to_string());
    assert!(message_matches_filter(&message, &filter, Some("25.5")));
    let filter = MessageFilter::ClientId("sensor2".to_string());
    assert!(!message_matches_filter(&message, &filter, Some("25.5")));
}

#[test]
fn test_message_filter_time_range() {
    let mut message = sensor_message();
    message.name = Some("temperature".to_string());
    let filter = MessageFilter::TimeRange { start: 1234567000, end: 1234568000 };
    assert!(message_matches_filter(&message, &filter, Some("25.5")));
    let filter = MessageFilter::TimeRange { start: 1234560000, end: 1234567000 };
    assert!(!message_matches_filter(&message, &filter, Some("25.5")));
}

#[test]
fn data_filter_reads_the_rendered_data() {
    let message = sensor_message();
    let filter = MessageFilter::DataContains("25".to_string());
    assert!(message_matches_filter(&message, &filter, Some("25.5")));
    assert!(!message_matches_filter(&message, &filter, None));
    assert!(message_matches_filter(&message, &MessageFilter::Expression("x".to_string()), None));
}

#[test]
fn test_state_snapshot_is_recent() {
    let snapshot = StateSnapshot {
        channel: "test".to_string(),
        timestamp: SystemTime::now().duration_since(UNIX_EPOCH).unwrap().as_millis() as i64,
        message_state: StringMap::new(),
        presence_state: StringMap::new(),
        metadata: SnapshotMetadata {
            messages_processed: 0,
            presence_processed: 0,
            replay_duration_ms: 0,
            options: ReplayOptions::default(),
        },
    };

    assert!(snapshot.is_recent(60));
}

#[test]
fn snapshot_age_limit_is_strict() {
    let now = SystemTime::now().duration_since(UNIX_EPOCH).unwrap().as_millis() as i64;
    assert!(ably_core::replay::is_recent_at(now, now, 60));
    assert!(ably_core::replay::is_recent_at(now - 59_999, now, 60));
    assert!(!ably_core::replay::is_recent_at(now - 60_000, now, 60));
    assert!(!ably_core::replay::is_recent_at(now - 60_001, now, 60));
}

#[test]
fn test_exponential_backoff() {
    let base = Duration::from_secs(1);
    let max = Duration::from_secs(60);
    let delay0 = calculate_backoff(0, base, max);
    assert!(delay0 >= base && delay0 < base * 2);
    let delay3 = calculate_backoff(3, base, max);
    assert!(delay3 >= Duration::from_secs(8) && delay3 < Duration::from_secs(11));
    let delay10 = calculate_backoff(10, base, max);
    assert!(delay10 <= max + Duration::from_secs(15));
}

#[test]
fn decimal_parsing_follows_std() {
    assert_eq!(parse_u64("0"), Some(0));
    assert_eq!(parse_u64("+42"), Some(42));
    assert_eq!(parse_u64("18446744073709551615"), Some(u64::MAX));
    assert_eq!(parse_u64("18446744073709551616"), None);
    assert_eq!(parse_u64(""), None);
    assert_eq!(parse_u64("+"), None);
    assert_eq!(parse_u64("-1"), None);
    assert_eq!(parse_u64("12a"), None);
    for s in ["7", "+7", "007", "99999999999999999999", " 1"] {
        assert_eq!(parse_u64(s), s.parse::<u64>().ok(), "{}", s);
    }
}

#[test]
fn string_map_keeps_one_value_per_key() {
    let mut m: StringMap<u32> = StringMap::new();
    assert!(m.is_empty());
    assert_eq!(m.insert("a".to_string(), 1), None);
    assert_eq!(m.insert("b".to_string(), 2), None);
    assert_eq!(m.insert("a".to_string(), 3), Some(1));
    assert_eq!(m.len(), 2);
    assert_eq!(m.get("a"), Some(&3));
    assert!(m.contains_key("b"));
    assert_eq!(m.remove("b"), Some(2));
    assert!(!m.contains_key("b"));
    m.clear();
    assert_eq!(m.len(), 0);
}

#[test]
fn serial_tracker_reads_back() {
    let mut t = ChannelSerialTracker::new();
    t.update("ch", "s1".to_string());
    assert_eq!(t.get("ch").map(|s| s.as_str()), Some("s1"));
    t.clear("ch");
    assert_eq!(t.get("ch"), None);
}

#[test]
fn websocket_urls_and_reconnect_delays() {
    let url = build_ws_url("wss://realtime.ably.io/", &AuthMode::Token("tok".to_string()), false);
    assert_eq!(url, "wss://realtime.ably.io/?v=1.2&access_token=tok&format=json");
    assert!(url.contains("access_token=tok"));
    assert!(url.contains("format=json"));
    assert_eq!(reconnect_delay_ms(0), Some(100));
    assert_eq!(reconnect_delay_ms(5), Some(3200));
    assert_eq!(reconnect_delay_ms(6), None);
}

#[test]
fn payload_encodings_plan_and_undo() {
    assert_eq!(encode_plan("utf-8/base64"), Ok(1));
    assert_eq!(encode_plan("json/base64/base64"), Ok(2));
    assert_eq!(encode_plan("json"), Ok(0));
    assert_eq!(encode_plan(""), Err("Unknown encoding: ".to_string()));
    assert_eq!(
        encode_plan("json/cipher+aes-128-cbc/base64"),
        Err("Cipher encoding not yet implemented: cipher+aes-128-cbc".to_string())
    );
    assert_eq!(encode_plan("json/zip/cipher+x"), Err("Unknown encoding: zip".to_string()));
    assert_eq!(decode_payload(b"ImhpIg==", "json/base64"), Ok(b"\"hi\"".to_vec()));
    assert_eq!(decode_payload(b"\"hi\"", "utf-8"), Ok(b"\"hi\"".to_vec()));
    assert!(decode_payload(b"!!", "base64").unwrap_err().starts_with("Base64 decoding failed: "));
    assert_eq!(
        decode_payload(b"x", "cipher+aes-256-cbc/utf-8"),
        Err("Cipher decoding not yet implemented: cipher+aes-256-cbc".to_string())
    );
    assert_eq!(encoding_step("base64"), EncodingStep::Base64);
    assert_eq!(encoding_step("utf-8"), EncodingStep::Identity);
    assert_eq!(encoding_step("cipher+x"), EncodingStep::Cipher);
    assert_eq!(encoding_step("gzip"), EncodingStep::Unknown);
}

#[test]
fn resilient_responses_are_classified() {
    assert!(classify_response(200, None, None).is_ok());
    assert!(matches!(classify_response(401, None, None), Err(HttpError::AuthenticationFailed { status: 401 })));
    match classify_response(404, None, None) {
        Err(HttpError::NotFound { message }) => assert_eq!(message, "Not found"),
        other => panic!("unexpected {:?}", other),
    }
    assert!(matches!(
        classify_response(429, None, Some("30")),
        Err(HttpError::RateLimited { retry_after: Some(30) })
    ));
    match classify_response(503, Some("busy".to_string()), None) {
        Err(e @ HttpError::ServerError { .. }) => assert!(e.is_retryable()),
        other => panic!("unexpected {:?}", other),
    }
    assert!(!HttpError::ServerError { status: 500, message: String::new() }.is_retryable());
    assert!(HttpError::Timeout("t".to_string()).is_retryable());
    let h = request_headers("id-1", true);
    assert_eq!(h.len(), 5);
    assert_eq!(h[1], ("Content-Type".to_string(), "application/json".to_string()));
    assert_eq!(h[4], ("X-Ably-Lib".to_string(), "rust-0.1.0".to_string()));
    assert_eq!(request_headers("id-1", false)[1], ("X-Request-ID".to_string(), "id-1".to_string()));
}

#[test]
fn advanced_retry_decisions() {
    assert!(retry_allowed(true, 0, 5, 0, 10, None));
    assert!(!retry_allowed(false, 0, 5, 0, 10, None));
    assert!(!retry_allowed(true, 5, 5, 0, 10, None));
    assert!(!retry_allowed(true, 1, 5, 10, 10, Some(Duration::from_secs(5))));
    assert!(retry_allowed(true, 1, 5, 10, 10, Some(Duration::from_secs(61))));
    assert!(retry_allowed(true, 1, 5, 10, 10, None));
    assert_eq!(retry_base_delay_ms(100, 30_000, 1), 100);
    assert_eq!(retry_base_delay_ms(100, 30_000, 4), 800);
    assert_eq!(retry_base_delay_ms(100, 30_000, 20), 30_000);
}

#[test]
fn trace_ids_are_uuids() {
    let id = ably_core::logging::generate_trace_id();
    assert_eq!(id.len(), 36);
    assert_eq!(&id[14..15], "4");
    assert!(id.chars().all(|c| c == '-' || c.is_ascii_hexdigit() && !c.is_ascii_uppercase()));
}

#[test]
fn backoff_keeps_sub_millisecond_delays() {
    let base = Duration::from_micros(1500);
    let max = Duration::from_secs(60);
    assert_eq!(calculate_backoff(0, base, max), base);
    assert_eq!(calculate_backoff(1, base, max), Duration::from_micros(3000));
    let capped = calculate_backoff(20, Duration::from_millis(4), Duration::from_millis(8));
    assert!(capped >= Duration::from_millis(8) && capped <= Duration::from_millis(10));
    assert_eq!(capped.subsec_nanos() % 1_000_000, 0);
}
