use ably_core::auth::AuthMode;
use ably_core::client::legacy::{
    check_failure_gate, check_publish_status, check_time_status, first_server_time,
    RestClientBuilder as LegacyRestClientBuilder,
};
use ably_core::client::realtime::{
    next_msg_serial, presence_request, publish_request, route_inbound, InboundRoute, RealtimeClientBuilder,
};
use ably_core::client::rest::RestClientBuilder;
use ably_core::connection::state_machine::ConnectionEvent;
use ably_core::crypto::{ChannelCipher, CipherAlgorithm, CipherParams};
use ably_core::error::{AblyError, ErrorCode};
use ably_core::plugin::{EncryptionPlugin, LoggingPlugin, PluginConfig};
use ably_core::protocol::json::JsonValue;
use ably_core::protocol::messages::{
    Action, ConnectionDetails, ErrorInfo, Message, PresenceAction, ProtocolMessage,
};
use ably_core::push::PushTarget;
use std::time::Duration;

#[test]
fn rest_builder_settles_sandbox_settings() {
    let settings = RestClientBuilder::default()
        .api_key("app.key:secret")
        .environment("sandbox")
        .timeout(Duration::from_secs(3))
        .max_retries(5)
        .custom_header("X-Test", "1")
        .into_settings()
        .unwrap();
    assert_eq!(settings.config.base_url, "https://sandbox-rest.ably.io");
    assert_eq!(settings.config.timeout, Duration::from_secs(3));
    assert_eq!(settings.config.max_retries, 5);
    assert_eq!(settings.environment, "sandbox");
    assert!(matches!(settings.auth, AuthMode::ApiKey(ref k) if k == "app.key:secret"));
    assert_eq!(settings.headers.get("X-Test").map(|v| v.as_str()), Some("1"));
}

#[test]
fn rest_builder_defaults_to_production_and_token() {
    let settings = RestClientBuilder::default().token("tok").into_settings().unwrap();
    assert_eq!(settings.config.base_url, "https://rest.ably.io");
    assert_eq!(settings.config.timeout, Duration::from_secs(15));
    assert_eq!(settings.config.max_retries, 3);
    assert!(matches!(settings.auth, AuthMode::Token(ref t) if t == "tok"));
}

#[test]
fn rest_builder_without_credentials_builds_nothing() {
    assert!(RestClientBuilder::default().into_settings().is_none());
}

#[test]
fn legacy_builder_settings() {
    let (key, timeout) = LegacyRestClientBuilder::default().timeout_ms(250).into_settings();
    assert_eq!(key, "");
    assert_eq!(timeout, Some(250));
    let (key, timeout) = LegacyRestClientBuilder::default().api_key("k").into_settings();
    assert_eq!(key, "k");
    assert_eq!(timeout, None);
}

#[test]
fn legacy_time_checks() {
    assert!(check_failure_gate(4).is_ok());
    assert!(matches!(check_failure_gate(5), Err(AblyError::CircuitBreakerOpen { .. })));
    assert!(check_time_status(200, "200 OK", None).is_ok());
    match check_time_status(401, "401 Unauthorized", None) {
        Err(AblyError::Authentication { message, code }) => {
            assert_eq!(message, "Authentication failed");
            assert_eq!(code, Some(ErrorCode::Unauthorized));
        }
        other => panic!("unexpected {:?}", other),
    }
    match check_time_status(429, "429 Too Many Requests", Some("+7")) {
        Err(AblyError::RateLimited { retry_after, .. }) => assert_eq!(retry_after, Some(Duration::from_secs(7))),
        other => panic!("unexpected {:?}", other),
    }
    match check_time_status(429, "429 Too Many Requests", Some("soon")) {
        Err(AblyError::RateLimited { retry_after, .. }) => assert_eq!(retry_after, None),
        other => panic!("unexpected {:?}", other),
    }
    match check_time_status(500, "500 Internal Server Error", None) {
        Err(AblyError::Api { code, message }) => {
            assert_eq!(code, 500);
            assert_eq!(message, "API error: 500 Internal Server Error");
        }
        other => panic!("unexpected {:?}", other),
    }
    assert_eq!(first_server_time(&vec![17, 18]).unwrap(), 17);
    assert!(matches!(first_server_time(&vec![]), Err(AblyError::Decode { .. })));
}

#[test]
fn legacy_publish_checks() {
    assert!(check_publish_status("ch", 201).is_ok());
    match check_publish_status("ch", 401) {
        Err(AblyError::Authentication { message, .. }) => {
            assert_eq!(message, "Authentication failed for channel: ch")
        }
        other => panic!("unexpected {:?}", other),
    }
    match check_publish_status("ch", 400) {
        Err(AblyError::Api { code, message }) => {
            assert_eq!(code, 400);
            assert_eq!(message, "Failed to publish to channel: ch");
        }
        other => panic!("unexpected {:?}", other),
    }
}

#[test]
fn realtime_builder_needs_api_key() {
    match RealtimeClientBuilder::default().token("t").into_settings() {
        Err(AblyError::Internal { message }) => assert_eq!(message, "API key required"),
        other => panic!("unexpected {:?}", other),
    }
    let (key, auto) = RealtimeClientBuilder::default()
        .api_key("k")
        .client_id("c")
        .recover("r")
        .auto_connect(false)
        .into_settings()
        .unwrap();
    assert_eq!(key, "k");
    assert!(!auto);
    let (_, auto) = RealtimeClientBuilder::default().api_key("k").into_settings().unwrap();
    assert!(auto);
}

#[test]
fn inbound_messages_are_routed() {
    let mut connected = ProtocolMessage::default();
    connected.action = Action::Connected;
    let mut details = ConnectionDetails::default();
    details.connection_key = Some("key-1".to_string());
    connected.connection_details = Some(details);
    match route_inbound(&connected) {
        InboundRoute::Connection(ConnectionEvent::Connected(id)) => assert_eq!(id, "key-1"),
        _ => panic!("expected a connected event"),
    }
    connected.connection_details = None;
    match route_inbound(&connected) {
        InboundRoute::Connection(ConnectionEvent::Connected(id)) => assert_eq!(id, "unknown"),
        _ => panic!("expected a connected event"),
    }
    let mut error = ProtocolMessage::default();
    error.action = Action::Error;
    assert!(matches!(route_inbound(&error), InboundRoute::Ignore));
    error.error = Some(ErrorInfo { code: 50000, message: None, status_code: None, href: None, cause: None });
    assert!(matches!(route_inbound(&error), InboundRoute::Connection(ConnectionEvent::Error(_))));
    let mut msg = ProtocolMessage::default();
    msg.action = Action::Message;
    assert!(matches!(route_inbound(&msg), InboundRoute::Ignore));
    msg.channel = Some("room".to_string());
    assert!(matches!(route_inbound(&msg), InboundRoute::Channels));
    assert!(matches!(route_inbound(&ProtocolMessage::heartbeat()), InboundRoute::Ignore));
}

#[test]
fn realtime_requests_carry_serials() {
    let mut serial: i64 = 0;
    let s1 = next_msg_serial(&mut serial);
    assert_eq!(s1, 1);
    let m = publish_request("room", Message::empty(), s1);
    assert_eq!(m.action, Action::Message);
    assert_eq!(m.msg_serial, Some(1));
    assert_eq!(m.channel.as_deref(), Some("room"));
    let s2 = next_msg_serial(&mut serial);
    let p = presence_request("room", PresenceAction::Leave, None, s2);
    assert_eq!(p.msg_serial, Some(2));
    let ps = p.presence.unwrap();
    assert_eq!(ps[0].action, PresenceAction::Leave);
    assert_eq!(ps[0].client_id.as_deref(), Some("rust-client"));
}

#[test]
fn push_targets_name_their_recipient() {
    match PushTarget::Channel("news".to_string()).to_recipient() {
        JsonValue::Object(members) => {
            assert_eq!(members.len(), 1);
            assert_eq!(members[0].0, "channel");
            assert!(matches!(&members[0].1, JsonValue::String(s) if s == "news"));
        }
        other => panic!("unexpected {:?}", other),
    }
    match PushTarget::Devices(vec!["a".to_string(), "b".to_string()]).to_recipient() {
        JsonValue::Object(members) => {
            assert_eq!(members[0].0, "deviceIds");
            match &members[0].1 {
                JsonValue::Array(items) => assert_eq!(items.len(), 2),
                other => panic!("unexpected {:?}", other),
            }
        }
        other => panic!("unexpected {:?}", other),
    }
}

#[test]
fn logging_plugin_takes_level_setting() {
    let mut plugin = LoggingPlugin::new("info");
    assert_eq!(plugin.name(), "logging");
    assert_eq!(plugin.version(), "1.0.0");
    plugin.initialize(PluginConfig::default()).unwrap();
    assert_eq!(plugin.level(), "info");
    let mut config = PluginConfig::default();
    config.settings.insert("level".to_string(), "debug".to_string());
    plugin.initialize(config).unwrap();
    assert_eq!(plugin.level(), "debug");
}

#[test]
fn encryption_plugin_round_trip() {
    let params = CipherParams::aes128_cbc(vec![7u8; 16]).unwrap();
    let plugin = EncryptionPlugin::new(ChannelCipher::new(params));
    assert_eq!(plugin.name(), "encryption");
    let mut m = Message::empty();
    plugin.process_outbound(&mut m, b"{}").unwrap();
    assert!(m.data.is_none());
    m.data = Some(JsonValue::String("x".to_string()));
    plugin.process_outbound(&mut m, b"{\"a\":1}").unwrap();
    assert_eq!(m.encoding.as_deref(), Some("utf-8/cipher+aes-128-cbc/base64"));
    let text = plugin.process_inbound(&m).unwrap();
    assert_eq!(text.as_deref(), Some("{\"a\":1}"));
    let plain = Message::empty();
    assert_eq!(plugin.process_inbound(&plain).unwrap(), None);
}
