use ably_core::delta::channel_delta::{DeltaChannelConfig, DeltaDecodeStats};
use ably_core::delta::vcdiff::MockVcdiffEncoder;
use ably_core::delta::{ChannelDeltaHandler, DeltaContext, DeltaPlugin, DeltaProcessor, VcdiffDecoder};
use ably_core::error::AblyError;
use ably_core::protocol::json::JsonValue;
use ably_core::protocol::messages::{Message, ProtocolMessage};
use ably_core::strmap::StringMap;
use base64::Engine;

#[test]
fn test_delta_context_creation() {
    let context = DeltaContext::new();
    assert!(!context.has_delta_support());
    assert!(context.base_encoded_previous_payload.is_none());
}

#[test]
fn test_delta_context_plugin_management() {
    let mut context = DeltaContext::new();
    let decoder = VcdiffDecoder::new();
    let plugin = DeltaPlugin::new(decoder);
    context.add_plugin("vcdiff", plugin);
    assert!(context.has_delta_support());
}

#[test]
fn test_delta_processor_creation() {
    let context = DeltaContext::new();
    let processor = DeltaProcessor::new(context);
    assert!(!processor.is_recovery_in_progress());
    assert!(processor.last_channel_serial().is_none());
}

#[test]
fn test_decode_failure_recovery() {
    let context = DeltaContext::new();
    let mut processor = DeltaProcessor::new(context);
    assert!(processor.start_decode_failure_recovery());
    assert!(processor.is_recovery_in_progress());
    assert!(!processor.start_decode_failure_recovery());
    processor.complete_decode_failure_recovery();
    assert!(!processor.is_recovery_in_progress());
}

#[test]
fn test_channel_delta_handler_creation() {
    let context = DeltaContext::new();
    let handler = ChannelDeltaHandler::new("test-channel".to_string(), context);
    assert_eq!(handler.channel_name, "test-channel");
    assert!(!handler.is_delta_enabled());
}

#[test]
fn test_delta_channel_config() {
    let config = DeltaChannelConfig::new().with_vcdiff().with_max_output_size(1024).with_recovery(true);
    let params = config.build_params();
    assert_eq!(params.get("delta"), Some(&"vcdiff".to_string()));
}

#[test]
fn test_delta_enable_disable() {
    let context = DeltaContext::new();
    let mut handler = ChannelDeltaHandler::new("test-channel".to_string(), context);
    assert!(!handler.is_delta_enabled());
    let mut params = StringMap::new();
    params.insert("delta".to_string(), "vcdiff".to_string());
    handler.set_channel_params(params);
    assert!(handler.is_delta_enabled());
}

#[test]
fn test_recoverable_error_detection() {
    let context = DeltaContext::new();
    let handler = ChannelDeltaHandler::new("test-channel".to_string(), context);
    let recoverable_error =
        AblyError::decoding("Delta message decode failure - previous message not available".to_string());
    assert!(handler.is_recoverable_delta_error(&recoverable_error));
    let non_recoverable_error = AblyError::unexpected("Some other error".to_string());
    assert!(!handler.is_recoverable_delta_error(&non_recoverable_error));
}

#[test]
fn test_configuration_validation() {
    let mut context = DeltaContext::new();
    let decoder = VcdiffDecoder::new();
    let plugin = DeltaPlugin::new(decoder);
    context.add_plugin("vcdiff", plugin);
    let mut handler = ChannelDeltaHandler::new("test-channel".to_string(), context);
    let mut params = StringMap::new();
    params.insert("delta".to_string(), "vcdiff".to_string());
    handler.set_channel_params(params);
    assert!(handler.validate_configuration().is_ok());
}

#[test]
fn test_recovery_attach_message() {
    let context = DeltaContext::new();
    let handler = ChannelDeltaHandler::new("test-channel".to_string(), context);
    let attach_data = handler.create_recovery_attach_message();
    assert!(attach_data.is_empty() || attach_data.contains_key("params"));
}

#[test]
fn decode_stats_start_at_zero() {
    let stats = DeltaDecodeStats::default();
    assert_eq!(stats.successful_decodes, 0);
    assert_eq!(stats.failed_decodes, 0);
    assert_eq!(stats.recovery_attempts, 0);
    assert_eq!(stats.successful_recoveries, 0);
}

#[test]
fn validation_fails_without_decoder() {
    let context = DeltaContext::new();
    let mut handler = ChannelDeltaHandler::new("c".to_string(), context);
    let mut params = StringMap::new();
    params.insert("delta".to_string(), "vcdiff".to_string());
    handler.set_channel_params(params);
    let err = handler.validate_configuration().unwrap_err();
    match err {
        AblyError::BadRequest { message } => {
            assert_eq!(message, "Missing Vcdiff decoder plugin for delta compression")
        }
        other => panic!("unexpected error {:?}", other),
    }
}

fn message(id: &str, data: Option<JsonValue>, extras: Option<Vec<(String, JsonValue)>>) -> Message {
    let mut m = Message::empty();
    m.id = Some(id.to_string());
    m.data = data;
    m.extras = extras;
    m
}

fn delta_extras(from: &str) -> Option<Vec<(String, JsonValue)>> {
    Some(vec![(
        "delta".to_string(),
        JsonValue::Object(vec![
            ("from".to_string(), JsonValue::String(from.to_string())),
            ("format".to_string(), JsonValue::String("vcdiff".to_string())),
        ]),
    )])
}

#[test]
fn plain_messages_pass_through_and_are_tracked() {
    let mut processor = DeltaProcessor::new(DeltaContext::new());
    let mut pm = ProtocolMessage::message("ch".to_string(), vec![message("m1", Some(JsonValue::String("a".into())), None)]);
    pm.channel_serial = Some("serial-1".to_string());
    let out = processor.process_message(&pm).unwrap();
    assert_eq!(out.len(), 1);
    assert_eq!(out[0].id.as_deref(), Some("m1"));
    assert_eq!(processor.last_channel_serial(), Some("serial-1"));
}

#[test]
fn delta_from_other_message_is_refused() {
    let mut processor = DeltaProcessor::new(DeltaContext::new());
    let pm = ProtocolMessage::message(
        "ch".to_string(),
        vec![message("m2", Some(JsonValue::String("AAAA".into())), delta_extras("m1"))],
    );
    let err = processor.process_message(&pm).unwrap_err();
    assert_eq!(
        err.to_display_string(),
        "Decode error: Delta message decode failure - previous message not available for message \"m2\""
    );
}

#[test]
fn delta_without_from_is_refused() {
    let mut processor = DeltaProcessor::new(DeltaContext::new());
    let extras = Some(vec![("delta".to_string(), JsonValue::Object(vec![]))]);
    let pm = ProtocolMessage::message("ch".to_string(), vec![message("m2", None, extras)]);
    let err = processor.process_message(&pm).unwrap_err();
    assert_eq!(err.to_display_string(), "Decode error: Missing delta.from field");
}

#[test]
fn delta_is_decoded_against_base_payload() {
    let mut context = DeltaContext::new();
    context.add_plugin("vcdiff", DeltaPlugin::new(VcdiffDecoder::new()));
    context.set_base_payload(b"Hello".to_vec());
    let mut processor = DeltaProcessor::new(context);
    let first = ProtocolMessage::message("ch".to_string(), vec![message("m1", None, None)]);
    processor.process_message(&first).unwrap();
    // Header "VCD", version 0, no header flags; one window without a source
    // segment: delta length 4, target length 3, then ADD(3) "Hi!".
    let delta: Vec<u8> = vec![0x56, 0x43, 0x44, 0x00, 0x00, 0x00, 0x04, 0x03, 0x18, b'H', b'i', b'!'];
    let text = base64::engine::general_purpose::STANDARD.encode(&delta);
    let second = ProtocolMessage::message(
        "ch".to_string(),
        vec![message("m2", Some(JsonValue::String(text)), delta_extras("m1"))],
    );
    let out = processor.process_message(&second).unwrap();
    assert_eq!(out.len(), 1);
    assert_eq!(out[0].id.as_deref(), Some("m2"));
    match &out[0].data {
        Some(JsonValue::String(t)) => assert_eq!(t, "Hi!"),
        other => panic!("unexpected data {:?}", other),
    }
}

#[test]
fn handler_passes_messages_through_without_delta_mode() {
    let mut handler = ChannelDeltaHandler::new("ch".to_string(), DeltaContext::new());
    let pm = ProtocolMessage::message("ch".to_string(), vec![message("m1", None, None)]);
    let out = handler.process_protocol_message(&pm).unwrap();
    assert_eq!(out.len(), 1);
    assert_eq!(handler.decode_stats().successful_decodes, 0);
}

#[test]
fn handler_reports_recoverable_failure_as_40018() {
    let mut handler = ChannelDeltaHandler::new("ch".to_string(), DeltaContext::new());
    let mut params = StringMap::new();
    params.insert("delta".to_string(), "vcdiff".to_string());
    handler.set_channel_params(params);
    let pm = ProtocolMessage::message(
        "ch".to_string(),
        vec![message("m2", Some(JsonValue::String("AAAA".into())), delta_extras("m1"))],
    );
    let err = handler.process_protocol_message(&pm).unwrap_err();
    match err {
        AblyError::BadRequest { message } => assert!(message.starts_with("Delta decode failure for channel ch: ")),
        other => panic!("unexpected error {:?}", other),
    }
    assert!(handler.is_recovery_in_progress());
    assert_eq!(handler.decode_stats().failed_decodes, 1);
    assert_eq!(handler.decode_stats().recovery_attempts, 1);
    handler.complete_recovery();
    assert!(!handler.is_recovery_in_progress());
}

#[test]
fn recovery_attach_message_carries_params_when_delta_on() {
    let mut handler = ChannelDeltaHandler::new("ch".to_string(), DeltaContext::new());
    let mut params = StringMap::new();
    params.insert("delta".to_string(), "vcdiff".to_string());
    handler.set_channel_params(params);
    let attach = handler.create_recovery_attach_message();
    assert!(attach.contains_key("params"));
    assert!(!attach.contains_key("channelSerial"));
}

#[test]
fn mock_delta_is_not_a_valid_window() {
    let delta = MockVcdiffEncoder::create_simple_delta(b"a", b"b");
    let mut plugin = DeltaPlugin::new(VcdiffDecoder::new());
    assert!(plugin.decode_message(&delta, b"a").is_err());
    assert_eq!(plugin.decode_count(), 0);
}

#[test]
fn updated_base_payload_is_used_by_next_delta() {
    let mut context = DeltaContext::new();
    context.add_plugin("vcdiff", DeltaPlugin::new(VcdiffDecoder::new()));
    let mut handler = ChannelDeltaHandler::new("ch".to_string(), context);
    let mut params = StringMap::new();
    params.insert("delta".to_string(), "vcdiff".to_string());
    handler.set_channel_params(params);
    let first = ProtocolMessage::message("ch".to_string(), vec![message("m1", None, None)]);
    handler.process_protocol_message(&first).unwrap();
    handler.update_base_payload(b"Hello".to_vec());
    let delta: Vec<u8> =
        vec![0x56, 0x43, 0x44, 0x00, 0x00, 0x01, 0x05, 0x00, 0x05, 0x06, 0x43, 0x00, 0x17, b'o', b'!'];
    let text = base64::engine::general_purpose::STANDARD.encode(&delta);
    let second = ProtocolMessage::message(
        "ch".to_string(),
        vec![message("m2", Some(JsonValue::String(text)), delta_extras("m1"))],
    );
    let out = handler.process_protocol_message(&second).unwrap();
    match &out[0].data {
        Some(JsonValue::String(t)) => assert_eq!(t, "Hello!"),
        other => panic!("unexpected data {:?}", other),
    }
}
