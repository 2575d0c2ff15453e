use ably_core::crypto::{generate_random_key, CipherAlgorithm, MessageCrypto};
use ably_core::encryption::channel_cipher::{ChannelCipher, ChannelOptions};
use ably_core::encryption::{AblyCrypto, CipherParams};
use ably_core::error::AblyError;
use ably_core::protocol::json::JsonValue;
use ably_core::protocol::messages::Message;
use base64::Engine;

const BASE64: base64::engine::GeneralPurpose = base64::engine::general_purpose::STANDARD;

#[test]
fn test_cipher_params_creation() {
    let key_128 = vec![0u8; 16];
    let params = CipherParams::new(key_128).unwrap();
    assert_eq!(params.key_length, 128);
    assert_eq!(params.algorithm, "aes");
    assert_eq!(params.mode, "cbc");
    let key_256 = vec![0u8; 32];
    let params = CipherParams::new(key_256).unwrap();
    assert_eq!(params.key_length, 256);
    let key_invalid = vec![0u8; 24];
    assert!(CipherParams::new(key_invalid).is_err());
}

#[test]
fn test_base64_key_parsing() {
    let base64_key = BASE64.encode(&vec![0u8; 16]);
    let params = CipherParams::from_base64_key(&base64_key).unwrap();
    assert_eq!(params.key_length, 128);
    assert!(CipherParams::from_base64_key("invalid-base64!").is_err());
}

#[test]
fn test_random_key_generation() {
    let params_128 = CipherParams::generate_random_key(Some(128)).unwrap();
    assert_eq!(params_128.key_length, 128);
    assert_eq!(params_128.key.len(), 16);
    let params_256 = CipherParams::generate_random_key(Some(256)).unwrap();
    assert_eq!(params_256.key_length, 256);
    assert_eq!(params_256.key.len(), 32);
    let params_default = CipherParams::generate_random_key(None).unwrap();
    assert_eq!(params_default.key_length, 256);
}

#[test]
fn test_aes128_encryption_decryption() {
    let params = CipherParams::generate_random_key(Some(128)).unwrap();
    let plaintext = b"Hello, Ably encryption!";
    let ciphertext = AblyCrypto::encrypt(&params, plaintext).unwrap();
    assert!(ciphertext.len() > plaintext.len());
    let decrypted = AblyCrypto::decrypt(&params, &ciphertext).unwrap();
    assert_eq!(decrypted, plaintext);
}

#[test]
fn test_aes256_encryption_decryption() {
    let params = CipherParams::generate_random_key(Some(256)).unwrap();
    let plaintext = b"Hello, Ably encryption with AES-256!";
    let ciphertext = AblyCrypto::encrypt(&params, plaintext).unwrap();
    assert!(ciphertext.len() > plaintext.len());
    let decrypted = AblyCrypto::decrypt(&params, &ciphertext).unwrap();
    assert_eq!(decrypted, plaintext);
}

#[test]
fn test_algorithm_string_format() {
    let params_128 = CipherParams::generate_random_key(Some(128)).unwrap();
    assert_eq!(params_128.algorithm_string(), "aes-128-cbc");
    let params_256 = CipherParams::generate_random_key(Some(256)).unwrap();
    assert_eq!(params_256.algorithm_string(), "aes-256-cbc");
}

#[test]
fn test_encryption_with_different_keys_produces_different_results() {
    let params1 = CipherParams::generate_random_key(Some(256)).unwrap();
    let params2 = CipherParams::generate_random_key(Some(256)).unwrap();
    let plaintext = b"Same plaintext";
    let ciphertext1 = AblyCrypto::encrypt(&params1, plaintext).unwrap();
    let ciphertext2 = AblyCrypto::encrypt(&params2, plaintext).unwrap();
    assert_ne!(ciphertext1, ciphertext2);
}

#[test]
fn test_multiple_encryptions_produce_different_results() {
    let params = CipherParams::generate_random_key(Some(256)).unwrap();
    let plaintext = b"Same plaintext";
    let ciphertext1 = AblyCrypto::encrypt(&params, plaintext).unwrap();
    let ciphertext2 = AblyCrypto::encrypt(&params, plaintext).unwrap();
    assert_ne!(ciphertext1, ciphertext2);
    let decrypted1 = AblyCrypto::decrypt(&params, &ciphertext1).unwrap();
    let decrypted2 = AblyCrypto::decrypt(&params, &ciphertext2).unwrap();
    assert_eq!(decrypted1, plaintext);
    assert_eq!(decrypted2, plaintext);
}

#[test]
fn test_channel_cipher_creation() {
    let cipher = ChannelCipher::generate_random(Some(256)).unwrap();
    assert_eq!(cipher.algorithm(), "aes-256-cbc");
    assert!(!cipher.key_base64().is_empty());
}

#[test]
fn test_channel_options() {
    let options = ChannelOptions::new().with_random_cipher(Some(256)).unwrap();
    assert!(options.cipher.is_some());
    assert_eq!(options.cipher.unwrap().algorithm(), "aes-256-cbc");
}

#[test]
fn test_cipher_encoding_manipulation() {
    let cipher = ChannelCipher::generate_random(Some(256)).unwrap();
    assert_eq!(cipher.add_cipher_encoding(None), "cipher+aes-256-cbc");
    assert_eq!(cipher.add_cipher_encoding(Some("json")), "json/cipher+aes-256-cbc");
    assert!(cipher.has_cipher_encoding("cipher+aes-256-cbc"));
    assert!(cipher.has_cipher_encoding("json/cipher+aes-256-cbc"));
    assert!(!cipher.has_cipher_encoding("json"));
    assert_eq!(cipher.remove_cipher_encoding("cipher+aes-256-cbc"), "");
    assert_eq!(cipher.remove_cipher_encoding("json/cipher+aes-256-cbc"), "json");
}

#[test]
fn test_message_encryption_decryption() {
    let cipher = ChannelCipher::generate_random(Some(256)).unwrap();
    let mut original_message = Message::empty();
    original_message.id = Some("test-msg-1".to_string());
    original_message.name = Some("test".to_string());
    original_message.data = Some(JsonValue::String("Hello, encrypted world!".to_string()));
    original_message.timestamp = Some(1234567890);
    let encrypted = cipher.encrypt_message(original_message.clone(), None).unwrap();
    assert!(encrypted.encoding.is_some());
    assert!(encrypted.encoding.as_ref().unwrap().contains("cipher+aes-256-cbc"));
    assert_ne!(format!("{:?}", encrypted.data), format!("{:?}", original_message.data));
    let decrypted = cipher.decrypt_message(encrypted).unwrap();
    assert_eq!(format!("{:?}", decrypted.message.data), format!("{:?}", original_message.data));
    assert_eq!(decrypted.message.name, original_message.name);
    assert_eq!(decrypted.message.id, original_message.id);
}

#[test]
fn test_message_with_existing_encoding() {
    let cipher = ChannelCipher::generate_random(Some(128)).unwrap();
    let mut original_message = Message::empty();
    original_message.id = Some("test-msg-2".to_string());
    original_message.name = Some("test".to_string());
    original_message.data =
        Some(JsonValue::Object(vec![("key".to_string(), JsonValue::String("value".to_string()))]));
    original_message.encoding = Some("json".to_string());
    original_message.timestamp = Some(1234567890);
    let json_text = br#"{"key":"value"}"#.to_vec();
    let encrypted = cipher.encrypt_message(original_message.clone(), Some(json_text.clone())).unwrap();
    assert_eq!(encrypted.encoding, Some("json/cipher+aes-128-cbc".to_string()));
    let decrypted = cipher.decrypt_message(encrypted).unwrap();
    assert_eq!(decrypted.message.encoding, Some("json".to_string()));
    assert_eq!(decrypted.json_payload, Some(json_text));
}

#[test]
fn test_different_data_types_encryption() {
    let cipher = ChannelCipher::generate_random(Some(256)).unwrap();

    let mut string_msg = Message::empty();
    string_msg.id = Some("str".to_string());
    string_msg.name = Some("test".to_string());
    string_msg.data = Some(JsonValue::String("plain string".to_string()));
    string_msg.timestamp = Some(1234567890);
    let encrypted = cipher.encrypt_message(string_msg.clone(), None).unwrap();
    let decrypted = cipher.decrypt_message(encrypted).unwrap();
    assert_eq!(format!("{:?}", decrypted.message.data), format!("{:?}", string_msg.data));

    let mut object_msg = Message::empty();
    object_msg.id = Some("obj".to_string());
    object_msg.name = Some("test".to_string());
    object_msg.data = Some(JsonValue::Object(vec![
        ("number".to_string(), JsonValue::Number("42".to_string())),
        ("bool".to_string(), JsonValue::Bool(true)),
    ]));
    object_msg.timestamp = Some(1234567890);
    let json_text = br#"{"bool":true,"number":42}"#.to_vec();
    let encrypted = cipher.encrypt_message(object_msg.clone(), Some(json_text.clone())).unwrap();
    assert_eq!(encrypted.encoding, Some("json/cipher+aes-256-cbc".to_string()));
    let decrypted = cipher.decrypt_message(encrypted).unwrap();
    assert_eq!(decrypted.message.encoding, Some("json".to_string()));
    assert!(decrypted.message.data.is_none());
    assert_eq!(decrypted.message.id, object_msg.id);
    let payload = decrypted.json_payload.unwrap();
    assert_eq!(payload, json_text);
    let parsed: serde_json::Value = serde_json::from_slice(&payload).unwrap();
    let mut expected = serde_json::Map::new();
    expected.insert("number".to_string(), serde_json::Value::from(42));
    expected.insert("bool".to_string(), serde_json::Value::Bool(true));
    assert_eq!(parsed, serde_json::Value::Object(expected));
}

#[test]
fn object_without_encoding_gains_json_step() {
    let cipher = ChannelCipher::generate_random(Some(128)).unwrap();
    let mut m = Message::empty();
    m.data = Some(JsonValue::Array(vec![JsonValue::Number("1".to_string())]));
    m.encoding = Some(String::new());
    let encrypted = cipher.encrypt_message(m, Some(b"[1]".to_vec())).unwrap();
    assert_eq!(encrypted.encoding, Some("json/cipher+aes-128-cbc".to_string()));
    let decrypted = cipher.decrypt_message(encrypted).unwrap();
    assert_eq!(decrypted.json_payload, Some(b"[1]".to_vec()));
    let mut s = Message::empty();
    s.data = Some(JsonValue::Bool(true));
    let encrypted = cipher.encrypt_message(s, None).unwrap();
    assert_eq!(encrypted.encoding, Some("cipher+aes-128-cbc".to_string()));
}

#[test]
fn key_base64_decodes_to_key() {
    let c = ChannelCipher::generate_random(Some(256)).unwrap();
    let k = c.key_base64();
    assert_eq!(k.len(), 44);
    assert_eq!(BASE64.decode(&k).unwrap(), c.params().key);
    let c = ChannelCipher::generate_random(Some(128)).unwrap();
    assert_eq!(c.key_base64().len(), 24);
}

#[test]
fn random_cipher_with_bad_length_is_bad_request() {
    let err = ChannelOptions::new().with_random_cipher(Some(192)).unwrap_err();
    assert_eq!(
        err.to_display_string(),
        "Bad request: Unsupported key length 192 bits. Must be 128 or 256 bits"
    );
    assert!(ChannelCipher::generate_random(Some(64)).is_err());
}

#[test]
fn decrypting_garbage_fails() {
    let params = CipherParams::new(vec![7u8; 16]).unwrap();
    assert!(AblyCrypto::decrypt(&params, &[1, 2, 3]).is_err());
    assert!(AblyCrypto::decrypt(&params, &[0u8; 20]).is_err());
}

#[test]
fn unsupported_key_length_message() {
    let err = CipherParams::new(vec![0u8; 24]).unwrap_err();
    assert_eq!(
        err.to_display_string(),
        "Bad request: Unsupported key length 192 bits. Must be 128 or 256 bits (16 or 32 bytes)"
    );
}

#[test]
fn crypto_module_round_trip() {
    let key = generate_random_key(CipherAlgorithm::Aes128);
    let params = ably_core::crypto::CipherParams::aes128_cbc(key).unwrap();
    assert_eq!(params.encoding_string(), "cipher+aes-128-cbc/base64");
    let crypto = MessageCrypto::new(params);
    let mut m = Message::empty();
    m.data = Some(JsonValue::String("secret".to_string()));
    crypto.encrypt_message(&mut m, None).unwrap();
    assert_eq!(m.encoding.as_deref(), Some("cipher+aes-128-cbc/base64"));
    let text = crypto.decrypt_message(&mut m).unwrap();
    assert_eq!(text.as_deref(), Some("secret"));
    assert_eq!(m.encoding.as_deref(), Some("base64"));
}

#[test]
fn cbc_params_refuse_wrong_key_size() {
    match ably_core::crypto::CipherParams::aes256_cbc(vec![0u8; 16]) {
        Err(AblyError::Internal { message }) => assert_eq!(message, "Invalid key size: expected 32 bytes, got 16"),
        other => panic!("unexpected {:?}", other),
    }
    match ably_core::crypto::CipherParams::aes128_cbc(vec![0u8; 5]) {
        Err(AblyError::Internal { message }) => assert_eq!(message, "Invalid key size: expected 16 bytes, got 5"),
        other => panic!("unexpected {:?}", other),
    }
    let p = ably_core::crypto::CipherParams::aes256_cbc(vec![0u8; 32]).unwrap();
    assert!(p.iv.is_none());
}

#[test]
fn key_as_base64_is_padded_standard_base64() {
    let params = CipherParams::new(vec![0xfbu8; 16]).unwrap();
    assert_eq!(params.key_as_base64(), "+/v7+/v7+/v7+/v7+/v7+w==");
    assert_eq!(params.key_as_base64(), BASE64.encode(vec![0xfbu8; 16]));
}
