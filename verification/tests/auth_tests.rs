use ably_core::auth::jwt::{JwtAuth, TokenRenewalHandler};
use ably_core::auth::TokenDetails;
use std::time::{SystemTime, UNIX_EPOCH};

fn now_ms() -> i64 {
    SystemTime::now().duration_since(UNIX_EPOCH).unwrap().as_millis() as i64
}

#[test]
fn test_jwt_auth_initialization() {
    let jwt_auth = JwtAuth::new("app.key:secret");
    assert_eq!(jwt_auth.key_name, "app.key");
    assert_eq!(jwt_auth.key_secret, "secret");
}

#[test]
fn test_token_request_builder() {
    let jwt_auth = JwtAuth::new("app.key:secret");
    let request = jwt_auth.create_token_request().with_ttl(3600).with_client_id("test-client").build().unwrap();
    assert_eq!(request.key_name.as_deref(), Some("app.key"));
    assert_eq!(request.ttl, Some(3600000));
    assert_eq!(request.client_id.as_deref(), Some("test-client"));
    assert!(request.mac.is_some());
}

#[test]
fn test_token_expiry_check() {
    let jwt_auth = JwtAuth::new("app.key:secret");
    let expired_token = TokenDetails {
        token: "test".to_string(),
        expires: Some(1000),
        issued: Some(500),
        capability: None,
        client_id: None,
    };
    assert!(jwt_auth.is_token_expired(&expired_token));
    let valid_token = TokenDetails {
        token: "test".to_string(),
        expires: Some(now_ms() + 3600000),
        issued: Some(0),
        capability: None,
        client_id: None,
    };
    assert!(!jwt_auth.is_token_expired(&valid_token));
}

#[test]
fn test_renewal_handler() {
    let mut handler = TokenRenewalHandler::new("app.key:secret");
    assert!(handler.needs_renewal());
    let valid_token = TokenDetails {
        token: "test".to_string(),
        expires: Some(now_ms() + 7200000),
        issued: Some(0),
        capability: None,
        client_id: None,
    };
    handler.set_token(valid_token);
    assert!(!handler.needs_renewal());
    assert!(handler.get_valid_token().is_some());
}

#[test]
fn signed_request_verifies() {
    let jwt_auth = JwtAuth::new("app.key:secret");
    let mut request = jwt_auth.create_token_request().with_capability("{\"*\":[\"*\"]}").build().unwrap();
    assert_eq!(jwt_auth.verify_mac(&request).unwrap(), true);
    request.nonce = Some("other".to_string());
    assert_eq!(jwt_auth.verify_mac(&request).unwrap(), false);
    request.mac = None;
    assert!(jwt_auth.verify_mac(&request).is_err());
}

#[test]
fn signing_text_lists_fields_by_line() {
    let jwt_auth = JwtAuth::new("app.key:secret");
    let request = ably_core::auth::TokenRequest {
        key_name: None,
        ttl: Some(-5),
        capability: None,
        client_id: Some("c".to_string()),
        timestamp: Some(12),
        nonce: None,
        mac: None,
    };
    assert_eq!(jwt_auth.build_signing_text(&request), "app.key\n-5\n\nc\n12\n");
}

#[test]
fn malformed_keys_split_as_the_key_says() {
    let a = JwtAuth::new("nocolon");
    assert_eq!(a.key_name, ".");
    assert_eq!(a.key_secret, "");
    let b = JwtAuth::new("a:b:c");
    assert_eq!(b.key_name, ".");
    assert_eq!(b.key_secret, "b");
    let c = JwtAuth::new("app:secret");
    assert_eq!(c.key_name, "app.");
}

#[test]
fn renewal_threshold_decides_at_a_time() {
    let mut handler = TokenRenewalHandler::new("app.key:secret");
    handler.set_token(TokenDetails {
        token: "t".to_string(),
        expires: Some(100_000),
        issued: None,
        capability: None,
        client_id: None,
    });
    assert!(!handler.needs_renewal_at(39_999));
    assert!(handler.needs_renewal_at(40_000));
    handler.set_renewal_threshold(0);
    assert!(!handler.needs_renewal_at(99_999));
    assert!(handler.get_valid_token_at(99_999).is_some());
    assert!(handler.get_valid_token_at(100_000).is_none());
}
