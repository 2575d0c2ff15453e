//! Authentication: the modes a client authenticates with, tokens and token
//! requests, and their signing.

pub mod jwt;

use vstd::prelude::*;

verus! {

/// How a client authenticates.
#[derive(Debug, Clone)]
pub enum AuthMode {
    /// With an API key `name:secret`.
    ApiKey(String),
    /// With a token.
    Token(String),
}

impl AuthMode {
    /// API key authentication with `key`.
    pub fn api_key(key: &str) -> (m: AuthMode)
        ensures
            m matches AuthMode::ApiKey(k) && k@ == key@,
    {
        AuthMode::ApiKey(crate::text::owned(key))
    }

    /// Token authentication with `token`.
    pub fn token(token: &str) -> (m: AuthMode)
        ensures
            m matches AuthMode::Token(t) && t@ == token@,
    {
        AuthMode::Token(crate::text::owned(token))
    }
}

/// A token, as a token request returns it.
#[derive(Debug, Clone)]
pub struct TokenDetails {
    pub token: String,
    pub expires: Option<i64>,
    pub issued: Option<i64>,
    pub capability: Option<String>,
    pub client_id: Option<String>,
}

/// A signed request for a token.
#[derive(Debug, Clone)]
pub struct TokenRequest {
    pub key_name: Option<String>,
    pub ttl: Option<i64>,
    pub capability: Option<String>,
    pub client_id: Option<String>,
    pub timestamp: Option<i64>,
    pub nonce: Option<String>,
    pub mac: Option<String>,
}

} // verus!
