//! Token requests signed with an API key: the key's name and secret, the
//! text that is signed, its HMAC-SHA256 signature, and token expiry and
//! renewal.

use super::{TokenDetails, TokenRequest};
use crate::codec::{
    base64_encode, base64_encoding, base64_url_encode, base64_url_encoding, hmac_sha256, hmac_sha256_digest,
    random_bytes,
};
use crate::error::{AblyError, AblyResult};
use crate::protocol::messages::{clone_opt_string, opt_text};
use crate::text::{
    append, chars_of, i64_to_string, lemma_split_on_nonempty, owned, push_char, signed_decimal, split_chars,
    split_on, string_of,
};
use crate::time::unix_millis_now;
use vstd::prelude::*;

verus! {

/// The name and the secret of an API key `name:secret`, as the key is
/// split: on `:` into exactly two parts, the first of which is split on
/// `.`; with any other number of parts the name is `.`.
pub open spec fn spec_key_parts(api_key: Seq<char>) -> (Seq<char>, Seq<char>) {
    let parts = split_on(api_key, ':');
    let kp = if parts.len() == 2 {
        split_on(parts[0], '.')
    } else {
        seq![Seq::<char>::empty(), Seq::<char>::empty()]
    };
    let name = kp[0] + "."@ + (if kp.len() > 1 {
        kp[1]
    } else {
        Seq::<char>::empty()
    });
    let secret = if parts.len() > 1 {
        parts[1]
    } else {
        Seq::<char>::empty()
    };
    (name, secret)
}

/// The text of an optional string, or nothing.
pub open spec fn text_or_empty(o: Option<String>) -> Seq<char> {
    match o {
        Some(s) => s@,
        None => Seq::<char>::empty(),
    }
}

/// The decimal text of an optional number, or nothing.
pub open spec fn number_or_empty(o: Option<i64>) -> Seq<char> {
    match o {
        Some(n) => signed_decimal(n as int),
        None => Seq::<char>::empty(),
    }
}

/// The text a token request is signed over: key name (the request's, else
/// the key's), ttl, capability, client id, timestamp and nonce, one per
/// line, absent fields empty.
pub open spec fn signing_text(key_name: Seq<char>, r: TokenRequest) -> Seq<char> {
    (match r.key_name {
        Some(k) => k@,
        None => key_name,
    }) + "\n"@ + number_or_empty(r.ttl) + "\n"@ + text_or_empty(r.capability) + "\n"@ + text_or_empty(
        r.client_id,
    ) + "\n"@ + number_or_empty(r.timestamp) + "\n"@ + text_or_empty(r.nonce)
}

/// The MAC of a token request under a key: the base64 of the HMAC-SHA256
/// of its signing text, keyed with the secret.
pub open spec fn expected_mac(key_name: Seq<char>, key_secret: Seq<char>, r: TokenRequest) -> Seq<char> {
    base64_encoding(hmac_sha256_digest(key_secret, signing_text(key_name, r)))
}

/// The MAC a request carries takes no part in what is signed, so a request
/// keeps its signature when its MAC is set.
pub proof fn law_mac_not_signed(key_name: Seq<char>, r: TokenRequest, mac: Option<String>)
    ensures
        signing_text(key_name, TokenRequest { mac, ..r }) == signing_text(key_name, r),
{
}

/// Whether the MAC a request carries is the one the key computes; `None`
/// when it carries none.
pub open spec fn mac_verdict(key_name: Seq<char>, key_secret: Seq<char>, r: TokenRequest) -> Option<bool> {
    match r.mac {
        Some(m) => Some(m@ == expected_mac(key_name, key_secret, r)),
        None => None,
    }
}

/// A request signed with a key verifies with that key.
pub proof fn law_signed_request_verifies(key_name: Seq<char>, key_secret: Seq<char>, r: TokenRequest)
    requires
        opt_text(r.mac) == Some(expected_mac(key_name, key_secret, r)),
    ensures
        mac_verdict(key_name, key_secret, r) == Some(true),
{
}

/// Signs token requests with an API key.
#[derive(Debug)]
pub struct JwtAuth {
    /// The key's name, `app.key`.
    pub key_name: String,
    /// The key's secret.
    pub key_secret: String,
}

/// A token that expires at `expires` (when it does) has expired at time
/// `now`.
pub open spec fn expired_at(expires: Option<i64>, now: i64) -> bool {
    match expires {
        Some(e) => e <= now,
        None => false,
    }
}

impl JwtAuth {
    /// The signer of the API key `name:secret`.
    pub fn new(api_key: &str) -> (a: JwtAuth)
        ensures
            a.key_name@ == spec_key_parts(api_key@).0,
            a.key_secret@ == spec_key_parts(api_key@).1,
    {
        let chars = chars_of(api_key);
        let parts = split_chars(&chars, ':');
        let kp: Vec<Vec<char>> = if parts.len() == 2 {
            split_chars(&parts[0], '.')
        } else {
            let mut two: Vec<Vec<char>> = Vec::new();
            two.push(Vec::new());
            two.push(Vec::new());
            proof {
                assert(two@[0]@ =~= Seq::<char>::empty());
                assert(two@[1]@ =~= Seq::<char>::empty());
            }
            two
        };
        proof {
            lemma_split_on_nonempty(api_key@, ':');
            if parts@.len() == 2 {
                lemma_split_on_nonempty(parts@[0]@, '.');
            }
        }
        let mut key_name = string_of(kp[0].as_slice());
        push_char(&mut key_name, '.');
        if kp.len() > 1 {
            let second = string_of(kp[1].as_slice());
            append(&mut key_name, second.as_str());
        }
        let key_secret = if parts.len() > 1 {
            string_of(parts[1].as_slice())
        } else {
            String::new()
        };
        proof {
            reveal_strlit(".");
        }
        JwtAuth { key_name, key_secret }
    }

    /// A builder of token requests signed by this key.
    pub fn create_token_request(&self) -> (b: TokenRequestBuilder)
        ensures
            b.auth == self,
            b.ttl is None && b.capability is None && b.client_id is None,
    {
        TokenRequestBuilder::new(self)
    }

    /// Whether the MAC of `request` is the one this key computes; an error
    /// when the request carries none.
    pub fn verify_mac(&self, request: &TokenRequest) -> (r: AblyResult<bool>)
        ensures
            match mac_verdict(self.key_name@, self.key_secret@, *request) {
                None => r matches Err(AblyError::Authentication { message, code }) && message@
                    == "Missing MAC in token request"@ && code is None,
                Some(v) => r == Ok::<bool, AblyError>(v),
            },
    {
        let mac = match &request.mac {
            Some(m) => m,
            None => {
                return Err(AblyError::Authentication { message: owned("Missing MAC in token request"), code: None });
            },
        };
        match self.compute_mac(request) {
            Ok(computed) => Ok(*mac == computed),
            Err(e) => Err(e),
        }
    }

    /// Whether `token` has expired at time `now` (milliseconds since the
    /// Unix epoch): it has when it names an expiry no later than `now`.
    pub fn is_token_expired_at(&self, token: &TokenDetails, now: i64) -> (b: bool)
        ensures
            b == expired_at(token.expires, now),
    {
        match token.expires {
            Some(expires) => expires <= now,
            None => false,
        }
    }

    /// Whether `token` has expired by the system clock.
    pub fn is_token_expired(&self, token: &TokenDetails) -> (b: bool)
        ensures
            exists|now: i64| b == #[trigger] expired_at(token.expires, now),
            token.expires is None ==> !b,
    {
        let now = unix_millis_now();
        self.is_token_expired_at(token, now)
    }

    /// The MAC of `request`: the base64 of the HMAC-SHA256 of its signing
    /// text, keyed with the secret.
    pub fn compute_mac(&self, request: &TokenRequest) -> (r: AblyResult<String>)
        ensures
            r matches Ok(m) && m@ == expected_mac(self.key_name@, self.key_secret@, *request),
    {
        let signing_text = self.build_signing_text(request);
        match hmac_sha256(self.key_secret.as_str(), signing_text.as_str()) {
            Ok(digest) => Ok(base64_encode(digest.as_slice())),
            Err(e) => {
                let mut message = owned("Failed to create HMAC: ");
                append(&mut message, e.as_str());
                Err(AblyError::Authentication { message, code: None })
            },
        }
    }

    /// The text `request` is signed over.
    pub fn build_signing_text(&self, request: &TokenRequest) -> (t: String)
        ensures
            t@ == signing_text(self.key_name@, *request),
    {
        let mut text = match &request.key_name {
            Some(k) => k.clone(),
            None => self.key_name.clone(),
        };
        append(&mut text, "\n");
        match request.ttl {
            Some(ttl) => {
                let s = i64_to_string(ttl);
                append(&mut text, s.as_str());
            },
            None => {},
        }
        append(&mut text, "\n");
        match &request.capability {
            Some(c) => append(&mut text, c.as_str()),
            None => {},
        }
        append(&mut text, "\n");
        match &request.client_id {
            Some(c) => append(&mut text, c.as_str()),
            None => {},
        }
        append(&mut text, "\n");
        match request.timestamp {
            Some(ts) => {
                let s = i64_to_string(ts);
                append(&mut text, s.as_str());
            },
            None => {},
        }
        append(&mut text, "\n");
        match &request.nonce {
            Some(n) => append(&mut text, n.as_str()),
            None => {},
        }
        proof {
            assert(text@ =~= signing_text(self.key_name@, *request));
        }
        text
    }

    /// A random nonce: sixteen random bytes in URL-safe base64. The bytes
    /// depend on chance: the nonce is the encoding of some sixteen bytes.
    pub fn generate_nonce() -> (n: String)
        ensures
            exists|b: Seq<u8>| b.len() == 16 && n@ == #[trigger] base64_url_encoding(b),
    {
        let bytes = random_bytes(16);
        base64_url_encode(bytes.as_slice())
    }

    /// The system time, in milliseconds since the Unix epoch.
    pub fn get_timestamp() -> i64 {
        unix_millis_now()
    }
}

/// Builds a token request, signed with its key when built.
pub struct TokenRequestBuilder<'a> {
    pub auth: &'a JwtAuth,
    pub ttl: Option<i64>,
    pub capability: Option<String>,
    pub client_id: Option<String>,
}

impl<'a> TokenRequestBuilder<'a> {
    /// A builder with nothing set.
    pub fn new(auth: &'a JwtAuth) -> (b: TokenRequestBuilder<'a>)
        ensures
            b.auth == auth,
            b.ttl is None && b.capability is None && b.client_id is None,
    {
        TokenRequestBuilder { auth, ttl: None, capability: None, client_id: None }
    }

    /// Sets the time to live, given in seconds, kept in milliseconds.
    pub fn with_ttl(self, ttl: i64) -> (b: TokenRequestBuilder<'a>)
        requires
            i64::MIN <= ttl * 1000 <= i64::MAX,
        ensures
            b.ttl == Some((ttl * 1000) as i64),
            b.auth == self.auth && b.capability == self.capability && b.client_id == self.client_id,
    {
        TokenRequestBuilder { ttl: Some(ttl * 1000), ..self }
    }

    /// Sets the capability, as JSON text.
    pub fn with_capability(self, capability: &str) -> (b: TokenRequestBuilder<'a>)
        ensures
            opt_text(b.capability) == Some(capability@),
            b.auth == self.auth && b.ttl == self.ttl && b.client_id == self.client_id,
    {
        TokenRequestBuilder { capability: Some(owned(capability)), ..self }
    }

    /// Sets the client id.
    pub fn with_client_id(self, client_id: &str) -> (b: TokenRequestBuilder<'a>)
        ensures
            opt_text(b.client_id) == Some(client_id@),
            b.auth == self.auth && b.ttl == self.ttl && b.capability == self.capability,
    {
        TokenRequestBuilder { client_id: Some(owned(client_id)), ..self }
    }

    /// The token request: the key's name, what was set, the current time
    /// and a fresh nonce, signed with the key.
    pub fn build(self) -> (r: AblyResult<TokenRequest>)
        ensures
            r matches Ok(req) && opt_text(req.key_name) == Some(self.auth.key_name@) && req.ttl == self.ttl
                && opt_text(req.capability) == opt_text(self.capability)
                && opt_text(req.client_id) == opt_text(self.client_id) && req.timestamp is Some
                && req.nonce is Some
                && opt_text(req.mac) == Some(expected_mac(self.auth.key_name@, self.auth.key_secret@, req)),
    {
        let timestamp = JwtAuth::get_timestamp();
        let nonce = JwtAuth::generate_nonce();
        let mut request = TokenRequest {
            key_name: Some(self.auth.key_name.clone()),
            ttl: self.ttl,
            capability: self.capability,
            client_id: self.client_id,
            timestamp: Some(timestamp),
            nonce: Some(nonce),
            mac: None,
        };
        let ghost unsigned = request;
        match self.auth.compute_mac(&request) {
            Ok(mac) => {
                request.mac = Some(mac);
                proof {
                    law_mac_not_signed(self.auth.key_name@, unsigned, request.mac);
                    assert(request == TokenRequest { mac: request.mac, ..unsigned });
                }
                Ok(request)
            },
            Err(e) => Err(e),
        }
    }
}

/// Keeps a token and tells when it is due for renewal.
#[derive(Debug)]
pub struct TokenRenewalHandler {
    jwt_auth: JwtAuth,
    current_token: Option<TokenDetails>,
    renewal_threshold_ms: i64,
}

/// Whether a token is due for renewal at time `now`: when there is none,
/// when it names no expiry... only a token with an expiry more than
/// `threshold` milliseconds away is not.
pub open spec fn spec_needs_renewal(token: Option<TokenDetails>, threshold: i64, now: i64) -> bool {
    match token {
        Some(t) => match t.expires {
            Some(e) => e - now <= threshold,
            None => true,
        },
        None => true,
    }
}

impl TokenRenewalHandler {
    /// The key the handler signs with.
    pub closed spec fn spec_auth(&self) -> JwtAuth {
        self.jwt_auth
    }

    /// The token kept.
    pub closed spec fn spec_token(&self) -> Option<TokenDetails> {
        self.current_token
    }

    /// How long before expiry a token is renewed, in milliseconds.
    pub closed spec fn spec_threshold(&self) -> i64 {
        self.renewal_threshold_ms
    }

    /// A handler for the API key, with no token and a one-minute
    /// threshold.
    pub fn new(api_key: &str) -> (h: TokenRenewalHandler)
        ensures
            h.spec_auth().key_name@ == spec_key_parts(api_key@).0,
            h.spec_auth().key_secret@ == spec_key_parts(api_key@).1,
            h.spec_token() is None,
            h.spec_threshold() == 60_000,
    {
        TokenRenewalHandler { jwt_auth: JwtAuth::new(api_key), current_token: None, renewal_threshold_ms: 60_000 }
    }

    /// Sets how long before expiry a token is renewed.
    pub fn set_renewal_threshold(&mut self, threshold_ms: i64)
        ensures
            final(self).spec_threshold() == threshold_ms,
            final(self).spec_token() == old(self).spec_token(),
            final(self).spec_auth() == old(self).spec_auth(),
    {
        self.renewal_threshold_ms = threshold_ms;
    }

    /// Whether the token is due for renewal at time `now`.
    pub fn needs_renewal_at(&self, now: i64) -> (b: bool)
        ensures
            b == spec_needs_renewal(self.spec_token(), self.spec_threshold(), now),
    {
        match &self.current_token {
            Some(token) => match token.expires {
                Some(expires) => (expires as i128) - (now as i128) <= (self.renewal_threshold_ms as i128),
                None => true,
            },
            None => true,
        }
    }

    /// Whether the token is due for renewal by the system clock.
    pub fn needs_renewal(&self) -> (b: bool)
        ensures
            exists|now: i64| b == #[trigger] spec_needs_renewal(self.spec_token(), self.spec_threshold(), now),
            self.spec_token() is None ==> b,
    {
        self.needs_renewal_at(unix_millis_now())
    }

    /// Keeps `token`.
    pub fn set_token(&mut self, token: TokenDetails)
        ensures
            final(self).spec_token() == Some(token),
            final(self).spec_threshold() == old(self).spec_threshold(),
            final(self).spec_auth() == old(self).spec_auth(),
    {
        self.current_token = Some(token);
    }

    /// The token, when it is not due for renewal at time `now`.
    pub fn get_valid_token_at(&self, now: i64) -> (r: Option<&TokenDetails>)
        ensures
            match r {
                Some(t) => !spec_needs_renewal(self.spec_token(), self.spec_threshold(), now)
                    && self.spec_token() == Some(*t),
                None => spec_needs_renewal(self.spec_token(), self.spec_threshold(), now),
            },
    {
        if !self.needs_renewal_at(now) {
            self.current_token.as_ref()
        } else {
            None
        }
    }

    /// The token, when it is not due for renewal by the system clock.
    pub fn get_valid_token(&self) -> (r: Option<&TokenDetails>)
        ensures
            exists|now: i64| match r {
                Some(t) => !#[trigger] spec_needs_renewal(self.spec_token(), self.spec_threshold(), now)
                    && self.spec_token() == Some(*t),
                None => spec_needs_renewal(self.spec_token(), self.spec_threshold(), now),
            },
            r matches Some(t) ==> self.spec_token() == Some(*t),
            self.spec_token() is None ==> r is None,
    {
        self.get_valid_token_at(unix_millis_now())
    }

    /// A signed request for a token living an hour.
    pub fn create_renewal_request(&self) -> (r: AblyResult<TokenRequest>)
        ensures
            r matches Ok(req) && opt_text(req.key_name) == Some(self.spec_auth().key_name@)
                && req.ttl == Some(3_600_000i64) && req.capability is None && req.client_id is None
                && opt_text(req.mac) == Some(expected_mac(self.spec_auth().key_name@, self.spec_auth().key_secret@, req)),
    {
        self.jwt_auth.create_token_request().with_ttl(3600).build()
    }
}

} // verus!
