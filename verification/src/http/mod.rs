//! The HTTP client of the REST API: methods, request URLs, authorization,
//! and the errors a failed request stands for.

pub mod config;
pub mod enhanced;
pub mod resilience;

pub use config::HttpConfig;
pub use resilience::{CircuitBreaker, ConnectionMetrics, RateLimiter};

use crate::auth::AuthMode;
use crate::codec::{base64_encode, base64_encoding, base64_len_fits};
use crate::error::AblyError;
use crate::text::{append, chars_of, has_prefix, owned, split_chars, split_on, str_starts_with, string_of};
use vstd::prelude::*;
use vstd::utf8::encode_utf8;

verus! {

/// The HTTP methods of the REST API.
#[derive(Debug, Clone, Copy, PartialEq, Eq, Structural)]
pub enum HttpMethod {
    Get,
    Post,
    Put,
    Delete,
    Patch,
}

/// The URL of a request: an absolute URL (starting `http`) as it is,
/// otherwise a path under the base URL.
pub open spec fn spec_full_url(base: Seq<char>, url: Seq<char>) -> Seq<char> {
    if has_prefix(url, "http"@) {
        url
    } else {
        base + url
    }
}

/// The URL of a request.
pub fn full_url(base_url: &str, url: &str) -> (r: String)
    ensures
        r@ == spec_full_url(base_url@, url@),
{
    if str_starts_with(url, "http") {
        owned(url)
    } else {
        let mut r = owned(base_url);
        append(&mut r, url);
        r
    }
}

/// The `Authorization` header of a request: Basic with the base64 of an
/// API key, Bearer with a token, none without credentials.
pub open spec fn spec_authorization(auth: Option<AuthMode>) -> Option<Seq<char>> {
    match auth {
        Some(AuthMode::ApiKey(k)) => Some("Basic "@ + base64_encoding(encode_utf8(k@))),
        Some(AuthMode::Token(t)) => Some("Bearer "@ + t@),
        None => None,
    }
}

/// The `Authorization` header of a request.
pub fn authorization_header(auth: &Option<AuthMode>) -> (r: Option<String>)
    requires
        auth matches Some(AuthMode::ApiKey(k)) ==> base64_len_fits(encode_utf8(k@).len()),
    ensures
        match r {
            Some(h) => spec_authorization(*auth) == Some(h@),
            None => spec_authorization(*auth) is None,
        },
{
    match auth {
        Some(AuthMode::ApiKey(key)) => {
            let encoded = base64_encode(key.as_str().as_bytes());
            let mut h = owned("Basic ");
            append(&mut h, encoded.as_str());
            Some(h)
        },
        Some(AuthMode::Token(token)) => {
            let mut h = owned("Bearer ");
            append(&mut h, token.as_str());
            Some(h)
        },
        None => None,
    }
}

/// The error of a request that could not be sent: a timeout, a failed
/// connection, or another network error, with the error's text.
pub fn send_error(is_timeout: bool, is_connect: bool, text: &str) -> (e: AblyError)
    ensures
        is_timeout ==> (e matches AblyError::Network { message, retryable } && message@ == "Request timeout: "@ + text@
            && retryable),
        !is_timeout && is_connect ==> (e matches AblyError::Network { message, retryable } && message@
            == "Connection failed: "@ + text@ && retryable),
        !is_timeout && !is_connect ==> (e matches AblyError::Network { message, retryable } && message@
            == "Network error: "@ + text@ && retryable),
{
    if is_timeout {
        let mut m = owned("Request timeout: ");
        append(&mut m, text);
        AblyError::timeout(m)
    } else if is_connect {
        let mut m = owned("Connection failed: ");
        append(&mut m, text);
        AblyError::connection_failed(m)
    } else {
        let mut m = owned("Network error: ");
        append(&mut m, text);
        AblyError::network(m)
    }
}

/// The error of a response whose status is not a success: an API error
/// with the status and the body's text.
pub fn status_error(status: u16, body: String) -> (e: AblyError)
    ensures
        e matches AblyError::Api { code, message } && code == status && message@ == body@,
{
    AblyError::api(status, body)
}

/// `s` cut at the first `c`: what comes before it and what comes after,
/// as `str::split_once` with a character pattern cuts it; `None` when `c`
/// does not occur.
pub open spec fn split_once(s: Seq<char>, c: char) -> Option<(Seq<char>, Seq<char>)> {
    if exists|i: int| 0 <= i < s.len() && s[i] == c {
        let i = choose|i: int| 0 <= i < s.len() && s[i] == c && forall|k: int| 0 <= k < i ==> s[k] != c;
        Some((s.subrange(0, i), s.subrange(i + 1, s.len() as int)))
    } else {
        None
    }
}

/// The key-value pairs of the `key=value` pieces, in order; pieces without
/// `=` are skipped.
pub open spec fn query_pairs(pieces: Seq<Seq<char>>) -> Seq<(Seq<char>, Seq<char>)>
    decreases pieces.len(),
{
    if pieces.len() == 0 {
        Seq::empty()
    } else {
        let rest = query_pairs(pieces.drop_last());
        match split_once(pieces.last(), '=') {
            Some(p) => rest.push(p),
            None => rest,
        }
    }
}

/// Splits a URL-encoded query, `a=1&b=2`, into its key-value pairs, in
/// order, skipping the pieces without `=`.
pub fn split_query(serialized: &str) -> (pairs: Vec<(String, String)>)
    ensures
        pairs@.map_values(|p: (String, String)| (p.0@, p.1@)) == query_pairs(split_on(serialized@, '&')),
{
    let chars = chars_of(serialized);
    let parts = split_chars(&chars, '&');
    let ghost pieces = split_on(serialized@, '&');
    let mut pairs: Vec<(String, String)> = Vec::new();
    let mut i: usize = 0;
    while i < parts.len()
        invariant
            0 <= i <= parts@.len(),
            parts@.len() == pieces.len(),
            forall|k: int| 0 <= k < parts@.len() ==> #[trigger] parts@[k]@ == pieces[k],
            pairs@.map_values(|p: (String, String)| (p.0@, p.1@)) == query_pairs(pieces.subrange(0, i as int)),
        decreases parts@.len() - i,
    {
        let piece = &parts[i];
        let ghost pv = piece@;
        let mut j: usize = 0;
        while j < piece.len() && piece[j] != '='
            invariant
                0 <= j <= piece@.len(),
                forall|k: int| 0 <= k < j ==> piece@[k] != '=',
            decreases piece@.len() - j,
        {
            j = j + 1;
        }
        proof {
            assert(pieces.subrange(0, i + 1).drop_last() =~= pieces.subrange(0, i as int));
            assert(pieces.subrange(0, i + 1).last() == pv);
        }
        if j < piece.len() {
            let mut key: Vec<char> = Vec::new();
            let mut k: usize = 0;
            while k < j
                invariant
                    0 <= k <= j < piece@.len(),
                    key@ == piece@.subrange(0, k as int),
                decreases j - k,
            {
                key.push(piece[k]);
                k = k + 1;
                proof {
                    assert(key@ =~= piece@.subrange(0, k as int));
                }
            }
            let mut value: Vec<char> = Vec::new();
            let mut k: usize = j + 1;
            while k < piece.len()
                invariant
                    j < k <= piece@.len(),
                    value@ == piece@.subrange(j + 1, k as int),
                decreases piece@.len() - k,
            {
                value.push(piece[k]);
                k = k + 1;
                proof {
                    assert(value@ =~= piece@.subrange(j + 1, k as int));
                }
            }
            let ghost before = pairs@;
            pairs.push((string_of(key.as_slice()), string_of(value.as_slice())));
            proof {
                assert(piece@[j as int] == '=');
                let c = choose|x: int| 0 <= x < pv.len() && pv[x] == '=' && forall|y: int| 0 <= y < x ==> pv[y] != '=';
                assert(c == j);
                assert(split_once(pv, '=') == Some((pv.subrange(0, j as int), pv.subrange(j + 1, pv.len() as int))));
                assert(pairs@.map_values(|p: (String, String)| (p.0@, p.1@)) =~= before.map_values(
                    |p: (String, String)| (p.0@, p.1@),
                ).push((pv.subrange(0, j as int), pv.subrange(j + 1, pv.len() as int))));
            }
        } else {
            proof {
                assert(split_once(pv, '=') is None);
            }
        }
        i = i + 1;
    }
    proof {
        assert(pieces.subrange(0, parts@.len() as int) =~= pieces);
    }
    pairs
}

} // verus!
