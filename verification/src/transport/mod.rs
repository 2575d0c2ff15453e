//! The WebSocket transport: its states, the URL it connects to, the key of
//! its handshake and the pacing of its reconnections.

pub mod config;
pub mod resilience;

pub use config::TransportConfig;
pub use resilience::{ConnectionStats, MessageQueue};

use crate::auth::AuthMode;
use crate::codec::{base64_encode, base64_encoding, random_bytes};
use crate::text::{append, owned, push_char};
use vstd::prelude::*;

verus! {

/// The states of the transport.
#[derive(Debug, Clone, Copy, PartialEq, Eq, Structural)]
pub enum TransportState {
    Initialized,
    Connecting,
    Connected,
    Disconnected,
    Closing,
    Closed,
    Failed,
}

/// The realtime endpoint.
pub const REALTIME_URL: &'static str = "wss://realtime.ably.io";

/// The URL the transport connects to: the base with a trailing slash, the
/// protocol version, the credentials (an API key as `key`, a token as
/// `access_token`) and the format.
pub open spec fn spec_ws_url(base: Seq<char>, auth: AuthMode, binary: bool) -> Seq<char> {
    (if base.len() > 0 && base.last() == '/' { base } else { base.push('/') }) + "?v=1.2"@ + match auth {
        AuthMode::ApiKey(k) => "&key="@ + k@,
        AuthMode::Token(t) => "&access_token="@ + t@,
    } + if binary { "&format=msgpack"@ } else { "&format=json"@ }
}

/// The URL the transport connects to.
pub fn build_ws_url(base: &str, auth_mode: &AuthMode, use_binary_protocol: bool) -> (url: String)
    ensures
        url@ == spec_ws_url(base@, *auth_mode, use_binary_protocol),
{
    let mut url = owned(base);
    let n = base.unicode_len();
    let ends_with_slash = n > 0 && base.get_char(n - 1) == '/';
    if !ends_with_slash {
        push_char(&mut url, '/');
    }
    append(&mut url, "?v=1.2");
    match auth_mode {
        AuthMode::ApiKey(key) => {
            append(&mut url, "&key=");
            append(&mut url, key.as_str());
        },
        AuthMode::Token(token) => {
            append(&mut url, "&access_token=");
            append(&mut url, token.as_str());
        },
    }
    if use_binary_protocol {
        append(&mut url, "&format=msgpack");
    } else {
        append(&mut url, "&format=json");
    }
    proof {
        assert(url@ =~= spec_ws_url(base@, *auth_mode, use_binary_protocol));
    }
    url
}

/// The wait before reconnection attempt `attempt` of the transport, in
/// milliseconds: 100 ms doubled per attempt, and none past the fifth.
pub fn reconnect_delay_ms(attempt: u32) -> (d: Option<u64>)
    ensures
        attempt > 5 ==> d is None,
        attempt == 0 ==> d == Some(100u64),
        attempt == 1 ==> d == Some(200u64),
        attempt == 2 ==> d == Some(400u64),
        attempt == 3 ==> d == Some(800u64),
        attempt == 4 ==> d == Some(1600u64),
        attempt == 5 ==> d == Some(3200u64),
{
    if attempt > 5 {
        return None;
    }
    let mut delay: u64 = 100;
    let mut i: u32 = 0;
    while i < attempt
        invariant
            i <= attempt <= 5,
            delay == 100 * (if i == 0 { 1u64 } else if i == 1 { 2 } else if i == 2 { 4 } else if i == 3 { 8 } else if i == 4 { 16 } else { 32 }),
        decreases attempt - i,
    {
        delay = delay * 2;
        i = i + 1;
    }
    Some(delay)
}

/// A fresh key for the WebSocket handshake: sixteen random bytes in
/// standard base64.
pub fn generate_websocket_key() -> (key: String)
    ensures
        exists|b: Seq<u8>| b.len() == 16 && key@ == #[trigger] base64_encoding(b),
{
    let bytes = random_bytes(16);
    proof {
        crate::codec::lemma_base64_len_fits(bytes@.len());
    }
    base64_encode(bytes.as_slice())
}

} // verus!
