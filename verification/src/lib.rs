//! Core library of the Ably realtime and REST SDK: error model, protocol
//! types, delta decoding, encryption framing, configuration and state machines.

pub mod aes_cbc;
pub mod auth;
pub mod channel;
pub mod client;
pub mod codec;
pub mod connection;
pub mod crypto;
pub mod delta;
pub mod encryption;
pub mod error;
pub mod http;
pub mod logging;
pub mod plugin;
pub mod protocol;
pub mod push;
pub mod replay;
pub mod retry;
pub mod strmap;
pub mod transport;
pub mod text;
pub mod time;

use vstd::prelude::*;

verus! {

/// The version string of this library.
pub fn version() -> (v: &'static str)
    ensures
        v@ == "0.1.0"@,
{
    proof {
        reveal_strlit("0.1.0");
    }
    "0.1.0"
}

} // verus!
