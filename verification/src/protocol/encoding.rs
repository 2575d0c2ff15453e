//! Encoding formats of protocol messages and protocol version negotiation.

pub mod data_encoding;

use crate::text::{decimal, push_decimal, string_of};
use vstd::prelude::*;

verus! {

/// The wire format of protocol messages.
#[derive(Debug, Clone, Copy, PartialEq, Eq, Structural)]
pub enum EncodingFormat {
    Json,
    MessagePack,
}

/// A codec for protocol messages in one wire format.
pub struct ProtocolCodec {
    format: EncodingFormat,
}

impl ProtocolCodec {
    /// The format the codec was made with.
    pub closed spec fn spec_format(&self) -> EncodingFormat {
        self.format
    }

    /// A codec for the given format.
    pub fn new(format: EncodingFormat) -> (c: ProtocolCodec)
        ensures
            c.spec_format() == format,
    {
        ProtocolCodec { format }
    }

    /// The codec's format.
    pub fn format(&self) -> (f: EncodingFormat)
        ensures
            f == self.spec_format(),
    {
        self.format
    }

    /// Whether the codec uses the binary format (MessagePack).
    pub fn is_binary(&self) -> (b: bool)
        ensures
            b == (self.spec_format() == EncodingFormat::MessagePack),
    {
        self.format == EncodingFormat::MessagePack
    }
}

/// A protocol version.
pub struct ProtocolVersion {
    pub major: u8,
    pub minor: u8,
}

impl ProtocolVersion {
    /// The protocol version this library speaks: 3.0.
    pub fn current() -> (v: ProtocolVersion)
        ensures
            v.major == 3 && v.minor == 0,
    {
        ProtocolVersion { major: 3, minor: 0 }
    }

    /// Whether the version is supported: major 3, minor 0.
    pub fn is_supported(&self) -> (b: bool)
        ensures
            b == (self.major == 3 && self.minor == 0),
    {
        self.major == 3 && self.minor <= 0
    }

    /// The version as a connection parameter: the major version in decimal.
    pub fn to_string(&self) -> (s: String)
        ensures
            s@ == decimal(self.major as nat),
    {
        let mut v: Vec<char> = Vec::new();
        push_decimal(&mut v, self.major as u128);
        assert(v@ =~= decimal(self.major as nat));
        string_of(v.as_slice())
    }
}

} // verus!
