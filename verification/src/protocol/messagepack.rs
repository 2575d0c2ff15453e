//! MessagePack support: the encoder and decoder types and the extension
//! trait of protocol types that can be encoded in MessagePack.

use crate::error::AblyResult;
use vstd::prelude::*;

verus! {

/// Encodes protocol types in MessagePack.
pub struct MessagePackEncoder;

/// Decodes protocol types from MessagePack.
pub struct MessagePackDecoder;

/// A protocol type with a MessagePack encoding.
pub trait MessagePackExt: Sized {
    /// The MessagePack encoding of the value.
    fn to_msgpack(&self) -> AblyResult<Vec<u8>>;

    /// The value a MessagePack encoding stands for.
    fn from_msgpack(data: &[u8]) -> AblyResult<Self>;
}

} // verus!
