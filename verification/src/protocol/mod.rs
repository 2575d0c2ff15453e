//! The realtime protocol: message types, JSON values, wire formats.

pub mod encoding;
pub mod json;
pub mod messagepack;
pub mod messages;

pub use json::JsonValue;
pub use messages::{
    Action, AuthDetails, ConnectionDetails, ErrorInfo, Message, PresenceAction, PresenceMessage,
    ProtocolMessage, flags,
};
pub use messagepack::{MessagePackDecoder, MessagePackEncoder, MessagePackExt};
