//! Connection management: the connection and channel state machines.

pub mod state_machine;

pub use state_machine::{
    ChannelEvent, ChannelState, ChannelStateMachine, ConnectionEvent, ConnectionState,
    ConnectionStateMachine,
};
