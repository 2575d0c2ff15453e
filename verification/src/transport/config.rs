//! Configuration of the WebSocket transport.

use crate::time::duration_as_millis;
use std::time::Duration;
use vstd::prelude::*;

verus! {

/// Configuration of the WebSocket transport.
#[derive(Debug, Clone)]
pub struct TransportConfig {
    /// MessagePack rather than JSON on the wire.
    pub use_binary_protocol: bool,
    pub connection_timeout: Duration,
    pub enable_auto_reconnect: bool,
    pub reconnect_delay: Duration,
    /// The largest frame, in bytes.
    pub max_frame_size: usize,
    pub keepalive_interval: Duration,
}

/// The default transport configuration: JSON, a 10 s connection timeout,
/// auto-reconnect after 2 s, 1 MiB frames, a keepalive every 30 s.
pub open spec fn is_default_transport(c: TransportConfig) -> bool {
    &&& !c.use_binary_protocol
    &&& duration_as_millis(c.connection_timeout) == 10_000
    &&& c.enable_auto_reconnect
    &&& duration_as_millis(c.reconnect_delay) == 2_000
    &&& c.max_frame_size == 1_048_576
    &&& duration_as_millis(c.keepalive_interval) == 30_000
}

impl Default for TransportConfig {
    fn default() -> (c: TransportConfig)
        ensures
            is_default_transport(c),
    {
        TransportConfig {
            use_binary_protocol: false,
            connection_timeout: Duration::from_secs(10),
            enable_auto_reconnect: true,
            reconnect_delay: Duration::from_secs(2),
            max_frame_size: 1024 * 1024,
            keepalive_interval: Duration::from_secs(30),
        }
    }
}

impl TransportConfig {
    /// A builder with nothing set.
    pub fn builder() -> (b: TransportConfigBuilder)
        ensures
            b.nothing_set(),
    {
        TransportConfigBuilder {
            use_binary_protocol: None,
            connection_timeout: None,
            enable_auto_reconnect: None,
            reconnect_delay: None,
            max_frame_size: None,
            keepalive_interval: None,
        }
    }
}

/// Builds a transport configuration; what is not set keeps its default.
#[derive(Debug)]
pub struct TransportConfigBuilder {
    use_binary_protocol: Option<bool>,
    connection_timeout: Option<Duration>,
    enable_auto_reconnect: Option<bool>,
    reconnect_delay: Option<Duration>,
    max_frame_size: Option<usize>,
    keepalive_interval: Option<Duration>,
}

impl Default for TransportConfigBuilder {
    fn default() -> (b: TransportConfigBuilder)
        ensures
            b.nothing_set(),
    {
        TransportConfig::builder()
    }
}

impl TransportConfigBuilder {
    /// No setting was made.
    pub closed spec fn nothing_set(&self) -> bool {
        &&& self.use_binary_protocol is None
        &&& self.connection_timeout is None
        &&& self.enable_auto_reconnect is None
        &&& self.reconnect_delay is None
        &&& self.max_frame_size is None
        &&& self.keepalive_interval is None
    }

    /// The configuration the builder builds.
    pub closed spec fn spec_config(&self, default: TransportConfig) -> TransportConfig {
        TransportConfig {
            use_binary_protocol: match self.use_binary_protocol {
                Some(v) => v,
                None => default.use_binary_protocol,
            },
            connection_timeout: match self.connection_timeout {
                Some(v) => v,
                None => default.connection_timeout,
            },
            enable_auto_reconnect: match self.enable_auto_reconnect {
                Some(v) => v,
                None => default.enable_auto_reconnect,
            },
            reconnect_delay: match self.reconnect_delay {
                Some(v) => v,
                None => default.reconnect_delay,
            },
            max_frame_size: match self.max_frame_size {
                Some(v) => v,
                None => default.max_frame_size,
            },
            keepalive_interval: match self.keepalive_interval {
                Some(v) => v,
                None => default.keepalive_interval,
            },
        }
    }

    /// Chooses the wire protocol.
    pub fn use_binary_protocol(self, use_binary: bool) -> (b: TransportConfigBuilder)
        ensures
            forall|d: TransportConfig| #[trigger] b.spec_config(d) == (TransportConfig {
                use_binary_protocol: use_binary,
                ..self.spec_config(d)
            }),
    {
        TransportConfigBuilder { use_binary_protocol: Some(use_binary), ..self }
    }

    /// Sets the connection timeout.
    pub fn connection_timeout(self, timeout: Duration) -> (b: TransportConfigBuilder)
        ensures
            forall|d: TransportConfig| #[trigger] b.spec_config(d) == (TransportConfig {
                connection_timeout: timeout,
                ..self.spec_config(d)
            }),
    {
        TransportConfigBuilder { connection_timeout: Some(timeout), ..self }
    }

    /// Turns auto-reconnect on or off.
    pub fn enable_auto_reconnect(self, enable: bool) -> (b: TransportConfigBuilder)
        ensures
            forall|d: TransportConfig| #[trigger] b.spec_config(d) == (TransportConfig {
                enable_auto_reconnect: enable,
                ..self.spec_config(d)
            }),
    {
        TransportConfigBuilder { enable_auto_reconnect: Some(enable), ..self }
    }

    /// Sets the reconnect delay.
    pub fn reconnect_delay(self, delay: Duration) -> (b: TransportConfigBuilder)
        ensures
            forall|d: TransportConfig| #[trigger] b.spec_config(d) == (TransportConfig {
                reconnect_delay: delay,
                ..self.spec_config(d)
            }),
    {
        TransportConfigBuilder { reconnect_delay: Some(delay), ..self }
    }

    /// Sets the largest frame.
    pub fn max_frame_size(self, size: usize) -> (b: TransportConfigBuilder)
        ensures
            forall|d: TransportConfig| #[trigger] b.spec_config(d) == (TransportConfig {
                max_frame_size: size,
                ..self.spec_config(d)
            }),
    {
        TransportConfigBuilder { max_frame_size: Some(size), ..self }
    }

    /// Sets the keepalive interval.
    pub fn keepalive_interval(self, interval: Duration) -> (b: TransportConfigBuilder)
        ensures
            forall|d: TransportConfig| #[trigger] b.spec_config(d) == (TransportConfig {
                keepalive_interval: interval,
                ..self.spec_config(d)
            }),
    {
        TransportConfigBuilder { keepalive_interval: Some(interval), ..self }
    }

    /// The configuration: what was set, and the defaults for the rest.
    pub fn build(self) -> (c: TransportConfig)
        ensures
            exists|d: TransportConfig| is_default_transport(d) && c == #[trigger] self.spec_config(d),
    {
        let default = TransportConfig::default();
        let c = TransportConfig {
            use_binary_protocol: match self.use_binary_protocol {
                Some(v) => v,
                None => default.use_binary_protocol,
            },
            connection_timeout: match self.connection_timeout {
                Some(v) => v,
                None => default.connection_timeout,
            },
            enable_auto_reconnect: match self.enable_auto_reconnect {
                Some(v) => v,
                None => default.enable_auto_reconnect,
            },
            reconnect_delay: match self.reconnect_delay {
                Some(v) => v,
                None => default.reconnect_delay,
            },
            max_frame_size: match self.max_frame_size {
                Some(v) => v,
                None => default.max_frame_size,
            },
            keepalive_interval: match self.keepalive_interval {
                Some(v) => v,
                None => default.keepalive_interval,
            },
        };
        assert(c == self.spec_config(default));
        c
    }
}

/// A builder on which nothing was set builds the default configuration.
pub proof fn law_empty_builder_builds_default(b: TransportConfigBuilder, d: TransportConfig)
    requires
        b.nothing_set(),
    ensures
        b.spec_config(d) == d,
{
    b.lemma_nothing_set(d);
}

impl TransportConfigBuilder {
    proof fn lemma_nothing_set(&self, d: TransportConfig)
        requires
            self.nothing_set(),
        ensures
            self.spec_config(d) == d,
    {
    }
}

} // verus!
