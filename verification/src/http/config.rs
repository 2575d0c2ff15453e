//! Configuration of the HTTP client.

use crate::protocol::messages::opt_text;
use crate::text::owned;
use crate::time::duration_as_millis;
use std::time::Duration;
use vstd::prelude::*;

verus! {

/// Configuration of the HTTP client.
#[derive(Debug, Clone)]
pub struct HttpConfig {
    pub timeout: Duration,
    pub connect_timeout: Duration,
    pub pool_idle_timeout: Option<Duration>,
    pub pool_max_idle_per_host: usize,
    pub max_retries: u32,
    /// The base of request URLs.
    pub base_url: String,
}

/// The default HTTP configuration: a 10 s timeout, 5 s to connect, idle
/// connections kept 90 s and 32 per host, 3 retries, `https://rest.ably.io`.
pub open spec fn is_default_http(c: HttpConfig) -> bool {
    &&& duration_as_millis(c.timeout) == 10_000
    &&& duration_as_millis(c.connect_timeout) == 5_000
    &&& c.pool_idle_timeout matches Some(d) && duration_as_millis(d) == 90_000
    &&& c.pool_max_idle_per_host == 32
    &&& c.max_retries == 3
    &&& c.base_url@ == "https://rest.ably.io"@
}

impl Default for HttpConfig {
    fn default() -> (c: HttpConfig)
        ensures
            is_default_http(c),
    {
        HttpConfig {
            timeout: Duration::from_secs(10),
            connect_timeout: Duration::from_secs(5),
            pool_idle_timeout: Some(Duration::from_secs(90)),
            pool_max_idle_per_host: 32,
            max_retries: 3,
            base_url: owned("https://rest.ably.io"),
        }
    }
}

impl HttpConfig {
    /// A builder with nothing set.
    pub fn builder() -> (b: HttpConfigBuilder)
        ensures
            b.timeout is None && b.connect_timeout is None && b.pool_idle_timeout is None
                && b.pool_max_idle_per_host is None && b.max_retries is None && b.base_url is None,
    {
        HttpConfigBuilder {
            timeout: None,
            connect_timeout: None,
            pool_idle_timeout: None,
            pool_max_idle_per_host: None,
            max_retries: None,
            base_url: None,
        }
    }
}

/// Builds an HTTP configuration; what is not set keeps its default.
#[derive(Debug)]
pub struct HttpConfigBuilder {
    pub timeout: Option<Duration>,
    pub connect_timeout: Option<Duration>,
    pub pool_idle_timeout: Option<Duration>,
    pub pool_max_idle_per_host: Option<usize>,
    pub max_retries: Option<u32>,
    pub base_url: Option<String>,
}

impl Default for HttpConfigBuilder {
    fn default() -> (b: HttpConfigBuilder)
        ensures
            b.timeout is None && b.connect_timeout is None && b.pool_idle_timeout is None
                && b.pool_max_idle_per_host is None && b.max_retries is None && b.base_url is None,
    {
        HttpConfig::builder()
    }
}

impl HttpConfigBuilder {
    /// Nothing was set.
    pub open spec fn nothing_set(&self) -> bool {
        self.timeout is None && self.connect_timeout is None && self.pool_idle_timeout is None
            && self.pool_max_idle_per_host is None && self.max_retries is None && self.base_url is None
    }

    /// The configuration the builder makes over defaults `d`: what was set,
    /// and `d` for the rest.
    pub open spec fn spec_config(&self, d: HttpConfig) -> HttpConfig {
        HttpConfig {
            timeout: match self.timeout {
                Some(v) => v,
                None => d.timeout,
            },
            connect_timeout: match self.connect_timeout {
                Some(v) => v,
                None => d.connect_timeout,
            },
            pool_idle_timeout: match self.pool_idle_timeout {
                Some(v) => Some(v),
                None => d.pool_idle_timeout,
            },
            pool_max_idle_per_host: match self.pool_max_idle_per_host {
                Some(v) => v,
                None => d.pool_max_idle_per_host,
            },
            max_retries: match self.max_retries {
                Some(v) => v,
                None => d.max_retries,
            },
            base_url: match self.base_url {
                Some(v) => v,
                None => d.base_url,
            },
        }
    }
}

/// A builder on which nothing was set builds the default configuration.
pub proof fn law_empty_http_builder_builds_default(b: HttpConfigBuilder, d: HttpConfig)
    requires
        b.nothing_set(),
    ensures
        b.spec_config(d) == d,
{
}

impl HttpConfigBuilder {
    /// Sets the request timeout.
    pub fn timeout(self, timeout: Duration) -> (b: HttpConfigBuilder)
        ensures
            b == (HttpConfigBuilder { timeout: Some(timeout), ..self }),
    {
        HttpConfigBuilder { timeout: Some(timeout), ..self }
    }

    /// Sets the connection timeout.
    pub fn connect_timeout(self, timeout: Duration) -> (b: HttpConfigBuilder)
        ensures
            b == (HttpConfigBuilder { connect_timeout: Some(timeout), ..self }),
    {
        HttpConfigBuilder { connect_timeout: Some(timeout), ..self }
    }

    /// Sets how long idle connections are kept; `None` leaves the default.
    pub fn pool_idle_timeout(self, timeout: Option<Duration>) -> (b: HttpConfigBuilder)
        ensures
            b == (HttpConfigBuilder { pool_idle_timeout: timeout, ..self }),
    {
        HttpConfigBuilder { pool_idle_timeout: timeout, ..self }
    }

    /// Sets the idle connections kept per host.
    pub fn pool_max_idle_per_host(self, max: usize) -> (b: HttpConfigBuilder)
        ensures
            b == (HttpConfigBuilder { pool_max_idle_per_host: Some(max), ..self }),
    {
        HttpConfigBuilder { pool_max_idle_per_host: Some(max), ..self }
    }

    /// Sets the number of retries.
    pub fn max_retries(self, retries: u32) -> (b: HttpConfigBuilder)
        ensures
            b == (HttpConfigBuilder { max_retries: Some(retries), ..self }),
    {
        HttpConfigBuilder { max_retries: Some(retries), ..self }
    }

    /// Sets the base URL.
    pub fn base_url(self, url: &str) -> (b: HttpConfigBuilder)
        ensures
            opt_text(b.base_url) == Some(url@),
            b.timeout == self.timeout && b.connect_timeout == self.connect_timeout
                && b.pool_idle_timeout == self.pool_idle_timeout
                && b.pool_max_idle_per_host == self.pool_max_idle_per_host && b.max_retries == self.max_retries,
    {
        HttpConfigBuilder { base_url: Some(owned(url)), ..self }
    }

    /// The configuration: what was set, and the defaults for the rest.
    pub fn build(self) -> (c: HttpConfig)
        ensures
            exists|d: HttpConfig| #[trigger] is_default_http(d) && c == self.spec_config(d),
    {
        let default = HttpConfig::default();
        HttpConfig {
            timeout: match self.timeout {
                Some(v) => v,
                None => default.timeout,
            },
            connect_timeout: match self.connect_timeout {
                Some(v) => v,
                None => default.connect_timeout,
            },
            pool_idle_timeout: match self.pool_idle_timeout {
                Some(v) => Some(v),
                None => default.pool_idle_timeout,
            },
            pool_max_idle_per_host: match self.pool_max_idle_per_host {
                Some(v) => v,
                None => default.pool_max_idle_per_host,
            },
            max_retries: match self.max_retries {
                Some(v) => v,
                None => default.max_retries,
            },
            base_url: match self.base_url {
                Some(v) => v,
                None => default.base_url,
            },
        }
    }
}

} // verus!
