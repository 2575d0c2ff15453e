//! The REST client's builder, what it settles, and the data the REST API
//! answers with.

use crate::auth::AuthMode;
use crate::error::IntoText;
use crate::http::config::{is_default_http, HttpConfig};
use crate::protocol::messages::opt_text;
use crate::strmap::StringMap;
use crate::text::owned;
use crate::time::duration_as_millis;
use std::time::Duration;
use vstd::prelude::*;

verus! {

/// The base URL of the REST API in environment `env`: the sandbox for
/// `sandbox`, production for anything else.
pub open spec fn environment_base_url(env: Seq<char>) -> Seq<char> {
    if env == "sandbox"@ {
        "https://sandbox-rest.ably.io"@
    } else {
        "https://rest.ably.io"@
    }
}

/// Builder of the REST client.
pub struct RestClientBuilder {
    api_key: Option<String>,
    token: Option<String>,
    environment: String,
    timeout: Option<Duration>,
    max_retries: u32,
    custom_headers: StringMap<String>,
}

/// What a REST client is built from: its HTTP configuration, how it
/// authenticates, the headers it adds to every request, and its
/// environment.
pub struct RestClientSettings {
    pub config: HttpConfig,
    pub auth: AuthMode,
    pub headers: StringMap<String>,
    pub environment: String,
}

impl Default for RestClientBuilder {
    /// No credentials, the production environment, a 15 s timeout, 3
    /// retries and no custom headers.
    fn default() -> (b: RestClientBuilder)
        ensures
            b.spec_api_key() is None,
            b.spec_token() is None,
            b.spec_environment() == "production"@,
            b.spec_timeout() matches Some(t) && duration_as_millis(t) == 15_000,
            b.spec_max_retries() == 3,
            b.spec_headers() == Map::<Seq<char>, String>::empty(),
    {
        RestClientBuilder {
            api_key: None,
            token: None,
            environment: owned("production"),
            timeout: Some(Duration::from_secs(15)),
            max_retries: 3,
            custom_headers: StringMap::new(),
        }
    }
}

impl RestClientBuilder {
    /// The API key set, if any.
    pub closed spec fn spec_api_key(&self) -> Option<Seq<char>> {
        opt_text(self.api_key)
    }

    /// The token set, if any.
    pub closed spec fn spec_token(&self) -> Option<Seq<char>> {
        opt_text(self.token)
    }

    /// The environment named.
    pub closed spec fn spec_environment(&self) -> Seq<char> {
        self.environment@
    }

    /// The request timeout set, if any.
    pub closed spec fn spec_timeout(&self) -> Option<Duration> {
        self.timeout
    }

    /// The number of retries.
    pub closed spec fn spec_max_retries(&self) -> u32 {
        self.max_retries
    }

    /// The custom headers, by name.
    pub closed spec fn spec_headers(&self) -> Map<Seq<char>, String> {
        self.custom_headers@
    }

    /// `b` differs from `self` at most in the API key and the token.
    pub open spec fn same_but_credentials(&self, b: RestClientBuilder) -> bool {
        &&& b.spec_environment() == self.spec_environment()
        &&& b.spec_timeout() == self.spec_timeout()
        &&& b.spec_max_retries() == self.spec_max_retries()
        &&& b.spec_headers() == self.spec_headers()
    }

    /// Sets the API key.
    pub fn api_key<K: IntoText>(self, key: K) -> (b: RestClientBuilder)
        ensures
            b.spec_api_key() == Some(key.text_view()),
            b.spec_token() == self.spec_token(),
            self.same_but_credentials(b),
    {
        RestClientBuilder { api_key: Some(key.into_text()), ..self }
    }

    /// Sets the token.
    pub fn token<K: IntoText>(self, token: K) -> (b: RestClientBuilder)
        ensures
            b.spec_api_key() == self.spec_api_key(),
            b.spec_token() == Some(token.text_view()),
            self.same_but_credentials(b),
    {
        RestClientBuilder { token: Some(token.into_text()), ..self }
    }

    /// Names the environment.
    pub fn environment<K: IntoText>(self, env: K) -> (b: RestClientBuilder)
        ensures
            b.spec_api_key() == self.spec_api_key(),
            b.spec_token() == self.spec_token(),
            b.spec_environment() == env.text_view(),
            b.spec_timeout() == self.spec_timeout(),
            b.spec_max_retries() == self.spec_max_retries(),
            b.spec_headers() == self.spec_headers(),
    {
        RestClientBuilder { environment: env.into_text(), ..self }
    }

    /// Sets the request timeout.
    pub fn timeout(self, timeout: Duration) -> (b: RestClientBuilder)
        ensures
            b.spec_api_key() == self.spec_api_key(),
            b.spec_token() == self.spec_token(),
            b.spec_environment() == self.spec_environment(),
            b.spec_timeout() == Some(timeout),
            b.spec_max_retries() == self.spec_max_retries(),
            b.spec_headers() == self.spec_headers(),
    {
        RestClientBuilder { timeout: Some(timeout), ..self }
    }

    /// Sets the number of retries.
    pub fn max_retries(self, retries: u32) -> (b: RestClientBuilder)
        ensures
            b.spec_api_key() == self.spec_api_key(),
            b.spec_token() == self.spec_token(),
            b.spec_environment() == self.spec_environment(),
            b.spec_timeout() == self.spec_timeout(),
            b.spec_max_retries() == retries,
            b.spec_headers() == self.spec_headers(),
    {
        RestClientBuilder { max_retries: retries, ..self }
    }

    /// Adds a header to every request; a header of the same name is
    /// replaced.
    pub fn custom_header<K: IntoText, W: IntoText>(self, key: K, value: W) -> (b: RestClientBuilder)
        ensures
            b.spec_api_key() == self.spec_api_key(),
            b.spec_token() == self.spec_token(),
            b.spec_environment() == self.spec_environment(),
            b.spec_timeout() == self.spec_timeout(),
            b.spec_max_retries() == self.spec_max_retries(),
            b.spec_headers().dom() == self.spec_headers().dom().insert(key.text_view()),
            b.spec_headers()[key.text_view()]@ == value.text_view(),
            forall|k: Seq<char>|
                k != key.text_view() && #[trigger] self.spec_headers().contains_key(k)
                    ==> b.spec_headers()[k] == self.spec_headers()[k],
    {
        let mut b = self;
        let k = key.into_text();
        let v = value.into_text();
        let _ = b.custom_headers.insert(k, v);
        b
    }

    /// Settles what the client is built from: the default HTTP
    /// configuration with the timeout, when one is set, the retries and the
    /// environment's base URL; the API key when one is set, else the token;
    /// the custom headers; the environment. `None` when neither an API key
    /// nor a token was set, which leaves no client to build.
    pub fn into_settings(self) -> (r: Option<RestClientSettings>)
        ensures
            r is None <==> (self.spec_api_key() is None && self.spec_token() is None),
            r matches Some(s) ==> {
                &&& duration_as_millis(s.config.timeout) == match self.spec_timeout() {
                    Some(t) => duration_as_millis(t),
                    None => 10_000,
                }
                &&& duration_as_millis(s.config.connect_timeout) == 5_000
                &&& s.config.pool_idle_timeout matches Some(d) && duration_as_millis(d) == 90_000
                &&& s.config.pool_max_idle_per_host == 32
                &&& s.config.max_retries == self.spec_max_retries()
                &&& s.config.base_url@ == environment_base_url(self.spec_environment())
                &&& match self.spec_api_key() {
                    Some(k) => s.auth matches AuthMode::ApiKey(a) && a@ == k,
                    None => s.auth matches AuthMode::Token(t) && Some(t@) == self.spec_token(),
                }
                &&& s.headers@ == self.spec_headers()
                &&& s.environment@ == self.spec_environment()
            },
    {
        let auth = match self.api_key {
            Some(key) => AuthMode::ApiKey(key),
            None => match self.token {
                Some(token) => AuthMode::Token(token),
                None => {
                    return None;
                },
            },
        };
        let mut config = HttpConfig::default();
        if let Some(t) = self.timeout {
            config.timeout = t;
        }
        config.max_retries = self.max_retries;
        config.base_url = if self.environment == owned("sandbox") {
            owned("https://sandbox-rest.ably.io")
        } else {
            owned("https://rest.ably.io")
        };
        Some(
            RestClientSettings {
                config,
                auth,
                headers: self.custom_headers,
                environment: self.environment,
            },
        )
    }
}

/// Channel options for the REST API.
#[derive(Debug, Clone)]
pub struct ChannelOptions {
    pub cipher: Option<CipherParams>,
    pub params: Option<StringMap<String>>,
}

/// A cipher named by its algorithm, with its key.
#[derive(Debug, Clone)]
pub struct CipherParams {
    pub algorithm: String,
    pub key: String,
}

/// The status of a channel.
#[derive(Debug)]
pub struct ChannelStatus {
    pub channel_id: String,
    pub name: Option<String>,
    pub status: Option<ChannelDetails>,
}

/// Whether a channel is active, and its occupancy.
#[derive(Debug)]
pub struct ChannelDetails {
    pub is_active: bool,
    pub occupancy: Option<ChannelOccupancy>,
}

/// The occupancy of a channel.
#[derive(Debug)]
pub struct ChannelOccupancy {
    pub metrics: ChannelMetrics,
}

/// Counts of a channel's connections, publishers, subscribers and presence.
#[derive(Debug)]
pub struct ChannelMetrics {
    pub connections: u32,
    pub publishers: u32,
    pub subscribers: u32,
    pub presence_connections: u32,
    pub presence_members: u32,
    pub presence_subscribers: u32,
}

/// Statistics of an application.
#[derive(Debug)]
pub struct Stats {
    pub all: StatsMessageTypes,
    pub inbound: Option<StatsMessageTraffic>,
    pub outbound: Option<StatsMessageTraffic>,
}

/// Message and presence counts.
#[derive(Debug)]
pub struct StatsMessageTypes {
    pub messages: StatsMessageCount,
    pub presence: StatsMessageCount,
}

/// A count of messages and of their data, in bytes.
#[derive(Debug)]
pub struct StatsMessageCount {
    pub count: u64,
    pub data: u64,
}

/// Traffic over realtime connections and over REST.
#[derive(Debug)]
pub struct StatsMessageTraffic {
    pub realtime: StatsMessageTypes,
    pub rest: StatsMessageTypes,
}

} // verus!
