//! Client configuration and its builder.
use vstd::prelude::*;

verus! {

/// How a client connects: where, under which name, with which features and
/// token, and how it reconnects.
#[derive(Clone, Debug)]
pub struct ClientConfig {
    pub url: String,
    pub name: String,
    pub features: Vec<String>,
    pub token: Option<String>,
    pub reconnect: bool,
    pub reconnect_interval_ms: u64,
    /// Reconnect attempts after which the client gives up (0: never).
    pub max_reconnect_attempts: u32,
}

/// Builds a [`ClientConfig`] step by step.
#[derive(Clone, Debug)]
pub struct ClaspBuilder {
    config: ClientConfig,
}

impl ClaspBuilder {
    /// The configuration built so far.
    pub closed spec fn spec_config(&self) -> ClientConfig {
        self.config
    }

    /// A builder for a client of `url`: named `Clasp Client`, with the
    /// features `param`, `event` and `stream`, no token, reconnecting every
    /// 5000 ms at most 10 times.
    pub fn new(url: &str) -> (b: Self)
        ensures
            b.spec_config().url@ == url@,
            b.spec_config().name@ == "Clasp Client"@,
            b.spec_config().features@.len() == 3,
            b.spec_config().features@[0]@ == "param"@,
            b.spec_config().features@[1]@ == "event"@,
            b.spec_config().features@[2]@ == "stream"@,
            b.spec_config().token is None,
            b.spec_config().reconnect,
            b.spec_config().reconnect_interval_ms == 5000,
            b.spec_config().max_reconnect_attempts == 10,
    {
        let mut features: Vec<String> = Vec::new();
        features.push(String::from_str("param"));
        features.push(String::from_str("event"));
        features.push(String::from_str("stream"));
        ClaspBuilder {
            config: ClientConfig {
                url: String::from_str(url),
                name: String::from_str("Clasp Client"),
                features,
                token: None,
                reconnect: true,
                reconnect_interval_ms: 5000,
                max_reconnect_attempts: 10,
            },
        }
    }

    /// Sets the client name.
    pub fn name(self, name: &str) -> (b: Self)
        ensures
            b.spec_config().name@ == name@,
            b.spec_config().url == self.spec_config().url,
            b.spec_config().features == self.spec_config().features,
            b.spec_config().token == self.spec_config().token,
            b.spec_config().reconnect == self.spec_config().reconnect,
            b.spec_config().reconnect_interval_ms == self.spec_config().reconnect_interval_ms,
            b.spec_config().max_reconnect_attempts == self.spec_config().max_reconnect_attempts,
    {
        let mut b = self;
        b.config.name = String::from_str(name);
        b
    }

    /// Sets the supported features.
    pub fn features(self, features: Vec<String>) -> (b: Self)
        ensures
            b.spec_config().features == features,
            b.spec_config().url == self.spec_config().url,
            b.spec_config().name == self.spec_config().name,
            b.spec_config().token == self.spec_config().token,
            b.spec_config().reconnect == self.spec_config().reconnect,
            b.spec_config().reconnect_interval_ms == self.spec_config().reconnect_interval_ms,
            b.spec_config().max_reconnect_attempts == self.spec_config().max_reconnect_attempts,
    {
        let mut b = self;
        b.config.features = features;
        b
    }

    /// Sets the authentication token.
    pub fn token(self, token: &str) -> (b: Self)
        ensures
            b.spec_config().token matches Some(t) && t@ == token@,
            b.spec_config().url == self.spec_config().url,
            b.spec_config().name == self.spec_config().name,
            b.spec_config().features == self.spec_config().features,
            b.spec_config().reconnect == self.spec_config().reconnect,
            b.spec_config().reconnect_interval_ms == self.spec_config().reconnect_interval_ms,
            b.spec_config().max_reconnect_attempts == self.spec_config().max_reconnect_attempts,
    {
        let mut b = self;
        b.config.token = Some(String::from_str(token));
        b
    }

    /// Turns reconnecting on or off.
    pub fn reconnect(self, enabled: bool) -> (b: Self)
        ensures
            b.spec_config().reconnect == enabled,
            b.spec_config().url == self.spec_config().url,
            b.spec_config().name == self.spec_config().name,
            b.spec_config().features == self.spec_config().features,
            b.spec_config().token == self.spec_config().token,
            b.spec_config().reconnect_interval_ms == self.spec_config().reconnect_interval_ms,
            b.spec_config().max_reconnect_attempts == self.spec_config().max_reconnect_attempts,
    {
        let mut b = self;
        b.config.reconnect = enabled;
        b
    }

    /// Sets the base reconnect interval in milliseconds.
    pub fn reconnect_interval(self, ms: u64) -> (b: Self)
        ensures
            b.spec_config().reconnect_interval_ms == ms,
            b.spec_config().url == self.spec_config().url,
            b.spec_config().name == self.spec_config().name,
            b.spec_config().features == self.spec_config().features,
            b.spec_config().token == self.spec_config().token,
            b.spec_config().reconnect == self.spec_config().reconnect,
            b.spec_config().max_reconnect_attempts == self.spec_config().max_reconnect_attempts,
    {
        let mut b = self;
        b.config.reconnect_interval_ms = ms;
        b
    }

    /// The configuration to connect with.
    pub fn build(self) -> (c: ClientConfig)
        ensures
            c == self.spec_config(),
    {
        self.config
    }
}

} // verus!
