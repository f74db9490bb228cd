//! Process configuration, as plain values.
//!
//! Reading the configuration file and decoding it is I/O and happens outside
//! the library; what arrives here is either a decoded `Config` or nothing,
//! and the defaults fill the gap.

use vstd::prelude::*;

verus! {

/// Broker connection settings.
pub struct Mqtt {
    pub id: String,
    pub host: String,
    pub port: u16,
    pub keep_alive_intervall_seconds: u64,
    pub capacity: usize,
    pub user: Option<String>,
    pub password: Option<String>,
}

/// The default broker settings: a local broker, no credentials.
pub open spec fn is_default_mqtt(m: Mqtt) -> bool {
    &&& m.id@ == "mqtt-relay"@
    &&& m.host@ == "localhost"@
    &&& m.port == 1883
    &&& m.keep_alive_intervall_seconds == 60
    &&& m.capacity == 10
    &&& m.user is None
    &&& m.password is None
}

impl Default for Mqtt {
    fn default() -> (r: Self)
        ensures
            is_default_mqtt(r),
    {
        Mqtt {
            id: "mqtt-relay".to_owned(),
            host: "localhost".to_owned(),
            port: 1883,
            keep_alive_intervall_seconds: 60,
            capacity: 10,
            user: None,
            password: None,
        }
    }
}

/// The relay's configuration: where the mapping rules live, and how to reach
/// the broker.
pub struct Config {
    pub mappings_dir: String,
    pub mqtt: Mqtt,
}

/// The default configuration: rules under `./mappings`, default broker.
pub open spec fn is_default_config(c: Config) -> bool {
    &&& c.mappings_dir@ == "./mappings"@
    &&& is_default_mqtt(c.mqtt)
}

impl Default for Config {
    fn default() -> (r: Self)
        ensures
            is_default_config(r),
    {
        Config { mappings_dir: "./mappings".to_owned(), mqtt: Mqtt::default() }
    }
}

impl Config {
    /// The configuration in force: the one decoded from the configuration
    /// file when there was one, the defaults otherwise.
    pub fn auto_load(loaded: Option<Config>) -> (r: Config)
        ensures
            match loaded {
                Some(c) => r == c,
                None => is_default_config(r),
            },
    {
        match loaded {
            Some(c) => c,
            None => Config::default(),
        }
    }
}

/// The configuration in force; see `Config::auto_load`.
pub fn auto_load(loaded: Option<Config>) -> (r: Config)
    ensures
        match loaded {
            Some(c) => r == c,
            None => is_default_config(r),
        },
{
    Config::auto_load(loaded)
}

} // verus!
