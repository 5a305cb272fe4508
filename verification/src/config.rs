use vstd::prelude::*;
use vstd::string::*;

verus! {

/// Settings of the HTTP shutdown service.
#[derive(Clone, Debug)]
pub struct Config {
    pub port: u16,
    pub bind_address: String,
    pub auth_token: String,
    pub log_dir: String,
}

/// The configuration written out when no configuration file exists yet.
pub open spec fn is_default_config(c: Config) -> bool {
    &&& c.port == 8080
    &&& c.bind_address@ == "127.0.0.1"@
    &&& c.auth_token@ == "change-me-secret-token"@
    &&& c.log_dir@ == "logs"@
}

/// The result of loading the configuration.
pub struct LoadedConfig {
    /// The configuration in force.
    pub config: Config,
    /// Whether `config` is the default, which must be written to the
    /// configuration file because none existed.
    pub write_default: bool,
}

impl Config {
    /// The default configuration: port 8080 on 127.0.0.1, a placeholder token,
    /// logs under `logs`.
    pub fn default_config() -> (c: Config)
        ensures
            is_default_config(c),
    {
        Config {
            port: 8080,
            bind_address: String::from_str("127.0.0.1"),
            auth_token: String::from_str("change-me-secret-token"),
            log_dir: String::from_str("logs"),
        }
    }

    /// Settles which configuration is in force, given the one read from the
    /// configuration file, if that file exists: the stored one when there is one,
    /// otherwise the default, which is then to be written out.
    pub fn load(stored: Option<Config>) -> (loaded: LoadedConfig)
        ensures
            stored is None ==> loaded.write_default && is_default_config(loaded.config),
            stored matches Some(c) ==> !loaded.write_default && loaded.config == c,
    {
        match stored {
            Some(c) => LoadedConfig { config: c, write_default: false },
            None => LoadedConfig { config: Config::default_config(), write_default: true },
        }
    }
}

} // verus!
