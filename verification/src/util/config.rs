use vstd::prelude::*;
use crate::server::ServerConfig;
use crate::util::logging::{LogLevel, LoggingConfig};

verus! {

/// Everything the configuration file can set, with its defaults.
pub struct Config {
    pub logging: LoggingConfig,
    pub server: ServerConfig,
}

impl Default for Config {
    fn default() -> (r: Config)
        ensures
            r.logging.level == LogLevel::Info,
            r.logging.file is None,
            r.server.tick_rate == 60,
            r.server.bind_address@ == "127.0.0.1:6142"@,
            r.server.client_ttl_ms == 500,
    {
        Config { logging: LoggingConfig::default(), server: ServerConfig::default() }
    }
}

} // verus!
