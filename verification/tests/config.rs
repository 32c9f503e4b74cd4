use eternalreckoning_server::run;
use eternalreckoning_server::server::ServerConfig;
use eternalreckoning_server::util::config::Config;
use eternalreckoning_server::util::logging::{LogLevel, LoggingConfig};
use eternalreckoning_server::{Bootstrap, StartupError};

#[test]
fn server_config_defaults() {
    let c = ServerConfig::default();
    assert_eq!(c.tick_rate, 60);
    assert_eq!(c.bind_address, "127.0.0.1:6142");
    assert_eq!(c.client_ttl_ms, 500);
}

#[test]
fn tick_length_is_whole_milliseconds_per_tick() {
    let c = ServerConfig::default();
    assert_eq!(c.tick_length_ms(), 16);

    let slow = ServerConfig { tick_rate: 20, ..ServerConfig::default() };
    assert_eq!(slow.tick_length_ms(), 50);
}

#[test]
fn logging_defaults_to_info_on_stdout() {
    let l = LoggingConfig::default();
    assert_eq!(l.level, LogLevel::Info);
    assert!(l.file.is_none());
}

#[test]
fn config_defaults_compose_the_two() {
    let c = Config::default();
    assert_eq!(c.logging.level, LogLevel::Info);
    assert_eq!(c.server.tick_rate, 60);
}

#[test]
fn run_demands_a_configuration_path() {
    let r = run(Bootstrap { args: vec!["server".to_string()], config: None });
    assert_eq!(r, Err(StartupError::NoConfigurationPath));

    let r = run(Bootstrap {
        args: vec![],
        config: Some("config/server.toml".to_string()),
    });
    assert_eq!(r, Ok("config/server.toml".to_string()));
}
