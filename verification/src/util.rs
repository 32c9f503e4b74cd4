pub mod config;
pub mod logging;
