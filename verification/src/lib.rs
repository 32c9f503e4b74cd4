pub mod action;
pub mod game;
pub mod net;
pub mod networking;
pub mod server;
pub mod simulation;
pub mod util;

use vstd::prelude::*;

verus! {

/// What the host process hands the server at startup: the raw command-line
/// arguments and, when one was given, the path of the configuration file.
pub struct Bootstrap {
    pub args: Vec<String>,
    pub config: Option<String>,
}

/// Why the server refused to start.
#[derive(Debug, PartialEq, Eq, Structural)]
pub enum StartupError {
    /// The bootstrap named no configuration file.
    NoConfigurationPath,
}

/// Checks the bootstrap and yields the configuration file path the host must
/// load before it drives the server; starting without one is refused.
pub fn run(bootstrap: Bootstrap) -> (r: Result<String, StartupError>)
    ensures
        r is Ok <==> bootstrap.config is Some,
        r matches Ok(path) ==> bootstrap.config matches Some(given) && given == path,
        r matches Err(e) ==> e == StartupError::NoConfigurationPath,
{
    match bootstrap.config {
        Some(path) => Ok(path),
        None => Err(StartupError::NoConfigurationPath),
    }
}

} // verus!
