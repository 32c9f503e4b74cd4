use vstd::prelude::*;

verus! {

/// How much the logging layer should report.
#[derive(Clone, Copy, Debug, PartialEq, Eq, Structural)]
pub enum LogLevel {
    Error,
    Warn,
    Info,
    Debug,
    Trace,
}

/// What the logging layer is told at startup: the verbosity, and the log
/// file to append to besides standard output, if any. The layer that acts
/// on it lives with the host process.
pub struct LoggingConfig {
    pub level: LogLevel,
    pub file: Option<String>,
}

impl Default for LoggingConfig {
    /// Informational verbosity, standard output only.
    fn default() -> (r: LoggingConfig)
        ensures
            r.level == LogLevel::Info,
            r.file is None,
    {
        LoggingConfig { level: LogLevel::Info, file: None }
    }
}

} // verus!
