//! Command-line facing types: the chosen log level and the parsed
//! command-line options.  Argument parsing itself happens outside the
//! library; these are the plain values it hands over.

use vstd::prelude::*;

verus! {

/// The log level a run prints at.
#[derive(Clone, Copy, PartialEq, Eq, Structural, Debug)]
pub enum LogLevel {
    TRACE,
    DEBUG,
    INFO,
    WARN,
    ERROR,
}

impl LogLevel {
    /// The value the logging environment variable takes for this level.
    pub fn env_value(&self) -> (r: &'static str)
        ensures
            (match self {
                LogLevel::TRACE => r@ == "trace"@,
                LogLevel::DEBUG => r@ == "debug"@,
                LogLevel::INFO => r@ == "info"@,
                LogLevel::WARN => r@ == "warn"@,
                LogLevel::ERROR => r@ == "error"@,
            }),
    {
        match self {
            LogLevel::TRACE => "trace",
            LogLevel::DEBUG => "debug",
            LogLevel::INFO => "info",
            LogLevel::WARN => "warn",
            LogLevel::ERROR => "error",
        }
    }
}

/// The command-line options of one run.
pub struct Cli {
    /// The name of the configuration file to use.
    pub config_file: String,
    /// Whether to list the available players instead of rendering.
    pub list: bool,
    /// The log level to print at.
    pub log_level: LogLevel,
}

} // verus!
