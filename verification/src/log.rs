//! Logging levels and the verbosity rules shared by the binaries.

use vstd::prelude::*;

verus! {

/// A tracing level, most severe last.
#[derive(Clone, Copy, Debug, PartialEq, Eq, Structural)]
pub enum LogLevel {
    Trace,
    Debug,
    Info,
    Warn,
    Error,
}

/// The effective level that a quiet count and a verbose count select:
/// verbosity raises detail from `Info` towards `Trace`, and any quiet
/// overrides it towards `Error`.
pub open spec fn spec_effective_level(quiet: u8, verbosity: u8) -> LogLevel {
    if quiet == 0 {
        if verbosity == 0 {
            LogLevel::Info
        } else if verbosity == 1 {
            LogLevel::Debug
        } else {
            LogLevel::Trace
        }
    } else if quiet == 1 {
        LogLevel::Warn
    } else {
        LogLevel::Error
    }
}

/// The effective tracing level for the given quiet and verbose counts.
pub fn get_effective_level(quiet: u8, verbosity: u8) -> (r: LogLevel)
    ensures
        r == spec_effective_level(quiet, verbosity),
{
    let level = match verbosity {
        0 => LogLevel::Info,
        1 => LogLevel::Debug,
        _ => LogLevel::Trace,
    };
    match quiet {
        0 => level,
        1 => LogLevel::Warn,
        _ => LogLevel::Error,
    }
}

/// What a configuration must say about logging.
pub trait LogConfig {
    /// The quiet count.
    fn quiet(&self) -> u8;

    /// The verbose count.
    fn verbose(&self) -> u8;

    /// Should the event target be logged?
    fn target(&self) -> bool;

    /// Should the thread id be logged?
    fn thread_id(&self) -> bool;

    /// Should thread names be logged?
    fn thread_names(&self) -> bool;

    /// Should line numbers be logged?
    fn line_numbers(&self) -> bool;

    /// The effective tracing level, once initialized.
    fn level(&self) -> Option<LogLevel>;

    /// Record the effective tracing level.
    fn set_level(&mut self, level: LogLevel);
}

} // verus!
