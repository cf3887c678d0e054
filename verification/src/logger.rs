//! Which log outputs to install, decided from the configuration and from
//! whether the journal could be reached.

use vstd::prelude::*;

use crate::config::logger::LoggerConfig;

verus! {

/// Why no logger can be installed.
#[derive(Debug, Clone, Copy, PartialEq, Eq)]
pub enum LoggerFailure {
    /// No output ended up configured: none is on, or the journal, the only
    /// one on, could not be reached.
    NoLayersConfigured,
}

/// The outputs to install.
#[derive(Debug, Clone, Copy, PartialEq, Eq)]
pub struct LogOutputs {
    /// Install the console output.
    pub console: bool,
    /// Install the journal output.
    pub journald: bool,
}

/// Console output is configured and on.
pub open spec fn console_on(config: LoggerConfig) -> bool {
    config.console matches Some(c) && c.enabled
}

/// Journal output is configured and on.
pub open spec fn journald_on(config: LoggerConfig) -> bool {
    config.journald matches Some(j) && j.enabled
}

/// Whether console output is configured and on.
pub fn console_wanted(config: &LoggerConfig) -> (r: bool)
    ensures
        r == console_on(*config),
{
    match &config.console {
        Some(c) => c.enabled,
        None => false,
    }
}

/// Whether journal output is configured and on.
pub fn journald_wanted(config: &LoggerConfig) -> (r: bool)
    ensures
        r == journald_on(*config),
{
    match &config.journald {
        Some(j) => j.enabled,
        None => false,
    }
}

/// The outputs to install, given whether the journal output could be
/// created (asked only when it is on): the console when it is on, the
/// journal when it is on and was reached. A journal that cannot be reached
/// is an error only when it is the only output on; with the console on,
/// logging goes on to the console alone.
pub fn plan_outputs(config: &LoggerConfig, journald_started: bool) -> (r: Result<LogOutputs, LoggerFailure>)
    ensures
        r matches Ok(o) ==> o.console == console_on(*config) && o.journald == (journald_on(*config)
            && journald_started),
        r is Ok <==> console_on(*config) || (journald_on(*config) && journald_started),
        r is Err ==> r == Err::<LogOutputs, _>(LoggerFailure::NoLayersConfigured),
{
    let console = console_wanted(config);
    let journald = journald_wanted(config) && journald_started;
    if !console && !journald {
        return Err(LoggerFailure::NoLayersConfigured);
    }
    Ok(LogOutputs { console, journald })
}

} // verus!
