//! Configuration types.

pub mod logger;
pub mod metrics;

use vstd::prelude::*;

verus! {

/// What can go wrong while loading, checking or saving the configuration.
#[derive(Debug)]
pub enum ConfigError {
    /// No configuration file, or another configuration problem.
    Config(String),
    /// The file could not be read or written.
    IoError(std::io::Error),
    /// The file is not valid TOML for the configuration.
    ParseError(String),
    /// The configuration breaks a rule.
    ValidationError(String),
    /// The configuration could not be serialised.
    SerializationError(String),
}

} // verus!
