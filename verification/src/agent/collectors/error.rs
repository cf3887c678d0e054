//! The error type of the collectors.

use vstd::prelude::*;

verus! {

/// The I/O error that a failed read carries.
#[verifier::external_type_specification]
#[verifier::external_body]
pub struct ExIoError(std::io::Error);

/// What can go wrong while gathering metrics.
#[derive(Debug)]
pub enum CollectorError {
    /// A file could not be read.
    FileRead { path: String, source: std::io::Error },
    /// A metric could not be parsed.
    ParseError { metric: String, location: String, reason: String },
    /// A required field is absent.
    MissingField { field: String, location: String },
    /// Data does not have the expected layout.
    InvalidFormat { location: String, reason: String },
    /// A system call failed.
    SystemCall { syscall: String, reason: String },
    /// A path does not exist.
    PathNotFound { path: String },
    /// Anything else.
    Other(String),
    /// No collector is registered under the name.
    CollectorNotFound(String),
    /// The collector is not available on this platform.
    UnsupportedCollector(String),
    /// An external command could not be run.
    CommandExecution { command: String, source: std::io::Error },
}

/// The content of a `CollectorError`, without the I/O error it may carry.
pub enum ErrorModel {
    FileRead { path: Seq<char> },
    ParseError { metric: Seq<char>, location: Seq<char>, reason: Seq<char> },
    MissingField { field: Seq<char>, location: Seq<char> },
    InvalidFormat { location: Seq<char>, reason: Seq<char> },
    SystemCall { syscall: Seq<char>, reason: Seq<char> },
    PathNotFound { path: Seq<char> },
    Other(Seq<char>),
    CollectorNotFound(Seq<char>),
    UnsupportedCollector(Seq<char>),
    CommandExecution { command: Seq<char> },
}

impl View for CollectorError {
    type V = ErrorModel;

    open spec fn view(&self) -> ErrorModel {
        match self {
            CollectorError::FileRead { path, .. } => ErrorModel::FileRead { path: path@ },
            CollectorError::ParseError { metric, location, reason } => ErrorModel::ParseError {
                metric: metric@,
                location: location@,
                reason: reason@,
            },
            CollectorError::MissingField { field, location } => ErrorModel::MissingField {
                field: field@,
                location: location@,
            },
            CollectorError::InvalidFormat { location, reason } => ErrorModel::InvalidFormat {
                location: location@,
                reason: reason@,
            },
            CollectorError::SystemCall { syscall, reason } => ErrorModel::SystemCall {
                syscall: syscall@,
                reason: reason@,
            },
            CollectorError::PathNotFound { path } => ErrorModel::PathNotFound { path: path@ },
            CollectorError::Other(s) => ErrorModel::Other(s@),
            CollectorError::CollectorNotFound(s) => ErrorModel::CollectorNotFound(s@),
            CollectorError::UnsupportedCollector(s) => ErrorModel::UnsupportedCollector(s@),
            CollectorError::CommandExecution { command, .. } => ErrorModel::CommandExecution {
                command: command@,
            },
        }
    }
}

/// A parse error with the given metric, location and reason.
pub fn parse_error(metric: &str, location: &str, reason: String) -> (e: CollectorError)
    ensures
        e@ == (ErrorModel::ParseError { metric: metric@, location: location@, reason: reason@ }),
{
    CollectorError::ParseError {
        metric: String::from_str(metric),
        location: String::from_str(location),
        reason,
    }
}

/// A missing-field error.
pub fn missing_field(field: &str, location: &str) -> (e: CollectorError)
    ensures
        e@ == (ErrorModel::MissingField { field: field@, location: location@ }),
{
    CollectorError::MissingField { field: String::from_str(field), location: String::from_str(location) }
}

/// An invalid-format error.
pub fn invalid_format(location: &str, reason: &str) -> (e: CollectorError)
    ensures
        e@ == (ErrorModel::InvalidFormat { location: location@, reason: reason@ }),
{
    CollectorError::InvalidFormat { location: String::from_str(location), reason: String::from_str(reason) }
}

/// The reason text `invalid value: <token>`.
pub fn invalid_value(token: &str) -> (r: String)
    ensures
        r@ == "invalid value: "@ + token@,
{
    String::from_str("invalid value: ").concat(token)
}

} // verus!
