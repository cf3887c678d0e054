//! Connection tracking usage from `/proc/net/nf_conntrack` and
//! `/proc/sys/net/netfilter/nf_conntrack_max`.

use vstd::prelude::*;

use super::error::{CollectorError, ErrorModel};
use super::types::CollectorResult;
use crate::text::{dec_u64, lines, parse_u64, split_lines, trim, trim_str};

verus! {

/// Connection tracking table usage.
#[derive(Debug, Clone)]
pub struct ConntrackStats {
    /// Tracked connections.
    pub entries: u64,
    /// The table's limit.
    pub max: u64,
}

/// Reads the connection tracking usage.
#[derive(Debug, Clone, Copy)]
pub struct ConntrackCollector;

impl ConntrackCollector {
    /// A new collector.
    pub fn new() -> (r: Self)
        ensures
            r == ConntrackCollector,
    {
        ConntrackCollector
    }
}

impl Default for ConntrackCollector {
    fn default() -> (r: Self)
        ensures
            r == ConntrackCollector,
    {
        ConntrackCollector::new()
    }
}

/// The usage figures from the two files' contents (`None` for a file that
/// could not be read): the table's line count, or zero; and the limit,
/// which must be readable and a `u64`.
pub open spec fn conntrack_of(table: Option<Seq<char>>, max: Option<Seq<char>>) -> Result<(u64, u64), ErrorModel> {
    let entries: u64 = match table {
        Some(t) => lines(t).len() as u64,
        None => 0,
    };
    match max {
        Some(m) if dec_u64(trim(m)) is Some => Ok((entries, dec_u64(trim(m))->0)),
        _ => Err(ErrorModel::FileRead { path: "/proc/sys/net/netfilter/nf_conntrack_max"@ }),
    }
}

/// The I/O error of a limit file that is absent or unreadable
/// (`std::io::Error::new` with `ErrorKind::NotFound`); nothing is stated of it.
#[verifier::external_body]
fn not_found_error(message: &str) -> std::io::Error {
    std::io::Error::new(std::io::ErrorKind::NotFound, message.to_string())
}

/// Computes the usage from the contents of the two files, `None` standing
/// for a file that could not be read.
pub fn conntrack_stats(table: Option<&str>, max: Option<&str>) -> (r: CollectorResult<ConntrackStats>)
    ensures
        match r {
            Ok(s) => conntrack_of(
                match table { Some(t) => Some(t@), None => None },
                match max { Some(m) => Some(m@), None => None },
            ) == Ok::<_, ErrorModel>((s.entries, s.max)),
            Err(e) => conntrack_of(
                match table { Some(t) => Some(t@), None => None },
                match max { Some(m) => Some(m@), None => None },
            ) == Err::<(u64, u64), _>(e@),
        },
{
    let entries: u64 = match table {
        Some(t) => split_lines(t).len() as u64,
        None => 0,
    };
    let limit = match max {
        Some(m) => parse_u64(trim_str(m).as_str()),
        None => None,
    };
    match limit {
        Some(v) => Ok(ConntrackStats { entries, max: v }),
        None => Err(
            CollectorError::FileRead {
                path: String::from_str("/proc/sys/net/netfilter/nf_conntrack_max"),
                source: not_found_error("file not found or invalid"),
            },
        ),
    }
}

} // verus!
