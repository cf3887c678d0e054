//! The load averages of `/proc/loadavg`: the file's layout and its process
//! counts. The three averages are decimal fractions and are read by the
//! caller.

use vstd::prelude::*;

use super::error::{invalid_format, invalid_value, parse_error, ErrorModel};
use super::types::CollectorResult;
use crate::text::{dec_u32, parse_u32, split_char, split_on, split_whitespace, views, words};

verus! {

/// Reads the load averages of `/proc/loadavg`.
#[derive(Debug, Clone, Copy)]
pub struct LoadAverageCollector;

impl LoadAverageCollector {
    /// A new collector.
    pub fn new() -> (r: Self)
        ensures
            r == LoadAverageCollector,
    {
        LoadAverageCollector
    }
}

impl Default for LoadAverageCollector {
    fn default() -> (r: Self)
        ensures
            r == LoadAverageCollector,
    {
        LoadAverageCollector::new()
    }
}

/// The words of `/proc/loadavg`, of which there must be at least five.
pub open spec fn loadavg_words_of(content: Seq<char>) -> Result<Seq<Seq<char>>, ErrorModel> {
    let w = words(content);
    if w.len() < 5 {
        Err(ErrorModel::InvalidFormat { location: "/proc/loadavg"@, reason: "Expected at least 5 fields"@ })
    } else {
        Ok(w)
    }
}

/// Splits `/proc/loadavg` into its words, rejecting fewer than five.
pub fn loadavg_words(content: &str) -> (r: CollectorResult<Vec<String>>)
    ensures
        match r {
            Ok(w) => loadavg_words_of(content@) == Ok::<_, ErrorModel>(views(w@)),
            Err(e) => loadavg_words_of(content@) == Err::<Seq<Seq<char>>, _>(e@),
        },
{
    let parts = split_whitespace(content);
    if parts.len() < 5 {
        return Err(invalid_format("/proc/loadavg", "Expected at least 5 fields"));
    }
    Ok(parts)
}

/// The process counts of the fourth field, `running/total`: exactly two
/// parts around one `/`, each a `u32`.
pub open spec fn process_counts_of(field: Seq<char>) -> Result<(u32, u32), ErrorModel> {
    let p = split_on(field, '/');
    if p.len() != 2 {
        Err(
            ErrorModel::InvalidFormat {
                location: "/proc/loadavg"@,
                reason: "process field must be in format 'running/total'"@,
            },
        )
    } else {
        match dec_u32(p[0]) {
            None => Err(
                ErrorModel::ParseError {
                    metric: "running_processes"@,
                    location: "/proc/loadavg"@,
                    reason: "invalid value: "@ + p[0],
                },
            ),
            Some(running) => match dec_u32(p[1]) {
                None => Err(
                    ErrorModel::ParseError {
                        metric: "total_processes"@,
                        location: "/proc/loadavg"@,
                        reason: "invalid value: "@ + p[1],
                    },
                ),
                Some(total) => Ok((running, total)),
            },
        }
    }
}

/// Parses the `running/total` field of `/proc/loadavg`.
pub fn parse_process_counts(field: &str) -> (r: CollectorResult<(u32, u32)>)
    ensures
        match r {
            Ok(c) => process_counts_of(field@) == Ok::<_, ErrorModel>(c),
            Err(e) => process_counts_of(field@) == Err::<(u32, u32), _>(e@),
        },
{
    let p = split_char(field, '/');
    if p.len() != 2 {
        return Err(invalid_format("/proc/loadavg", "process field must be in format 'running/total'"));
    }
    assert(views(p@)[0] == p@[0]@);
    assert(views(p@)[1] == p@[1]@);
    let running = match parse_u32(p[0].as_str()) {
        Some(v) => v,
        None => return Err(parse_error("running_processes", "/proc/loadavg", invalid_value(p[0].as_str()))),
    };
    let total = match parse_u32(p[1].as_str()) {
        Some(v) => v,
        None => return Err(parse_error("total_processes", "/proc/loadavg", invalid_value(p[1].as_str()))),
    };
    Ok((running, total))
}

} // verus!
