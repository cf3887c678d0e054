//! The layout of `/proc/uptime`. Its two figures are decimal fractions of
//! seconds and are read by the caller.

use vstd::prelude::*;

use super::error::{invalid_format, ErrorModel};
use super::types::CollectorResult;
use crate::text::{split_whitespace, views, words};

verus! {

/// Reads the uptime of `/proc/uptime`.
#[derive(Debug, Clone, Copy)]
pub struct UptimeCollector;

impl UptimeCollector {
    /// A new collector.
    pub fn new() -> (r: Self)
        ensures
            r == UptimeCollector,
    {
        UptimeCollector
    }
}

impl Default for UptimeCollector {
    fn default() -> (r: Self)
        ensures
            r == UptimeCollector,
    {
        UptimeCollector::new()
    }
}

/// The words of `/proc/uptime`, of which there must be at least one.
pub open spec fn uptime_words_of(content: Seq<char>) -> Result<Seq<Seq<char>>, ErrorModel> {
    let w = words(content);
    if w.len() == 0 {
        Err(ErrorModel::InvalidFormat { location: "/proc/uptime"@, reason: "Expected at least 1 field"@ })
    } else {
        Ok(w)
    }
}

/// Splits `/proc/uptime` into its words, rejecting an empty file.
pub fn uptime_words(content: &str) -> (r: CollectorResult<Vec<String>>)
    ensures
        match r {
            Ok(w) => uptime_words_of(content@) == Ok::<_, ErrorModel>(views(w@)),
            Err(e) => uptime_words_of(content@) == Err::<Seq<Seq<char>>, _>(e@),
        },
{
    let parts = split_whitespace(content);
    if parts.len() == 0 {
        return Err(invalid_format("/proc/uptime", "Expected at least 1 field"));
    }
    Ok(parts)
}

} // verus!
