//! The kernel's entropy estimate from `/proc/sys/kernel/random/entropy_avail`.

use vstd::prelude::*;

use super::error::{parse_error, ErrorModel};
use super::types::CollectorResult;
use crate::text::{dec_u32, parse_u32, trim, trim_str};

verus! {

/// The entropy available to the kernel's random number generator.
#[derive(Debug, Clone)]
pub struct EntropyStats {
    /// Bits of entropy in the pool.
    pub available_entropy: u32,
}

/// Reads the entropy estimate of `/proc/sys/kernel/random/entropy_avail`.
#[derive(Debug, Clone, Copy)]
pub struct EntropyCollector;

impl EntropyCollector {
    /// A new collector.
    pub fn new() -> (r: Self)
        ensures
            r == EntropyCollector,
    {
        EntropyCollector
    }
}

impl Default for EntropyCollector {
    fn default() -> (r: Self)
        ensures
            r == EntropyCollector,
    {
        EntropyCollector::new()
    }
}

/// The entropy estimate: the trimmed content as a `u32`.
pub open spec fn entropy_of(content: Seq<char>) -> Result<u32, ErrorModel> {
    match dec_u32(trim(content)) {
        Some(v) => Ok(v),
        None => Err(
            ErrorModel::ParseError {
                metric: "entropy_avail"@,
                location: "/proc/sys/kernel/random/entropy_avail"@,
                reason: "invalid integer format"@,
            },
        ),
    }
}

/// Parses the content of `/proc/sys/kernel/random/entropy_avail`.
pub fn parse_entropy(content: &str) -> (r: CollectorResult<EntropyStats>)
    ensures
        match r {
            Ok(s) => entropy_of(content@) == Ok::<_, ErrorModel>(s.available_entropy),
            Err(e) => entropy_of(content@) == Err::<u32, _>(e@),
        },
{
    let t = trim_str(content);
    match parse_u32(t.as_str()) {
        Some(v) => Ok(EntropyStats { available_entropy: v }),
        None => Err(
            parse_error(
                "entropy_avail",
                "/proc/sys/kernel/random/entropy_avail",
                String::from_str("invalid integer format"),
            ),
        ),
    }
}

} // verus!
