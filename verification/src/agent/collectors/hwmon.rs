//! Hardware monitor sensors. Their readings are decimal fractions and are
//! read by the caller; this module holds the collector.

use vstd::prelude::*;

verus! {

/// Reads the first temperature input of each hardware monitor.
#[derive(Debug, Clone, Copy)]
pub struct HwmonCollector;

impl HwmonCollector {
    /// A new collector.
    pub fn new() -> (r: Self)
        ensures
            r == HwmonCollector,
    {
        HwmonCollector
    }
}

impl Default for HwmonCollector {
    fn default() -> (r: Self)
        ensures
            r == HwmonCollector,
    {
        HwmonCollector::new()
    }
}

} // verus!
