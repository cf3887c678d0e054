//! Memory controller error counts from `/sys/devices/system/edac/mc`.

use vstd::prelude::*;
use vstd::std_specs::iter::IteratorSpec;

use crate::text::{dec_u64, has_prefix, parse_u64, starts_with, trim, trim_str};

verus! {

/// Error counts of one memory controller.
#[derive(Debug, Clone)]
pub struct EdacStats {
    /// Controller directory name, such as `mc0`.
    pub controller: String,
    /// Corrected errors.
    pub correctable_errors: u64,
    /// Uncorrected errors.
    pub uncorrectable_errors: u64,
    /// DIMM label.
    pub dimm_label: String,
}

impl View for EdacStats {
    type V = (Seq<char>, u64, u64, Seq<char>);

    open spec fn view(&self) -> Self::V {
        (self.controller@, self.correctable_errors, self.uncorrectable_errors, self.dimm_label@)
    }
}

/// A growable list of `EdacStats` values.
#[derive(Debug, Clone)]
pub struct EdacBuffer {
    stats: Vec<EdacStats>,
}

impl View for EdacBuffer {
    type V = Seq<<EdacStats as View>::V>;

    closed spec fn view(&self) -> Self::V {
        self.stats@.map_values(|e: EdacStats| e@)
    }
}

impl EdacBuffer {
    /// The controllers, in insertion order.
    pub closed spec fn items(&self) -> Seq<EdacStats> {
        self.stats@
    }

    /// The view is the entries' views, in order.
    pub proof fn lemma_view_items(&self)
        ensures
            self@ == self.items().map_values(|e: EdacStats| e@),
    {
    }

    /// An empty buffer.
    pub fn new() -> (r: Self)
        ensures
            r.items() == Seq::<EdacStats>::empty(),
            r@ == Seq::<<EdacStats as View>::V>::empty(),
    {
        let r = EdacBuffer { stats: Vec::new() };
        assert(r@ =~= Seq::<<EdacStats as View>::V>::empty());
        r
    }

    /// An empty buffer with room for `capacity` controllers.
    pub fn with_capacity(capacity: usize) -> (r: Self)
        ensures
            r.items() == Seq::<EdacStats>::empty(),
            r@ == Seq::<<EdacStats as View>::V>::empty(),
    {
        let r = EdacBuffer { stats: Vec::with_capacity(capacity) };
        assert(r@ =~= Seq::<<EdacStats as View>::V>::empty());
        r
    }

    /// Appends an entry.
    pub fn push(&mut self, entry: EdacStats)
        ensures
            final(self).items() == old(self).items().push(entry),
            final(self)@ == old(self)@.push(entry@),
    {
        self.stats.push(entry);
        assert(self@ =~= old(self)@.push(entry@));
    }

    /// Iterates over the controllers in order.
    pub fn iter(&self) -> (r: std::slice::Iter<'_, EdacStats>)
        ensures
            r.remaining() == self.items().as_ref(),
    {
        self.stats.as_slice().iter()
    }

    /// The number of controllers.
    pub fn len(&self) -> (r: usize)
        ensures
            r == self.items().len(),
            r == self@.len(),
    {
        self.stats.len()
    }

    /// Whether there are no controllers.
    pub fn is_empty(&self) -> (r: bool)
        ensures
            r == (self.items().len() == 0),
            r == (self@.len() == 0),
    {
        self.stats.is_empty()
    }
}

/// Reads the error counts of the memory controllers.
#[derive(Debug, Clone, Copy)]
pub struct EdacCollector;

impl EdacCollector {
    /// A new collector.
    pub fn new() -> (r: Self)
        ensures
            r == EdacCollector,
    {
        EdacCollector
    }
}

impl Default for EdacCollector {
    fn default() -> (r: Self)
        ensures
            r == EdacCollector,
    {
        EdacCollector::new()
    }
}

/// Whether a directory entry of `/sys/devices/system/edac/mc` is a memory
/// controller: its name starts with `mc`.
pub fn is_edac_controller(name: &str) -> (r: bool)
    ensures
        r == has_prefix(name@, "mc"@),
{
    starts_with(name, "mc")
}

/// A count file's value: its trimmed content as a `u64`, or zero when it
/// could not be read (`None`) or parsed.
pub open spec fn count_or_zero(content: Option<Seq<char>>) -> u64 {
    match content {
        Some(c) if dec_u64(trim(c)) is Some => dec_u64(trim(c))->0,
        _ => 0,
    }
}

/// The value of a count file.
fn count_of(content: Option<&str>) -> (r: u64)
    ensures
        r == count_or_zero(match content { Some(c) => Some(c@), None => None }),
{
    match content {
        Some(c) => match parse_u64(trim_str(c).as_str()) {
            Some(v) => v,
            None => 0,
        },
        None => 0,
    }
}

/// The entry of controller `controller` from the contents of its
/// `ce_count` and `ue_count` files; its DIMM label is `unknown`.
pub fn edac_stats(controller: String, ce_count: Option<&str>, ue_count: Option<&str>) -> (r: EdacStats)
    ensures
        r@ == (
            controller@,
            count_or_zero(match ce_count { Some(c) => Some(c@), None => None }),
            count_or_zero(match ue_count { Some(c) => Some(c@), None => None }),
            "unknown"@,
        ),
{
    EdacStats {
        controller,
        correctable_errors: count_of(ce_count),
        uncorrectable_errors: count_of(ue_count),
        dimm_label: String::from_str("unknown"),
    }
}

} // verus!
