//! Per-CPU packet processing counters from `/proc/net/softnet_stat`.

use vstd::prelude::*;
use vstd::std_specs::iter::IteratorSpec;

use super::parsing::{gather_at, lemma_take_all, lemma_take_one_more};
use crate::text::{decimal, hex_u64, lines, parse_hex_u64, split_lines, split_whitespace, to_decimal, views, words};

verus! {

/// Packet processing counters of one CPU.
#[derive(Debug, Clone)]
pub struct SoftnetStats {
    /// The CPU number, in decimal.
    pub cpu: String,
    /// Packets processed.
    pub processed: u64,
    /// Packets dropped because the backlog was full.
    pub dropped: u64,
    /// Times the processing budget ran out.
    pub time_squeeze: u64,
}

impl View for SoftnetStats {
    type V = (Seq<char>, u64, u64, u64);

    open spec fn view(&self) -> Self::V {
        (self.cpu@, self.processed, self.dropped, self.time_squeeze)
    }
}

/// A growable list of `SoftnetStats` values.
#[derive(Debug, Clone)]
pub struct SoftnetBuffer {
    stats: Vec<SoftnetStats>,
}

impl View for SoftnetBuffer {
    type V = Seq<<SoftnetStats as View>::V>;

    closed spec fn view(&self) -> Self::V {
        self.stats@.map_values(|e: SoftnetStats| e@)
    }
}

impl SoftnetBuffer {
    /// The entries, in insertion order.
    pub closed spec fn items(&self) -> Seq<SoftnetStats> {
        self.stats@
    }

    /// The view is the entries' views, in order.
    pub proof fn lemma_view_items(&self)
        ensures
            self@ == self.items().map_values(|e: SoftnetStats| e@),
    {
    }

    /// An empty buffer.
    pub fn new() -> (r: Self)
        ensures
            r.items() == Seq::<SoftnetStats>::empty(),
            r@ == Seq::<<SoftnetStats as View>::V>::empty(),
    {
        let r = SoftnetBuffer { stats: Vec::new() };
        assert(r@ =~= Seq::<<SoftnetStats as View>::V>::empty());
        r
    }

    /// An empty buffer with room for `capacity` entries.
    pub fn with_capacity(capacity: usize) -> (r: Self)
        ensures
            r.items() == Seq::<SoftnetStats>::empty(),
            r@ == Seq::<<SoftnetStats as View>::V>::empty(),
    {
        let r = SoftnetBuffer { stats: Vec::with_capacity(capacity) };
        assert(r@ =~= Seq::<<SoftnetStats as View>::V>::empty());
        r
    }

    /// Appends an entry.
    pub fn push(&mut self, entry: SoftnetStats)
        ensures
            final(self).items() == old(self).items().push(entry),
            final(self)@ == old(self)@.push(entry@),
    {
        self.stats.push(entry);
        assert(self@ =~= old(self)@.push(entry@));
    }

    /// Iterates over the entries in order.
    pub fn iter(&self) -> (r: std::slice::Iter<'_, SoftnetStats>)
        ensures
            r.remaining() == self.items().as_ref(),
    {
        self.stats.as_slice().iter()
    }

    /// The number of entries.
    pub fn len(&self) -> (r: usize)
        ensures
            r == self.items().len(),
            r == self@.len(),
    {
        self.stats.len()
    }

    /// Whether there are no entries.
    pub fn is_empty(&self) -> (r: bool)
        ensures
            r == (self.items().len() == 0),
            r == (self@.len() == 0),
    {
        self.stats.is_empty()
    }

    /// The entries as a slice.
    pub fn as_slice(&self) -> (r: &[SoftnetStats])
        ensures
            r@ == self.items(),
            r@.map_values(|e: SoftnetStats| e@) == self@,
    {
        self.stats.as_slice()
    }
}

/// Reads the per-CPU counters of `/proc/net/softnet_stat`.
#[derive(Debug, Clone, Copy)]
pub struct SoftnetCollector;

impl SoftnetCollector {
    /// A new collector.
    pub fn new() -> (r: Self)
        ensures
            r == SoftnetCollector,
    {
        SoftnetCollector
    }
}

impl Default for SoftnetCollector {
    fn default() -> (r: Self)
        ensures
            r == SoftnetCollector,
    {
        SoftnetCollector::new()
    }
}

/// A hexadecimal counter, or zero when the word is not one.
pub open spec fn hex_or_zero(w: Seq<char>) -> u64 {
    match hex_u64(w) {
        Some(v) => v,
        None => 0,
    }
}

/// What line `index` of `/proc/net/softnet_stat` contributes: nothing when
/// it has fewer than three words; otherwise the line number as the CPU and
/// the first three words read as hexadecimal, zero where unreadable.
pub open spec fn softnet_line(index: int, line: Seq<char>) -> Seq<(Seq<char>, u64, u64, u64)> {
    let w = words(line);
    if w.len() < 3 {
        Seq::empty()
    } else {
        seq![(decimal(index as nat), hex_or_zero(w[0]), hex_or_zero(w[1]), hex_or_zero(w[2]))]
    }
}

/// The per-line rule of `/proc/net/softnet_stat`.
pub open spec fn softnet_step() -> spec_fn(int, Seq<char>) -> Seq<(Seq<char>, u64, u64, u64)> {
    |index: int, line: Seq<char>| softnet_line(index, line)
}

/// All CPU entries of `/proc/net/softnet_stat`, in file order.
pub open spec fn softnet_of(content: Seq<char>) -> Seq<(Seq<char>, u64, u64, u64)> {
    gather_at(lines(content), softnet_step())
}

/// A hexadecimal counter, or zero.
fn hex_or_zero_of(w: &str) -> (r: u64)
    ensures
        r == hex_or_zero(w@),
{
    match parse_hex_u64(w) {
        Some(v) => v,
        None => 0,
    }
}

/// Parses line `index` of `/proc/net/softnet_stat`.
fn parse_softnet_line(index: usize, line: &str) -> (r: Option<SoftnetStats>)
    ensures
        match r {
            Some(e) => softnet_line(index as int, line@) == seq![e@],
            None => softnet_line(index as int, line@) == Seq::<(Seq<char>, u64, u64, u64)>::empty(),
        },
{
    let parts = split_whitespace(line);
    if parts.len() < 3 {
        return None;
    }
    assert(views(parts@)[0] == parts@[0]@);
    assert(views(parts@)[1] == parts@[1]@);
    assert(views(parts@)[2] == parts@[2]@);
    Some(
        SoftnetStats {
            cpu: to_decimal(index as u64),
            processed: hex_or_zero_of(parts[0].as_str()),
            dropped: hex_or_zero_of(parts[1].as_str()),
            time_squeeze: hex_or_zero_of(parts[2].as_str()),
        },
    )
}

/// Parses the content of `/proc/net/softnet_stat`.
pub fn parse_softnet(content: &str) -> (r: SoftnetBuffer)
    ensures
        r@ == softnet_of(content@),
{
    let ls = split_lines(content);
    let ghost all = views(ls@);
    let mut buffer = SoftnetBuffer::new();
    let mut i: usize = 0;
    proof {
        lemma_take_all(all);
    }
    while i < ls.len()
        invariant
            all == views(ls@),
            all == lines(content@),
            i <= ls@.len(),
            gather_at(all.take(i as int), softnet_step()) == buffer@,
        decreases ls@.len() - i,
    {
        proof {
            lemma_take_one_more(all, i as int);
        }
        assert(all[i as int] == ls@[i as int]@);
        let ghost before = buffer@;
        match parse_softnet_line(i, ls[i].as_str()) {
            Some(entry) => {
                buffer.push(entry);
                assert(before.push(entry@) =~= before + seq![entry@]);
            },
            None => {
                assert(before + Seq::empty() =~= before);
            },
        }
        i = i + 1;
    }
    buffer
}

} // verus!
