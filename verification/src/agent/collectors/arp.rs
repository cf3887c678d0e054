//! The neighbour (ARP) table from `/proc/net/arp`.

use vstd::prelude::*;
use vstd::std_specs::iter::IteratorSpec;

use super::parsing::{gather, lemma_take_all, lemma_take_one_more};
use crate::text::{lines, skip_n, split_lines, split_whitespace, views, words};

verus! {

/// One row of the ARP table.
#[derive(Debug, Clone)]
pub struct ArpEntry {
    /// IP address.
    pub ip_address: String,
    /// Hardware type, such as `0x1`.
    pub hw_type: String,
    /// Entry flags.
    pub flags: String,
    /// MAC address.
    pub hw_address: String,
    /// Mask column.
    pub mask: String,
    /// Interface.
    pub device: String,
}

impl View for ArpEntry {
    /// The six columns in file order.
    type V = Seq<Seq<char>>;

    open spec fn view(&self) -> Self::V {
        seq![self.ip_address@, self.hw_type@, self.flags@, self.hw_address@, self.mask@, self.device@]
    }
}

/// A growable list of `ArpEntry` values.
#[derive(Debug, Clone)]
pub struct ArpBuffer {
    entries: Vec<ArpEntry>,
}

impl View for ArpBuffer {
    type V = Seq<<ArpEntry as View>::V>;

    closed spec fn view(&self) -> Self::V {
        self.entries@.map_values(|e: ArpEntry| e@)
    }
}

impl ArpBuffer {
    /// The entries, in insertion order.
    pub closed spec fn items(&self) -> Seq<ArpEntry> {
        self.entries@
    }

    /// The view is the entries' views, in order.
    pub proof fn lemma_view_items(&self)
        ensures
            self@ == self.items().map_values(|e: ArpEntry| e@),
    {
    }

    /// An empty buffer.
    pub fn new() -> (r: Self)
        ensures
            r.items() == Seq::<ArpEntry>::empty(),
            r@ == Seq::<<ArpEntry as View>::V>::empty(),
    {
        let r = ArpBuffer { entries: Vec::new() };
        assert(r@ =~= Seq::<<ArpEntry as View>::V>::empty());
        r
    }

    /// An empty buffer with room for `capacity` entries.
    pub fn with_capacity(capacity: usize) -> (r: Self)
        ensures
            r.items() == Seq::<ArpEntry>::empty(),
            r@ == Seq::<<ArpEntry as View>::V>::empty(),
    {
        let r = ArpBuffer { entries: Vec::with_capacity(capacity) };
        assert(r@ =~= Seq::<<ArpEntry as View>::V>::empty());
        r
    }

    /// Appends an entry.
    pub fn push(&mut self, entry: ArpEntry)
        ensures
            final(self).items() == old(self).items().push(entry),
            final(self)@ == old(self)@.push(entry@),
    {
        self.entries.push(entry);
        assert(self@ =~= old(self)@.push(entry@));
    }

    /// Iterates over the entries in order.
    pub fn iter(&self) -> (r: std::slice::Iter<'_, ArpEntry>)
        ensures
            r.remaining() == self.items().as_ref(),
    {
        self.entries.as_slice().iter()
    }

    /// The number of entries.
    pub fn len(&self) -> (r: usize)
        ensures
            r == self.items().len(),
            r == self@.len(),
    {
        self.entries.len()
    }

    /// Whether there are no entries.
    pub fn is_empty(&self) -> (r: bool)
        ensures
            r == (self.items().len() == 0),
            r == (self@.len() == 0),
    {
        self.entries.is_empty()
    }

    /// The entries as a slice.
    pub fn as_slice(&self) -> (r: &[ArpEntry])
        ensures
            r@ == self.items(),
            r@.map_values(|e: ArpEntry| e@) == self@,
    {
        self.entries.as_slice()
    }
}

/// Reads the ARP table of `/proc/net/arp`.
#[derive(Debug, Clone, Copy)]
pub struct ArpCollector;

impl ArpCollector {
    /// A new collector.
    pub fn new() -> (r: Self)
        ensures
            r == ArpCollector,
    {
        ArpCollector
    }
}

impl Default for ArpCollector {
    fn default() -> (r: Self)
        ensures
            r == ArpCollector,
    {
        ArpCollector::new()
    }
}

/// What one row of `/proc/net/arp` contributes: its first six words, when
/// it has at least six.
pub open spec fn arp_line(line: Seq<char>) -> Seq<Seq<Seq<char>>> {
    let w = words(line);
    if w.len() < 6 {
        Seq::empty()
    } else {
        seq![w.subrange(0, 6)]
    }
}

/// The per-line rule of `/proc/net/arp`.
pub open spec fn arp_step() -> spec_fn(Seq<char>) -> Seq<Seq<Seq<char>>> {
    |line: Seq<char>| arp_line(line)
}

/// All rows of `/proc/net/arp` after its header line, in file order.
pub open spec fn arp_of(content: Seq<char>) -> Seq<Seq<Seq<char>>> {
    gather(skip_n(lines(content), 1), arp_step())
}

/// Parses one row of `/proc/net/arp`.
fn parse_arp_line(line: &str) -> (r: Option<ArpEntry>)
    ensures
        match r {
            Some(e) => arp_line(line@) == seq![e@],
            None => arp_line(line@) == Seq::<Seq<Seq<char>>>::empty(),
        },
{
    let parts = split_whitespace(line);
    if parts.len() < 6 {
        return None;
    }
    let entry = ArpEntry {
        ip_address: parts[0].clone(),
        hw_type: parts[1].clone(),
        flags: parts[2].clone(),
        hw_address: parts[3].clone(),
        mask: parts[4].clone(),
        device: parts[5].clone(),
    };
    assert(entry@ =~= views(parts@).subrange(0, 6));
    Some(entry)
}

/// Parses the content of `/proc/net/arp`.
pub fn parse_arp(content: &str) -> (r: ArpBuffer)
    ensures
        r@ == arp_of(content@),
{
    let ls = split_lines(content);
    let mut buffer = ArpBuffer::with_capacity(64);
    if ls.len() <= 1 {
        assert(skip_n(views(ls@), 1) =~= Seq::<Seq<char>>::empty());
        return buffer;
    }
    let ghost all = views(ls@).subrange(1, ls@.len() as int);
    let mut i: usize = 1;
    proof {
        lemma_take_all(all);
    }
    while i < ls.len()
        invariant
            1 <= i <= ls@.len(),
            all == views(ls@).subrange(1, ls@.len() as int),
            all == skip_n(lines(content@), 1),
            gather(all.take(i - 1), arp_step()) == buffer@,
        decreases ls@.len() - i,
    {
        proof {
            lemma_take_one_more(all, i - 1);
        }
        assert(all[i - 1] == ls@[i as int]@);
        let ghost before = buffer@;
        match parse_arp_line(ls[i].as_str()) {
            Some(entry) => {
                buffer.push(entry);
                assert(before.push(entry@) =~= before + seq![entry@]);
            },
            None => {
                assert(before + Seq::empty() =~= before);
            },
        }
        i = i + 1;
    }
    buffer
}

} // verus!
