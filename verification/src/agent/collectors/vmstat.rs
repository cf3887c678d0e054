//! Virtual memory counters from `/proc/vmstat`.

use vstd::prelude::*;
use vstd::std_specs::iter::IteratorSpec;

use super::parsing::{gather, lemma_take_all, lemma_take_one_more};
use crate::text::{dec_u64, lines, parse_u64, split_lines, split_whitespace, views, words};

verus! {

/// One named counter, such as `pgfault 12345`.
#[derive(Debug, Clone)]
pub struct VmstatEntry {
    /// Counter name.
    pub key: String,
    /// Counter value.
    pub value: u64,
}

impl View for VmstatEntry {
    type V = (Seq<char>, u64);

    open spec fn view(&self) -> Self::V {
        (self.key@, self.value)
    }
}

/// A growable list of `VmstatEntry` values.
#[derive(Debug, Clone)]
pub struct VmstatBuffer {
    entries: Vec<VmstatEntry>,
}

impl View for VmstatBuffer {
    type V = Seq<<VmstatEntry as View>::V>;

    closed spec fn view(&self) -> Self::V {
        self.entries@.map_values(|e: VmstatEntry| e@)
    }
}

impl VmstatBuffer {
    /// The entries, in insertion order.
    pub closed spec fn items(&self) -> Seq<VmstatEntry> {
        self.entries@
    }

    /// The view is the entries' views, in order.
    pub proof fn lemma_view_items(&self)
        ensures
            self@ == self.items().map_values(|e: VmstatEntry| e@),
    {
    }

    /// An empty buffer.
    pub fn new() -> (r: Self)
        ensures
            r.items() == Seq::<VmstatEntry>::empty(),
            r@ == Seq::<<VmstatEntry as View>::V>::empty(),
    {
        let r = VmstatBuffer { entries: Vec::new() };
        assert(r@ =~= Seq::<<VmstatEntry as View>::V>::empty());
        r
    }

    /// An empty buffer with room for `capacity` entries.
    pub fn with_capacity(capacity: usize) -> (r: Self)
        ensures
            r.items() == Seq::<VmstatEntry>::empty(),
            r@ == Seq::<<VmstatEntry as View>::V>::empty(),
    {
        let r = VmstatBuffer { entries: Vec::with_capacity(capacity) };
        assert(r@ =~= Seq::<<VmstatEntry as View>::V>::empty());
        r
    }

    /// Appends an entry.
    pub fn push(&mut self, entry: VmstatEntry)
        ensures
            final(self).items() == old(self).items().push(entry),
            final(self)@ == old(self)@.push(entry@),
    {
        self.entries.push(entry);
        assert(self@ =~= old(self)@.push(entry@));
    }

    /// Iterates over the entries in order.
    pub fn iter(&self) -> (r: std::slice::Iter<'_, VmstatEntry>)
        ensures
            r.remaining() == self.items().as_ref(),
    {
        self.entries.as_slice().iter()
    }

    /// The number of entries.
    pub fn len(&self) -> (r: usize)
        ensures
            r == self.items().len(),
            r == self@.len(),
    {
        self.entries.len()
    }

    /// Whether there are no entries.
    pub fn is_empty(&self) -> (r: bool)
        ensures
            r == (self.items().len() == 0),
            r == (self@.len() == 0),
    {
        self.entries.is_empty()
    }

    /// The entries as a slice.
    pub fn as_slice(&self) -> (r: &[VmstatEntry])
        ensures
            r@ == self.items(),
            r@.map_values(|e: VmstatEntry| e@) == self@,
    {
        self.entries.as_slice()
    }
}

/// Reads the virtual memory counters of `/proc/vmstat`.
#[derive(Debug, Clone, Copy)]
pub struct VmstatCollector;

impl VmstatCollector {
    /// A new collector.
    pub fn new() -> (r: Self)
        ensures
            r == VmstatCollector,
    {
        VmstatCollector
    }
}

impl Default for VmstatCollector {
    fn default() -> (r: Self)
        ensures
            r == VmstatCollector,
    {
        VmstatCollector::new()
    }
}

/// What one line of `/proc/vmstat` contributes: its name and value when it
/// has exactly two words and the second is a `u64`; nothing otherwise.
pub open spec fn vmstat_line(line: Seq<char>) -> Seq<(Seq<char>, u64)> {
    let w = words(line);
    if w.len() == 2 && dec_u64(w[1]) is Some {
        seq![(w[0], dec_u64(w[1])->0)]
    } else {
        Seq::empty()
    }
}

/// The per-line rule of `/proc/vmstat`.
pub open spec fn vmstat_step() -> spec_fn(Seq<char>) -> Seq<(Seq<char>, u64)> {
    |line: Seq<char>| vmstat_line(line)
}

/// All counters of `/proc/vmstat`, in file order.
pub open spec fn vmstat_of(content: Seq<char>) -> Seq<(Seq<char>, u64)> {
    gather(lines(content), vmstat_step())
}

/// Parses one line of `/proc/vmstat`.
fn parse_vmstat_line(line: &str) -> (r: Option<VmstatEntry>)
    ensures
        match r {
            Some(e) => vmstat_line(line@) == seq![e@],
            None => vmstat_line(line@) == Seq::<(Seq<char>, u64)>::empty(),
        },
{
    let parts = split_whitespace(line);
    if parts.len() != 2 {
        return None;
    }
    assert(views(parts@)[0] == parts@[0]@);
    assert(views(parts@)[1] == parts@[1]@);
    match parse_u64(parts[1].as_str()) {
        Some(v) => Some(VmstatEntry { key: parts[0].clone(), value: v }),
        None => None,
    }
}

/// Parses the content of `/proc/vmstat`.
pub fn parse_vmstat(content: &str) -> (r: VmstatBuffer)
    ensures
        r@ == vmstat_of(content@),
{
    let ls = split_lines(content);
    let ghost all = views(ls@);
    let mut buffer = VmstatBuffer::new();
    let mut i: usize = 0;
    proof {
        lemma_take_all(all);
    }
    while i < ls.len()
        invariant
            all == views(ls@),
            all == lines(content@),
            i <= ls@.len(),
            gather(all.take(i as int), vmstat_step()) == buffer@,
        decreases ls@.len() - i,
    {
        proof {
            lemma_take_one_more(all, i as int);
        }
        assert(all[i as int] == ls@[i as int]@);
        let ghost before = buffer@;
        match parse_vmstat_line(ls[i].as_str()) {
            Some(entry) => {
                buffer.push(entry);
                assert(before.push(entry@) =~= before + seq![entry@]);
            },
            None => {
                assert(before + Seq::empty() =~= before);
            },
        }
        i = i + 1;
    }
    buffer
}

} // verus!
