//! Extended protocol counters from `/proc/net/netstat`.

use vstd::prelude::*;
use vstd::std_specs::iter::IteratorSpec;

use crate::text::{dec_u64, lines, parse_u64, split_lines, split_whitespace, strip_trailing, trim_end_char, views, words};

verus! {

/// One protocol counter, such as `TcpExt: TCPRetransFail 42`.
#[derive(Debug, Clone)]
pub struct NetstatEntry {
    /// The protocol, such as `TcpExt` (the first header word without its colon).
    pub protocol: String,
    /// Counter name.
    pub stat_name: String,
    /// Counter value.
    pub value: u64,
}

impl View for NetstatEntry {
    type V = (Seq<char>, Seq<char>, u64);

    open spec fn view(&self) -> Self::V {
        (self.protocol@, self.stat_name@, self.value)
    }
}

/// A growable list of `NetstatEntry` values.
#[derive(Debug, Clone)]
pub struct NetstatBuffer {
    entries: Vec<NetstatEntry>,
}

impl View for NetstatBuffer {
    type V = Seq<<NetstatEntry as View>::V>;

    closed spec fn view(&self) -> Self::V {
        self.entries@.map_values(|e: NetstatEntry| e@)
    }
}

impl NetstatBuffer {
    /// The entries, in insertion order.
    pub closed spec fn items(&self) -> Seq<NetstatEntry> {
        self.entries@
    }

    /// The view is the entries' views, in order.
    pub proof fn lemma_view_items(&self)
        ensures
            self@ == self.items().map_values(|e: NetstatEntry| e@),
    {
    }

    /// An empty buffer.
    pub fn new() -> (r: Self)
        ensures
            r.items() == Seq::<NetstatEntry>::empty(),
            r@ == Seq::<<NetstatEntry as View>::V>::empty(),
    {
        let r = NetstatBuffer { entries: Vec::new() };
        assert(r@ =~= Seq::<<NetstatEntry as View>::V>::empty());
        r
    }

    /// An empty buffer with room for `capacity` entries.
    pub fn with_capacity(capacity: usize) -> (r: Self)
        ensures
            r.items() == Seq::<NetstatEntry>::empty(),
            r@ == Seq::<<NetstatEntry as View>::V>::empty(),
    {
        let r = NetstatBuffer { entries: Vec::with_capacity(capacity) };
        assert(r@ =~= Seq::<<NetstatEntry as View>::V>::empty());
        r
    }

    /// Appends an entry.
    pub fn push(&mut self, entry: NetstatEntry)
        ensures
            final(self).items() == old(self).items().push(entry),
            final(self)@ == old(self)@.push(entry@),
    {
        self.entries.push(entry);
        assert(self@ =~= old(self)@.push(entry@));
    }

    /// Iterates over the entries in order.
    pub fn iter(&self) -> (r: std::slice::Iter<'_, NetstatEntry>)
        ensures
            r.remaining() == self.items().as_ref(),
    {
        self.entries.as_slice().iter()
    }

    /// The number of entries.
    pub fn len(&self) -> (r: usize)
        ensures
            r == self.items().len(),
            r == self@.len(),
    {
        self.entries.len()
    }

    /// Whether there are no entries.
    pub fn is_empty(&self) -> (r: bool)
        ensures
            r == (self.items().len() == 0),
            r == (self@.len() == 0),
    {
        self.entries.is_empty()
    }

    /// The entries as a slice.
    pub fn as_slice(&self) -> (r: &[NetstatEntry])
        ensures
            r@ == self.items(),
            r@.map_values(|e: NetstatEntry| e@) == self@,
    {
        self.entries.as_slice()
    }
}

/// Reads the protocol counters of `/proc/net/netstat`.
#[derive(Debug, Clone, Copy)]
pub struct NetstatCollector;

impl NetstatCollector {
    /// A new collector.
    pub fn new() -> (r: Self)
        ensures
            r == NetstatCollector,
    {
        NetstatCollector
    }
}

impl Default for NetstatCollector {
    fn default() -> (r: Self)
        ensures
            r == NetstatCollector,
    {
        NetstatCollector::new()
    }
}

/// The entries of the header columns `1..n` of a block: each column that
/// has a value word that is a `u64`, in order.
pub open spec fn netstat_columns(protocol: Seq<char>, hs: Seq<Seq<char>>, vs: Seq<Seq<char>>, n: int) -> Seq<
    (Seq<char>, Seq<char>, u64),
>
    decreases n,
{
    if n <= 1 {
        Seq::empty()
    } else {
        netstat_columns(protocol, hs, vs, n - 1) + if n - 1 < vs.len() && dec_u64(vs[n - 1]) is Some {
            seq![(protocol, hs[n - 1], dec_u64(vs[n - 1])->0)]
        } else {
            Seq::empty()
        }
    }
}

/// What a header line and the value line after it contribute: when both
/// have more than one word, the first header word without its trailing
/// colon is the protocol and each further header is paired with the value
/// in the same column.
pub open spec fn netstat_block(header: Seq<char>, values: Seq<char>) -> Seq<(Seq<char>, Seq<char>, u64)> {
    let hs = words(header);
    let vs = words(values);
    if hs.len() > 1 && vs.len() > 1 {
        netstat_columns(strip_trailing(hs[0], ':'), hs, vs, hs.len() as int)
    } else {
        Seq::empty()
    }
}

/// The entries of the lines taken two at a time; an unpaired last line adds
/// nothing.
pub open spec fn netstat_blocks(ls: Seq<Seq<char>>) -> Seq<(Seq<char>, Seq<char>, u64)>
    decreases ls.len(),
{
    if ls.len() < 2 {
        Seq::empty()
    } else {
        netstat_block(ls[0], ls[1]) + netstat_blocks(ls.subrange(2, ls.len() as int))
    }
}

/// All entries of `/proc/net/netstat`, in file order.
pub open spec fn netstat_of(content: Seq<char>) -> Seq<(Seq<char>, Seq<char>, u64)> {
    netstat_blocks(lines(content))
}

/// Parses a header line and its value line into `buffer`.
fn parse_netstat_block(header: &str, values: &str, buffer: &mut NetstatBuffer)
    ensures
        final(buffer)@ == old(buffer)@ + netstat_block(header@, values@),
{
    let hs = split_whitespace(header);
    let vs = split_whitespace(values);
    if !(hs.len() > 1 && vs.len() > 1) {
        assert(old(buffer)@ + Seq::empty() =~= old(buffer)@);
        return;
    }
    let ghost base = buffer@;
    let ghost h = views(hs@);
    let ghost v = views(vs@);
    assert(h[0] == hs@[0]@);
    let protocol = trim_end_char(hs[0].as_str(), ':');
    let ghost p = protocol@;
    let mut idx: usize = 1;
    assert(base + Seq::empty() =~= base);
    while idx < hs.len()
        invariant
            h == views(hs@),
            v == views(vs@),
            p == protocol@,
            p == strip_trailing(h[0], ':'),
            1 <= idx <= hs@.len(),
            buffer@ == base + netstat_columns(p, h, v, idx as int),
        decreases hs@.len() - idx,
    {
        let ghost before = buffer@;
        assert(h[idx as int] == hs@[idx as int]@);
        if idx < vs.len() {
            assert(v[idx as int] == vs@[idx as int]@);
            match parse_u64(vs[idx].as_str()) {
                Some(val) => {
                    let entry = NetstatEntry { protocol: protocol.clone(), stat_name: hs[idx].clone(), value: val };
                    buffer.push(entry);
                    assert(base + netstat_columns(p, h, v, idx + 1) =~= before.push(entry@));
                },
                None => {
                    assert(base + netstat_columns(p, h, v, idx + 1) =~= before);
                },
            }
        } else {
            assert(base + netstat_columns(p, h, v, idx + 1) =~= before);
        }
        idx = idx + 1;
    }
}

/// Parses the content of `/proc/net/netstat`.
pub fn parse_netstat(content: &str) -> (r: NetstatBuffer)
    ensures
        r@ == netstat_of(content@),
{
    let ls = split_lines(content);
    let ghost all = views(ls@);
    let mut buffer = NetstatBuffer::new();
    let mut i: usize = 0;
    assert(all.subrange(0, all.len() as int) =~= all);
    assert(buffer@ + netstat_blocks(all) =~= netstat_blocks(all));
    while ls.len() - i >= 2
        invariant
            all == views(ls@),
            all == lines(content@),
            i <= ls@.len(),
            buffer@ + netstat_blocks(all.subrange(i as int, all.len() as int)) == netstat_blocks(all),
        decreases ls@.len() - i,
    {
        let ghost rest = all.subrange(i as int, all.len() as int);
        assert(rest[0] == ls@[i as int]@);
        assert(rest[1] == ls@[i + 1]@);
        assert(rest.subrange(2, rest.len() as int) =~= all.subrange(i + 2, all.len() as int));
        let ghost before = buffer@;
        parse_netstat_block(ls[i].as_str(), ls[i + 1].as_str(), &mut buffer);
        assert(before + netstat_blocks(rest) =~= buffer@ + netstat_blocks(all.subrange(i + 2, all.len() as int)));
        i = i + 2;
    }
    assert(netstat_blocks(all.subrange(i as int, all.len() as int)) =~= Seq::empty());
    assert(buffer@ + Seq::empty() =~= buffer@);
    buffer
}

} // verus!
