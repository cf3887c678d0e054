//! Socket usage per protocol from `/proc/net/sockstat`.

use vstd::prelude::*;
use vstd::std_specs::iter::IteratorSpec;

use super::parsing::{gather, lemma_take_all, lemma_take_one_more};
use crate::text::{
    dec_u64, lines, parse_u64, split_lines, split_whitespace, strip_trailing, trim_end_char, views,
    words,
};

verus! {

/// One named socket figure of one protocol, such as `TCP inuse 42`.
#[derive(Debug, Clone)]
pub struct SockstatEntry {
    /// Protocol name without its trailing colon, such as `TCP`.
    pub protocol: String,
    /// Figure name, such as `inuse`, `orphan` or `tw`.
    pub metric: String,
    /// The figure.
    pub value: u64,
}

impl View for SockstatEntry {
    type V = (Seq<char>, Seq<char>, u64);

    open spec fn view(&self) -> Self::V {
        (self.protocol@, self.metric@, self.value)
    }
}

/// A growable list of `SockstatEntry` values.
#[derive(Debug, Clone)]
pub struct SockstatBuffer {
    entries: Vec<SockstatEntry>,
}

impl View for SockstatBuffer {
    type V = Seq<<SockstatEntry as View>::V>;

    closed spec fn view(&self) -> Self::V {
        self.entries@.map_values(|e: SockstatEntry| e@)
    }
}

impl SockstatBuffer {
    /// The entries, in insertion order.
    pub closed spec fn items(&self) -> Seq<SockstatEntry> {
        self.entries@
    }

    /// The view is the entries' views, in order.
    pub proof fn lemma_view_items(&self)
        ensures
            self@ == self.items().map_values(|e: SockstatEntry| e@),
    {
    }

    /// An empty buffer.
    pub fn new() -> (r: Self)
        ensures
            r.items() == Seq::<SockstatEntry>::empty(),
            r@ == Seq::<<SockstatEntry as View>::V>::empty(),
    {
        let r = SockstatBuffer { entries: Vec::new() };
        assert(r@ =~= Seq::<<SockstatEntry as View>::V>::empty());
        r
    }

    /// An empty buffer with room for `capacity` entries.
    pub fn with_capacity(capacity: usize) -> (r: Self)
        ensures
            r.items() == Seq::<SockstatEntry>::empty(),
            r@ == Seq::<<SockstatEntry as View>::V>::empty(),
    {
        let r = SockstatBuffer { entries: Vec::with_capacity(capacity) };
        assert(r@ =~= Seq::<<SockstatEntry as View>::V>::empty());
        r
    }

    /// Appends an entry.
    pub fn push(&mut self, entry: SockstatEntry)
        ensures
            final(self).items() == old(self).items().push(entry),
            final(self)@ == old(self)@.push(entry@),
    {
        self.entries.push(entry);
        assert(self@ =~= old(self)@.push(entry@));
    }

    /// Iterates over the entries in order.
    pub fn iter(&self) -> (r: std::slice::Iter<'_, SockstatEntry>)
        ensures
            r.remaining() == self.items().as_ref(),
    {
        self.entries.as_slice().iter()
    }

    /// The number of entries.
    pub fn len(&self) -> (r: usize)
        ensures
            r == self.items().len(),
            r == self@.len(),
    {
        self.entries.len()
    }

    /// Whether there are no entries.
    pub fn is_empty(&self) -> (r: bool)
        ensures
            r == (self.items().len() == 0),
            r == (self@.len() == 0),
    {
        self.entries.is_empty()
    }

    /// The entries as a slice.
    pub fn as_slice(&self) -> (r: &[SockstatEntry])
        ensures
            r@ == self.items(),
            r@.map_values(|e: SockstatEntry| e@) == self@,
    {
        self.entries.as_slice()
    }
}

/// Reads the per-protocol socket figures of `/proc/net/sockstat`.
#[derive(Debug, Clone, Copy)]
pub struct SockstatCollector;

impl SockstatCollector {
    /// A new collector.
    pub fn new() -> (r: Self)
        ensures
            r == SockstatCollector,
    {
        SockstatCollector
    }
}

impl Default for SockstatCollector {
    fn default() -> (r: Self)
        ensures
            r == SockstatCollector,
    {
        SockstatCollector::new()
    }
}

/// The entries that the name/value pairs `toks` yield for `protocol`: each
/// complete pair whose value is a `u64`, in order; an unpaired last word
/// and unparsable values are skipped.
pub open spec fn sockstat_pairs(protocol: Seq<char>, toks: Seq<Seq<char>>) -> Seq<(Seq<char>, Seq<char>, u64)>
    decreases toks.len(),
{
    if toks.len() < 2 {
        Seq::empty()
    } else {
        (match dec_u64(toks[1]) {
            Some(v) => seq![(protocol, toks[0], v)],
            None => Seq::empty(),
        }) + sockstat_pairs(protocol, toks.subrange(2, toks.len() as int))
    }
}

/// What one line of `/proc/net/sockstat` contributes: nothing when it has
/// fewer than three words; otherwise the pairs after the protocol word,
/// whose trailing colons are dropped.
pub open spec fn sockstat_line(line: Seq<char>) -> Seq<(Seq<char>, Seq<char>, u64)> {
    let w = words(line);
    if w.len() < 3 {
        Seq::empty()
    } else {
        sockstat_pairs(strip_trailing(w[0], ':'), w.subrange(1, w.len() as int))
    }
}

/// The per-line rule of `/proc/net/sockstat`.
pub open spec fn sockstat_step() -> spec_fn(Seq<char>) -> Seq<(Seq<char>, Seq<char>, u64)> {
    |line: Seq<char>| sockstat_line(line)
}

/// All entries of `/proc/net/sockstat`, in file order.
pub open spec fn sockstat_of(content: Seq<char>) -> Seq<(Seq<char>, Seq<char>, u64)> {
    gather(lines(content), sockstat_step())
}

/// Parses one line of `/proc/net/sockstat` into `buffer`.
fn parse_sockstat_line(line: &str, buffer: &mut SockstatBuffer)
    ensures
        final(buffer)@ == old(buffer)@ + sockstat_line(line@),
{
    let parts = split_whitespace(line);
    let ghost w = views(parts@);
    if parts.len() < 3 {
        assert(old(buffer)@ + Seq::empty() =~= old(buffer)@);
        return;
    }
    assert(w[0] == parts@[0]@);
    let protocol = trim_end_char(parts[0].as_str(), ':');
    let ghost base = buffer@;
    let ghost all_pairs = w.subrange(1, w.len() as int);
    let mut j: usize = 1;
    assert(w.subrange(1, w.len() as int) =~= all_pairs);
    assert(base + Seq::empty() =~= base);
    while parts.len() - j >= 2
        invariant
            w == views(parts@),
            1 <= j <= parts@.len(),
            all_pairs == w.subrange(1, w.len() as int),
            protocol@ == strip_trailing(w[0], ':'),
            buffer@ + sockstat_pairs(protocol@, w.subrange(j as int, w.len() as int)) == base
                + sockstat_pairs(protocol@, all_pairs),
        decreases parts@.len() - j,
    {
        let ghost rest = w.subrange(j as int, w.len() as int);
        assert(rest.subrange(2, rest.len() as int) =~= w.subrange(j + 2, w.len() as int));
        assert(rest[0] == parts@[j as int]@);
        assert(rest[1] == parts@[j + 1]@);
        let ghost before = buffer@;
        match parse_u64(parts[j + 1].as_str()) {
            Some(v) => {
                let entry = SockstatEntry { protocol: protocol.clone(), metric: parts[j].clone(), value: v };
                buffer.push(entry);
                assert(before.push(entry@) + sockstat_pairs(protocol@, w.subrange(j + 2, w.len() as int))
                    =~= before + sockstat_pairs(protocol@, rest));
            },
            None => {
                assert(before + sockstat_pairs(protocol@, w.subrange(j + 2, w.len() as int))
                    =~= before + sockstat_pairs(protocol@, rest));
            },
        }
        j = j + 2;
    }
    assert(sockstat_pairs(protocol@, w.subrange(j as int, w.len() as int)) =~= Seq::empty());
    assert(buffer@ + Seq::empty() =~= buffer@);
}

/// Parses the content of `/proc/net/sockstat`.
pub fn parse_sockstat(content: &str) -> (r: SockstatBuffer)
    ensures
        r@ == sockstat_of(content@),
{
    let ls = split_lines(content);
    let ghost all = views(ls@);
    let mut buffer = SockstatBuffer::new();
    let mut i: usize = 0;
    proof {
        lemma_take_all(all);
    }
    while i < ls.len()
        invariant
            all == views(ls@),
            all == lines(content@),
            i <= ls@.len(),
            gather(all.take(i as int), sockstat_step()) == buffer@,
        decreases ls@.len() - i,
    {
        proof {
            lemma_take_one_more(all, i as int);
        }
        assert(all[i as int] == ls@[i as int]@);
        parse_sockstat_line(ls[i].as_str(), &mut buffer);
        i = i + 1;
    }
    buffer
}

} // verus!
