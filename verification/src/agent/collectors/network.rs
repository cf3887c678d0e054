//! Network interface counters from `/proc/net/dev`.

use vstd::prelude::*;
use vstd::std_specs::iter::IteratorSpec;

use super::error::{parse_error, ErrorModel};
use super::parsing::{
    all_u64, gather_or_fail, lemma_all_u64_values, lemma_gather_or_fail_all,
    lemma_gather_or_fail_prefix, lemma_take_all, lemma_take_one_more, parse_u64_fields,
};
use super::types::CollectorResult;
use crate::text::{
    dec_u64, lemma_split_nonempty, lines, list_contains, skip_n, split_char, split_lines, split_on,
    split_whitespace, take_n, trim, trim_str, views, words,
};

verus! {

/// Traffic counters of one network interface.
#[derive(Debug, Clone)]
pub struct NetworkStats {
    /// Interface name, such as `eth0`.
    pub interface: String,
    /// Bytes received.
    pub receive_bytes: u64,
    /// Packets received.
    pub receive_packets: u64,
    /// Receive errors.
    pub receive_errors: u64,
    /// Received packets dropped.
    pub receive_drops: u64,
    /// Bytes sent.
    pub transmit_bytes: u64,
    /// Packets sent.
    pub transmit_packets: u64,
    /// Transmit errors.
    pub transmit_errors: u64,
    /// Sent packets dropped.
    pub transmit_drops: u64,
}

impl View for NetworkStats {
    /// The interface name and the eight counters in file order.
    type V = (Seq<char>, Seq<u64>);

    open spec fn view(&self) -> Self::V {
        (
            self.interface@,
            seq![
                self.receive_bytes,
                self.receive_packets,
                self.receive_errors,
                self.receive_drops,
                self.transmit_bytes,
                self.transmit_packets,
                self.transmit_errors,
                self.transmit_drops,
            ],
        )
    }
}

/// A growable list of `NetworkStats` values.
#[derive(Debug, Clone)]
pub struct NetworkBuffer {
    stats: Vec<NetworkStats>,
}

impl View for NetworkBuffer {
    type V = Seq<<NetworkStats as View>::V>;

    closed spec fn view(&self) -> Self::V {
        self.stats@.map_values(|e: NetworkStats| e@)
    }
}

impl NetworkBuffer {
    /// The entries, in insertion order.
    pub closed spec fn items(&self) -> Seq<NetworkStats> {
        self.stats@
    }

    /// The view is the entries' views, in order.
    pub proof fn lemma_view_items(&self)
        ensures
            self@ == self.items().map_values(|e: NetworkStats| e@),
    {
    }

    /// An empty buffer.
    pub fn new() -> (r: Self)
        ensures
            r.items() == Seq::<NetworkStats>::empty(),
            r@ == Seq::<<NetworkStats as View>::V>::empty(),
    {
        let r = NetworkBuffer { stats: Vec::new() };
        assert(r@ =~= Seq::<<NetworkStats as View>::V>::empty());
        r
    }

    /// An empty buffer with room for `capacity` entries.
    pub fn with_capacity(capacity: usize) -> (r: Self)
        ensures
            r.items() == Seq::<NetworkStats>::empty(),
            r@ == Seq::<<NetworkStats as View>::V>::empty(),
    {
        let r = NetworkBuffer { stats: Vec::with_capacity(capacity) };
        assert(r@ =~= Seq::<<NetworkStats as View>::V>::empty());
        r
    }

    /// Appends an entry.
    pub fn push(&mut self, entry: NetworkStats)
        ensures
            final(self).items() == old(self).items().push(entry),
            final(self)@ == old(self)@.push(entry@),
    {
        self.stats.push(entry);
        assert(self@ =~= old(self)@.push(entry@));
    }

    /// Iterates over the entries in order.
    pub fn iter(&self) -> (r: std::slice::Iter<'_, NetworkStats>)
        ensures
            r.remaining() == self.items().as_ref(),
    {
        self.stats.as_slice().iter()
    }

    /// The number of entries.
    pub fn len(&self) -> (r: usize)
        ensures
            r == self.items().len(),
            r == self@.len(),
    {
        self.stats.len()
    }

    /// Whether there are no entries.
    pub fn is_empty(&self) -> (r: bool)
        ensures
            r == (self.items().len() == 0),
            r == (self@.len() == 0),
    {
        self.stats.is_empty()
    }

    /// The entries as a slice.
    pub fn as_slice(&self) -> (r: &[NetworkStats])
        ensures
            r@ == self.items(),
            r@.map_values(|e: NetworkStats| e@) == self@,
    {
        self.stats.as_slice()
    }
}

/// Reads the interface counters of `/proc/net/dev`, optionally only for the
/// named interfaces.
#[derive(Debug, Clone)]
pub struct NetworkCollector {
    /// The interfaces to report; all of them when `None`.
    pub include_interfaces: Option<Vec<String>>,
}

impl NetworkCollector {
    /// A collector for the given interfaces (all when `None`).
    pub fn new(include_interfaces: Option<Vec<String>>) -> (r: Self)
        ensures
            r.include_interfaces == include_interfaces,
    {
        NetworkCollector { include_interfaces }
    }

    /// The interface filter as character sequences.
    pub open spec fn filter(&self) -> Option<Seq<Seq<char>>> {
        match self.include_interfaces {
            Some(v) => Some(views(v@)),
            None => None,
        }
    }

    /// Parses the content of `/proc/net/dev`.
    pub fn parse_net_dev(&self, content: &str) -> (r: CollectorResult<NetworkBuffer>)
        ensures
            match r {
                Ok(b) => network_stats_of(content@, self.filter()) == Ok::<_, ErrorModel>(b@),
                Err(e) => network_stats_of(content@, self.filter()) == Err::<Seq<(Seq<char>, Seq<u64>)>, _>(e@),
            },
    {
        let ls = split_lines(content);
        let ghost all = skip_n(views(ls@), 2);
        let ghost f = self.filter();
        let mut buffer = NetworkBuffer::with_capacity(16);
        if ls.len() <= 2 {
            assert(all =~= Seq::<Seq<char>>::empty());
            return Ok(buffer);
        }
        let mut i: usize = 2;
        proof {
            lemma_take_all(all);
        }
        while i < ls.len()
            invariant
                2 <= i <= ls@.len(),
                all == views(ls@).subrange(2, ls@.len() as int),
                all == skip_n(lines(content@), 2),
                gather_or_fail(all.take(i - 2), network_step(f)) == Ok::<_, ErrorModel>(buffer@),
                f == self.filter(),
            decreases ls@.len() - i,
        {
            proof {
                lemma_take_one_more(all, i - 2);
            }
            let ghost before = buffer@;
            assert(all[i - 2] == ls@[i as int]@);
            match self.parse_interface_line(ls[i].as_str()) {
                Ok(Some(entry)) => {
                    buffer.push(entry);
                    assert(before.push(entry@) =~= before + seq![entry@]);
                },
                Ok(None) => {
                    assert(before + Seq::empty() =~= before);
                },
                Err(e) => {
                    proof {
                        lemma_gather_or_fail_prefix(all, i - 1, network_step(f));
                    }
                    return Err(e);
                },
            }
            i = i + 1;
        }
        Ok(buffer)
    }

    /// Parses one interface line of `/proc/net/dev`.
    fn parse_interface_line(&self, line: &str) -> (r: CollectorResult<Option<NetworkStats>>)
        ensures
            match r {
                Ok(None) => network_line(line@, self.filter()) == Ok::<_, ErrorModel>(
                    Seq::<(Seq<char>, Seq<u64>)>::empty(),
                ),
                Ok(Some(e)) => network_line(line@, self.filter()) == Ok::<_, ErrorModel>(seq![e@]),
                Err(e) => network_line(line@, self.filter()) == Err::<Seq<(Seq<char>, Seq<u64>)>, _>(e@),
            },
    {
        let pieces = split_char(line, ':');
        proof {
            lemma_split_nonempty(line@, ':', Seq::empty());
        }
        assert(views(pieces@)[0] == pieces@[0]@);
        let name = trim_str(pieces[0].as_str());
        if let Some(wanted) = &self.include_interfaces {
            if !list_contains(wanted, name.as_str()) {
                return Ok(None);
            }
        }
        if pieces.len() < 2 {
            return Ok(None);
        }
        assert(views(pieces@)[1] == pieces@[1]@);
        let words = split_whitespace(pieces[1].as_str());
        let count = if words.len() < 12 {
            words.len()
        } else {
            12
        };
        assert(views(words@).subrange(0, count as int) == take_n(views(words@), 12)) by {
            if words@.len() < 12 {
                assert(views(words@).subrange(0, count as int) =~= views(words@));
            }
        }
        match parse_u64_fields(&words, 0, count) {
            Ok(vs) => {
                if vs.len() >= 12 {
                    let entry = NetworkStats {
                        interface: name,
                        receive_bytes: vs[0],
                        receive_packets: vs[1],
                        receive_errors: vs[2],
                        receive_drops: vs[3],
                        transmit_bytes: vs[8],
                        transmit_packets: vs[9],
                        transmit_errors: vs[10],
                        transmit_drops: vs[11],
                    };
                    assert(entry@.1 =~= vs@.subrange(0, 4) + vs@.subrange(8, 12));
                    Ok(Some(entry))
                } else {
                    Ok(None)
                }
            },
            Err(_) => {
                let location = String::from_str("/proc/net/dev interface=").concat(name.as_str());
                Err(parse_error("network_stats", location.as_str(), String::from_str("failed to parse network counters")))
            },
        }
    }
}

impl Default for NetworkCollector {
    fn default() -> (r: Self)
        ensures
            r.include_interfaces is None,
    {
        NetworkCollector { include_interfaces: None }
    }
}

/// What one interface line of `/proc/net/dev` contributes. The name is the
/// trimmed text before the first `:`; a line whose name is filtered out,
/// that has no `:`, or that has fewer than twelve counters (in the text up
/// to the next `:`) contributes nothing; a counter among the first twelve
/// that is not a `u64` is an error. The entry holds the receive bytes,
/// packets, errors and drops (counters 1 to 4) and the transmit bytes,
/// packets, errors and drops (counters 9 to 12).
pub open spec fn network_line(line: Seq<char>, filter: Option<Seq<Seq<char>>>) -> Result<
    Seq<(Seq<char>, Seq<u64>)>,
    ErrorModel,
> {
    let pieces = split_on(line, ':');
    let name = trim(pieces[0]);
    if filter matches Some(list) && !list.contains(name) {
        Ok(Seq::empty())
    } else if pieces.len() < 2 {
        Ok(Seq::empty())
    } else {
        match all_u64(take_n(words(pieces[1]), 12)) {
            Err(_) => Err(
                ErrorModel::ParseError {
                    metric: "network_stats"@,
                    location: "/proc/net/dev interface="@ + name,
                    reason: "failed to parse network counters"@,
                },
            ),
            Ok(vs) => if vs.len() >= 12 {
                Ok(seq![(name, vs.subrange(0, 4) + vs.subrange(8, 12))])
            } else {
                Ok(Seq::empty())
            },
        }
    }
}

/// The per-line rule of `/proc/net/dev`.
pub open spec fn network_step(filter: Option<Seq<Seq<char>>>) -> spec_fn(Seq<char>) -> Result<
    Seq<(Seq<char>, Seq<u64>)>,
    ErrorModel,
> {
    |line: Seq<char>| network_line(line, filter)
}

/// The interface entries of `/proc/net/dev` (after its two header lines), in
/// file order, or the first error.
pub open spec fn network_stats_of(content: Seq<char>, filter: Option<Seq<Seq<char>>>) -> Result<
    Seq<(Seq<char>, Seq<u64>)>,
    ErrorModel,
> {
    gather_or_fail(skip_n(lines(content), 2), network_step(filter))
}

/// An interface line that the filter lets through, with at least twelve
/// counters `c0 c1 ...` after its colon, all of them `u64`s, yields one
/// entry: the trimmed name before the colon, the receive bytes, packets,
/// errors and drops `c0..c3`, and the transmit bytes, packets, errors and
/// drops `c8..c11`, each field read from its own column.
pub proof fn law_network_columns(line: Seq<char>, filter: Option<Seq<Seq<char>>>)
    requires
        split_on(line, ':').len() >= 2,
        words(split_on(line, ':')[1]).len() >= 12,
        forall|i: int| 0 <= i < 12 ==> dec_u64(#[trigger] words(split_on(line, ':')[1])[i]) is Some,
        filter matches Some(list) ==> list.contains(trim(split_on(line, ':')[0])),
    ensures
        ({
            let c = words(split_on(line, ':')[1]);
            network_line(line, filter) == Ok::<_, ErrorModel>(
                seq![
                    (
                        trim(split_on(line, ':')[0]),
                        seq![
                            dec_u64(c[0])->0,
                            dec_u64(c[1])->0,
                            dec_u64(c[2])->0,
                            dec_u64(c[3])->0,
                            dec_u64(c[8])->0,
                            dec_u64(c[9])->0,
                            dec_u64(c[10])->0,
                            dec_u64(c[11])->0,
                        ],
                    ),
                ],
            )
        }),
{
    let c = words(split_on(line, ':')[1]);
    let t = take_n(c, 12);
    assert(t == c.subrange(0, 12));
    assert forall|i: int| 0 <= i < t.len() implies dec_u64(#[trigger] t[i]) is Some by {
        assert(t[i] == c[i]);
    }
    lemma_all_u64_values(t);
    let vs = all_u64(t)->Ok_0;
    assert(vs.subrange(0, 4) + vs.subrange(8, 12) =~= seq![
        dec_u64(c[0])->0,
        dec_u64(c[1])->0,
        dec_u64(c[2])->0,
        dec_u64(c[3])->0,
        dec_u64(c[8])->0,
        dec_u64(c[9])->0,
        dec_u64(c[10])->0,
        dec_u64(c[11])->0,
    ]) by {
        assert(t[0] == c[0] && t[1] == c[1] && t[2] == c[2] && t[3] == c[3]);
        assert(t[8] == c[8] && t[9] == c[9] && t[10] == c[10] && t[11] == c[11]);
    }
}

/// With an interface filter, a line is reported only when its name equals a
/// listed name: a listed interface reads as without the filter, and any
/// other contributes nothing.
pub proof fn law_network_filter_exact(line: Seq<char>, list: Seq<Seq<char>>)
    ensures
        (forall|m: int| 0 <= m < list.len() ==> list[m] != trim(#[trigger] split_on(line, ':')[0]))
            ==> network_line(line, Some(list)) == Ok::<_, ErrorModel>(
            Seq::<(Seq<char>, Seq<u64>)>::empty(),
        ),
        (exists|m: int| 0 <= m < list.len() && list[m] == trim(#[trigger] split_on(line, ':')[0]))
            ==> network_line(line, Some(list)) == network_line(line, None),
{
}

/// With an interface filter, every interface reported from `/proc/net/dev`
/// is one of the listed names.
pub proof fn law_network_reports_listed(content: Seq<char>, list: Seq<Seq<char>>)
    ensures
        network_stats_of(content, Some(list)) matches Ok(es) ==> forall|i: int|
            0 <= i < es.len() ==> list.contains(#[trigger] es[i].0),
{
    let p = |e: (Seq<char>, Seq<u64>)| list.contains(e.0);
    assert forall|l: Seq<char>|
        (#[trigger] network_step(Some(list))(l) matches Ok(x) ==> forall|i: int|
            0 <= i < x.len() ==> p(#[trigger] x[i])) by {
        law_network_filter_exact(l, list);
        if let Ok(x) = network_line(l, Some(list)) {
            if x.len() > 0 {
                let name = trim(split_on(l, ':')[0]);
                if !list.contains(name) {
                    assert forall|m: int| 0 <= m < list.len() implies list[m] != trim(#[trigger] split_on(l, ':')[0]) by {
                        if list[m] == name {
                            assert(list.contains(name));
                        }
                    }
                }
            }
        }
    }
    lemma_gather_or_fail_all(skip_n(lines(content), 2), network_step(Some(list)), p);
}

} // verus!
