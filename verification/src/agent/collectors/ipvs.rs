//! IP virtual server totals from `/proc/net/ip_vs_stats`.

use vstd::prelude::*;

use super::error::{invalid_value, parse_error, ErrorModel};
use super::parsing::{all_u64, lemma_all_u64_window, lemma_take_all, lemma_take_one_more, parse_u64_fields};
use super::types::CollectorResult;
use crate::text::{dec_u64, lines, skip_n, split_lines, split_whitespace, views, words};

verus! {

/// Connection and traffic totals of the IP virtual server.
#[derive(Debug, Clone)]
pub struct IpvsStats {
    /// Connections.
    pub connections: u64,
    /// Incoming packets.
    pub incoming_packets: u64,
    /// Outgoing packets.
    pub outgoing_packets: u64,
    /// Incoming bytes.
    pub incoming_bytes: u64,
    /// Outgoing bytes.
    pub outgoing_bytes: u64,
}

impl View for IpvsStats {
    /// The five totals in file order.
    type V = Seq<u64>;

    open spec fn view(&self) -> Seq<u64> {
        seq![self.connections, self.incoming_packets, self.outgoing_packets, self.incoming_bytes, self.outgoing_bytes]
    }
}

/// Reads the totals of `/proc/net/ip_vs_stats`.
#[derive(Debug, Clone, Copy)]
pub struct IpvsCollector;

impl IpvsCollector {
    /// A new collector.
    pub fn new() -> (r: Self)
        ensures
            r == IpvsCollector,
    {
        IpvsCollector
    }
}

impl Default for IpvsCollector {
    fn default() -> (r: Self)
        ensures
            r == IpvsCollector,
    {
        IpvsCollector::new()
    }
}

/// The name of the `k`-th total.
pub open spec fn ipvs_metric(k: int) -> Seq<char> {
    seq!["connections"@, "incoming_packets"@, "outgoing_packets"@, "incoming_bytes"@, "outgoing_bytes"@][k]
}

/// What one line of the file says: nothing when it has fewer than five
/// words; otherwise its first five words as totals, or an error naming the
/// first that is not a `u64`.
pub open spec fn ipvs_line(line: Seq<char>) -> Option<Result<Seq<u64>, ErrorModel>> {
    let w = words(line);
    if w.len() < 5 {
        None
    } else {
        Some(
            match all_u64(w.subrange(0, 5)) {
                Ok(vs) => Ok(vs),
                Err(k) => Err(
                    ErrorModel::ParseError {
                        metric: ipvs_metric(k),
                        location: "/proc/net/ip_vs_stats"@,
                        reason: "invalid value: "@ + w[k],
                    },
                ),
            },
        )
    }
}

/// The totals after reading `ls`: each line with totals replaces the
/// previous ones (starting from zeros); the first bad line is the error.
pub open spec fn ipvs_fold(ls: Seq<Seq<char>>) -> Result<Seq<u64>, ErrorModel>
    decreases ls.len(),
{
    if ls.len() == 0 {
        Ok(seq![0u64, 0u64, 0u64, 0u64, 0u64])
    } else {
        match ipvs_fold(ls.drop_last()) {
            Err(e) => Err(e),
            Ok(st) => match ipvs_line(ls.last()) {
                None => Ok(st),
                Some(r) => r,
            },
        }
    }
}

/// The totals of `/proc/net/ip_vs_stats`: its lines after the first two.
pub open spec fn ipvs_of(content: Seq<char>) -> Result<Seq<u64>, ErrorModel> {
    ipvs_fold(skip_n(lines(content), 2))
}

/// An error in a prefix is the error of the whole fold.
proof fn lemma_ipvs_prefix_err(ls: Seq<Seq<char>>, k: int)
    requires
        0 <= k <= ls.len(),
        ipvs_fold(ls.take(k)) is Err,
    ensures
        ipvs_fold(ls) == ipvs_fold(ls.take(k)),
    decreases ls.len() - k,
{
    if k < ls.len() {
        assert(ls.take(k + 1).drop_last() =~= ls.take(k));
        lemma_ipvs_prefix_err(ls, k + 1);
    } else {
        assert(ls.take(k) =~= ls);
    }
}

/// The name of the `k`-th total.
fn ipvs_metric_name(k: usize) -> (r: &'static str)
    requires
        k < 5,
    ensures
        r@ == ipvs_metric(k as int),
{
    match k {
        0 => "connections",
        1 => "incoming_packets",
        2 => "outgoing_packets",
        3 => "incoming_bytes",
        _ => "outgoing_bytes",
    }
}

/// Parses one line of `/proc/net/ip_vs_stats`.
fn parse_ipvs_line(line: &str) -> (r: Option<CollectorResult<IpvsStats>>)
    ensures
        match r {
            None => ipvs_line(line@) is None,
            Some(Ok(s)) => ipvs_line(line@) == Some(Ok::<_, ErrorModel>(s@)),
            Some(Err(e)) => ipvs_line(line@) == Some(Err::<Seq<u64>, _>(e@)),
        },
{
    let parts = split_whitespace(line);
    if parts.len() < 5 {
        return None;
    }
    match parse_u64_fields(&parts, 0, 5) {
        Ok(vs) => {
            let s = IpvsStats {
                connections: vs[0],
                incoming_packets: vs[1],
                outgoing_packets: vs[2],
                incoming_bytes: vs[3],
                outgoing_bytes: vs[4],
            };
            assert(s@ =~= vs@);
            Some(Ok(s))
        },
        Err(k) => {
            assert(views(parts@)[k as int] == parts@[k as int]@);
            Some(Err(parse_error(ipvs_metric_name(k), "/proc/net/ip_vs_stats", invalid_value(parts[k].as_str()))))
        },
    }
}

/// Parses the content of `/proc/net/ip_vs_stats`.
pub fn parse_ipvs(content: &str) -> (r: CollectorResult<IpvsStats>)
    ensures
        match r {
            Ok(s) => ipvs_of(content@) == Ok::<_, ErrorModel>(s@),
            Err(e) => ipvs_of(content@) == Err::<Seq<u64>, _>(e@),
        },
{
    let ls = split_lines(content);
    let mut stats = IpvsStats {
        connections: 0,
        incoming_packets: 0,
        outgoing_packets: 0,
        incoming_bytes: 0,
        outgoing_bytes: 0,
    };
    if ls.len() <= 2 {
        assert(skip_n(views(ls@), 2) =~= Seq::<Seq<char>>::empty());
        return Ok(stats);
    }
    let ghost all = views(ls@).subrange(2, ls@.len() as int);
    let mut i: usize = 2;
    proof {
        lemma_take_all(all);
    }
    while i < ls.len()
        invariant
            2 <= i <= ls@.len(),
            all == views(ls@).subrange(2, ls@.len() as int),
            all == skip_n(lines(content@), 2),
            ipvs_fold(all.take(i - 2)) == Ok::<_, ErrorModel>(stats@),
        decreases ls@.len() - i,
    {
        proof {
            lemma_take_one_more(all, i - 2);
        }
        assert(all[i - 2] == ls@[i as int]@);
        match parse_ipvs_line(ls[i].as_str()) {
            None => {},
            Some(Ok(s)) => {
                stats = s;
            },
            Some(Err(e)) => {
                proof {
                    lemma_ipvs_prefix_err(all, i - 1);
                }
                return Err(e);
            },
        }
        i = i + 1;
    }
    Ok(stats)
}

/// A line of at least five words whose first five are `u64`s gives the
/// connections, incoming and outgoing packets, and incoming and outgoing
/// bytes, read from words one to five in that order.
pub proof fn law_ipvs_columns(line: Seq<char>)
    requires
        words(line).len() >= 5,
        forall|k: int| 0 <= k < 5 ==> dec_u64(#[trigger] words(line)[k]) is Some,
    ensures
        ipvs_line(line) == Some(Ok::<_, ErrorModel>(Seq::new(5, |k: int| dec_u64(words(line)[k])->0))),
{
    lemma_all_u64_window(words(line), 0, 5);
    assert(Seq::new(5, |k: int| dec_u64(words(line)[k + 0])->0) =~= Seq::new(5, |k: int| dec_u64(words(line)[k])->0));
}

} // verus!
