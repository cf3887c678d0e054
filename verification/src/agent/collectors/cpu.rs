//! CPU time counters from `/proc/stat`.

use vstd::prelude::*;
use vstd::std_specs::iter::IteratorSpec;

use super::error::{invalid_value, parse_error, ErrorModel};
use super::parsing::{
    all_u64, gather_or_fail, lemma_gather_or_fail_prefix, lemma_take_all, lemma_take_one_more,
    lemma_all_u64_window, parse_u64_fields,
};
use super::types::CollectorResult;
use crate::text::{dec_u64, has_prefix, lines, split_lines, split_whitespace, starts_with, views, words};

verus! {

/// Time that one CPU (or, for the line `cpu`, all of them) spent in each
/// state, in jiffies.
#[derive(Debug, Clone)]
pub struct CpuStats {
    /// The label: `cpu` for the aggregate, `cpuN` for core N.
    pub cpu: String,
    /// Time in user mode.
    pub user: u64,
    /// Time in user mode at low priority.
    pub nice: u64,
    /// Time in kernel mode.
    pub system: u64,
    /// Idle time.
    pub idle: u64,
    /// Time waiting for I/O.
    pub iowait: u64,
    /// Time servicing hardware interrupts.
    pub irq: u64,
    /// Time servicing software interrupts.
    pub softirq: u64,
}

impl View for CpuStats {
    /// The label and the seven counters in file order.
    type V = (Seq<char>, Seq<u64>);

    open spec fn view(&self) -> Self::V {
        (self.cpu@, seq![self.user, self.nice, self.system, self.idle, self.iowait, self.irq, self.softirq])
    }
}

/// A growable list of `CpuStats` values.
#[derive(Debug, Clone)]
pub struct CpuBuffer {
    stats: Vec<CpuStats>,
}

impl View for CpuBuffer {
    type V = Seq<<CpuStats as View>::V>;

    closed spec fn view(&self) -> Self::V {
        self.stats@.map_values(|e: CpuStats| e@)
    }
}

impl CpuBuffer {
    /// The entries, in insertion order.
    pub closed spec fn items(&self) -> Seq<CpuStats> {
        self.stats@
    }

    /// The view is the entries' views, in order.
    pub proof fn lemma_view_items(&self)
        ensures
            self@ == self.items().map_values(|e: CpuStats| e@),
    {
    }

    /// An empty buffer.
    pub fn new() -> (r: Self)
        ensures
            r.items() == Seq::<CpuStats>::empty(),
            r@ == Seq::<<CpuStats as View>::V>::empty(),
    {
        let r = CpuBuffer { stats: Vec::new() };
        assert(r@ =~= Seq::<<CpuStats as View>::V>::empty());
        r
    }

    /// An empty buffer with room for `capacity` entries.
    pub fn with_capacity(capacity: usize) -> (r: Self)
        ensures
            r.items() == Seq::<CpuStats>::empty(),
            r@ == Seq::<<CpuStats as View>::V>::empty(),
    {
        let r = CpuBuffer { stats: Vec::with_capacity(capacity) };
        assert(r@ =~= Seq::<<CpuStats as View>::V>::empty());
        r
    }

    /// Appends an entry.
    pub fn push(&mut self, entry: CpuStats)
        ensures
            final(self).items() == old(self).items().push(entry),
            final(self)@ == old(self)@.push(entry@),
    {
        self.stats.push(entry);
        assert(self@ =~= old(self)@.push(entry@));
    }

    /// Iterates over the entries in order.
    pub fn iter(&self) -> (r: std::slice::Iter<'_, CpuStats>)
        ensures
            r.remaining() == self.items().as_ref(),
    {
        self.stats.as_slice().iter()
    }

    /// The number of entries.
    pub fn len(&self) -> (r: usize)
        ensures
            r == self.items().len(),
            r == self@.len(),
    {
        self.stats.len()
    }

    /// Whether there are no entries.
    pub fn is_empty(&self) -> (r: bool)
        ensures
            r == (self.items().len() == 0),
            r == (self@.len() == 0),
    {
        self.stats.is_empty()
    }

    /// The entries as a slice.
    pub fn as_slice(&self) -> (r: &[CpuStats])
        ensures
            r@ == self.items(),
            r@.map_values(|e: CpuStats| e@) == self@,
    {
        self.stats.as_slice()
    }
}

/// Reads the per-CPU time counters of `/proc/stat`.
#[derive(Debug, Clone, Copy)]
pub struct CpuCollector;

impl CpuCollector {
    /// A new collector.
    pub fn new() -> (r: Self)
        ensures
            r == CpuCollector,
    {
        CpuCollector
    }
}

impl Default for CpuCollector {
    fn default() -> (r: Self)
        ensures
            r == CpuCollector,
    {
        CpuCollector::new()
    }
}

/// The name of the `k`-th counter of a `cpu` line.
pub open spec fn cpu_metric(k: int) -> Seq<char> {
    seq!["user"@, "nice"@, "system"@, "idle"@, "iowait"@, "irq"@, "softirq"@][k]
}

/// What one line of `/proc/stat` contributes: nothing unless it starts with
/// `cpu` and has at least eight words; then the label and the seven
/// counters that follow it, or an error naming the first counter that is
/// not a `u64`.
pub open spec fn cpu_line(line: Seq<char>) -> Result<Seq<(Seq<char>, Seq<u64>)>, ErrorModel> {
    let w = words(line);
    if !has_prefix(line, "cpu"@) || w.len() < 8 {
        Ok(Seq::empty())
    } else {
        match all_u64(w.subrange(1, 8)) {
            Ok(vs) => Ok(seq![(w[0], vs)]),
            Err(k) => Err(
                ErrorModel::ParseError {
                    metric: cpu_metric(k),
                    location: "/proc/stat"@,
                    reason: "invalid value: "@ + w[k + 1],
                },
            ),
        }
    }
}

/// The per-line rule of `/proc/stat`.
pub open spec fn cpu_step() -> spec_fn(Seq<char>) -> Result<Seq<(Seq<char>, Seq<u64>)>, ErrorModel> {
    |line: Seq<char>| cpu_line(line)
}

/// The CPU entries of `/proc/stat`, in file order, or the first error.
pub open spec fn cpu_stats_of(content: Seq<char>) -> Result<Seq<(Seq<char>, Seq<u64>)>, ErrorModel> {
    gather_or_fail(lines(content), cpu_step())
}

/// The name of the `k`-th counter of a `cpu` line.
fn cpu_metric_name(k: usize) -> (r: &'static str)
    requires
        k < 7,
    ensures
        r@ == cpu_metric(k as int),
{
    match k {
        0 => "user",
        1 => "nice",
        2 => "system",
        3 => "idle",
        4 => "iowait",
        5 => "irq",
        _ => "softirq",
    }
}

/// Parses one line of `/proc/stat`.
fn parse_cpu_line(line: &str) -> (r: CollectorResult<Option<CpuStats>>)
    ensures
        match r {
            Ok(None) => cpu_line(line@) == Ok::<_, ErrorModel>(Seq::<(Seq<char>, Seq<u64>)>::empty()),
            Ok(Some(e)) => cpu_line(line@) == Ok::<_, ErrorModel>(seq![e@]),
            Err(e) => cpu_line(line@) == Err::<Seq<(Seq<char>, Seq<u64>)>, _>(e@),
        },
{
    if !starts_with(line, "cpu") {
        return Ok(None);
    }
    let parts = split_whitespace(line);
    if parts.len() < 8 {
        return Ok(None);
    }
    match parse_u64_fields(&parts, 1, 8) {
        Ok(vs) => {
            let entry = CpuStats {
                cpu: parts[0].clone(),
                user: vs[0],
                nice: vs[1],
                system: vs[2],
                idle: vs[3],
                iowait: vs[4],
                irq: vs[5],
                softirq: vs[6],
            };
            assert(entry@.1 =~= vs@);
            assert(views(parts@)[0] == parts@[0]@);
            assert(cpu_line(line@) == Ok::<_, ErrorModel>(seq![entry@]));
            Ok(Some(entry))
        },
        Err(k) => {
            assert(views(parts@)[k + 1] == parts@[k + 1]@);
            let e = parse_error(cpu_metric_name(k), "/proc/stat", invalid_value(parts[k + 1].as_str()));
            assert(cpu_line(line@) == Err::<Seq<(Seq<char>, Seq<u64>)>, _>(e@));
            Err(e)
        },
    }
}

/// Parses the content of `/proc/stat` into per-CPU time counters.
pub fn parse_cpu_stats(content: &str) -> (r: CollectorResult<CpuBuffer>)
    ensures
        match r {
            Ok(b) => cpu_stats_of(content@) == Ok::<_, ErrorModel>(b@),
            Err(e) => cpu_stats_of(content@) == Err::<Seq<(Seq<char>, Seq<u64>)>, _>(e@),
        },
{
    let ls = split_lines(content);
    let ghost all = views(ls@);
    let mut buffer = CpuBuffer::with_capacity(16);
    let mut i: usize = 0;
    proof {
        lemma_take_all(all);
    }
    while i < ls.len()
        invariant
            all == views(ls@),
            all == lines(content@),
            i <= ls@.len(),
            gather_or_fail(all.take(i as int), cpu_step()) == Ok::<_, ErrorModel>(buffer@),
        decreases ls@.len() - i,
    {
        proof {
            lemma_take_one_more(all, i as int);
        }
        let ghost before = buffer@;
        assert(all[i as int] == ls@[i as int]@);
        match parse_cpu_line(ls[i].as_str()) {
            Ok(Some(entry)) => {
                buffer.push(entry);
                assert(before.push(entry@) =~= before + seq![entry@]);
            },
            Ok(None) => {
                assert(before + Seq::empty() =~= before);
            },
            Err(e) => {
                proof {
                    lemma_gather_or_fail_prefix(all, i + 1, cpu_step());
                }
                return Err(e);
            },
        }
        i = i + 1;
    }
    Ok(buffer)
}

/// A line that starts with `cpu` and has at least eight words, whose words
/// two to eight are all `u64`s, yields its label and the user, nice,
/// system, idle, iowait, irq and softirq times read from words two to
/// eight in that order.
pub proof fn law_cpu_columns(line: Seq<char>)
    requires
        has_prefix(line, "cpu"@),
        words(line).len() >= 8,
        forall|k: int| 1 <= k < 8 ==> dec_u64(#[trigger] words(line)[k]) is Some,
    ensures
        cpu_line(line) == Ok::<_, ErrorModel>(
            seq![(words(line)[0], Seq::new(7, |k: int| dec_u64(words(line)[k + 1])->0))],
        ),
{
    lemma_all_u64_window(words(line), 1, 8);
}

} // verus!
