//! Per-CPU scheduler times from `/proc/schedstat`.

use vstd::prelude::*;
use vstd::std_specs::iter::IteratorSpec;

use super::error::{invalid_value, parse_error, ErrorModel};
use super::parsing::{
    all_u64, gather_or_fail, lemma_gather_or_fail_prefix, lemma_take_all, lemma_take_one_more,
    lemma_all_u64_window, parse_u64_fields,
};
use super::types::CollectorResult;
use crate::text::{
    dec_u64, has_prefix, lines, split_lines, split_whitespace, starts_with, strip_leading, trim_start_str,
    views, words,
};

verus! {

/// Scheduler times of one CPU, in nanoseconds.
#[derive(Debug, Clone)]
pub struct SchedstatCpu {
    /// The CPU number (the label after `cpu`).
    pub cpu: String,
    /// Time spent running tasks.
    pub running_ns: u64,
    /// Time tasks waited to run.
    pub runnable_ns: u64,
    /// Accumulated run delay.
    pub run_delay_ns: u64,
}

impl View for SchedstatCpu {
    type V = (Seq<char>, Seq<u64>);

    open spec fn view(&self) -> Self::V {
        (self.cpu@, seq![self.running_ns, self.runnable_ns, self.run_delay_ns])
    }
}

/// A growable list of `SchedstatCpu` values.
#[derive(Debug, Clone)]
pub struct SchedstatBuffer {
    stats: Vec<SchedstatCpu>,
}

impl View for SchedstatBuffer {
    type V = Seq<<SchedstatCpu as View>::V>;

    closed spec fn view(&self) -> Self::V {
        self.stats@.map_values(|e: SchedstatCpu| e@)
    }
}

impl SchedstatBuffer {
    /// The entries, in insertion order.
    pub closed spec fn items(&self) -> Seq<SchedstatCpu> {
        self.stats@
    }

    /// The view is the entries' views, in order.
    pub proof fn lemma_view_items(&self)
        ensures
            self@ == self.items().map_values(|e: SchedstatCpu| e@),
    {
    }

    /// An empty buffer.
    pub fn new() -> (r: Self)
        ensures
            r.items() == Seq::<SchedstatCpu>::empty(),
            r@ == Seq::<<SchedstatCpu as View>::V>::empty(),
    {
        let r = SchedstatBuffer { stats: Vec::new() };
        assert(r@ =~= Seq::<<SchedstatCpu as View>::V>::empty());
        r
    }

    /// An empty buffer with room for `capacity` entries.
    pub fn with_capacity(capacity: usize) -> (r: Self)
        ensures
            r.items() == Seq::<SchedstatCpu>::empty(),
            r@ == Seq::<<SchedstatCpu as View>::V>::empty(),
    {
        let r = SchedstatBuffer { stats: Vec::with_capacity(capacity) };
        assert(r@ =~= Seq::<<SchedstatCpu as View>::V>::empty());
        r
    }

    /// Appends an entry.
    pub fn push(&mut self, entry: SchedstatCpu)
        ensures
            final(self).items() == old(self).items().push(entry),
            final(self)@ == old(self)@.push(entry@),
    {
        self.stats.push(entry);
        assert(self@ =~= old(self)@.push(entry@));
    }

    /// Iterates over the entries in order.
    pub fn iter(&self) -> (r: std::slice::Iter<'_, SchedstatCpu>)
        ensures
            r.remaining() == self.items().as_ref(),
    {
        self.stats.as_slice().iter()
    }

    /// The number of entries.
    pub fn len(&self) -> (r: usize)
        ensures
            r == self.items().len(),
            r == self@.len(),
    {
        self.stats.len()
    }

    /// Whether there are no entries.
    pub fn is_empty(&self) -> (r: bool)
        ensures
            r == (self.items().len() == 0),
            r == (self@.len() == 0),
    {
        self.stats.is_empty()
    }

    /// The entries as a slice.
    pub fn as_slice(&self) -> (r: &[SchedstatCpu])
        ensures
            r@ == self.items(),
            r@.map_values(|e: SchedstatCpu| e@) == self@,
    {
        self.stats.as_slice()
    }
}

/// Reads the per-CPU scheduler times of `/proc/schedstat`.
#[derive(Debug, Clone, Copy)]
pub struct SchedstatCollector;

impl SchedstatCollector {
    /// A new collector.
    pub fn new() -> (r: Self)
        ensures
            r == SchedstatCollector,
    {
        SchedstatCollector
    }
}

impl Default for SchedstatCollector {
    fn default() -> (r: Self)
        ensures
            r == SchedstatCollector,
    {
        SchedstatCollector::new()
    }
}

/// The name of the `k`-th time of a `cpu` line.
pub open spec fn schedstat_metric(k: int) -> Seq<char> {
    seq!["running_ns"@, "runnable_ns"@, "run_delay_ns"@][k]
}

/// What one line of `/proc/schedstat` contributes: nothing unless it starts
/// with `cpu` and has at least nine words; then the CPU number (the first
/// word without its leading `cpu`s) and the next three words as times, or
/// an error naming the first that is not a `u64`.
pub open spec fn schedstat_line(line: Seq<char>) -> Result<Seq<(Seq<char>, Seq<u64>)>, ErrorModel> {
    let w = words(line);
    if !has_prefix(line, "cpu"@) || w.len() < 9 {
        Ok(Seq::empty())
    } else {
        let id = strip_leading(w[0], "cpu"@);
        match all_u64(w.subrange(1, 4)) {
            Ok(vs) => Ok(seq![(id, vs)]),
            Err(k) => Err(
                ErrorModel::ParseError {
                    metric: schedstat_metric(k),
                    location: "/proc/schedstat cpu="@ + id,
                    reason: "invalid value: "@ + w[k + 1],
                },
            ),
        }
    }
}

/// The per-line rule of `/proc/schedstat`.
pub open spec fn schedstat_step() -> spec_fn(Seq<char>) -> Result<Seq<(Seq<char>, Seq<u64>)>, ErrorModel> {
    |line: Seq<char>| schedstat_line(line)
}

/// The CPU entries of `/proc/schedstat`, in file order, or the first error.
pub open spec fn schedstat_of(content: Seq<char>) -> Result<Seq<(Seq<char>, Seq<u64>)>, ErrorModel> {
    gather_or_fail(lines(content), schedstat_step())
}

/// The name of the `k`-th time of a `cpu` line.
fn schedstat_metric_name(k: usize) -> (r: &'static str)
    requires
        k < 3,
    ensures
        r@ == schedstat_metric(k as int),
{
    match k {
        0 => "running_ns",
        1 => "runnable_ns",
        _ => "run_delay_ns",
    }
}

/// Parses one line of `/proc/schedstat`.
fn parse_schedstat_line(line: &str) -> (r: CollectorResult<Option<SchedstatCpu>>)
    ensures
        match r {
            Ok(None) => schedstat_line(line@) == Ok::<_, ErrorModel>(Seq::<(Seq<char>, Seq<u64>)>::empty()),
            Ok(Some(e)) => schedstat_line(line@) == Ok::<_, ErrorModel>(seq![e@]),
            Err(e) => schedstat_line(line@) == Err::<Seq<(Seq<char>, Seq<u64>)>, _>(e@),
        },
{
    if !starts_with(line, "cpu") {
        return Ok(None);
    }
    let parts = split_whitespace(line);
    if parts.len() < 9 {
        return Ok(None);
    }
    assert(views(parts@)[0] == parts@[0]@);
    let id = trim_start_str(parts[0].as_str(), "cpu");
    match parse_u64_fields(&parts, 1, 4) {
        Ok(vs) => {
            let entry = SchedstatCpu { cpu: id, running_ns: vs[0], runnable_ns: vs[1], run_delay_ns: vs[2] };
            assert(entry@.1 =~= vs@);
            Ok(Some(entry))
        },
        Err(k) => {
            assert(views(parts@)[k + 1] == parts@[k + 1]@);
            let location = String::from_str("/proc/schedstat cpu=").concat(id.as_str());
            Err(parse_error(schedstat_metric_name(k), location.as_str(), invalid_value(parts[k + 1].as_str())))
        },
    }
}

/// Parses the content of `/proc/schedstat`.
pub fn parse_schedstat(content: &str) -> (r: CollectorResult<SchedstatBuffer>)
    ensures
        match r {
            Ok(b) => schedstat_of(content@) == Ok::<_, ErrorModel>(b@),
            Err(e) => schedstat_of(content@) == Err::<Seq<(Seq<char>, Seq<u64>)>, _>(e@),
        },
{
    let ls = split_lines(content);
    let ghost all = views(ls@);
    let mut buffer = SchedstatBuffer::new();
    let mut i: usize = 0;
    proof {
        lemma_take_all(all);
    }
    while i < ls.len()
        invariant
            all == views(ls@),
            all == lines(content@),
            i <= ls@.len(),
            gather_or_fail(all.take(i as int), schedstat_step()) == Ok::<_, ErrorModel>(buffer@),
        decreases ls@.len() - i,
    {
        proof {
            lemma_take_one_more(all, i as int);
        }
        let ghost before = buffer@;
        assert(all[i as int] == ls@[i as int]@);
        match parse_schedstat_line(ls[i].as_str()) {
            Ok(Some(entry)) => {
                buffer.push(entry);
                assert(before.push(entry@) =~= before + seq![entry@]);
            },
            Ok(None) => {
                assert(before + Seq::empty() =~= before);
            },
            Err(e) => {
                proof {
                    lemma_gather_or_fail_prefix(all, i + 1, schedstat_step());
                }
                return Err(e);
            },
        }
        i = i + 1;
    }
    Ok(buffer)
}

/// A line that starts with `cpu` and has at least nine words, whose words
/// two to four are all `u64`s, yields the CPU number and the running,
/// runnable and run-delay times read from words two, three and four.
pub proof fn law_schedstat_columns(line: Seq<char>)
    requires
        has_prefix(line, "cpu"@),
        words(line).len() >= 9,
        forall|k: int| 1 <= k < 4 ==> dec_u64(#[trigger] words(line)[k]) is Some,
    ensures
        schedstat_line(line) == Ok::<_, ErrorModel>(
            seq![(strip_leading(words(line)[0], "cpu"@), Seq::new(3, |k: int| dec_u64(words(line)[k + 1])->0))],
        ),
{
    lemma_all_u64_window(words(line), 1, 4);
}

} // verus!
