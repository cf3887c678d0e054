//! Block device I/O counters from `/proc/diskstats`.

use vstd::prelude::*;
use vstd::std_specs::iter::IteratorSpec;

use super::error::{invalid_value, parse_error, ErrorModel};
use super::parsing::{
    all_u64, gather_or_fail, lemma_all_u64_window, lemma_gather_or_fail_all,
    lemma_gather_or_fail_prefix, lemma_take_all, lemma_take_one_more, parse_u64_fields,
};
use super::types::CollectorResult;
use crate::text::{dec_u64, lines, list_contains, split_lines, split_whitespace, views, words};

verus! {

/// I/O counters of one block device.
#[derive(Debug, Clone)]
pub struct DiskStats {
    /// Device name, such as `sda` or `nvme0n1`.
    pub device: String,
    /// Reads completed.
    pub reads_completed: u64,
    /// Adjacent reads merged.
    pub reads_merged: u64,
    /// Sectors read.
    pub read_bytes: u64,
    /// Time spent reading, in milliseconds.
    pub read_time_ms: u64,
    /// Writes completed.
    pub writes_completed: u64,
    /// Adjacent writes merged.
    pub writes_merged: u64,
    /// Sectors written.
    pub written_bytes: u64,
    /// Time spent writing, in milliseconds.
    pub write_time_ms: u64,
    /// I/O operations in progress.
    pub io_in_progress: u64,
    /// Time with I/O in progress, in milliseconds.
    pub io_time_ms: u64,
}

impl View for DiskStats {
    /// The device name and the ten counters in file order.
    type V = (Seq<char>, Seq<u64>);

    open spec fn view(&self) -> Self::V {
        (
            self.device@,
            seq![
                self.reads_completed,
                self.reads_merged,
                self.read_bytes,
                self.read_time_ms,
                self.writes_completed,
                self.writes_merged,
                self.written_bytes,
                self.write_time_ms,
                self.io_in_progress,
                self.io_time_ms,
            ],
        )
    }
}

/// A growable list of `DiskStats` values.
#[derive(Debug, Clone)]
pub struct DiskBuffer {
    stats: Vec<DiskStats>,
}

impl View for DiskBuffer {
    type V = Seq<<DiskStats as View>::V>;

    closed spec fn view(&self) -> Self::V {
        self.stats@.map_values(|e: DiskStats| e@)
    }
}

impl DiskBuffer {
    /// The entries, in insertion order.
    pub closed spec fn items(&self) -> Seq<DiskStats> {
        self.stats@
    }

    /// The view is the entries' views, in order.
    pub proof fn lemma_view_items(&self)
        ensures
            self@ == self.items().map_values(|e: DiskStats| e@),
    {
    }

    /// An empty buffer.
    pub fn new() -> (r: Self)
        ensures
            r.items() == Seq::<DiskStats>::empty(),
            r@ == Seq::<<DiskStats as View>::V>::empty(),
    {
        let r = DiskBuffer { stats: Vec::new() };
        assert(r@ =~= Seq::<<DiskStats as View>::V>::empty());
        r
    }

    /// An empty buffer with room for `capacity` entries.
    pub fn with_capacity(capacity: usize) -> (r: Self)
        ensures
            r.items() == Seq::<DiskStats>::empty(),
            r@ == Seq::<<DiskStats as View>::V>::empty(),
    {
        let r = DiskBuffer { stats: Vec::with_capacity(capacity) };
        assert(r@ =~= Seq::<<DiskStats as View>::V>::empty());
        r
    }

    /// Appends an entry.
    pub fn push(&mut self, entry: DiskStats)
        ensures
            final(self).items() == old(self).items().push(entry),
            final(self)@ == old(self)@.push(entry@),
    {
        self.stats.push(entry);
        assert(self@ =~= old(self)@.push(entry@));
    }

    /// Iterates over the entries in order.
    pub fn iter(&self) -> (r: std::slice::Iter<'_, DiskStats>)
        ensures
            r.remaining() == self.items().as_ref(),
    {
        self.stats.as_slice().iter()
    }

    /// The number of entries.
    pub fn len(&self) -> (r: usize)
        ensures
            r == self.items().len(),
            r == self@.len(),
    {
        self.stats.len()
    }

    /// Whether there are no entries.
    pub fn is_empty(&self) -> (r: bool)
        ensures
            r == (self.items().len() == 0),
            r == (self@.len() == 0),
    {
        self.stats.is_empty()
    }

    /// The entries as a slice.
    pub fn as_slice(&self) -> (r: &[DiskStats])
        ensures
            r@ == self.items(),
            r@.map_values(|e: DiskStats| e@) == self@,
    {
        self.stats.as_slice()
    }
}

/// Reads the block device counters of `/proc/diskstats`, optionally only
/// for the named devices.
#[derive(Debug, Clone)]
pub struct DiskStatsCollector {
    /// The devices to report; all of them when `None`.
    pub include_devices: Option<Vec<String>>,
}

impl DiskStatsCollector {
    /// A collector for the given devices (all when `None`).
    pub fn new(include_devices: Option<Vec<String>>) -> (r: Self)
        ensures
            r.include_devices == include_devices,
    {
        DiskStatsCollector { include_devices }
    }

    /// The device filter as character sequences.
    pub open spec fn filter(&self) -> Option<Seq<Seq<char>>> {
        match self.include_devices {
            Some(v) => Some(views(v@)),
            None => None,
        }
    }

    /// Parses the content of `/proc/diskstats`.
    pub fn parse_diskstats(&self, content: &str) -> (r: CollectorResult<DiskBuffer>)
        ensures
            match r {
                Ok(b) => disk_stats_of(content@, self.filter()) == Ok::<_, ErrorModel>(b@),
                Err(e) => disk_stats_of(content@, self.filter()) == Err::<Seq<(Seq<char>, Seq<u64>)>, _>(e@),
            },
    {
        let ls = split_lines(content);
        let ghost all = views(ls@);
        let ghost f = self.filter();
        let mut buffer = DiskBuffer::with_capacity(32);
        let mut i: usize = 0;
        proof {
            lemma_take_all(all);
        }
        while i < ls.len()
            invariant
                all == views(ls@),
                all == lines(content@),
                f == self.filter(),
                i <= ls@.len(),
                gather_or_fail(all.take(i as int), disk_step(f)) == Ok::<_, ErrorModel>(buffer@),
            decreases ls@.len() - i,
        {
            proof {
                lemma_take_one_more(all, i as int);
            }
            let ghost before = buffer@;
            assert(all[i as int] == ls@[i as int]@);
            match self.parse_disk_line(ls[i].as_str()) {
                Ok(Some(entry)) => {
                    buffer.push(entry);
                    assert(before.push(entry@) =~= before + seq![entry@]);
                },
                Ok(None) => {
                    assert(before + Seq::empty() =~= before);
                },
                Err(e) => {
                    proof {
                        lemma_gather_or_fail_prefix(all, i + 1, disk_step(f));
                    }
                    return Err(e);
                },
            }
            i = i + 1;
        }
        Ok(buffer)
    }

    /// Parses one line of `/proc/diskstats`.
    fn parse_disk_line(&self, line: &str) -> (r: CollectorResult<Option<DiskStats>>)
        ensures
            match r {
                Ok(None) => disk_line(line@, self.filter()) == Ok::<_, ErrorModel>(
                    Seq::<(Seq<char>, Seq<u64>)>::empty(),
                ),
                Ok(Some(e)) => disk_line(line@, self.filter()) == Ok::<_, ErrorModel>(seq![e@]),
                Err(e) => disk_line(line@, self.filter()) == Err::<Seq<(Seq<char>, Seq<u64>)>, _>(e@),
            },
    {
        let parts = split_whitespace(line);
        if parts.len() < 14 {
            return Ok(None);
        }
        assert(views(parts@)[2] == parts@[2]@);
        if let Some(wanted) = &self.include_devices {
            if !list_contains(wanted, parts[2].as_str()) {
                return Ok(None);
            }
        }
        let location = String::from_str("/proc/diskstats device=").concat(parts[2].as_str());
        match parse_u64_fields(&parts, 3, 13) {
            Ok(vs) => {
                let entry = DiskStats {
                    device: parts[2].clone(),
                    reads_completed: vs[0],
                    reads_merged: vs[1],
                    read_bytes: vs[2],
                    read_time_ms: vs[3],
                    writes_completed: vs[4],
                    writes_merged: vs[5],
                    written_bytes: vs[6],
                    write_time_ms: vs[7],
                    io_in_progress: vs[8],
                    io_time_ms: vs[9],
                };
                assert(entry@.1 =~= vs@);
                Ok(Some(entry))
            },
            Err(k) => {
                assert(views(parts@)[k + 3] == parts@[k + 3]@);
                let e = parse_error(
                    disk_metric_name(k),
                    location.as_str(),
                    invalid_value(parts[k + 3].as_str()),
                );
                Err(e)
            },
        }
    }
}

impl Default for DiskStatsCollector {
    fn default() -> (r: Self)
        ensures
            r.include_devices is None,
    {
        DiskStatsCollector::new(None)
    }
}

/// The name of the `k`-th counter of a `/proc/diskstats` line.
pub open spec fn disk_metric(k: int) -> Seq<char> {
    seq![
        "reads_completed"@,
        "reads_merged"@,
        "read_bytes"@,
        "read_time_ms"@,
        "writes_completed"@,
        "writes_merged"@,
        "written_bytes"@,
        "write_time_ms"@,
        "io_in_progress"@,
        "io_time_ms"@,
    ][k]
}

/// What one line of `/proc/diskstats` contributes: nothing when it has fewer
/// than fourteen words or its device (the third word) is filtered out;
/// otherwise the device and the ten counters after it, or an error naming
/// the first counter that is not a `u64`.
pub open spec fn disk_line(line: Seq<char>, filter: Option<Seq<Seq<char>>>) -> Result<
    Seq<(Seq<char>, Seq<u64>)>,
    ErrorModel,
> {
    let w = words(line);
    if w.len() < 14 {
        Ok(Seq::empty())
    } else if filter matches Some(list) && !list.contains(w[2]) {
        Ok(Seq::empty())
    } else {
        match all_u64(w.subrange(3, 13)) {
            Ok(vs) => Ok(seq![(w[2], vs)]),
            Err(k) => Err(
                ErrorModel::ParseError {
                    metric: disk_metric(k),
                    location: "/proc/diskstats device="@ + w[2],
                    reason: "invalid value: "@ + w[k + 3],
                },
            ),
        }
    }
}

/// The per-line rule of `/proc/diskstats`.
pub open spec fn disk_step(filter: Option<Seq<Seq<char>>>) -> spec_fn(Seq<char>) -> Result<
    Seq<(Seq<char>, Seq<u64>)>,
    ErrorModel,
> {
    |line: Seq<char>| disk_line(line, filter)
}

/// The device entries of `/proc/diskstats`, in file order, or the first error.
pub open spec fn disk_stats_of(content: Seq<char>, filter: Option<Seq<Seq<char>>>) -> Result<
    Seq<(Seq<char>, Seq<u64>)>,
    ErrorModel,
> {
    gather_or_fail(lines(content), disk_step(filter))
}

/// The name of the `k`-th counter of a `/proc/diskstats` line.
fn disk_metric_name(k: usize) -> (r: &'static str)
    requires
        k < 10,
    ensures
        r@ == disk_metric(k as int),
{
    match k {
        0 => "reads_completed",
        1 => "reads_merged",
        2 => "read_bytes",
        3 => "read_time_ms",
        4 => "writes_completed",
        5 => "writes_merged",
        6 => "written_bytes",
        7 => "write_time_ms",
        8 => "io_in_progress",
        _ => "io_time_ms",
    }
}

/// A line of at least fourteen words whose device (third word) the filter
/// lets through, and whose ten counters (words four to thirteen) are all
/// `u64`s, yields one entry: the device and counter `k` read from word
/// `k + 3`, in file order.
pub proof fn law_disk_columns(line: Seq<char>, filter: Option<Seq<Seq<char>>>)
    requires
        words(line).len() >= 14,
        forall|k: int| 3 <= k < 13 ==> dec_u64(#[trigger] words(line)[k]) is Some,
        filter matches Some(list) ==> list.contains(words(line)[2]),
    ensures
        disk_line(line, filter) == Ok::<_, ErrorModel>(
            seq![(words(line)[2], Seq::new(10, |k: int| dec_u64(words(line)[k + 3])->0))],
        ),
{
    lemma_all_u64_window(words(line), 3, 13);
}

/// With a device filter, a line is reported only when its device name (the
/// third word) equals a listed name: a listed device reads as without the
/// filter, and any other contributes nothing. A name that only begins with
/// a listed one, such as a partition of a listed disk, is not listed.
pub proof fn law_disk_filter_exact(line: Seq<char>, list: Seq<Seq<char>>)
    ensures
        (forall|m: int| 0 <= m < list.len() ==> list[m] != #[trigger] words(line)[2]) ==> disk_line(
            line,
            Some(list),
        ) == Ok::<_, ErrorModel>(Seq::<(Seq<char>, Seq<u64>)>::empty()),
        (exists|m: int| 0 <= m < list.len() && list[m] == #[trigger] words(line)[2]) ==> disk_line(
            line,
            Some(list),
        ) == disk_line(line, None),
{
}

/// With a device filter, every device reported from `/proc/diskstats` is one
/// of the listed names.
pub proof fn law_disk_reports_listed(content: Seq<char>, list: Seq<Seq<char>>)
    ensures
        disk_stats_of(content, Some(list)) matches Ok(es) ==> forall|i: int|
            0 <= i < es.len() ==> list.contains(#[trigger] es[i].0),
{
    let p = |e: (Seq<char>, Seq<u64>)| list.contains(e.0);
    assert forall|l: Seq<char>|
        (#[trigger] disk_step(Some(list))(l) matches Ok(x) ==> forall|i: int|
            0 <= i < x.len() ==> p(#[trigger] x[i])) by {
        law_disk_filter_exact(l, list);
        if let Ok(x) = disk_line(l, Some(list)) {
            if x.len() > 0 {
                let name = words(l)[2];
                if !list.contains(name) {
                    assert forall|m: int| 0 <= m < list.len() implies list[m] != #[trigger] words(l)[2] by {
                        if list[m] == name {
                            assert(list.contains(name));
                        }
                    }
                }
            }
        }
    }
    lemma_gather_or_fail_all(lines(content), disk_step(Some(list)), p);
}

} // verus!
