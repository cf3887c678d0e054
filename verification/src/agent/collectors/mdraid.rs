//! Software RAID arrays from `/proc/mdstat`.

use vstd::prelude::*;

use crate::text::{
    count_char, count_matches_char, has_prefix, lines, split_lines, split_whitespace, starts_with, strip_trailing,
    trim_end_char, views, words,
};

verus! {

/// Reads the software RAID arrays of `/proc/mdstat`.
#[derive(Debug, Clone, Copy)]
pub struct MdRaidCollector;

impl MdRaidCollector {
    /// A new collector.
    pub fn new() -> (r: Self)
        ensures
            r == MdRaidCollector,
    {
        MdRaidCollector
    }
}

impl Default for MdRaidCollector {
    fn default() -> (r: Self)
        ensures
            r == MdRaidCollector,
    {
        MdRaidCollector::new()
    }
}

/// The state of one array as `/proc/mdstat` gives it.
#[derive(Debug, Clone)]
pub struct MdRaidRecord {
    /// Array name, such as `md0`.
    pub device: String,
    /// RAID level, such as `raid1`.
    pub level: String,
    /// Array state, such as `active`.
    pub state: String,
    /// Active members: the `U` marks of the status line.
    pub active_devices: u32,
    /// Members in total: active and failed ones.
    pub total_devices: u32,
    /// Failed members: the `_` marks of the status line.
    pub failed_devices: u32,
    /// Spare members (not read; always 0).
    pub spare_devices: u32,
}

impl View for MdRaidRecord {
    /// Device, level, state, and the four counts in declaration order.
    type V = (Seq<char>, Seq<char>, Seq<char>, Seq<u32>);

    open spec fn view(&self) -> Self::V {
        (
            self.device@,
            self.level@,
            self.state@,
            seq![self.active_devices, self.total_devices, self.failed_devices, self.spare_devices],
        )
    }
}

/// `n` as a `u32`, or the largest `u32` when it does not fit.
pub open spec fn sat32(n: int) -> u32 {
    if n > u32::MAX {
        u32::MAX
    } else {
        n as u32
    }
}

/// The record of an array line with words `w` and the status line after
/// it: name (without a trailing colon), level, state, then the member
/// counts, each saturating at the largest `u32`: active members are the `U`
/// marks of the status line, failed members its `_` marks, and the total is
/// the two together.
pub open spec fn md_record(w: Seq<Seq<char>>, detail: Seq<char>) -> (Seq<char>, Seq<char>, Seq<char>, Seq<u32>) {
    let up = count_char(detail, 'U') as int;
    let down = count_char(detail, '_') as int;
    (strip_trailing(w[0], ':'), w[3], w[2], seq![sat32(up), sat32(up + down), sat32(down), 0u32])
}

/// `n` as a `u32`, saturating.
fn saturate_u32(n: u128) -> (r: u32)
    ensures
        r == sat32(n as int),
{
    if n > 0xffff_ffff {
        u32::MAX
    } else {
        n as u32
    }
}

/// The arrays of the lines `ls`: a line starting with `md` with at least
/// four words is an array, and the line after it its status line (which is
/// then not read as an array line); reading stops at an array line with no
/// line after it.
pub open spec fn mdstat_from(ls: Seq<Seq<char>>) -> Seq<(Seq<char>, Seq<char>, Seq<char>, Seq<u32>)>
    decreases ls.len(),
{
    if ls.len() == 0 {
        Seq::empty()
    } else if has_prefix(ls[0], "md"@) && words(ls[0]).len() >= 4 {
        if ls.len() < 2 {
            Seq::empty()
        } else {
            seq![md_record(words(ls[0]), ls[1])] + mdstat_from(ls.subrange(2, ls.len() as int))
        }
    } else {
        mdstat_from(ls.drop_first())
    }
}

/// The arrays of `/proc/mdstat`, in file order.
pub open spec fn mdstat_of(content: Seq<char>) -> Seq<(Seq<char>, Seq<char>, Seq<char>, Seq<u32>)> {
    mdstat_from(lines(content))
}

/// The views of a vector of records.
pub open spec fn record_views(v: Seq<MdRaidRecord>) -> Seq<(Seq<char>, Seq<char>, Seq<char>, Seq<u32>)> {
    v.map_values(|r: MdRaidRecord| r@)
}

/// Parses `/proc/mdstat`.
pub fn parse_mdstat(content: &str) -> (r: Vec<MdRaidRecord>)
    ensures
        record_views(r@) == mdstat_of(content@),
{
    let ls = split_lines(content);
    let ghost all = views(ls@);
    let mut out: Vec<MdRaidRecord> = Vec::new();
    let mut i: usize = 0;
    assert(all.subrange(0, all.len() as int) =~= all);
    assert(record_views(out@) + mdstat_from(all) =~= mdstat_from(all));
    while i < ls.len()
        invariant
            all == views(ls@),
            all == lines(content@),
            i <= ls@.len(),
            record_views(out@) + mdstat_from(all.subrange(i as int, all.len() as int)) == mdstat_from(all),
        decreases ls@.len() - i,
    {
        let ghost rest = all.subrange(i as int, all.len() as int);
        let ghost before = record_views(out@);
        let line = ls[i].as_str();
        assert(rest[0] == line@);
        assert(rest.drop_first() =~= all.subrange(i + 1, all.len() as int));
        if starts_with(line, "md") {
            let parts = split_whitespace(line);
            if parts.len() >= 4 {
                if i + 1 >= ls.len() {
                    assert(mdstat_from(rest) =~= Seq::empty());
                    assert(before + Seq::empty() =~= before);
                    return out;
                }
                let detail = ls[i + 1].as_str();
                assert(rest[1] == detail@);
                assert(rest.subrange(2, rest.len() as int) =~= all.subrange(i + 2, all.len() as int));
                assert(all[i + 1] == detail@);
                let ups = count_matches_char(detail, 'U');
                let gaps = count_matches_char(detail, '_');
                assert(views(parts@)[0] == parts@[0]@);
                assert(views(parts@)[2] == parts@[2]@);
                assert(views(parts@)[3] == parts@[3]@);
                let rec = MdRaidRecord {
                    device: trim_end_char(parts[0].as_str(), ':'),
                    level: parts[3].clone(),
                    state: parts[2].clone(),
                    active_devices: saturate_u32(ups as u128),
                    total_devices: saturate_u32(ups as u128 + gaps as u128),
                    failed_devices: saturate_u32(gaps as u128),
                    spare_devices: 0,
                };
                let ghost rv = rec@;
                assert(rv =~= md_record(words(line@), detail@));
                out.push(rec);
                assert(record_views(out@) =~= before + seq![rv]);
                i = i + 2;
                continue;
            }
        }
        i = i + 1;
    }
    assert(mdstat_from(all.subrange(i as int, all.len() as int)) =~= Seq::empty());
    assert(record_views(out@) + Seq::empty() =~= record_views(out@));
    out
}

} // verus!
