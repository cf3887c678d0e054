//! Memory figures from `/proc/meminfo`.

use vstd::prelude::*;

use super::error::{missing_field, ErrorModel};
use super::parsing::{lemma_take_all, lemma_take_one_more};
use super::types::CollectorResult;
use crate::text::{
    dec_u64, lemma_split_nonempty, lines, parse_u64, split_char, split_lines, split_on,
    split_whitespace, str_eq, trim, trim_str, views, words,
};

verus! {

/// Memory figures of the system, in kibibytes.
#[derive(Debug, Clone)]
pub struct MemoryStats {
    /// Total usable memory.
    pub mem_total: u64,
    /// Unused memory.
    pub mem_free: u64,
    /// Memory available for new work.
    pub mem_available: u64,
    /// Buffer memory.
    pub buffers: u64,
    /// Page cache.
    pub cached: u64,
    /// Total swap.
    pub swap_total: u64,
    /// Unused swap.
    pub swap_free: u64,
}

impl View for MemoryStats {
    /// The seven figures in declaration order.
    type V = Seq<u64>;

    open spec fn view(&self) -> Seq<u64> {
        seq![self.mem_total, self.mem_free, self.mem_available, self.buffers, self.cached, self.swap_total, self.swap_free]
    }
}

/// Reads the memory figures of `/proc/meminfo`.
#[derive(Debug, Clone, Copy)]
pub struct MemoryCollector;

impl MemoryCollector {
    /// A new collector.
    pub fn new() -> (r: Self)
        ensures
            r == MemoryCollector,
    {
        MemoryCollector
    }
}

impl Default for MemoryCollector {
    fn default() -> (r: Self)
        ensures
            r == MemoryCollector,
    {
        MemoryCollector::new()
    }
}

/// The key of the `k`-th figure.
pub open spec fn meminfo_key(k: int) -> Seq<char> {
    seq!["MemTotal"@, "MemFree"@, "MemAvailable"@, "Buffers"@, "Cached"@, "SwapTotal"@, "SwapFree"@][k]
}

/// The key and value of a line `key: value unit`: the line must hold
/// exactly one colon, and the first word after it must be a `u64`.
pub open spec fn meminfo_pair(line: Seq<char>) -> Option<(Seq<char>, u64)> {
    let parts = split_on(line, ':');
    if parts.len() != 2 {
        None
    } else {
        let vw = words(trim(parts[1]));
        if vw.len() > 0 && dec_u64(vw[0]) is Some {
            Some((trim(parts[0]), dec_u64(vw[0])->0))
        } else {
            None
        }
    }
}

/// The value of the last line of `ls` with the given key.
pub open spec fn meminfo_lookup(ls: Seq<Seq<char>>, key: Seq<char>) -> Option<u64>
    decreases ls.len(),
{
    if ls.len() == 0 {
        None
    } else {
        match meminfo_pair(ls.last()) {
            Some(p) => if p.0 == key {
                Some(p.1)
            } else {
                meminfo_lookup(ls.drop_last(), key)
            },
            None => meminfo_lookup(ls.drop_last(), key),
        }
    }
}

/// Looking up a key in `p` followed by `q` finds its last line in `q`, or
/// else its last line in `p`.
proof fn lemma_meminfo_lookup_concat(p: Seq<Seq<char>>, q: Seq<Seq<char>>, key: Seq<char>)
    ensures
        meminfo_lookup(p + q, key) == match meminfo_lookup(q, key) {
            Some(v) => Some(v),
            None => meminfo_lookup(p, key),
        },
    decreases q.len(),
{
    if q.len() == 0 {
        assert(p + q =~= p);
    } else {
        assert((p + q).drop_last() =~= p + q.drop_last());
        assert((p + q).last() == q.last());
        lemma_meminfo_lookup_concat(p, q.drop_last(), key);
    }
}

/// The order of neighbouring lines with different keys does not matter:
/// swapping them anywhere in the file leaves the figure of every key, and so
/// the whole reading, unchanged.
pub proof fn law_meminfo_order_independent(
    p: Seq<Seq<char>>,
    a: Seq<char>,
    b: Seq<char>,
    q: Seq<Seq<char>>,
    key: Seq<char>,
)
    requires
        !(meminfo_pair(a) is Some && meminfo_pair(b) is Some && (meminfo_pair(a)->0).0 == (meminfo_pair(b)->0).0),
    ensures
        meminfo_lookup(p + seq![a, b] + q, key) == meminfo_lookup(p + seq![b, a] + q, key),
{
    lemma_meminfo_lookup_concat(p + seq![a, b], q, key);
    lemma_meminfo_lookup_concat(p + seq![b, a], q, key);
    lemma_meminfo_lookup_concat(p, seq![a, b], key);
    lemma_meminfo_lookup_concat(p, seq![b, a], key);
    assert(seq![a, b].drop_last() =~= seq![a]);
    assert(seq![b, a].drop_last() =~= seq![b]);
    assert(seq![a].drop_last() =~= Seq::<Seq<char>>::empty());
    assert(seq![b].drop_last() =~= Seq::<Seq<char>>::empty());
    let one_a = meminfo_lookup(seq![a], key);
    let one_b = meminfo_lookup(seq![b], key);
    assert(meminfo_lookup(seq![a, b], key) == match meminfo_pair(b) {
        Some(x) => if x.0 == key { Some(x.1) } else { one_a },
        None => one_a,
    });
    assert(meminfo_lookup(seq![b, a], key) == match meminfo_pair(a) {
        Some(x) => if x.0 == key { Some(x.1) } else { one_b },
        None => one_b,
    });
}

/// A figure, or zero when the file does not give it.
pub open spec fn or_zero(v: Option<u64>) -> u64 {
    match v {
        Some(x) => x,
        None => 0,
    }
}

/// The figures of `/proc/meminfo`: `MemTotal` is required, the others
/// default to zero.
pub open spec fn memory_of(content: Seq<char>) -> Result<Seq<u64>, ErrorModel> {
    let ls = lines(content);
    match meminfo_lookup(ls, meminfo_key(0)) {
        None => Err(ErrorModel::MissingField { field: "MemTotal"@, location: "/proc/meminfo"@ }),
        Some(total) => Ok(
            seq![
                total,
                or_zero(meminfo_lookup(ls, meminfo_key(1))),
                or_zero(meminfo_lookup(ls, meminfo_key(2))),
                or_zero(meminfo_lookup(ls, meminfo_key(3))),
                or_zero(meminfo_lookup(ls, meminfo_key(4))),
                or_zero(meminfo_lookup(ls, meminfo_key(5))),
                or_zero(meminfo_lookup(ls, meminfo_key(6))),
            ],
        ),
    }
}

/// The key of the `k`-th figure.
fn meminfo_key_name(k: usize) -> (r: &'static str)
    requires
        k < 7,
    ensures
        r@ == meminfo_key(k as int),
{
    match k {
        0 => "MemTotal",
        1 => "MemFree",
        2 => "MemAvailable",
        3 => "Buffers",
        4 => "Cached",
        5 => "SwapTotal",
        _ => "SwapFree",
    }
}

/// Reads the key and value of one line of `/proc/meminfo`.
fn parse_meminfo_pair(line: &str) -> (r: Option<(String, u64)>)
    ensures
        match r {
            Some(p) => meminfo_pair(line@) == Some((p.0@, p.1)),
            None => meminfo_pair(line@) is None,
        },
{
    let parts = split_char(line, ':');
    if parts.len() != 2 {
        return None;
    }
    assert(views(parts@)[0] == parts@[0]@);
    assert(views(parts@)[1] == parts@[1]@);
    let rest = trim_str(parts[1].as_str());
    let vw = split_whitespace(rest.as_str());
    if vw.len() == 0 {
        return None;
    }
    assert(views(vw@)[0] == vw@[0]@);
    match parse_u64(vw[0].as_str()) {
        Some(v) => Some((trim_str(parts[0].as_str()), v)),
        None => None,
    }
}

/// Parses the content of `/proc/meminfo`.
pub fn parse_meminfo(content: &str) -> (r: CollectorResult<MemoryStats>)
    ensures
        match r {
            Ok(s) => memory_of(content@) == Ok::<_, ErrorModel>(s@),
            Err(e) => memory_of(content@) == Err::<Seq<u64>, _>(e@),
        },
{
    let ls = split_lines(content);
    let ghost all = views(ls@);
    let mut vals: Vec<Option<u64>> = vec![None, None, None, None, None, None, None];
    let mut i: usize = 0;
    proof {
        lemma_take_all(all);
    }
    while i < ls.len()
        invariant
            all == views(ls@),
            all == lines(content@),
            i <= ls@.len(),
            vals@.len() == 7,
            forall|k: int| 0 <= k < 7 ==> vals@[k] == meminfo_lookup(all.take(i as int), #[trigger] meminfo_key(k)),
        decreases ls@.len() - i,
    {
        proof {
            lemma_take_one_more(all, i as int);
        }
        assert(all[i as int] == ls@[i as int]@);
        let ghost prev = all.take(i as int);
        let ghost next = all.take(i + 1);
        match parse_meminfo_pair(ls[i].as_str()) {
            Some((key, v)) => {
                let mut k: usize = 0;
                while k < 7
                    invariant
                        vals@.len() == 7,
                        k <= 7,
                        meminfo_pair(next.last()) == Some((key@, v)),
                        next.drop_last() == prev,
                        next.len() > 0,
                        forall|j: int| 0 <= j < k ==> vals@[j] == meminfo_lookup(next, #[trigger] meminfo_key(j)),
                        forall|j: int| k <= j < 7 ==> vals@[j] == meminfo_lookup(prev, #[trigger] meminfo_key(j)),
                    decreases 7 - k,
                {
                    if str_eq(key.as_str(), meminfo_key_name(k)) {
                        vals.set(k, Some(v));
                    }
                    assert(vals@[k as int] == meminfo_lookup(next, meminfo_key(k as int)));
                    k = k + 1;
                }
            },
            None => {
                assert forall|k: int| 0 <= k < 7 implies vals@[k] == meminfo_lookup(next, #[trigger] meminfo_key(k)) by {
                    assert(next.drop_last() == prev);
                }
            },
        }
        i = i + 1;
    }
    assert(vals@[0] == meminfo_lookup(all, meminfo_key(0)));
    match vals[0] {
        None => Err(missing_field("MemTotal", "/proc/meminfo")),
        Some(total) => {
            let s = MemoryStats {
                mem_total: total,
                mem_free: or_zero_of(vals[1]),
                mem_available: or_zero_of(vals[2]),
                buffers: or_zero_of(vals[3]),
                cached: or_zero_of(vals[4]),
                swap_total: or_zero_of(vals[5]),
                swap_free: or_zero_of(vals[6]),
            };
            assert(vals@[1] == meminfo_lookup(all, meminfo_key(1)));
            assert(vals@[2] == meminfo_lookup(all, meminfo_key(2)));
            assert(vals@[3] == meminfo_lookup(all, meminfo_key(3)));
            assert(vals@[4] == meminfo_lookup(all, meminfo_key(4)));
            assert(vals@[5] == meminfo_lookup(all, meminfo_key(5)));
            assert(vals@[6] == meminfo_lookup(all, meminfo_key(6)));
            Ok(s)
        },
    }
}

/// A figure, or zero.
fn or_zero_of(v: Option<u64>) -> (r: u64)
    ensures
        r == or_zero(v),
{
    match v {
        Some(x) => x,
        None => 0,
    }
}

/// `/proc/meminfo` is read by key: the total is the value of the last
/// `MemTotal` line and is required; free, available, buffer, cache, swap
/// total and swap free memory are the values of the last `MemFree`,
/// `MemAvailable`, `Buffers`, `Cached`, `SwapTotal` and `SwapFree` lines,
/// or zero where there is none.
pub proof fn law_memory_keys(content: Seq<char>)
    ensures
        ({
            let ls = lines(content);
            &&& memory_of(content) is Err <==> meminfo_lookup(ls, "MemTotal"@) is None
            &&& meminfo_lookup(ls, "MemTotal"@) matches Some(total) ==> memory_of(content) == Ok::<_, ErrorModel>(
                seq![
                    total,
                    or_zero(meminfo_lookup(ls, "MemFree"@)),
                    or_zero(meminfo_lookup(ls, "MemAvailable"@)),
                    or_zero(meminfo_lookup(ls, "Buffers"@)),
                    or_zero(meminfo_lookup(ls, "Cached"@)),
                    or_zero(meminfo_lookup(ls, "SwapTotal"@)),
                    or_zero(meminfo_lookup(ls, "SwapFree"@)),
                ],
            )
        }),
{
}

} // verus!
