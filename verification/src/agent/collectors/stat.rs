//! Boot time, fork and interrupt totals from `/proc/stat`.

use vstd::prelude::*;

use super::error::{parse_error, ErrorModel};
use super::parsing::{
    fold_state, lemma_fold_state_concat, lemma_fold_state_prefix, lemma_take_all, lemma_take_one_more,
    parse_second_i64, parse_second_u64, second_i64, second_u64,
};
use super::types::CollectorResult;
use crate::text::{has_prefix, lines, split_lines, starts_with, views};

verus! {

/// System-wide totals of `/proc/stat`.
#[derive(Debug, Clone)]
pub struct StatGlobalStats {
    /// Boot time, in seconds since the Unix epoch.
    pub boot_time: i64,
    /// Processes created since boot.
    pub total_forks: u64,
    /// Interrupts serviced since boot.
    pub total_interrupts: u64,
}

impl View for StatGlobalStats {
    type V = (i64, u64, u64);

    open spec fn view(&self) -> (i64, u64, u64) {
        (self.boot_time, self.total_forks, self.total_interrupts)
    }
}

/// Reads the system-wide totals of `/proc/stat`.
#[derive(Debug, Clone, Copy)]
pub struct StatCollector;

impl StatCollector {
    /// A new collector.
    pub fn new() -> (r: Self)
        ensures
            r == StatCollector,
    {
        StatCollector
    }
}

impl Default for StatCollector {
    fn default() -> (r: Self)
        ensures
            r == StatCollector,
    {
        StatCollector::new()
    }
}

/// The totals after one more line: `btime ` sets the boot time (an `i64`),
/// `processes ` the forks and `intr ` the interrupts (each a `u64`), from
/// the line's second word.
pub open spec fn stat_update(st: (i64, u64, u64), line: Seq<char>) -> Result<(i64, u64, u64), ErrorModel> {
    if has_prefix(line, "btime "@) {
        match second_i64(line) {
            Some(v) => Ok((v, st.1, st.2)),
            None => Err(
                ErrorModel::ParseError { metric: "boot_time"@, location: "/proc/stat"@, reason: "invalid value"@ },
            ),
        }
    } else if has_prefix(line, "processes "@) {
        match second_u64(line) {
            Some(v) => Ok((st.0, v, st.2)),
            None => Err(
                ErrorModel::ParseError { metric: "total_forks"@, location: "/proc/stat"@, reason: "invalid value"@ },
            ),
        }
    } else if has_prefix(line, "intr "@) {
        match second_u64(line) {
            Some(v) => Ok((st.0, st.1, v)),
            None => Err(
                ErrorModel::ParseError {
                    metric: "total_interrupts"@,
                    location: "/proc/stat"@,
                    reason: "invalid value"@,
                },
            ),
        }
    } else {
        Ok(st)
    }
}

/// Which total a line of `/proc/stat` sets: 0 for `btime `, 1 for
/// `processes `, 2 for `intr `, none (-1) otherwise.
pub open spec fn stat_kind(line: Seq<char>) -> int {
    if has_prefix(line, "btime "@) {
        0
    } else if has_prefix(line, "processes "@) {
        1
    } else if has_prefix(line, "intr "@) {
        2
    } else {
        -1
    }
}

/// Lines that set different totals can come in either order: when both
/// are readable, reading them one way round or the other gives the same
/// totals.
pub proof fn law_stat_lines_commute(st: (i64, u64, u64), a: Seq<char>, b: Seq<char>)
    requires
        stat_kind(a) != stat_kind(b) || stat_kind(a) < 0,
        stat_update(st, a) is Ok,
        stat_update(st, b) is Ok,
    ensures
        stat_update(stat_update(st, a)->Ok_0, b) == stat_update(stat_update(st, b)->Ok_0, a),
{
}

/// Whether a line of `/proc/stat` can be read for the totals: it sets no
/// total, or its second word is a number of the total's type.
pub open spec fn stat_line_readable(line: Seq<char>) -> bool {
    stat_kind(line) < 0 || (stat_kind(line) == 0 && second_i64(line) is Some) || (stat_kind(line) > 0
        && second_u64(line) is Some)
}

/// The order of readable lines that set different totals does not matter:
/// swapping two such neighbouring lines anywhere in the file gives the same
/// result.
pub proof fn law_stat_order_independent(p: Seq<Seq<char>>, a: Seq<char>, b: Seq<char>, q: Seq<Seq<char>>)
    requires
        stat_kind(a) != stat_kind(b) || stat_kind(a) < 0,
        stat_line_readable(a),
        stat_line_readable(b),
    ensures
        fold_state(p + seq![a, b] + q, (0i64, 0u64, 0u64), stat_upd()) == fold_state(
            p + seq![b, a] + q,
            (0i64, 0u64, 0u64),
            stat_upd(),
        ),
{
    let init = (0i64, 0u64, 0u64);
    let upd = stat_upd();
    lemma_fold_state_concat(p + seq![a, b], q, init, upd);
    lemma_fold_state_concat(p + seq![b, a], q, init, upd);
    lemma_fold_state_concat(p, seq![a, b], init, upd);
    lemma_fold_state_concat(p, seq![b, a], init, upd);
    if fold_state(p, init, upd) is Ok {
        let st = fold_state(p, init, upd)->Ok_0;
        assert(seq![a, b].drop_last() =~= seq![a]);
        assert(seq![b, a].drop_last() =~= seq![b]);
        assert(seq![a].drop_last() =~= Seq::<Seq<char>>::empty());
        assert(seq![b].drop_last() =~= Seq::<Seq<char>>::empty());
        assert(fold_state(Seq::<Seq<char>>::empty(), st, upd) == Ok::<_, ErrorModel>(st));
        assert(fold_state(seq![a], st, upd) == stat_update(st, a));
        assert(fold_state(seq![b], st, upd) == stat_update(st, b));
        law_stat_lines_commute(st, a, b);
    }
}

/// The per-line update of the totals.
pub open spec fn stat_upd() -> spec_fn((i64, u64, u64), Seq<char>) -> Result<(i64, u64, u64), ErrorModel> {
    |st: (i64, u64, u64), line: Seq<char>| stat_update(st, line)
}

/// Some line of `ls` sets the total of kind `k`.
pub open spec fn has_stat_line(ls: Seq<Seq<char>>, k: int) -> bool {
    exists|i: int| 0 <= i < ls.len() && stat_kind(#[trigger] ls[i]) == k
}

/// The name of the total of kind `k`.
pub open spec fn stat_metric(k: int) -> Seq<char> {
    seq!["boot_time"@, "total_forks"@, "total_interrupts"@][k]
}

/// The totals of `/proc/stat`: the lines are read in order, a later line
/// overriding an earlier one, and the first unreadable value is the error;
/// then each of the three totals must have been given by some line, the
/// first missing one (in the order boot time, forks, interrupts) being a
/// parse error.
pub open spec fn stat_of(content: Seq<char>) -> Result<(i64, u64, u64), ErrorModel> {
    let ls = lines(content);
    match fold_state(ls, (0i64, 0u64, 0u64), stat_upd()) {
        Err(e) => Err(e),
        Ok(st) => if !has_stat_line(ls, 0) {
            Err(ErrorModel::ParseError { metric: stat_metric(0), location: "/proc/stat"@, reason: "missing"@ })
        } else if !has_stat_line(ls, 1) {
            Err(ErrorModel::ParseError { metric: stat_metric(1), location: "/proc/stat"@, reason: "missing"@ })
        } else if !has_stat_line(ls, 2) {
            Err(ErrorModel::ParseError { metric: stat_metric(2), location: "/proc/stat"@, reason: "missing"@ })
        } else {
            Ok(st)
        },
    }
}

/// Taking one more line adds its kind to the kinds seen.
proof fn lemma_has_stat_line_step(ls: Seq<Seq<char>>, i: int, k: int)
    requires
        0 <= i < ls.len(),
    ensures
        has_stat_line(ls.take(i + 1), k) == (has_stat_line(ls.take(i), k) || stat_kind(ls[i]) == k),
{
    let a = ls.take(i + 1);
    let b = ls.take(i);
    if has_stat_line(a, k) {
        let j = choose|j: int| 0 <= j < a.len() && stat_kind(#[trigger] a[j]) == k;
        if j < i {
            assert(b[j] == a[j]);
        }
    }
    if has_stat_line(b, k) {
        let j = choose|j: int| 0 <= j < b.len() && stat_kind(#[trigger] b[j]) == k;
        assert(a[j] == b[j]);
    }
    if stat_kind(ls[i]) == k {
        assert(a[i] == ls[i]);
    }
}

/// The kind of a line of `/proc/stat`.
fn stat_line_kind(line: &str) -> (r: i8)
    ensures
        r as int == stat_kind(line@),
{
    if starts_with(line, "btime ") {
        0
    } else if starts_with(line, "processes ") {
        1
    } else if starts_with(line, "intr ") {
        2
    } else {
        -1
    }
}

/// Applies one line of `/proc/stat` to `stats`.
fn apply_stat_line(stats: &mut StatGlobalStats, line: &str) -> (r: CollectorResult<()>)
    ensures
        match r {
            Ok(_) => stat_update(old(stats)@, line@) == Ok::<_, ErrorModel>(final(stats)@),
            Err(e) => stat_update(old(stats)@, line@) == Err::<(i64, u64, u64), _>(e@),
        },
{
    if starts_with(line, "btime ") {
        match parse_second_i64(line) {
            Some(v) => {
                stats.boot_time = v;
                Ok(())
            },
            None => Err(parse_error("boot_time", "/proc/stat", String::from_str("invalid value"))),
        }
    } else if starts_with(line, "processes ") {
        match parse_second_u64(line) {
            Some(v) => {
                stats.total_forks = v;
                Ok(())
            },
            None => Err(parse_error("total_forks", "/proc/stat", String::from_str("invalid value"))),
        }
    } else if starts_with(line, "intr ") {
        match parse_second_u64(line) {
            Some(v) => {
                stats.total_interrupts = v;
                Ok(())
            },
            None => Err(parse_error("total_interrupts", "/proc/stat", String::from_str("invalid value"))),
        }
    } else {
        Ok(())
    }
}

/// Parses the system-wide totals of `/proc/stat`.
pub fn parse_global_stats(content: &str) -> (r: CollectorResult<StatGlobalStats>)
    ensures
        match r {
            Ok(s) => stat_of(content@) == Ok::<_, ErrorModel>(s@),
            Err(e) => stat_of(content@) == Err::<(i64, u64, u64), _>(e@),
        },
{
    let ls = split_lines(content);
    let ghost all = views(ls@);
    let mut stats = StatGlobalStats { boot_time: 0, total_forks: 0, total_interrupts: 0 };
    let mut seen_boot = false;
    let mut seen_forks = false;
    let mut seen_intr = false;
    let mut i: usize = 0;
    proof {
        lemma_take_all(all);
    }
    while i < ls.len()
        invariant
            all == views(ls@),
            all == lines(content@),
            i <= ls@.len(),
            fold_state(all.take(i as int), (0i64, 0u64, 0u64), stat_upd()) == Ok::<_, ErrorModel>(stats@),
            seen_boot == has_stat_line(all.take(i as int), 0),
            seen_forks == has_stat_line(all.take(i as int), 1),
            seen_intr == has_stat_line(all.take(i as int), 2),
        decreases ls@.len() - i,
    {
        proof {
            lemma_take_one_more(all, i as int);
            lemma_has_stat_line_step(all, i as int, 0);
            lemma_has_stat_line_step(all, i as int, 1);
            lemma_has_stat_line_step(all, i as int, 2);
        }
        assert(all[i as int] == ls@[i as int]@);
        let kind = stat_line_kind(ls[i].as_str());
        seen_boot = seen_boot || kind == 0;
        seen_forks = seen_forks || kind == 1;
        seen_intr = seen_intr || kind == 2;
        match apply_stat_line(&mut stats, ls[i].as_str()) {
            Ok(_) => {},
            Err(e) => {
                proof {
                    lemma_fold_state_prefix(all, i + 1, (0i64, 0u64, 0u64), stat_upd());
                }
                return Err(e);
            },
        }
        i = i + 1;
    }
    if !seen_boot {
        return Err(parse_error("boot_time", "/proc/stat", String::from_str("missing")));
    }
    if !seen_forks {
        return Err(parse_error("total_forks", "/proc/stat", String::from_str("missing")));
    }
    if !seen_intr {
        return Err(parse_error("total_interrupts", "/proc/stat", String::from_str("missing")));
    }
    Ok(stats)
}

} // verus!
