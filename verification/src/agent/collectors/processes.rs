//! Process counts from `/proc/stat`.

use vstd::prelude::*;

use super::error::{parse_error, ErrorModel};
use super::parsing::{
    fold_state, lemma_fold_state_concat, lemma_fold_state_prefix, lemma_take_all, lemma_take_one_more,
    parse_second_u64, second_u64,
};
use super::types::CollectorResult;
use crate::text::{has_prefix, lines, split_lines, starts_with, views};

verus! {

/// Process counts of the system.
#[derive(Debug, Clone)]
pub struct ProcessStats {
    /// Processes created since boot.
    pub total_processes: u64,
    /// Processes currently runnable.
    pub running_processes: u64,
    /// Context switches since boot.
    pub context_switches: u64,
}

impl View for ProcessStats {
    type V = Seq<u64>;

    open spec fn view(&self) -> Seq<u64> {
        seq![self.total_processes, self.running_processes, self.context_switches]
    }
}

/// Reads the process counts of `/proc/stat`.
#[derive(Debug, Clone, Copy)]
pub struct ProcessCollector;

impl ProcessCollector {
    /// A new collector.
    pub fn new() -> (r: Self)
        ensures
            r == ProcessCollector,
    {
        ProcessCollector
    }
}

impl Default for ProcessCollector {
    fn default() -> (r: Self)
        ensures
            r == ProcessCollector,
    {
        ProcessCollector::new()
    }
}

/// Which count a line of `/proc/stat` sets: 0 for `processes `, 1 for
/// `procs_running `, 2 for `ctxt `, none otherwise.
pub open spec fn process_field(line: Seq<char>) -> int {
    if has_prefix(line, "processes "@) {
        0
    } else if has_prefix(line, "procs_running "@) {
        1
    } else if has_prefix(line, "ctxt "@) {
        2
    } else {
        -1
    }
}

/// The name of the `k`-th count.
pub open spec fn process_metric(k: int) -> Seq<char> {
    seq!["total_processes"@, "running_processes"@, "context_switches"@][k]
}

/// The counts after one more line: a count line sets its count to its
/// second word, which must be a `u64`.
pub open spec fn process_update(st: Seq<u64>, line: Seq<char>) -> Result<Seq<u64>, ErrorModel> {
    let k = process_field(line);
    if k < 0 {
        Ok(st)
    } else {
        match second_u64(line) {
            Some(v) => Ok(st.update(k, v)),
            None => Err(
                ErrorModel::ParseError {
                    metric: process_metric(k),
                    location: "/proc/stat"@,
                    reason: "invalid value"@,
                },
            ),
        }
    }
}

/// Lines that set different counts can come in either order: when both
/// are readable, reading them one way round or the other gives the same
/// counts.
pub proof fn law_process_lines_commute(st: Seq<u64>, a: Seq<char>, b: Seq<char>)
    requires
        st.len() == 3,
        process_field(a) != process_field(b) || process_field(a) < 0,
        process_update(st, a) is Ok,
        process_update(st, b) is Ok,
    ensures
        process_update(process_update(st, a)->Ok_0, b) == process_update(process_update(st, b)->Ok_0, a),
{
    let ka = process_field(a);
    let kb = process_field(b);
    if ka >= 0 && kb >= 0 {
        let va = second_u64(a)->0;
        let vb = second_u64(b)->0;
        assert(st.update(ka, va).update(kb, vb) =~= st.update(kb, vb).update(ka, va));
    }
}

/// Whether a line of `/proc/stat` can be read for the counts: it sets no
/// count, or its second word is a `u64`.
pub open spec fn process_line_readable(line: Seq<char>) -> bool {
    process_field(line) < 0 || second_u64(line) is Some
}

/// The order of readable lines that set different counts does not matter:
/// swapping two such neighbouring lines anywhere in the file gives the same
/// result.
pub proof fn law_process_order_independent(p: Seq<Seq<char>>, a: Seq<char>, b: Seq<char>, q: Seq<Seq<char>>)
    requires
        process_field(a) != process_field(b) || process_field(a) < 0,
        process_line_readable(a),
        process_line_readable(b),
    ensures
        fold_state(p + seq![a, b] + q, seq![0u64, 0u64, 0u64], process_upd()) == fold_state(
            p + seq![b, a] + q,
            seq![0u64, 0u64, 0u64],
            process_upd(),
        ),
{
    let init = seq![0u64, 0u64, 0u64];
    let upd = process_upd();
    lemma_fold_state_concat(p + seq![a, b], q, init, upd);
    lemma_fold_state_concat(p + seq![b, a], q, init, upd);
    lemma_fold_state_concat(p, seq![a, b], init, upd);
    lemma_fold_state_concat(p, seq![b, a], init, upd);
    lemma_process_fold_len(p, init);
    if fold_state(p, init, upd) is Ok {
        let st = fold_state(p, init, upd)->Ok_0;
        assert(seq![a, b].drop_last() =~= seq![a]);
        assert(seq![b, a].drop_last() =~= seq![b]);
        assert(seq![a].drop_last() =~= Seq::<Seq<char>>::empty());
        assert(seq![b].drop_last() =~= Seq::<Seq<char>>::empty());
        let sa = process_update(st, a)->Ok_0;
        let sb = process_update(st, b)->Ok_0;
        assert(fold_state(Seq::<Seq<char>>::empty(), st, upd) == Ok::<_, ErrorModel>(st));
        assert(fold_state(seq![a], st, upd) == process_update(st, a));
        assert(fold_state(seq![b], st, upd) == process_update(st, b));
        law_process_lines_commute(st, a, b);
        assert(fold_state(seq![a, b], st, upd) == process_update(sa, b));
        assert(fold_state(seq![b, a], st, upd) == process_update(sb, a));
    }
}

/// The counts always have three entries.
proof fn lemma_process_fold_len(ls: Seq<Seq<char>>, init: Seq<u64>)
    requires
        init.len() == 3,
    ensures
        fold_state(ls, init, process_upd()) matches Ok(st) ==> st.len() == 3,
    decreases ls.len(),
{
    if ls.len() > 0 {
        lemma_process_fold_len(ls.drop_last(), init);
    }
}

/// The per-line update of the counts.
pub open spec fn process_upd() -> spec_fn(Seq<u64>, Seq<char>) -> Result<Seq<u64>, ErrorModel> {
    |st: Seq<u64>, line: Seq<char>| process_update(st, line)
}

/// The counts of `/proc/stat`, starting from zeros; a later line overrides
/// an earlier one.
pub open spec fn processes_of(content: Seq<char>) -> Result<Seq<u64>, ErrorModel> {
    fold_state(lines(content), seq![0u64, 0u64, 0u64], process_upd())
}

/// Applies one line of `/proc/stat` to `stats`.
fn apply_process_line(stats: &mut ProcessStats, line: &str) -> (r: CollectorResult<()>)
    ensures
        match r {
            Ok(_) => process_update(old(stats)@, line@) == Ok::<_, ErrorModel>(final(stats)@),
            Err(e) => process_update(old(stats)@, line@) == Err::<Seq<u64>, _>(e@),
        },
{
    let k: usize = if starts_with(line, "processes ") {
        0
    } else if starts_with(line, "procs_running ") {
        1
    } else if starts_with(line, "ctxt ") {
        2
    } else {
        assert(old(stats)@ == stats@);
        return Ok(());
    };
    match parse_second_u64(line) {
        Some(v) => {
            if k == 0 {
                stats.total_processes = v;
            } else if k == 1 {
                stats.running_processes = v;
            } else {
                stats.context_switches = v;
            }
            assert(stats@ =~= old(stats)@.update(k as int, v));
            Ok(())
        },
        None => {
            let name = if k == 0 {
                "total_processes"
            } else if k == 1 {
                "running_processes"
            } else {
                "context_switches"
            };
            Err(parse_error(name, "/proc/stat", String::from_str("invalid value")))
        },
    }
}

/// Parses the process counts of `/proc/stat`.
pub fn parse_process_stats(content: &str) -> (r: CollectorResult<ProcessStats>)
    ensures
        match r {
            Ok(s) => processes_of(content@) == Ok::<_, ErrorModel>(s@),
            Err(e) => processes_of(content@) == Err::<Seq<u64>, _>(e@),
        },
{
    let ls = split_lines(content);
    let ghost all = views(ls@);
    let mut stats = ProcessStats { total_processes: 0, running_processes: 0, context_switches: 0 };
    let mut i: usize = 0;
    proof {
        lemma_take_all(all);
        assert(stats@ =~= seq![0u64, 0u64, 0u64]);
    }
    while i < ls.len()
        invariant
            all == views(ls@),
            all == lines(content@),
            i <= ls@.len(),
            fold_state(all.take(i as int), seq![0u64, 0u64, 0u64], process_upd()) == Ok::<_, ErrorModel>(stats@),
        decreases ls@.len() - i,
    {
        proof {
            lemma_take_one_more(all, i as int);
        }
        assert(all[i as int] == ls@[i as int]@);
        match apply_process_line(&mut stats, ls[i].as_str()) {
            Ok(_) => {},
            Err(e) => {
                proof {
                    lemma_fold_state_prefix(all, i + 1, seq![0u64, 0u64, 0u64], process_upd());
                }
                return Err(e);
            },
        }
        i = i + 1;
    }
    Ok(stats)
}

} // verus!
