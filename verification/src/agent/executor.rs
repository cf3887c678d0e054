//! The figures that the collection loop reports about itself.

use vstd::prelude::*;

use super::readiness::ReadinessState;
use crate::text::{dec_u64, parse_u64, split_whitespace, views, words};

verus! {

/// What `/proc/self/statm` says of the resident set.
#[derive(Debug, Clone, Copy, PartialEq, Eq)]
pub enum StatmReading {
    /// The resident set, in pages.
    ResidentPages(u64),
    /// The second field is not a number.
    BadValue,
    /// There are fewer than two fields.
    BadFormat,
}

/// The reading of `/proc/self/statm`: its second word, the resident pages.
pub open spec fn statm_of(content: Seq<char>) -> StatmReading {
    let w = words(content);
    if w.len() < 2 {
        StatmReading::BadFormat
    } else {
        match dec_u64(w[1]) {
            Some(p) => StatmReading::ResidentPages(p),
            None => StatmReading::BadValue,
        }
    }
}

/// Reads `/proc/self/statm`.
pub fn read_statm(content: &str) -> (r: StatmReading)
    ensures
        r == statm_of(content@),
{
    let parts = split_whitespace(content);
    if parts.len() < 2 {
        return StatmReading::BadFormat;
    }
    assert(views(parts@)[1] == parts@[1]@);
    match parse_u64(parts[1].as_str()) {
        Some(p) => StatmReading::ResidentPages(p),
        None => StatmReading::BadValue,
    }
}

/// The page size the resident set is counted in.
pub const PAGE_SIZE: u64 = 4096;

/// The resident set in whole mebibytes.
pub fn resident_mib(pages: u64) -> (r: u64)
    requires
        pages * 4096 <= u64::MAX,
    ensures
        r == pages * 4096 / 1024 / 1024,
{
    pages * PAGE_SIZE / 1024 / 1024
}

/// Where the collection loop stands.
#[derive(Debug, Clone, Copy, PartialEq, Eq)]
pub enum LoopPhase {
    /// Waiting for the system to become ready; nothing is collected.
    AwaitingReadiness,
    /// Collecting in rounds; readiness is no longer watched.
    Collecting,
}

/// What the loop learns from the outside.
#[derive(Debug, Clone)]
pub enum LoopEvent {
    /// The readiness state, at start or after it changed.
    ReadinessSeen(ReadinessState),
    /// Thirty seconds passed without a readiness change.
    WaitTimedOut,
    /// A collection round ended after this many milliseconds.
    RoundFinished(u64),
}

/// What the loop does next.
#[derive(Debug, Clone, Copy, PartialEq, Eq)]
pub enum LoopAction {
    /// Start nothing; keep waiting for the next event.
    Wait,
    /// Run a collection round now.
    CollectNow,
    /// Sleep this many milliseconds, then run a collection round.
    CollectAfter(u64),
}

/// The phase and action that follow `event` in `phase`, for rounds that
/// start every `interval_ms` milliseconds. Waiting ends with the first ready
/// state; a round that ended early is followed by a pause that fills the
/// interval, and one that overran by the next round at once.
pub open spec fn loop_next(phase: LoopPhase, event: LoopEvent, interval_ms: u64) -> (LoopPhase, LoopAction) {
    match phase {
        LoopPhase::AwaitingReadiness => match event {
            LoopEvent::ReadinessSeen(s) => if s is Ready {
                (LoopPhase::Collecting, LoopAction::CollectNow)
            } else {
                (LoopPhase::AwaitingReadiness, LoopAction::Wait)
            },
            _ => (LoopPhase::AwaitingReadiness, LoopAction::Wait),
        },
        LoopPhase::Collecting => match event {
            LoopEvent::RoundFinished(elapsed) => if elapsed < interval_ms {
                (LoopPhase::Collecting, LoopAction::CollectAfter((interval_ms - elapsed) as u64))
            } else {
                (LoopPhase::Collecting, LoopAction::CollectNow)
            },
            _ => (LoopPhase::Collecting, LoopAction::Wait),
        },
    }
}

/// Decides the loop's next phase and action.
pub fn loop_step(phase: LoopPhase, event: &LoopEvent, interval_ms: u64) -> (r: (LoopPhase, LoopAction))
    ensures
        r == loop_next(phase, *event, interval_ms),
{
    match phase {
        LoopPhase::AwaitingReadiness => match event {
            LoopEvent::ReadinessSeen(s) => if s.is_ready() {
                (LoopPhase::Collecting, LoopAction::CollectNow)
            } else {
                (LoopPhase::AwaitingReadiness, LoopAction::Wait)
            },
            _ => (LoopPhase::AwaitingReadiness, LoopAction::Wait),
        },
        LoopPhase::Collecting => match event {
            LoopEvent::RoundFinished(elapsed) => if *elapsed < interval_ms {
                (LoopPhase::Collecting, LoopAction::CollectAfter(interval_ms - *elapsed))
            } else {
                (LoopPhase::Collecting, LoopAction::CollectNow)
            },
            _ => (LoopPhase::Collecting, LoopAction::Wait),
        },
    }
}

/// The phase after the events `es`, starting in `phase`.
pub open spec fn phase_after(phase: LoopPhase, es: Seq<LoopEvent>, interval_ms: u64) -> LoopPhase
    decreases es.len(),
{
    if es.len() == 0 {
        phase
    } else {
        loop_next(phase_after(phase, es.drop_last(), interval_ms), es.last(), interval_ms).0
    }
}

/// Some event of `es` is a ready state.
pub open spec fn ready_seen(es: Seq<LoopEvent>) -> bool {
    exists|i: int| 0 <= i < es.len() && (#[trigger] es[i] matches LoopEvent::ReadinessSeen(s) && s is Ready)
}

/// Collection never starts before a ready state was seen: from the waiting
/// phase, the loop is collecting after a run of events only if one of them
/// was a ready state, and while it waits it starts no round.
pub proof fn law_no_round_before_ready(es: Seq<LoopEvent>, event: LoopEvent, interval_ms: u64)
    ensures
        phase_after(LoopPhase::AwaitingReadiness, es, interval_ms) is Collecting ==> ready_seen(es),
        phase_after(LoopPhase::AwaitingReadiness, es, interval_ms) is AwaitingReadiness && !(event matches LoopEvent::ReadinessSeen(s) && s is Ready)
            ==> loop_next(phase_after(LoopPhase::AwaitingReadiness, es, interval_ms), event, interval_ms).1 == LoopAction::Wait,
    decreases es.len(),
{
    if es.len() > 0 {
        let init = es.drop_last();
        law_no_round_before_ready(init, es.last(), interval_ms);
        if phase_after(LoopPhase::AwaitingReadiness, init, interval_ms) is Collecting {
            let i = choose|i: int| 0 <= i < init.len() && (#[trigger] init[i] matches LoopEvent::ReadinessSeen(s) && s is Ready);
            assert(es[i] == init[i]);
        } else if phase_after(LoopPhase::AwaitingReadiness, es, interval_ms) is Collecting {
            assert(es[es.len() - 1] == es.last());
        }
    }
}

/// Once collecting, the loop keeps collecting whatever happens, and after
/// every round it starts the next one: at once when the round took the
/// whole interval or longer, otherwise after a pause that, added to the
/// round's time, makes up the interval.
pub proof fn law_collecting_continues(es: Seq<LoopEvent>, elapsed: u64, interval_ms: u64)
    ensures
        phase_after(LoopPhase::Collecting, es, interval_ms) is Collecting,
        loop_next(LoopPhase::Collecting, LoopEvent::RoundFinished(elapsed), interval_ms).1 == if elapsed < interval_ms {
            LoopAction::CollectAfter((interval_ms - elapsed) as u64)
        } else {
            LoopAction::CollectNow
        },
    decreases es.len(),
{
    if es.len() > 0 {
        law_collecting_continues(es.drop_last(), elapsed, interval_ms);
    }
}

} // verus!
