//! Time synchronisation state from `timedatectl timesync-status`. The
//! offset, jitter and delay are decimal fractions; this module finds their
//! text and the caller reads them.

use vstd::prelude::*;

use super::parsing::{fold_lines, lemma_take_all, lemma_take_one_more};
use crate::text::{
    contains_str, dec_u8, lemma_split_nonempty, lines, occurs_in, parse_u8, split_char, split_lines,
    split_on, trim, trim_str, views,
};

verus! {

/// Reads the time synchronisation state that `timedatectl` reports.
#[derive(Debug, Clone, Copy)]
pub struct NtpCollector;

impl NtpCollector {
    /// A new collector.
    pub fn new() -> (r: Self)
        ensures
            r == NtpCollector,
    {
        NtpCollector
    }
}

impl Default for NtpCollector {
    fn default() -> (r: Self)
        ensures
            r == NtpCollector,
    {
        NtpCollector::new()
    }
}

/// What the status report says, with the decimal figures as text.
#[derive(Debug, Clone)]
pub struct NtpReading {
    /// Whether the clock is synchronised.
    pub synchronized: bool,
    /// The server in use.
    pub ntp_server: String,
    /// The server's stratum.
    pub stratum: u8,
    /// The text of the last `Offset:` line, if any.
    pub offset: Option<String>,
    /// The text of the last `Jitter:` line, if any.
    pub jitter: Option<String>,
    /// The text of the last `Root delay:` line, if any.
    pub root_delay: Option<String>,
}

/// An optional string as an optional sequence.
pub open spec fn opt_text(s: Option<String>) -> Option<Seq<char>> {
    match s {
        Some(x) => Some(x@),
        None => None,
    }
}

/// The state of the report while reading it.
pub type NtpModel = (bool, Seq<char>, u8, Option<Seq<char>>, Option<Seq<char>>, Option<Seq<char>>);

impl View for NtpReading {
    type V = NtpModel;

    open spec fn view(&self) -> NtpModel {
        (
            self.synchronized,
            self.ntp_server@,
            self.stratum,
            opt_text(self.offset),
            opt_text(self.jitter),
            opt_text(self.root_delay),
        )
    }
}

/// The state before any line: not synchronised, server `unknown`, stratum 0.
pub open spec fn ntp_initial() -> NtpModel {
    (false, "unknown"@, 0, None, None, None)
}

/// The state after one more line, which is first trimmed. The first of
/// these that the line contains decides: `synchronized:` sets the flag to
/// whether the line contains `yes`; `Server:` sets the server to the
/// trimmed text between the first and second colon (`unknown` if there is
/// none); `Stratum:`, `Offset:`, `Jitter:` and `Root delay:` take that text
/// too when there is one, the stratum as a `u8` (0 when it is not one).
pub open spec fn ntp_update(st: NtpModel, line0: Seq<char>) -> NtpModel {
    let line = trim(line0);
    let p = split_on(line, ':');
    if occurs_in(line, "synchronized:"@) {
        (occurs_in(line, "yes"@), st.1, st.2, st.3, st.4, st.5)
    } else if occurs_in(line, "Server:"@) {
        (st.0, if p.len() > 1 { trim(p[1]) } else { "unknown"@ }, st.2, st.3, st.4, st.5)
    } else if occurs_in(line, "Stratum:"@) {
        if p.len() > 1 {
            (st.0, st.1, match dec_u8(trim(p[1])) { Some(v) => v, None => 0 }, st.3, st.4, st.5)
        } else {
            st
        }
    } else if occurs_in(line, "Offset:"@) {
        if p.len() > 1 { (st.0, st.1, st.2, Some(trim(p[1])), st.4, st.5) } else { st }
    } else if occurs_in(line, "Jitter:"@) {
        if p.len() > 1 { (st.0, st.1, st.2, st.3, Some(trim(p[1])), st.5) } else { st }
    } else if occurs_in(line, "Root delay:"@) {
        if p.len() > 1 { (st.0, st.1, st.2, st.3, st.4, Some(trim(p[1]))) } else { st }
    } else {
        st
    }
}

/// The per-line update of the report.
pub open spec fn ntp_upd() -> spec_fn(NtpModel, Seq<char>) -> NtpModel {
    |st: NtpModel, line: Seq<char>| ntp_update(st, line)
}

/// What the whole report says.
pub open spec fn ntp_of(content: Seq<char>) -> NtpModel {
    fold_lines(lines(content), ntp_initial(), ntp_upd())
}

/// Applies one line of the report to `st`.
fn apply_ntp_line(st: &mut NtpReading, line0: &str)
    ensures
        final(st)@ == ntp_update(old(st)@, line0@),
{
    let line = trim_str(line0);
    let p = split_char(line.as_str(), ':');
    proof {
        lemma_split_nonempty(line@, ':', Seq::empty());
    }
    let second: Option<String> = if p.len() > 1 {
        assert(views(p@)[1] == p@[1]@);
        Some(trim_str(p[1].as_str()))
    } else {
        None
    };
    if contains_str(line.as_str(), "synchronized:") {
        st.synchronized = contains_str(line.as_str(), "yes");
    } else if contains_str(line.as_str(), "Server:") {
        st.ntp_server = match second {
            Some(s) => s,
            None => String::from_str("unknown"),
        };
    } else if contains_str(line.as_str(), "Stratum:") {
        if let Some(s) = second {
            st.stratum = match parse_u8(s.as_str()) {
                Some(v) => v,
                None => 0,
            };
        }
    } else if contains_str(line.as_str(), "Offset:") {
        if second.is_some() {
            st.offset = second;
        }
    } else if contains_str(line.as_str(), "Jitter:") {
        if second.is_some() {
            st.jitter = second;
        }
    } else if contains_str(line.as_str(), "Root delay:") {
        if second.is_some() {
            st.root_delay = second;
        }
    }
}

/// Reads the output of `timedatectl timesync-status`.
pub fn parse_timesync_status(content: &str) -> (r: NtpReading)
    ensures
        r@ == ntp_of(content@),
{
    let ls = split_lines(content);
    let ghost all = views(ls@);
    let mut st = NtpReading {
        synchronized: false,
        ntp_server: String::from_str("unknown"),
        stratum: 0,
        offset: None,
        jitter: None,
        root_delay: None,
    };
    let mut i: usize = 0;
    proof {
        lemma_take_all(all);
    }
    while i < ls.len()
        invariant
            all == views(ls@),
            all == lines(content@),
            i <= ls@.len(),
            fold_lines(all.take(i as int), ntp_initial(), ntp_upd()) == st@,
        decreases ls@.len() - i,
    {
        proof {
            lemma_take_one_more(all, i as int);
        }
        assert(all[i as int] == ls@[i as int]@);
        apply_ntp_line(&mut st, ls[i].as_str());
        i = i + 1;
    }
    st
}

} // verus!
