//! Unit states from `systemctl list-units`.

use vstd::prelude::*;
use vstd::std_specs::iter::IteratorSpec;

use super::parsing::{gather, lemma_take_all, lemma_take_one_more};
use crate::text::{join, join_spaced, lines, split_lines, split_whitespace, views, words};

verus! {

/// The state of one systemd unit.
#[derive(Debug, Clone)]
pub struct SystemdUnitStats {
    /// Unit name.
    pub unit_name: String,
    /// Load state.
    pub load_state: String,
    /// Active state.
    pub active_state: String,
    /// Sub-state.
    pub sub_state: String,
    /// Description.
    pub description: String,
}

impl View for SystemdUnitStats {
    /// The five columns in order.
    type V = Seq<Seq<char>>;

    open spec fn view(&self) -> Self::V {
        seq![self.unit_name@, self.load_state@, self.active_state@, self.sub_state@, self.description@]
    }
}

/// A growable list of `SystemdUnitStats` values.
#[derive(Debug, Clone)]
pub struct SystemdBuffer {
    stats: Vec<SystemdUnitStats>,
}

impl View for SystemdBuffer {
    type V = Seq<<SystemdUnitStats as View>::V>;

    closed spec fn view(&self) -> Self::V {
        self.stats@.map_values(|e: SystemdUnitStats| e@)
    }
}

impl SystemdBuffer {
    /// The units, in insertion order.
    pub closed spec fn items(&self) -> Seq<SystemdUnitStats> {
        self.stats@
    }

    /// The view is the entries' views, in order.
    pub proof fn lemma_view_items(&self)
        ensures
            self@ == self.items().map_values(|e: SystemdUnitStats| e@),
    {
    }

    /// An empty buffer.
    pub fn new() -> (r: Self)
        ensures
            r.items() == Seq::<SystemdUnitStats>::empty(),
            r@ == Seq::<<SystemdUnitStats as View>::V>::empty(),
    {
        let r = SystemdBuffer { stats: Vec::new() };
        assert(r@ =~= Seq::<<SystemdUnitStats as View>::V>::empty());
        r
    }

    /// An empty buffer with room for `capacity` units.
    pub fn with_capacity(capacity: usize) -> (r: Self)
        ensures
            r.items() == Seq::<SystemdUnitStats>::empty(),
            r@ == Seq::<<SystemdUnitStats as View>::V>::empty(),
    {
        let r = SystemdBuffer { stats: Vec::with_capacity(capacity) };
        assert(r@ =~= Seq::<<SystemdUnitStats as View>::V>::empty());
        r
    }

    /// Appends an entry.
    pub fn push(&mut self, entry: SystemdUnitStats)
        ensures
            final(self).items() == old(self).items().push(entry),
            final(self)@ == old(self)@.push(entry@),
    {
        self.stats.push(entry);
        assert(self@ =~= old(self)@.push(entry@));
    }

    /// Iterates over the units in order.
    pub fn iter(&self) -> (r: std::slice::Iter<'_, SystemdUnitStats>)
        ensures
            r.remaining() == self.items().as_ref(),
    {
        self.stats.as_slice().iter()
    }

    /// The number of units.
    pub fn len(&self) -> (r: usize)
        ensures
            r == self.items().len(),
            r == self@.len(),
    {
        self.stats.len()
    }

    /// Whether there are no units.
    pub fn is_empty(&self) -> (r: bool)
        ensures
            r == (self.items().len() == 0),
            r == (self@.len() == 0),
    {
        self.stats.is_empty()
    }
}

/// Reads the unit states that `systemctl list-units` reports.
#[derive(Debug, Clone, Copy)]
pub struct SystemdCollector;

impl SystemdCollector {
    /// A new collector.
    pub fn new() -> (r: Self)
        ensures
            r == SystemdCollector,
    {
        SystemdCollector
    }
}

impl Default for SystemdCollector {
    fn default() -> (r: Self)
        ensures
            r == SystemdCollector,
    {
        SystemdCollector::new()
    }
}

/// What one line of the listing contributes: nothing when it has fewer than
/// four words; otherwise its first four words and the rest joined by single
/// spaces.
pub open spec fn systemd_line(line: Seq<char>) -> Seq<Seq<Seq<char>>> {
    let w = words(line);
    if w.len() < 4 {
        Seq::empty()
    } else {
        seq![seq![w[0], w[1], w[2], w[3], join(w.subrange(4, w.len() as int), " "@)]]
    }
}

/// The per-line rule of the listing.
pub open spec fn systemd_step() -> spec_fn(Seq<char>) -> Seq<Seq<Seq<char>>> {
    |line: Seq<char>| systemd_line(line)
}

/// All units of the listing, in order.
pub open spec fn systemd_of(content: Seq<char>) -> Seq<Seq<Seq<char>>> {
    gather(lines(content), systemd_step())
}

/// Parses one line of the listing.
fn parse_unit_line(line: &str) -> (r: Option<SystemdUnitStats>)
    ensures
        match r {
            Some(e) => systemd_line(line@) == seq![e@],
            None => systemd_line(line@) == Seq::<Seq<Seq<char>>>::empty(),
        },
{
    let parts = split_whitespace(line);
    if parts.len() < 4 {
        return None;
    }
    let entry = SystemdUnitStats {
        unit_name: parts[0].clone(),
        load_state: parts[1].clone(),
        active_state: parts[2].clone(),
        sub_state: parts[3].clone(),
        description: join_spaced(&parts, 4),
    };
    assert(entry@ =~= seq![
        views(parts@)[0],
        views(parts@)[1],
        views(parts@)[2],
        views(parts@)[3],
        join(views(parts@).subrange(4, parts@.len() as int), " "@),
    ]);
    Some(entry)
}

/// Parses the output of `systemctl list-units --all --no-pager --no-legend`.
pub fn parse_units(content: &str) -> (r: SystemdBuffer)
    ensures
        r@ == systemd_of(content@),
{
    let ls = split_lines(content);
    let ghost all = views(ls@);
    let mut buffer = SystemdBuffer::with_capacity(100);
    let mut i: usize = 0;
    proof {
        lemma_take_all(all);
    }
    while i < ls.len()
        invariant
            all == views(ls@),
            all == lines(content@),
            i <= ls@.len(),
            gather(all.take(i as int), systemd_step()) == buffer@,
        decreases ls@.len() - i,
    {
        proof {
            lemma_take_one_more(all, i as int);
        }
        assert(all[i as int] == ls@[i as int]@);
        let ghost before = buffer@;
        match parse_unit_line(ls[i].as_str()) {
            Some(entry) => {
                buffer.push(entry);
                assert(before.push(entry@) =~= before + seq![entry@]);
            },
            None => {
                assert(before + Seq::empty() =~= before);
            },
        }
        i = i + 1;
    }
    buffer
}

} // verus!
