//! Power supply state from `/sys/class/power_supply`.

use vstd::prelude::*;
use vstd::std_specs::iter::IteratorSpec;

use crate::text::{dec_u64, dec_u8, parse_u64, parse_u8, trim, trim_str};

verus! {

/// The state of one power supply (battery, mains adapter, ...).
#[derive(Debug, Clone)]
pub struct PowerStats {
    /// Supply directory name, such as `BAT0`.
    pub name: String,
    /// Supply type, such as `Battery` or `Mains`.
    pub supply_type: String,
    /// Status, such as `Charging`.
    pub status: String,
    /// Charge in percent.
    pub capacity_percent: Option<u8>,
    /// Energy now, in microwatt-hours.
    pub energy_now: Option<u64>,
    /// Energy when full, in microwatt-hours.
    pub energy_full: Option<u64>,
    /// Power draw, in microwatts.
    pub power_now: Option<u64>,
    /// Voltage, in microvolts.
    pub voltage_now: Option<u64>,
}

impl View for PowerStats {
    /// Name, type, status, capacity, and the four optional readings in
    /// declaration order.
    type V = (Seq<char>, Seq<char>, Seq<char>, Option<u8>, Seq<Option<u64>>);

    open spec fn view(&self) -> Self::V {
        (
            self.name@,
            self.supply_type@,
            self.status@,
            self.capacity_percent,
            seq![self.energy_now, self.energy_full, self.power_now, self.voltage_now],
        )
    }
}

/// A growable list of `PowerStats` values.
#[derive(Debug, Clone)]
pub struct PowerBuffer {
    stats: Vec<PowerStats>,
}

impl View for PowerBuffer {
    type V = Seq<<PowerStats as View>::V>;

    closed spec fn view(&self) -> Self::V {
        self.stats@.map_values(|e: PowerStats| e@)
    }
}

impl PowerBuffer {
    /// The supplies, in insertion order.
    pub closed spec fn items(&self) -> Seq<PowerStats> {
        self.stats@
    }

    /// The view is the entries' views, in order.
    pub proof fn lemma_view_items(&self)
        ensures
            self@ == self.items().map_values(|e: PowerStats| e@),
    {
    }

    /// An empty buffer.
    pub fn new() -> (r: Self)
        ensures
            r.items() == Seq::<PowerStats>::empty(),
            r@ == Seq::<<PowerStats as View>::V>::empty(),
    {
        let r = PowerBuffer { stats: Vec::new() };
        assert(r@ =~= Seq::<<PowerStats as View>::V>::empty());
        r
    }

    /// An empty buffer with room for `capacity` supplies.
    pub fn with_capacity(capacity: usize) -> (r: Self)
        ensures
            r.items() == Seq::<PowerStats>::empty(),
            r@ == Seq::<<PowerStats as View>::V>::empty(),
    {
        let r = PowerBuffer { stats: Vec::with_capacity(capacity) };
        assert(r@ =~= Seq::<<PowerStats as View>::V>::empty());
        r
    }

    /// Appends an entry.
    pub fn push(&mut self, entry: PowerStats)
        ensures
            final(self).items() == old(self).items().push(entry),
            final(self)@ == old(self)@.push(entry@),
    {
        self.stats.push(entry);
        assert(self@ =~= old(self)@.push(entry@));
    }

    /// Iterates over the supplies in order.
    pub fn iter(&self) -> (r: std::slice::Iter<'_, PowerStats>)
        ensures
            r.remaining() == self.items().as_ref(),
    {
        self.stats.as_slice().iter()
    }

    /// The number of supplies.
    pub fn len(&self) -> (r: usize)
        ensures
            r == self.items().len(),
            r == self@.len(),
    {
        self.stats.len()
    }

    /// Whether there are no supplies.
    pub fn is_empty(&self) -> (r: bool)
        ensures
            r == (self.items().len() == 0),
            r == (self@.len() == 0),
    {
        self.stats.is_empty()
    }
}

/// Reads the state of the power supplies.
#[derive(Debug, Clone, Copy)]
pub struct PowerCollector;

impl PowerCollector {
    /// A new collector.
    pub fn new() -> (r: Self)
        ensures
            r == PowerCollector,
    {
        PowerCollector
    }
}

impl Default for PowerCollector {
    fn default() -> (r: Self)
        ensures
            r == PowerCollector,
    {
        PowerCollector::new()
    }
}

/// The content of an optional file as a sequence.
pub open spec fn opt_view(c: Option<&str>) -> Option<Seq<char>> {
    match c {
        Some(s) => Some(s@),
        None => None,
    }
}

/// A text attribute: the trimmed content, or empty when it could not be read.
pub open spec fn text_attr(c: Option<Seq<char>>) -> Seq<char> {
    match c {
        Some(s) => trim(s),
        None => Seq::empty(),
    }
}

/// A numeric attribute: the trimmed content as a `u64`, if it is one.
pub open spec fn u64_attr(c: Option<Seq<char>>) -> Option<u64> {
    match c {
        Some(s) => dec_u64(trim(s)),
        None => None,
    }
}

/// A percentage attribute: the trimmed content as a `u8`, if it is one.
pub open spec fn u8_attr(c: Option<Seq<char>>) -> Option<u8> {
    match c {
        Some(s) => dec_u8(trim(s)),
        None => None,
    }
}

/// A text attribute.
fn text_attr_of(c: Option<&str>) -> (r: String)
    ensures
        r@ == text_attr(opt_view(c)),
{
    match c {
        Some(s) => trim_str(s),
        None => String::new(),
    }
}

/// A numeric attribute.
fn u64_attr_of(c: Option<&str>) -> (r: Option<u64>)
    ensures
        r == u64_attr(opt_view(c)),
{
    match c {
        Some(s) => parse_u64(trim_str(s).as_str()),
        None => None,
    }
}

/// The entry of supply `name` from the contents of its `type`, `status`,
/// `capacity`, `energy_now`, `energy_full`, `power_now` and `voltage_now`
/// files (`None` for a file that could not be read).
pub fn power_supply_stats(
    name: String,
    supply_type: Option<&str>,
    status: Option<&str>,
    capacity: Option<&str>,
    energy_now: Option<&str>,
    energy_full: Option<&str>,
    power_now: Option<&str>,
    voltage_now: Option<&str>,
) -> (r: PowerStats)
    ensures
        r@ == (
            name@,
            text_attr(opt_view(supply_type)),
            text_attr(opt_view(status)),
            u8_attr(opt_view(capacity)),
            seq![
                u64_attr(opt_view(energy_now)),
                u64_attr(opt_view(energy_full)),
                u64_attr(opt_view(power_now)),
                u64_attr(opt_view(voltage_now)),
            ],
        ),
{
    let capacity_percent = match capacity {
        Some(s) => parse_u8(trim_str(s).as_str()),
        None => None,
    };
    PowerStats {
        name,
        supply_type: text_attr_of(supply_type),
        status: text_attr_of(status),
        capacity_percent,
        energy_now: u64_attr_of(energy_now),
        energy_full: u64_attr_of(energy_full),
        power_now: u64_attr_of(power_now),
        voltage_now: u64_attr_of(voltage_now),
    }
}

} // verus!
