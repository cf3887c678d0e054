//! Thermal zone temperatures from `/sys/class/thermal`.

use vstd::prelude::*;
use vstd::std_specs::iter::IteratorSpec;

use crate::text::{dec_i64, has_prefix, parse_i64, starts_with, trim, trim_str};

verus! {

/// The temperature of one thermal zone.
#[derive(Debug, Clone)]
pub struct ThermalZoneInfo {
    /// Zone directory name, such as `thermal_zone0`.
    pub zone_id: String,
    /// Temperature in degrees Celsius.
    pub temperature: i64,
}

impl View for ThermalZoneInfo {
    type V = (Seq<char>, i64);

    open spec fn view(&self) -> Self::V {
        (self.zone_id@, self.temperature)
    }
}

/// A growable list of `ThermalZoneInfo` values.
#[derive(Debug, Clone)]
pub struct ThermalBuffer {
    zones: Vec<ThermalZoneInfo>,
}

impl View for ThermalBuffer {
    type V = Seq<<ThermalZoneInfo as View>::V>;

    closed spec fn view(&self) -> Self::V {
        self.zones@.map_values(|e: ThermalZoneInfo| e@)
    }
}

impl ThermalBuffer {
    /// The zones, in insertion order.
    pub closed spec fn items(&self) -> Seq<ThermalZoneInfo> {
        self.zones@
    }

    /// The view is the entries' views, in order.
    pub proof fn lemma_view_items(&self)
        ensures
            self@ == self.items().map_values(|e: ThermalZoneInfo| e@),
    {
    }

    /// An empty buffer.
    pub fn new() -> (r: Self)
        ensures
            r.items() == Seq::<ThermalZoneInfo>::empty(),
            r@ == Seq::<<ThermalZoneInfo as View>::V>::empty(),
    {
        let r = ThermalBuffer { zones: Vec::new() };
        assert(r@ =~= Seq::<<ThermalZoneInfo as View>::V>::empty());
        r
    }

    /// An empty buffer with room for `capacity` zones.
    pub fn with_capacity(capacity: usize) -> (r: Self)
        ensures
            r.items() == Seq::<ThermalZoneInfo>::empty(),
            r@ == Seq::<<ThermalZoneInfo as View>::V>::empty(),
    {
        let r = ThermalBuffer { zones: Vec::with_capacity(capacity) };
        assert(r@ =~= Seq::<<ThermalZoneInfo as View>::V>::empty());
        r
    }

    /// Appends an entry.
    pub fn push(&mut self, entry: ThermalZoneInfo)
        ensures
            final(self).items() == old(self).items().push(entry),
            final(self)@ == old(self)@.push(entry@),
    {
        self.zones.push(entry);
        assert(self@ =~= old(self)@.push(entry@));
    }

    /// Iterates over the zones in order.
    pub fn iter(&self) -> (r: std::slice::Iter<'_, ThermalZoneInfo>)
        ensures
            r.remaining() == self.items().as_ref(),
    {
        self.zones.as_slice().iter()
    }

    /// The number of zones.
    pub fn len(&self) -> (r: usize)
        ensures
            r == self.items().len(),
            r == self@.len(),
    {
        self.zones.len()
    }

    /// Whether there are no zones.
    pub fn is_empty(&self) -> (r: bool)
        ensures
            r == (self.items().len() == 0),
            r == (self@.len() == 0),
    {
        self.zones.is_empty()
    }

    /// The zones as a slice.
    pub fn as_slice(&self) -> (r: &[ThermalZoneInfo])
        ensures
            r@ == self.items(),
            r@.map_values(|e: ThermalZoneInfo| e@) == self@,
    {
        self.zones.as_slice()
    }
}

/// Reads the temperatures of the thermal zones.
#[derive(Debug, Clone, Copy)]
pub struct ThermalZoneCollector;

impl ThermalZoneCollector {
    /// A new collector.
    pub fn new() -> (r: Self)
        ensures
            r == ThermalZoneCollector,
    {
        ThermalZoneCollector
    }
}

impl Default for ThermalZoneCollector {
    fn default() -> (r: Self)
        ensures
            r == ThermalZoneCollector,
    {
        ThermalZoneCollector::new()
    }
}

/// Whether a directory entry of `/sys/class/thermal` is a thermal zone: its
/// name starts with `thermal_zone`.
pub fn is_thermal_zone(name: &str) -> (r: bool)
    ensures
        r == has_prefix(name@, "thermal_zone"@),
{
    starts_with(name, "thermal_zone")
}

/// Integer division rounding toward zero, as Rust's `/` on signed integers.
pub open spec fn div_toward_zero(a: int, b: int) -> int {
    if a >= 0 {
        a / b
    } else {
        -((-a) / b)
    }
}

/// The reading of a zone whose `temp` file holds `content`: the trimmed
/// content as millidegrees (an `i64`), in whole degrees rounded toward zero.
pub open spec fn zone_temperature(content: Seq<char>) -> Option<i64> {
    match dec_i64(trim(content)) {
        Some(m) => Some(div_toward_zero(m as int, 1000) as i64),
        None => None,
    }
}

/// The entry of zone `zone_id` whose `temp` file holds `content`, or `None`
/// when that is not a number of millidegrees.
pub fn thermal_zone_reading(zone_id: String, content: &str) -> (r: Option<ThermalZoneInfo>)
    ensures
        match zone_temperature(content@) {
            Some(t) => r matches Some(z) && z@ == (zone_id@, t),
            None => r is None,
        },
{
    match parse_i64(trim_str(content).as_str()) {
        Some(m) => {
            let t: i64 = if m >= 0 {
                m / 1000
            } else if m == i64::MIN {
                -9223372036854775
            } else {
                -((-m) / 1000)
            };
            assert(t == div_toward_zero(m as int, 1000));
            Some(ThermalZoneInfo { zone_id, temperature: t })
        },
        None => None,
    }
}

} // verus!
