//! What to collect, how often, and where to publish it.

use vstd::prelude::*;

verus! {

/// Where and how the data of one collector is published.
#[derive(Debug, Clone)]
pub struct CollectorMetadata {
    /// MQTT quality of service level.
    pub qos: u8,
    /// Topic the data is published on.
    pub topic: String,
    /// Whether the broker keeps the last message.
    pub retain: bool,
}

impl Default for CollectorMetadata {
    /// QoS 0, an empty topic, not retained.
    fn default() -> (r: Self)
        ensures
            r.qos == 0,
            r.topic@ == Seq::<char>::empty(),
            !r.retain,
    {
        CollectorMetadata { qos: 0, topic: String::new(), retain: false }
    }
}

/// One enabled collector and its publishing metadata.
#[derive(Debug, Clone)]
pub struct Collector {
    /// Name the collector is registered under; must not be empty.
    pub name: String,
    /// How its data is published.
    pub metadata: CollectorMetadata,
}

impl Default for Collector {
    /// A collector named `unknown` with the default metadata.
    fn default() -> (r: Self)
        ensures
            r.name@ == "unknown"@,
            r.metadata.qos == 0,
            r.metadata.topic@ == Seq::<char>::empty(),
            !r.metadata.retain,
    {
        Collector { name: String::from_str("unknown"), metadata: CollectorMetadata::default() }
    }
}

/// The enabled collectors and the collection timing.
#[derive(Debug, Clone)]
pub struct CollectorsConfig {
    /// Collectors run in each round; at least one.
    pub enabled: Vec<Collector>,
    /// Seconds between refreshes of in-memory data; at least 1.
    pub refresh_interval: u64,
    /// Seconds between collection rounds; at least 1.
    pub collection_interval: u64,
}

/// The collectors enabled by default, in order.
pub open spec fn default_collector_names() -> Seq<Seq<char>> {
    seq!["cpu"@, "load_average"@, "disk"@, "network"@, "processes"@, "uptime"@]
}

/// The names of `cs`, in order.
pub open spec fn collector_names(cs: Seq<Collector>) -> Seq<Seq<char>> {
    cs.map_values(|c: Collector| c.name@)
}

/// The default entry of collector `name`: published with QoS 1 on
/// `metrics/<name>`, not retained.
fn default_collector(name: &str) -> (r: Collector)
    ensures
        r.name@ == name@,
        r.metadata.qos == 1,
        r.metadata.topic@ == "metrics/"@ + name@,
        !r.metadata.retain,
{
    Collector {
        name: String::from_str(name),
        metadata: CollectorMetadata {
            qos: 1,
            topic: String::from_str("metrics/").concat(name),
            retain: false,
        },
    }
}

impl Default for CollectorsConfig {
    /// The collectors `cpu`, `load_average`, `disk`, `network`, `processes` and
    /// `uptime`, each on `metrics/<name>` with QoS 1, not retained; refresh
    /// every 60 s, collect every 5 s.
    fn default() -> (r: Self)
        ensures
            collector_names(r.enabled@) == default_collector_names(),
            forall|i: int|
                0 <= i < r.enabled@.len() ==> {
                    let c = #[trigger] r.enabled@[i];
                    &&& c.metadata.qos == 1
                    &&& c.metadata.topic@ == "metrics/"@ + default_collector_names()[i]
                    &&& !c.metadata.retain
                },
            r.refresh_interval == 60,
            r.collection_interval == 5,
    {
        let mut enabled: Vec<Collector> = Vec::new();
        enabled.push(default_collector("cpu"));
        enabled.push(default_collector("load_average"));
        enabled.push(default_collector("disk"));
        enabled.push(default_collector("network"));
        enabled.push(default_collector("processes"));
        enabled.push(default_collector("uptime"));
        assert(collector_names(enabled@) =~= default_collector_names());
        CollectorsConfig { enabled, refresh_interval: 60, collection_interval: 5 }
    }
}

impl CollectorsConfig {
    /// The names of the enabled collectors, in order.
    pub fn enabled_names(&self) -> (r: Vec<&str>)
        ensures
            r@.map_values(|s: &str| s@) == collector_names(self.enabled@),
    {
        let mut out: Vec<&str> = Vec::new();
        let mut i: usize = 0;
        while i < self.enabled.len()
            invariant
                i <= self.enabled@.len(),
                out@.map_values(|s: &str| s@) == collector_names(self.enabled@).take(i as int),
            decreases self.enabled@.len() - i,
        {
            let ghost prev = out@;
            out.push(self.enabled[i].name.as_str());
            assert(out@.map_values(|s: &str| s@) =~= prev.map_values(|s: &str| s@).push(
                self.enabled@[i as int].name@,
            ));
            assert(collector_names(self.enabled@).take(i + 1) =~= collector_names(self.enabled@).take(
                i as int,
            ).push(self.enabled@[i as int].name@));
            i = i + 1;
        }
        assert(collector_names(self.enabled@).take(i as int) =~= collector_names(self.enabled@));
        out
    }
}

/// The metrics configuration.
#[derive(Debug, Clone)]
pub struct MetricsConfig {
    /// Collectors and their schedule.
    pub collectors: CollectorsConfig,
}

impl Default for MetricsConfig {
    /// The default collectors and schedule.
    fn default() -> (r: Self)
        ensures
            collector_names(r.collectors.enabled@) == default_collector_names(),
            r.collectors.refresh_interval == 60,
            r.collectors.collection_interval == 5,
    {
        MetricsConfig { collectors: CollectorsConfig::default() }
    }
}

} // verus!
