//! The metrics that a Prometheus server scrapes.

use crate::output::OutputError;
use crate::stats::AggregateStats;
use vstd::prelude::*;

verus! {

/// The error of the `prometheus` crate.
#[verifier::external_type_specification]
#[verifier::external_body]
pub struct ExPrometheusError(::prometheus::Error);

/// Metrics of the `prometheus` crate: a registry with the families registered in it.
#[verifier::external_body]
pub struct MetricStore {
    registry: ::prometheus::Registry,
    counters: Vec<::prometheus::IntCounterVec>,
    gauges: Vec<::prometheus::IntGaugeVec>,
    plain_gauges: Vec<::prometheus::IntGauge>,
}

/// A family of metrics: its name, its help text, the name of its label, and the value
/// for each value of the label that was used.
pub type Family<V> = (Seq<char>, Seq<char>, Seq<char>, Map<Seq<char>, V>);

/// The families of counters, in the order in which they were added.
pub uninterp spec fn counters_of(store: MetricStore) -> Seq<Family<u64>>;

/// The families of gauges, in the order in which they were added.
pub uninterp spec fn gauges_of(store: MetricStore) -> Seq<Family<i64>>;

/// The name, help text and value of each gauge without a label, in the order in which
/// they were added.
pub uninterp spec fn plain_gauges_of(store: MetricStore) -> Seq<(Seq<char>, Seq<char>, i64)>;

/// The text in which metrics are exposed to a scraper, or none where they cannot be
/// encoded.
pub uninterp spec fn exposition(
    counters: Seq<Family<u64>>,
    gauges: Seq<Family<i64>>,
    plain_gauges: Seq<(Seq<char>, Seq<char>, i64)>,
) -> Option<Seq<char>>;

/// Whether `label` is one of the label values in use. The crate finds the metric for a
/// value by a 64-bit hash of it, and the hashes of these differ.
pub open spec fn is_label(label: Seq<char>) -> bool {
    ||| label == "tcp"@
    ||| label == "udp"@
    ||| label == "icmp"@
    ||| label == "ipv6"@
    ||| label == "arp"@
    ||| label == "other"@
    ||| label == "total"@
    ||| label == "ring_overflow"@
}

/// The counter for `label`, 0 where it was never used.
pub open spec fn counter_value(family: Family<u64>, label: Seq<char>) -> u64 {
    if family.3.contains_key(label) {
        family.3[label]
    } else {
        0
    }
}

/// `families` with `n` added to the counter for `label` in one of them.
pub open spec fn counted(
    families: Seq<Family<u64>>,
    family: int,
    label: Seq<char>,
    n: u64,
) -> Seq<Family<u64>> {
    let f = families[family];
    let value = counter_value(f, label).wrapping_add(n);
    families.update(family, (f.0, f.1, f.2, f.3.insert(label, value)))
}

/// `families` with the gauge for `label` in one of them at `value`.
pub open spec fn gauged(
    families: Seq<Family<i64>>,
    family: int,
    label: Seq<char>,
    value: i64,
) -> Seq<Family<i64>> {
    let f = families[family];
    families.update(family, (f.0, f.1, f.2, f.3.insert(label, value)))
}

/// `gauges` with one of them at `value`.
pub open spec fn plainly_gauged(
    gauges: Seq<(Seq<char>, Seq<char>, i64)>,
    gauge: int,
    value: i64,
) -> Seq<(Seq<char>, Seq<char>, i64)> {
    gauges.update(gauge, (gauges[gauge].0, gauges[gauge].1, value))
}

/// Whether `name` is the name of one of the metrics. All of them are valid, and the 64-bit
/// hashes by which a registry tells metrics apart differ.
pub open spec fn is_metric_name(name: Seq<char>) -> bool {
    ||| name == "network_packets_total"@
    ||| name == "network_bytes_total"@
    ||| name == "network_active_flows"@
    ||| name == "network_dropped_packets_total"@
    ||| name == "network_pps"@
    ||| name == "network_bps"@
}

/// Whether `name` is the name of one of the metrics, and only others are registered in
/// `store`.
pub open spec fn is_vacant(store: MetricStore, name: Seq<char>) -> bool {
    &&& is_metric_name(name)
    &&& forall|i: int|
        0 <= i < counters_of(store).len() ==> is_metric_name((#[trigger] counters_of(store)[i]).0)
            && counters_of(store)[i].0 != name
    &&& forall|i: int|
        0 <= i < gauges_of(store).len() ==> is_metric_name((#[trigger] gauges_of(store)[i]).0)
            && gauges_of(store)[i].0 != name
    &&& forall|i: int|
        0 <= i < plain_gauges_of(store).len() ==> is_metric_name(
            (#[trigger] plain_gauges_of(store)[i]).0,
        ) && plain_gauges_of(store)[i].0 != name
}

/// Whether `label` is the name of a label.
pub open spec fn is_label_name(label: Seq<char>) -> bool {
    label == "protocol"@ || label == "reason"@
}

/// `families` with the counter for `label` in one of them raised to `total`, where it
/// stands lower.
pub open spec fn raised(
    families: Seq<Family<u64>>,
    family: int,
    label: Seq<char>,
    total: u64,
) -> Seq<Family<u64>> {
    let f = families[family];
    let value = if counter_value(f, label) < total {
        total
    } else {
        counter_value(f, label)
    };
    families.update(family, (f.0, f.1, f.2, f.3.insert(label, value)))
}

impl MetricStore {
    /// `prometheus::Registry::new`: a registry with nothing in it.
    #[verifier::external_body]
    fn new() -> (store: MetricStore)
        ensures
            counters_of(store).len() == 0,
            gauges_of(store).len() == 0,
            plain_gauges_of(store).len() == 0,
    {
        MetricStore {
            registry: ::prometheus::Registry::new(),
            counters: Vec::new(),
            gauges: Vec::new(),
            plain_gauges: Vec::new(),
        }
    }

    /// `prometheus::IntCounterVec::new` with one label, and `prometheus::Registry::register`
    /// of it. It succeeds where the name is one of the metrics' and not registered yet, the
    /// label has one of the labels' names, and there is a help text. A family that is
    /// refused leaves the registry as it was; whether any other is, is not claimed.
    #[verifier::external_body]
    fn add_counters(&mut self, name: &str, help: &str, label: &str) -> (added: Result<
        (),
        ::prometheus::Error,
    >)
        ensures
            is_vacant(*old(self), name@) && help@.len() > 0 && is_label_name(label@) ==> added is Ok,
            counters_of(*final(self)) == if added is Ok {
                counters_of(*old(self)).push((name@, help@, label@, Map::empty()))
            } else {
                counters_of(*old(self))
            },
            gauges_of(*final(self)) == gauges_of(*old(self)),
            plain_gauges_of(*final(self)) == plain_gauges_of(*old(self)),
    {
        let family = ::prometheus::IntCounterVec::new(
            ::prometheus::Opts::new(name, help),
            &[label],
        )?;
        self.registry.register(Box::new(family.clone()))?;
        self.counters.push(family);
        Ok(())
    }

    /// `prometheus::IntGaugeVec::new` with one label, and `prometheus::Registry::register`
    /// of it, with the same proviso.
    #[verifier::external_body]
    fn add_gauges(&mut self, name: &str, help: &str, label: &str) -> (added: Result<
        (),
        ::prometheus::Error,
    >)
        ensures
            is_vacant(*old(self), name@) && help@.len() > 0 && is_label_name(label@) ==> added is Ok,
            gauges_of(*final(self)) == if added is Ok {
                gauges_of(*old(self)).push((name@, help@, label@, Map::empty()))
            } else {
                gauges_of(*old(self))
            },
            counters_of(*final(self)) == counters_of(*old(self)),
            plain_gauges_of(*final(self)) == plain_gauges_of(*old(self)),
    {
        let family = ::prometheus::IntGaugeVec::new(
            ::prometheus::Opts::new(name, help),
            &[label],
        )?;
        self.registry.register(Box::new(family.clone()))?;
        self.gauges.push(family);
        Ok(())
    }

    /// `prometheus::IntGauge::new`, which stands at 0, and `prometheus::Registry::register`
    /// of it, with the same proviso.
    #[verifier::external_body]
    fn add_plain_gauge(&mut self, name: &str, help: &str) -> (added: Result<
        (),
        ::prometheus::Error,
    >)
        ensures
            is_vacant(*old(self), name@) && help@.len() > 0 ==> added is Ok,
            plain_gauges_of(*final(self)) == if added is Ok {
                plain_gauges_of(*old(self)).push((name@, help@, 0i64))
            } else {
                plain_gauges_of(*old(self))
            },
            counters_of(*final(self)) == counters_of(*old(self)),
            gauges_of(*final(self)) == gauges_of(*old(self)),
    {
        let gauge = ::prometheus::IntGauge::new(name, help)?;
        self.registry.register(Box::new(gauge.clone()))?;
        self.plain_gauges.push(gauge);
        Ok(())
    }

    /// `with_label_values` and `inc_by` of a `prometheus::IntCounterVec`: adds `n` to the
    /// counter for `label`, which starts at 0. The sum wraps around at 64 bits. With one
    /// value for the one label it does not unwind.
    #[verifier::external_body]
    fn inc(&mut self, family: usize, label: &str, n: u64)
        requires
            family < counters_of(*old(self)).len(),
            is_label(label@),
        ensures
            counters_of(*final(self)) == counted(
                counters_of(*old(self)),
                family as int,
                label@,
                n,
            ),
            gauges_of(*final(self)) == gauges_of(*old(self)),
            plain_gauges_of(*final(self)) == plain_gauges_of(*old(self)),
        no_unwind
    {
        self.counters[family].with_label_values(&[label]).inc_by(n)
    }

    /// `with_label_values` and `set` of a `prometheus::IntGaugeVec`: sets the gauge for
    /// `label`. With one value for the one label it does not unwind.
    #[verifier::external_body]
    fn set(&mut self, family: usize, label: &str, value: i64)
        requires
            family < gauges_of(*old(self)).len(),
            is_label(label@),
        ensures
            gauges_of(*final(self)) == gauged(
                gauges_of(*old(self)),
                family as int,
                label@,
                value,
            ),
            counters_of(*final(self)) == counters_of(*old(self)),
            plain_gauges_of(*final(self)) == plain_gauges_of(*old(self)),
        no_unwind
    {
        self.gauges[family].with_label_values(&[label]).set(value)
    }

    /// `with_label_values` and `get` of a `prometheus::IntCounterVec`: the counter for `label`,
    /// which from then on is there, at 0 where it was not. With one value for the one label
    /// it does not unwind.
    #[verifier::external_body]
    fn value(&mut self, family: usize, label: &str) -> (value: u64)
        requires
            family < counters_of(*old(self)).len(),
            is_label(label@),
        ensures
            value == counter_value(counters_of(*old(self))[family as int], label@),
            counters_of(*final(self)) == counted(
                counters_of(*old(self)),
                family as int,
                label@,
                0,
            ),
            gauges_of(*final(self)) == gauges_of(*old(self)),
            plain_gauges_of(*final(self)) == plain_gauges_of(*old(self)),
        no_unwind
    {
        self.counters[family].with_label_values(&[label]).get()
    }

    /// Raises the counter for `label` to `total`, where it stands lower.
    fn raise(&mut self, family: usize, label: &str, total: u64)
        requires
            family < counters_of(*old(self)).len(),
            is_label(label@),
        ensures
            counters_of(*final(self)) == raised(
                counters_of(*old(self)),
                family as int,
                label@,
                total,
            ),
            gauges_of(*final(self)) == gauges_of(*old(self)),
            plain_gauges_of(*final(self)) == plain_gauges_of(*old(self)),
        no_unwind
    {
        let value: u64 = self.value(family, label);
        if value < total {
            self.inc(family, label, total - value);
        }
        proof {
            let g = counters_of(*self)[family as int];
            let wanted = raised(counters_of(*old(self)), family as int, label@, total);
            assert(g.3 =~= wanted[family as int].3);
            assert(counters_of(*self) =~= wanted);
        }
    }

    /// `set` of a `prometheus::IntGauge`: sets a gauge without a label. It does not unwind.
    #[verifier::external_body]
    fn set_plain(&mut self, gauge: usize, value: i64)
        requires
            gauge < plain_gauges_of(*old(self)).len(),
        ensures
            plain_gauges_of(*final(self)) == plainly_gauged(
                plain_gauges_of(*old(self)),
                gauge as int,
                value,
            ),
            counters_of(*final(self)) == counters_of(*old(self)),
            gauges_of(*final(self)) == gauges_of(*old(self)),
        no_unwind
    {
        self.plain_gauges[gauge].set(value)
    }

    /// `prometheus::Registry::gather` and `prometheus::TextEncoder::encode_to_string`: the
    /// text of all metrics, which depends on their names and values alone.
    #[verifier::external_body]
    fn render(&self) -> (text: Result<String, ::prometheus::Error>)
        ensures
            match text {
                Ok(text) => exposition(
                    counters_of(*self),
                    gauges_of(*self),
                    plain_gauges_of(*self),
                ) == Some(text@),
                Err(_) => exposition(
                    counters_of(*self),
                    gauges_of(*self),
                    plain_gauges_of(*self),
                ) is None,
            },
    {
        ::prometheus::TextEncoder::new().encode_to_string(&self.registry.gather())
    }
}

/// What the metrics hold.
#[verifier::ext_equal]
pub struct MetricsModel {
    /// Packets by protocol, bytes by protocol, dropped packets by reason
    pub counters: Seq<Family<u64>>,
    /// Packets per second, bytes per second
    pub gauges: Seq<Family<i64>>,
    /// Active flows
    pub plain_gauges: Seq<(Seq<char>, Seq<char>, i64)>,
}

/// The metrics before any statistics: each protocol has counted no packets.
pub open spec fn fresh_metrics() -> MetricsModel {
    MetricsModel {
        counters: seq![
            (
                "network_packets_total"@,
                "Total number of packets received"@,
                "protocol"@,
                Map::<Seq<char>, u64>::empty().insert("tcp"@, 0).insert("udp"@, 0).insert(
                    "icmp"@,
                    0,
                ).insert("ipv6"@, 0).insert("arp"@, 0).insert("other"@, 0),
            ),
            (
                "network_bytes_total"@,
                "Total number of bytes received"@,
                "protocol"@,
                Map::<Seq<char>, u64>::empty(),
            ),
            (
                "network_dropped_packets_total"@,
                "Total number of dropped packets"@,
                "reason"@,
                Map::<Seq<char>, u64>::empty(),
            ),
        ],
        gauges: seq![
            (
                "network_pps"@,
                "Packets per second"@,
                "protocol"@,
                Map::<Seq<char>, i64>::empty(),
            ),
            ("network_bps"@, "Bytes per second"@, "protocol"@, Map::<Seq<char>, i64>::empty()),
        ],
        plain_gauges: seq![("network_active_flows"@, "Current number of active flows"@, 0i64)],
    }
}

/// The figures for the metrics that are computed from fractions.
#[derive(Debug, Clone, Copy, PartialEq, Eq, Structural)]
pub struct MetricFigures {
    /// Bytes in TCP packets
    pub tcp_bytes: u64,
    /// Bytes in UDP packets
    pub udp_bytes: u64,
    /// Bytes in ICMP packets
    pub icmp_bytes: u64,
    /// Packets per second
    pub pps: i64,
    /// Bytes per second
    pub bytes_per_second: i64,
}

/// The counters with that of each protocol raised to the packets of `stats`.
pub open spec fn packets_counted(
    counters: Seq<Family<u64>>,
    stats: AggregateStats,
) -> Seq<Family<u64>> {
    let c = raised(counters, 0, "tcp"@, stats.tcp_packets);
    let c = raised(c, 0, "udp"@, stats.udp_packets);
    let c = raised(c, 0, "icmp"@, stats.icmp_packets);
    let c = raised(c, 0, "ipv6"@, stats.ipv6_packets);
    let c = raised(c, 0, "arp"@, stats.arp_packets);
    raised(c, 0, "other"@, stats.other_packets)
}

/// The counters with that of each protocol raised to the bytes of `figures`.
pub open spec fn bytes_counted(
    counters: Seq<Family<u64>>,
    figures: MetricFigures,
) -> Seq<Family<u64>> {
    let c = raised(counters, 1, "tcp"@, figures.tcp_bytes);
    let c = raised(c, 1, "udp"@, figures.udp_bytes);
    raised(c, 1, "icmp"@, figures.icmp_bytes)
}

/// The metrics after a report of `stats`, whose counts are totals: a counter shows the
/// highest total that was reported, so it never goes down.
pub open spec fn metrics_after(
    metrics: MetricsModel,
    stats: AggregateStats,
    figures: MetricFigures,
) -> MetricsModel {
    let c = bytes_counted(packets_counted(metrics.counters, stats), figures);
    MetricsModel {
        counters: if stats.dropped > 0 {
            raised(c, 2, "ring_overflow"@, stats.dropped)
        } else {
            c
        },
        gauges: gauged(
            gauged(metrics.gauges, 0, "total"@, figures.pps),
            1,
            "total"@,
            figures.bytes_per_second,
        ),
        plain_gauges: metrics.plain_gauges,
    }
}

/// The metrics of the analyzer.
pub struct PrometheusMetrics {
    store: MetricStore,
}

impl View for PrometheusMetrics {
    type V = MetricsModel;

    closed spec fn view(&self) -> MetricsModel {
        MetricsModel {
            counters: counters_of(self.store),
            gauges: gauges_of(self.store),
            plain_gauges: plain_gauges_of(self.store),
        }
    }
}

/// The error for metrics that could not be registered.
fn registration_error() -> (error: OutputError)
    ensures
        error matches OutputError::Http(text) && text@ == "Failed to register metrics"@,
{
    OutputError::Http("Failed to register metrics".to_string())
}

impl PrometheusMetrics {
    #[verifier::type_invariant]
    closed spec fn well_formed(self) -> bool {
        &&& counters_of(self.store).len() == 3
        &&& gauges_of(self.store).len() == 2
        &&& plain_gauges_of(self.store).len() == 1
    }

    /// The metrics before any statistics.
    pub fn new() -> (metrics: Result<PrometheusMetrics, OutputError>)
        ensures
            metrics matches Ok(metrics) && metrics@ == fresh_metrics(),
    {
        proof {
            names_differ();
            help_is_given();
        }
        let mut store = MetricStore::new();
        if store.add_counters(
            "network_packets_total",
            "Total number of packets received",
            "protocol",
        ).is_err() || store.add_counters(
            "network_bytes_total",
            "Total number of bytes received",
            "protocol",
        ).is_err() || store.add_plain_gauge(
            "network_active_flows",
            "Current number of active flows",
        ).is_err() || store.add_counters(
            "network_dropped_packets_total",
            "Total number of dropped packets",
            "reason",
        ).is_err() || store.add_gauges("network_pps", "Packets per second", "protocol").is_err()
            || store.add_gauges("network_bps", "Bytes per second", "protocol").is_err() {
            return Err(registration_error());
        }
        store.inc(0, "tcp", 0);
        store.inc(0, "udp", 0);
        store.inc(0, "icmp", 0);
        store.inc(0, "ipv6", 0);
        store.inc(0, "arp", 0);
        store.inc(0, "other", 0);
        let metrics = PrometheusMetrics { store };
        proof {
            labels_differ();
            assert(metrics@.counters[0].3 =~= fresh_metrics().counters[0].3);
            assert(metrics@.counters =~= fresh_metrics().counters);
            assert(metrics@.gauges =~= fresh_metrics().gauges);
            assert(metrics@.plain_gauges =~= fresh_metrics().plain_gauges);
        }
        Ok(metrics)
    }

    /// Updates the metrics from aggregated statistics.
    pub fn update(&mut self, stats: &AggregateStats, figures: &MetricFigures)
        ensures
            final(self)@ == metrics_after(old(self)@, *stats, *figures),
    {
        proof {
            use_type_invariant(&*self);
        }
        self.store.raise(0, "tcp", stats.tcp_packets);
        self.store.raise(0, "udp", stats.udp_packets);
        self.store.raise(0, "icmp", stats.icmp_packets);
        self.store.raise(0, "ipv6", stats.ipv6_packets);
        self.store.raise(0, "arp", stats.arp_packets);
        self.store.raise(0, "other", stats.other_packets);
        self.store.raise(1, "tcp", figures.tcp_bytes);
        self.store.raise(1, "udp", figures.udp_bytes);
        self.store.raise(1, "icmp", figures.icmp_bytes);
        self.store.set(0, "total", figures.pps);
        self.store.set(1, "total", figures.bytes_per_second);
        if stats.dropped > 0 {
            self.store.raise(2, "ring_overflow", stats.dropped);
        }
    }

    /// Sets the number of active flows.
    pub fn set_active_flows(&mut self, flows: i64)
        ensures
            final(self)@ == (MetricsModel {
                plain_gauges: plainly_gauged(old(self)@.plain_gauges, 0, flows),
                ..old(self)@
            }),
    {
        proof {
            use_type_invariant(&*self);
        }
        self.store.set_plain(0, flows);
    }

    /// The metrics in the Prometheus text format, or nothing where they cannot be
    /// encoded.
    pub fn gather(&self) -> (text: String)
        ensures
            text@ == match exposition(self@.counters, self@.gauges, self@.plain_gauges) {
                Some(text) => text,
                None => Seq::empty(),
            },
    {
        match self.store.render() {
            Ok(text) => text,
            Err(_) => {
                let text = String::new();
                assert(text@ =~= Seq::empty());
                text
            },
        }
    }
}

/// The names of the metrics all differ.
proof fn names_differ()
    ensures
        "network_packets_total"@ != "network_bytes_total"@,
        "network_packets_total"@ != "network_dropped_packets_total"@,
        "network_packets_total"@ != "network_active_flows"@,
        "network_packets_total"@ != "network_pps"@,
        "network_packets_total"@ != "network_bps"@,
        "network_bytes_total"@ != "network_dropped_packets_total"@,
        "network_bytes_total"@ != "network_active_flows"@,
        "network_bytes_total"@ != "network_pps"@,
        "network_bytes_total"@ != "network_bps"@,
        "network_dropped_packets_total"@ != "network_active_flows"@,
        "network_dropped_packets_total"@ != "network_pps"@,
        "network_dropped_packets_total"@ != "network_bps"@,
        "network_active_flows"@ != "network_pps"@,
        "network_active_flows"@ != "network_bps"@,
        "network_pps"@ != "network_bps"@,
{
    reveal_strlit("network_packets_total");
    reveal_strlit("network_bytes_total");
    reveal_strlit("network_active_flows");
    reveal_strlit("network_dropped_packets_total");
    reveal_strlit("network_pps");
    reveal_strlit("network_bps");
    assert("network_packets_total"@.len() == 21);
    assert("network_bytes_total"@.len() == 19);
    assert("network_active_flows"@.len() == 20);
    assert("network_dropped_packets_total"@.len() == 29);
    assert("network_pps"@.len() == 11 && "network_pps"@[8] == 'p');
    assert("network_bps"@.len() == 11 && "network_bps"@[8] == 'b');
}

/// Every metric has a help text.
proof fn help_is_given()
    ensures
        "Total number of packets received"@.len() > 0,
        "Total number of bytes received"@.len() > 0,
        "Current number of active flows"@.len() > 0,
        "Total number of dropped packets"@.len() > 0,
        "Packets per second"@.len() > 0,
        "Bytes per second"@.len() > 0,
{
    reveal_strlit("Total number of packets received");
    reveal_strlit("Total number of bytes received");
    reveal_strlit("Current number of active flows");
    reveal_strlit("Total number of dropped packets");
    reveal_strlit("Packets per second");
    reveal_strlit("Bytes per second");
}

/// The label values in use all differ.
pub(crate) proof fn labels_differ()
    ensures
        "tcp"@ != "udp"@,
        "tcp"@ != "icmp"@,
        "tcp"@ != "ipv6"@,
        "tcp"@ != "arp"@,
        "tcp"@ != "other"@,
        "udp"@ != "icmp"@,
        "udp"@ != "ipv6"@,
        "udp"@ != "arp"@,
        "udp"@ != "other"@,
        "icmp"@ != "ipv6"@,
        "icmp"@ != "arp"@,
        "icmp"@ != "other"@,
        "ipv6"@ != "arp"@,
        "ipv6"@ != "other"@,
        "arp"@ != "other"@,
{
    reveal_strlit("tcp");
    reveal_strlit("udp");
    reveal_strlit("icmp");
    reveal_strlit("ipv6");
    reveal_strlit("arp");
    reveal_strlit("other");
    assert("tcp"@[0] == 't' && "udp"@[0] == 'u' && "arp"@[0] == 'a' && "other"@[0] == 'o');
    assert("icmp"@[1] == 'c' && "ipv6"@[1] == 'p');
    assert("icmp"@[0] == 'i' && "ipv6"@[0] == 'i');
}

impl Default for PrometheusMetrics {
    fn default() -> (metrics: PrometheusMetrics)
        ensures
            metrics@ == fresh_metrics(),
    {
        PrometheusMetrics::new().unwrap()
    }
}

/// The larger of two numbers.
pub open spec fn larger(a: u64, b: u64) -> u64 {
    if a < b {
        b
    } else {
        a
    }
}

/// After a report, the counter of each protocol shows the packets that the report gives for
/// it, or more where more were reported before; so reporting the same again changes
/// nothing.
pub proof fn counters_show_totals(
    metrics: MetricsModel,
    stats: AggregateStats,
    figures: MetricFigures,
)
    requires
        metrics.counters.len() == 3,
    ensures
        ({
            let before = metrics.counters[0];
            let after = metrics_after(metrics, stats, figures).counters[0];
            &&& counter_value(after, "tcp"@) == larger(
                counter_value(before, "tcp"@),
                stats.tcp_packets,
            )
            &&& counter_value(after, "udp"@) == larger(
                counter_value(before, "udp"@),
                stats.udp_packets,
            )
            &&& counter_value(after, "icmp"@) == larger(
                counter_value(before, "icmp"@),
                stats.icmp_packets,
            )
            &&& counter_value(after, "ipv6"@) == larger(
                counter_value(before, "ipv6"@),
                stats.ipv6_packets,
            )
            &&& counter_value(after, "arp"@) == larger(
                counter_value(before, "arp"@),
                stats.arp_packets,
            )
            &&& counter_value(after, "other"@) == larger(
                counter_value(before, "other"@),
                stats.other_packets,
            )
        }),
{
    labels_differ();
}

} // verus!
