//! What the metrics show of the statistics: every total under its own name and label.

use crate::output::prometheus::{labels_differ, MetricFigures, PrometheusMetrics};
use crate::output::OutputError;
use crate::stats::AggregateStats;
use vstd::prelude::*;

verus! {

/// The metrics of an analyzer that just started: the six by name, each protocol with no
/// packets, and nothing else.
pub proof fn new_metrics_show_nothing(metrics: Result<PrometheusMetrics, OutputError>)
    requires
        call_ensures(PrometheusMetrics::new, (), metrics),
    ensures
        metrics matches Ok(metrics) && {
            &&& metrics@.counters.len() == 3
            &&& metrics@.counters[0].0 == "network_packets_total"@
            &&& metrics@.counters[0].2 == "protocol"@
            &&& metrics@.counters[1].0 == "network_bytes_total"@
            &&& metrics@.counters[1].2 == "protocol"@
            &&& metrics@.counters[2].0 == "network_dropped_packets_total"@
            &&& metrics@.counters[2].2 == "reason"@
            &&& metrics@.gauges.len() == 2
            &&& metrics@.gauges[0].0 == "network_pps"@
            &&& metrics@.gauges[1].0 == "network_bps"@
            &&& metrics@.plain_gauges.len() == 1
            &&& metrics@.plain_gauges[0].0 == "network_active_flows"@
            &&& metrics@.plain_gauges[0].2 == 0
            &&& metrics@.counters[0].3.dom() =~= set![
                "tcp"@,
                "udp"@,
                "icmp"@,
                "ipv6"@,
                "arp"@,
                "other"@,
            ]
            &&& forall|label: Seq<char>|
                metrics@.counters[0].3.contains_key(label) ==> #[trigger] metrics@.counters[0].3[label]
                    == 0
            &&& metrics@.counters[1].3.dom() =~= Set::empty()
            &&& metrics@.counters[2].3.dom() =~= Set::empty()
        },
{
}

/// The first report after the start shows each count under its own label: the packets and
/// the bytes of each protocol, the dropped packets where there are any, and the rates.
pub proof fn first_reports_show_the_counts(
    made: Result<PrometheusMetrics, OutputError>,
    metrics: &mut PrometheusMetrics,
    stats: AggregateStats,
    figures: MetricFigures,
)
    requires
        call_ensures(PrometheusMetrics::new, (), made),
        made matches Ok(made) && *old(metrics) == made,
        call_ensures(PrometheusMetrics::update, (metrics, &stats, &figures), ()),
    ensures
        ({
            let packets = final(metrics)@.counters[0];
            let bytes = final(metrics)@.counters[1];
            let dropped = final(metrics)@.counters[2];
            let pps = final(metrics)@.gauges[0];
            let bps = final(metrics)@.gauges[1];
            &&& packets.0 == "network_packets_total"@
            &&& packets.3["tcp"@] == stats.tcp_packets
            &&& packets.3["udp"@] == stats.udp_packets
            &&& packets.3["icmp"@] == stats.icmp_packets
            &&& packets.3["ipv6"@] == stats.ipv6_packets
            &&& packets.3["arp"@] == stats.arp_packets
            &&& packets.3["other"@] == stats.other_packets
            &&& bytes.0 == "network_bytes_total"@
            &&& bytes.3["tcp"@] == figures.tcp_bytes
            &&& bytes.3["udp"@] == figures.udp_bytes
            &&& bytes.3["icmp"@] == figures.icmp_bytes
            &&& dropped.0 == "network_dropped_packets_total"@
            &&& dropped.3.contains_key("ring_overflow"@) <==> stats.dropped > 0
            &&& stats.dropped > 0 ==> dropped.3["ring_overflow"@] == stats.dropped
            &&& pps.0 == "network_pps"@
            &&& pps.3["total"@] == figures.pps
            &&& bps.0 == "network_bps"@
            &&& bps.3["total"@] == figures.bytes_per_second
            &&& final(metrics)@.plain_gauges == old(metrics)@.plain_gauges
        }),
{
    labels_differ();
}

/// Later reports raise what has grown to the new totals, and lower nothing; the rates are
/// those of the last report.
pub proof fn later_reports_raise_the_counts(
    metrics: &mut PrometheusMetrics,
    stats: AggregateStats,
    figures: MetricFigures,
)
    requires
        call_ensures(PrometheusMetrics::update, (metrics, &stats, &figures), ()),
        old(metrics)@.counters.len() == 3,
        old(metrics)@.gauges.len() == 2,
        old(metrics)@.counters[0].3.contains_key("tcp"@),
        old(metrics)@.counters[0].3.contains_key("udp"@),
        old(metrics)@.counters[0].3.contains_key("icmp"@),
        old(metrics)@.counters[0].3.contains_key("ipv6"@),
        old(metrics)@.counters[0].3.contains_key("arp"@),
        old(metrics)@.counters[0].3.contains_key("other"@),
    ensures
        ({
            let before = old(metrics)@.counters[0].3;
            let after = final(metrics)@.counters[0].3;
            &&& after["tcp"@] == stats.tcp_packets || (after["tcp"@] == before["tcp"@]
                && before["tcp"@] > stats.tcp_packets)
            &&& after["udp"@] == stats.udp_packets || (after["udp"@] == before["udp"@]
                && before["udp"@] > stats.udp_packets)
            &&& after["icmp"@] == stats.icmp_packets || (after["icmp"@] == before["icmp"@]
                && before["icmp"@] > stats.icmp_packets)
            &&& after["ipv6"@] == stats.ipv6_packets || (after["ipv6"@] == before["ipv6"@]
                && before["ipv6"@] > stats.ipv6_packets)
            &&& after["arp"@] == stats.arp_packets || (after["arp"@] == before["arp"@]
                && before["arp"@] > stats.arp_packets)
            &&& after["other"@] == stats.other_packets || (after["other"@] == before["other"@]
                && before["other"@] > stats.other_packets)
            &&& final(metrics)@.gauges[0].3["total"@] == figures.pps
            &&& final(metrics)@.gauges[1].3["total"@] == figures.bytes_per_second
            &&& final(metrics)@.counters[0].0 == old(metrics)@.counters[0].0
            &&& final(metrics)@.counters[1].0 == old(metrics)@.counters[1].0
            &&& final(metrics)@.counters[2].0 == old(metrics)@.counters[2].0
        }),
{
    labels_differ();
}

/// The number of active flows is shown as it was set, and nothing else changes.
pub proof fn active_flows_are_shown(metrics: &mut PrometheusMetrics, flows: i64)
    requires
        call_ensures(PrometheusMetrics::set_active_flows, (metrics, flows), ()),
        old(metrics)@.plain_gauges.len() == 1,
    ensures
        final(metrics)@.plain_gauges.len() == 1,
        final(metrics)@.plain_gauges[0].2 == flows,
        final(metrics)@.plain_gauges[0].0 == old(metrics)@.plain_gauges[0].0,
        final(metrics)@.counters == old(metrics)@.counters,
        final(metrics)@.gauges == old(metrics)@.gauges,
{
}

/// What is gathered depends on what the metrics show, and on nothing else.
pub proof fn equal_metrics_are_gathered_alike(
    metrics: PrometheusMetrics,
    other: PrometheusMetrics,
    text: String,
    other_text: String,
)
    requires
        metrics@ == other@,
        call_ensures(PrometheusMetrics::gather, (&metrics,), text),
        call_ensures(PrometheusMetrics::gather, (&other,), other_text),
    ensures
        text@ == other_text@,
{
}

} // verus!
