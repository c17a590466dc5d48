//! What holds of the statistics over the packets: what each one changes in the totals, the
//! protocol counts and the flows, and what a report repeats of them.

use crate::flow::table::FlowTable;
use crate::flow::{FlowState, FlowTableStats};
use crate::parser::{FlowKey, IpHeader, ParsedPacket, Protocol, TcpHeader};
use crate::stats::{
    aggregate_of, packet_counts_once_in_total, sum_of, tcp_flag_bits, total_after_update,
    total_of, zero_stats, AggregateStats, CpuStats, CpuStatsSnapshot, StatsCollector,
    StatsReport,
};
use vstd::prelude::*;

verus! {

/// Whether no counter of `stats` is near its end, with room for `bytes` more bytes.
pub open spec fn has_room(stats: AggregateStats, bytes: int) -> bool {
    &&& stats.total_packets < u64::MAX
    &&& stats.total_bytes + bytes <= u64::MAX
    &&& stats.tcp_packets < u64::MAX
    &&& stats.udp_packets < u64::MAX
    &&& stats.icmp_packets < u64::MAX
    &&& stats.ipv6_packets < u64::MAX
    &&& stats.arp_packets < u64::MAX
    &&& stats.other_packets < u64::MAX
    &&& stats.dropped < u64::MAX
    &&& stats.parse_errors < u64::MAX
}

/// 1 where `counted`, else 0.
pub open spec fn count(counted: bool) -> int {
    if counted {
        1
    } else {
        0
    }
}

/// A packet that is recorded between two aggregations adds one to the packets, its length
/// to the bytes, one to the count of its own protocol and to no other protocol's, and one to
/// the IPv6 packets where it has an IPv6 header. The second aggregation finds one packet
/// since the first.
pub proof fn recorded_packets_are_aggregated(
    first: &mut StatsCollector,
    collector: &mut StatsCollector,
    second: &mut StatsCollector,
    packet: ParsedPacket<'_>,
    packet_len: usize,
    now_ns: u64,
    before_ns: u64,
    after_ns: u64,
    before: AggregateStats,
    after: AggregateStats,
)
    requires
        call_ensures(StatsCollector::aggregate_at, (first, before_ns), before),
        *final(first) == *old(collector),
        call_ensures(StatsCollector::record_packet_at, (collector, &packet, packet_len, now_ns), ()),
        *final(collector) == *old(second),
        call_ensures(StatsCollector::aggregate_at, (second, after_ns), after),
        old(collector)@.cpus.len() >= 1,
        has_room(before, packet_len + 0),
    ensures
        after.total_packets == before.total_packets + 1,
        after.total_bytes == before.total_bytes + packet_len,
        after.tcp_packets == before.tcp_packets + count(packet.protocol == Protocol::Tcp),
        after.udp_packets == before.udp_packets + count(packet.protocol == Protocol::Udp),
        after.icmp_packets == before.icmp_packets + count(
            packet.protocol == Protocol::Icmp || packet.protocol == Protocol::Icmpv6,
        ),
        after.arp_packets == before.arp_packets + count(packet.protocol == Protocol::Arp),
        after.other_packets == before.other_packets + count(
            packet.protocol != Protocol::Tcp && packet.protocol != Protocol::Udp && packet.protocol
                != Protocol::Icmp && packet.protocol != Protocol::Icmpv6 && packet.protocol
                != Protocol::Arp,
        ),
        after.ipv6_packets == before.ipv6_packets + count(
            packet.ip matches Some(IpHeader::V6(_)),
        ),
        after.dropped == before.dropped,
        after.parse_errors == before.parse_errors,
        after.interval_packets == 1,
        before.elapsed_ns == before_ns,
        after.elapsed_ns == after_ns,
{
    packet_counts_once_in_total(old(collector)@, packet@, packet_len, now_ns);
    let middle = old(collector)@;
    assert(middle.prev_total_packets == before.total_packets);
    assert(old(second)@.prev_total_packets == before.total_packets);
    assert(before.total_packets + 1 - before.total_packets == 1);
}

/// A dropped packet, or one that cannot be parsed, adds one to the count of those and
/// changes nothing else.
pub proof fn dropped_packets_are_aggregated(
    first: &mut StatsCollector,
    collector: &mut StatsCollector,
    second: &mut StatsCollector,
    before_ns: u64,
    after_ns: u64,
    before: AggregateStats,
    after: AggregateStats,
    dropped: bool,
)
    requires
        call_ensures(StatsCollector::aggregate_at, (first, before_ns), before),
        *final(first) == *old(collector),
        dropped ==> call_ensures(StatsCollector::record_drop, (collector,), ()),
        !dropped ==> call_ensures(StatsCollector::record_parse_error, (collector,), ()),
        *final(collector) == *old(second),
        call_ensures(StatsCollector::aggregate_at, (second, after_ns), after),
        old(collector)@.cpus.len() >= 1,
        has_room(before, 0),
    ensures
        after.dropped == before.dropped + count(dropped),
        after.parse_errors == before.parse_errors + count(!dropped),
        after.total_packets == before.total_packets,
        after.total_bytes == before.total_bytes,
        after.tcp_packets == before.tcp_packets,
        after.udp_packets == before.udp_packets,
        after.icmp_packets == before.icmp_packets,
        after.ipv6_packets == before.ipv6_packets,
        after.arp_packets == before.arp_packets,
        after.other_packets == before.other_packets,
        after.interval_packets == 0,
        final(collector)@.table == old(collector)@.table,
{
    total_after_update(old(collector)@.cpus, final(collector)@.cpus[0]);
    assert(old(collector)@.cpus.update(0, final(collector)@.cpus[0]) =~= final(collector)@.cpus);
}

/// Aggregating loses nothing: right after an aggregation, another one finds the same
/// totals and counts, and no packets in between.
pub proof fn aggregations_repeat_the_totals(
    first: &mut StatsCollector,
    second: &mut StatsCollector,
    before_ns: u64,
    after_ns: u64,
    before: AggregateStats,
    after: AggregateStats,
)
    requires
        call_ensures(StatsCollector::aggregate_at, (first, before_ns), before),
        *final(first) == *old(second),
        call_ensures(StatsCollector::aggregate_at, (second, after_ns), after),
    ensures
        after == (AggregateStats { interval_packets: 0, elapsed_ns: after_ns, ..before }),
        final(first)@.table == old(first)@.table,
        final(first)@.cpus == old(first)@.cpus,
{
}

proof fn nothing_adds_up_to_nothing(cpus: Seq<CpuStats>)
    requires
        forall|i: int| 0 <= i < cpus.len() ==> #[trigger] cpus[i] == zero_stats(),
    ensures
        ({
            let total = total_of(cpus);
            &&& total.packets == 0 && total.bytes == 0
            &&& total.tcp_packets == 0 && total.udp_packets == 0 && total.icmp_packets == 0
            &&& total.ipv6_packets == 0 && total.arp_packets == 0 && total.other_packets == 0
            &&& total.dropped == 0 && total.parse_errors == 0
        }),
    decreases cpus.len(),
{
    if cpus.len() > 0 {
        assert forall|i: int| 0 <= i < cpus.len() - 1 implies #[trigger] cpus.drop_last()[i]
            == zero_stats() by {
            assert(cpus.drop_last()[i] == cpus[i]);
        }
        nothing_adds_up_to_nothing(cpus.drop_last());
    }
}

/// A collector that has recorded nothing, whether new or reset, aggregates to zeros.
pub proof fn empty_collectors_aggregate_to_zeros(
    cpus: usize,
    capacity: usize,
    made: StatsCollector,
    reset: &mut StatsCollector,
    collector: &mut StatsCollector,
    after_ns: u64,
    after: AggregateStats,
    flows: FlowTableStats,
)
    requires
        call_ensures(StatsCollector::with_cpus, (cpus, capacity), made),
        call_ensures(StatsCollector::reset, (reset,), ()),
        *old(collector) == made || *old(collector) == *final(reset),
        call_ensures(StatsCollector::flow_stats, (&*old(collector),), flows),
        call_ensures(StatsCollector::aggregate_at, (collector, after_ns), after),
    ensures
        after.total_packets == 0,
        after.total_bytes == 0,
        after.tcp_packets == 0,
        after.udp_packets == 0,
        after.icmp_packets == 0,
        after.ipv6_packets == 0,
        after.arp_packets == 0,
        after.other_packets == 0,
        after.dropped == 0,
        after.parse_errors == 0,
        after.transport_total == 0,
        after.interval_packets == 0,
        flows.total_flows == 0,
        flows.total_packets == 0,
        flows.total_bytes == 0,
        flows.expired_flows == 0,
        flows.collisions == 0,
        made@.cpus.len() == cpus,
        made@.table.capacity == capacity,
        final(reset)@.cpus.len() == old(reset)@.cpus.len(),
        final(reset)@.table.capacity == old(reset)@.table.capacity,
{
    nothing_adds_up_to_nothing(old(collector)@.cpus);
}

/// The counters of one more CPU are added to the totals, each to its own.
pub proof fn every_cpu_is_added(
    cpus: Seq<CpuStats>,
    more: CpuStats,
    prev_packets: u64,
    elapsed_ns: u64,
)
    requires
        ({
            let before = aggregate_of(total_of(cpus), prev_packets, elapsed_ns);
            &&& before.total_packets + more.packets <= u64::MAX
            &&& before.total_bytes + more.bytes <= u64::MAX
            &&& before.tcp_packets + more.tcp_packets <= u64::MAX
            &&& before.udp_packets + more.udp_packets <= u64::MAX
            &&& before.icmp_packets + more.icmp_packets <= u64::MAX
            &&& before.ipv6_packets + more.ipv6_packets <= u64::MAX
            &&& before.arp_packets + more.arp_packets <= u64::MAX
            &&& before.other_packets + more.other_packets <= u64::MAX
            &&& before.dropped + more.dropped <= u64::MAX
            &&& before.parse_errors + more.parse_errors <= u64::MAX
        }),
    ensures
        ({
            let before = aggregate_of(total_of(cpus), prev_packets, elapsed_ns);
            let after = aggregate_of(total_of(cpus.push(more)), prev_packets, elapsed_ns);
            &&& after.total_packets == before.total_packets + more.packets
            &&& after.total_bytes == before.total_bytes + more.bytes
            &&& after.tcp_packets == before.tcp_packets + more.tcp_packets
            &&& after.udp_packets == before.udp_packets + more.udp_packets
            &&& after.icmp_packets == before.icmp_packets + more.icmp_packets
            &&& after.ipv6_packets == before.ipv6_packets + more.ipv6_packets
            &&& after.arp_packets == before.arp_packets + more.arp_packets
            &&& after.other_packets == before.other_packets + more.other_packets
            &&& after.dropped == before.dropped + more.dropped
            &&& after.parse_errors == before.parse_errors + more.parse_errors
        }),
{
    assert(cpus.push(more).drop_last() =~= cpus);
}

/// What an aggregate derives from its counts: the shares are taken of the TCP, UDP, ICMP
/// and other packets, and the mean length is the whole number of bytes for each packet, a
/// total of 0 taken as 1.
pub proof fn aggregates_agree_with_themselves(
    collector: &mut StatsCollector,
    elapsed_ns: u64,
    stats: AggregateStats,
)
    requires
        call_ensures(StatsCollector::aggregate_at, (collector, elapsed_ns), stats),
    ensures
        stats.tcp_packets + stats.udp_packets + stats.icmp_packets + stats.other_packets <= u64::MAX
            ==> stats.transport_total == stats.tcp_packets + stats.udp_packets + stats.icmp_packets
            + stats.other_packets,
        ({
            let bytes = if stats.total_bytes == 0 {
                1
            } else {
                stats.total_bytes + 0
            };
            let packets = if stats.total_packets == 0 {
                1
            } else {
                stats.total_packets + 0
            };
            0 <= bytes - packets * stats.mean_packet_len < packets
        }),
        stats.elapsed_ns == elapsed_ns,
        final(collector)@.prev_total_packets == stats.total_packets,
        final(collector)@.prev_total_bytes == stats.total_bytes,
        old(collector)@.prev_total_packets <= stats.total_packets ==> stats.interval_packets
            == stats.total_packets - old(collector)@.prev_total_packets,
{
    let bytes = if stats.total_bytes == 0 {
        1
    } else {
        stats.total_bytes + 0
    };
    let packets = if stats.total_packets == 0 {
        1
    } else {
        stats.total_packets + 0
    };
    vstd::arithmetic::div_mod::lemma_fundamental_div_mod(bytes, packets);
    vstd::arithmetic::div_mod::lemma_mod_bound(bytes, packets);
}

/// A packet with a flow is counted in that flow, with its length, its TCP flags, and the
/// sequence and acknowledgment numbers of its TCP header; one without leaves the flows.
pub proof fn recorded_packets_reach_their_flow(
    collector: &mut StatsCollector,
    packet: ParsedPacket<'_>,
    packet_len: usize,
    now_ns: u64,
    table: FlowTable,
    table_after: FlowTable,
    key: FlowKey,
    before: Option<FlowState>,
    after: Option<FlowState>,
    flags: u8,
)
    requires
        call_ensures(StatsCollector::flow_table, (&*old(collector),), &table),
        call_ensures(FlowTable::get, (&table, &key), before),
        call_ensures(StatsCollector::record_packet_at, (collector, &packet, packet_len, now_ns), ()),
        call_ensures(StatsCollector::flow_table, (&*final(collector),), &table_after),
        call_ensures(FlowTable::get, (&table_after, &key), after),
        packet.tcp matches Some(tcp) ==> call_ensures(tcp_flag_bits, (&tcp,), flags),
        packet.tcp is None ==> flags == 0,
    ensures
        packet.flow_key != Some(key) ==> after == before,
        packet.flow_key == Some(key) ==> match (before, after) {
            (Some(b), Some(a)) => {
                &&& b.packet_count < u64::MAX ==> a.packet_count == b.packet_count + 1
                &&& b.byte_count + packet_len <= u64::MAX ==> a.byte_count == b.byte_count
                    + packet_len
                &&& a.first_seen_ns == b.first_seen_ns
                &&& a.last_seen_ns == now_ns
                &&& a.tcp_flags == b.tcp_flags | flags
                &&& match packet.tcp {
                    Some(tcp) => a.last_ack == Some(tcp.ack) && (b.initial_seq is None
                        ==> a.initial_seq == Some(tcp.seq)),
                    None => a.last_ack is None && a.initial_seq == b.initial_seq,
                }
            },
            (None, Some(a)) => {
                &&& a.packet_count == 1
                &&& a.byte_count == packet_len
                &&& a.first_seen_ns == now_ns
                &&& a.last_seen_ns == now_ns
                &&& a.tcp_flags == flags
                &&& match packet.tcp {
                    Some(tcp) => a.last_ack == Some(tcp.ack) && a.initial_seq == Some(tcp.seq),
                    None => a.last_ack is None && a.initial_seq is None,
                }
            },
            (None, None) => table@.flows.len() >= table@.capacity,
            (Some(_), None) => false,
        },
{
    assert(0u8 | flags == flags) by (bit_vector);
}

/// Each flag of a TCP header has its bit in the bitmask: FIN 1, SYN 2, RST 4, PSH 8,
/// ACK 16, URG 32; no other bit is set.
pub proof fn flags_have_their_bits(tcp: TcpHeader<'_>, flags: u8)
    requires
        call_ensures(tcp_flag_bits, (&tcp,), flags),
    ensures
        flags < 64,
        tcp.fin <==> flags % 2 == 1,
        tcp.syn <==> (flags / 2) % 2 == 1,
        tcp.rst <==> (flags / 4) % 2 == 1,
        tcp.psh <==> (flags / 8) % 2 == 1,
        tcp.ack_flag <==> (flags / 16) % 2 == 1,
        tcp.urg <==> (flags / 32) % 2 == 1,
{
}

/// A report repeats what the collector would answer one by one: the aggregate, the counters
/// of the flow table, and the ten flows with the most bytes; and it changes what an
/// aggregation changes.
pub proof fn reports_repeat_the_answers(
    collector: &mut StatsCollector,
    other: &mut StatsCollector,
    elapsed_ns: u64,
    report: StatsReport,
    stats: AggregateStats,
    flows: FlowTableStats,
    key: FlowKey,
)
    requires
        *old(collector) == *old(other),
        call_ensures(StatsCollector::flow_stats, (&*old(collector),), flows),
        call_ensures(StatsCollector::generate_report_at, (collector, elapsed_ns), report),
        call_ensures(StatsCollector::aggregate_at, (other, elapsed_ns), stats),
    ensures
        report.aggregate == stats,
        report.flow_stats == flows,
        report.uptime_ns == elapsed_ns,
        report.top_flows@.len() <= 10,
        report.top_flows@.len() == old(collector)@.table.flows.len() || report.top_flows@.len() == 10,
        forall|i: int, j: int|
            0 <= i < j < report.top_flows@.len() ==> (
            #[trigger] report.top_flows@[i]).1.byte_count >= (
            #[trigger] report.top_flows@[j]).1.byte_count,
        forall|i: int|
            0 <= i < report.top_flows@.len() ==> old(collector)@.table.flows.contains_key(
                (#[trigger] report.top_flows@[i]).0,
            ) && old(collector)@.table.flows[report.top_flows@[i].0] == report.top_flows@[i].1,
        old(collector)@.table.flows.contains_key(key) ==> (exists|i: int|
            0 <= i < report.top_flows@.len() && (#[trigger] report.top_flows@[i]).0 == key) || (
        forall|i: int|
            0 <= i < report.top_flows@.len() ==> (#[trigger] report.top_flows@[i]).1.byte_count
                >= old(collector)@.table.flows[key].byte_count),
        final(collector)@ == final(other)@,
{
    let top = report.top_flows@;
    assert(forall|i: int, j: int|
        0 <= i < j < top.len() ==> (#[trigger] top[i]).1.byte_count >= (
        #[trigger] top[j]).1.byte_count);
    let flows = old(collector)@.table.flows;
    if flows.contains_key(key) && exists|i: int|
        0 <= i < top.len() && (#[trigger] top[i]).1.byte_count < flows[key].byte_count {
        let i = choose|i: int|
            0 <= i < top.len() && (#[trigger] top[i]).1.byte_count < flows[key].byte_count;
        let j = choose|j: int| 0 <= j < i && #[trigger] top[j].0 == key;
        assert(top[j].0 == key);
    }
}

/// The flows of a collector with the most bytes are those of its flow table.
pub proof fn top_flows_are_those_of_the_table(
    collector: StatsCollector,
    n: usize,
    top: Vec<(FlowKey, FlowState)>,
    flows: FlowTableStats,
)
    requires
        call_ensures(StatsCollector::top_flows_by_bytes, (&collector, n), top),
        call_ensures(StatsCollector::flow_stats, (&collector,), flows),
    ensures
        forall|i: int, j: int|
            0 <= i < j < top@.len() ==> (#[trigger] top@[i]).1.byte_count >= (
            #[trigger] top@[j]).1.byte_count,
        top@.len() <= n,
        forall|i: int|
            0 <= i < top@.len() ==> collector@.table.flows.contains_key((#[trigger] top@[i]).0)
                && collector@.table.flows[top@[i].0] == top@[i].1,
        flows.total_packets == collector@.table.total_packets,
        flows.total_bytes == collector@.table.total_bytes,
{
}

/// The counters of one CPU count a packet as the totals do.
pub proof fn cpu_counters_count_packets(
    stats: &mut CpuStats,
    packet_len: usize,
    protocol: Protocol,
    is_ipv6: bool,
)
    requires
        call_ensures(CpuStats::record_packet, (stats, packet_len, protocol, is_ipv6), ()),
        old(stats).packets < u64::MAX,
        old(stats).bytes + packet_len <= u64::MAX,
        old(stats).tcp_packets < u64::MAX && old(stats).udp_packets < u64::MAX,
        old(stats).icmp_packets < u64::MAX && old(stats).arp_packets < u64::MAX,
        old(stats).other_packets < u64::MAX && old(stats).ipv6_packets < u64::MAX,
    ensures
        final(stats).packets == old(stats).packets + 1,
        final(stats).bytes == old(stats).bytes + packet_len,
        final(stats).tcp_packets == old(stats).tcp_packets + count(protocol == Protocol::Tcp),
        final(stats).udp_packets == old(stats).udp_packets + count(protocol == Protocol::Udp),
        final(stats).icmp_packets == old(stats).icmp_packets + count(
            protocol == Protocol::Icmp || protocol == Protocol::Icmpv6,
        ),
        final(stats).arp_packets == old(stats).arp_packets + count(protocol == Protocol::Arp),
        final(stats).ipv6_packets == old(stats).ipv6_packets + count(is_ipv6),
        final(stats).other_packets == old(stats).other_packets + count(
            protocol != Protocol::Tcp && protocol != Protocol::Udp && protocol != Protocol::Icmp
                && protocol != Protocol::Icmpv6 && protocol != Protocol::Arp,
        ),
        final(stats).dropped == old(stats).dropped,
        final(stats).parse_errors == old(stats).parse_errors,
{
}

/// A snapshot repeats the counters, and adding snapshots adds each counter to its own.
pub proof fn snapshots_repeat_the_counters(
    stats: CpuStats,
    snapshot: CpuStatsSnapshot,
    left: CpuStatsSnapshot,
    right: CpuStatsSnapshot,
)
    requires
        call_ensures(CpuStats::snapshot, (&stats,), snapshot),
    ensures
        snapshot.packets == stats.packets && snapshot.bytes == stats.bytes,
        snapshot.tcp_packets == stats.tcp_packets && snapshot.udp_packets == stats.udp_packets,
        snapshot.icmp_packets == stats.icmp_packets && snapshot.ipv6_packets == stats.ipv6_packets,
        snapshot.arp_packets == stats.arp_packets && snapshot.other_packets == stats.other_packets,
        snapshot.dropped == stats.dropped && snapshot.parse_errors == stats.parse_errors,
        left.tcp_packets + right.tcp_packets <= u64::MAX ==> sum_of(left, right).tcp_packets
            == left.tcp_packets + right.tcp_packets,
        left.udp_packets + right.udp_packets <= u64::MAX ==> sum_of(left, right).udp_packets
            == left.udp_packets + right.udp_packets,
        left.icmp_packets + right.icmp_packets <= u64::MAX ==> sum_of(left, right).icmp_packets
            == left.icmp_packets + right.icmp_packets,
        left.packets + right.packets <= u64::MAX ==> sum_of(left, right).packets == left.packets
            + right.packets,
        left.bytes + right.bytes <= u64::MAX ==> sum_of(left, right).bytes == left.bytes
            + right.bytes,
{
}

/// A packet that arrives now is counted as one that arrives at a given time is.
pub proof fn packets_that_arrive_now_are_recorded(
    collector: &mut StatsCollector,
    other: &mut StatsCollector,
    packet: ParsedPacket<'_>,
    packet_len: usize,
    now_ns: u64,
    key: FlowKey,
)
    requires
        old(collector)@ == old(other)@,
        call_ensures(StatsCollector::record_packet, (collector, &packet, packet_len), ()),
        call_ensures(StatsCollector::record_packet_at, (other, &packet, packet_len, now_ns), ()),
    ensures
        final(collector)@.cpus == final(other)@.cpus,
        final(collector)@.table.flows.contains_key(key) == final(other)@.table.flows.contains_key(
            key,
        ),
        final(collector)@.table.flows.contains_key(key) ==> final(collector)@.table.flows[key].packet_count
            == final(other)@.table.flows[key].packet_count && final(collector)@.table.flows[key].byte_count
            == final(other)@.table.flows[key].byte_count && final(collector)@.table.flows[key].tcp_flags
            == final(other)@.table.flows[key].tcp_flags,
        final(collector)@.table.total_packets == final(other)@.table.total_packets,
        final(collector)@.table.total_bytes == final(other)@.table.total_bytes,
        final(collector)@.table.collisions == final(other)@.table.collisions,
{
}

/// A packet is counted on the current CPU, and on no other.
pub proof fn packets_are_counted_on_the_current_cpu(
    collector: &mut StatsCollector,
    packet: ParsedPacket<'_>,
    packet_len: usize,
    now_ns: u64,
    before: CpuStats,
    after: CpuStats,
    i: int,
)
    requires
        call_ensures(StatsCollector::current_cpu_stats, (&*old(collector),), &before),
        call_ensures(StatsCollector::record_packet_at, (collector, &packet, packet_len, now_ns), ()),
        call_ensures(StatsCollector::current_cpu_stats, (&*final(collector),), &after),
        before.packets < u64::MAX,
        before.bytes + packet_len <= u64::MAX,
    ensures
        after.packets == before.packets + 1,
        after.bytes == before.bytes + packet_len,
        final(collector)@.cpus.len() == old(collector)@.cpus.len(),
        0 < i < old(collector)@.cpus.len() ==> final(collector)@.cpus[i] == old(collector)@.cpus[i],
{
}

/// A report or an aggregation that is made now is the one of the moment it is made at.
pub proof fn reports_are_of_their_moment(
    now: &mut StatsCollector,
    at: &mut StatsCollector,
    report: StatsReport,
    report_at: StatsReport,
    counted: &mut StatsCollector,
    counted_at: &mut StatsCollector,
    stats: AggregateStats,
    stats_at: AggregateStats,
)
    requires
        old(now)@ == old(at)@,
        call_ensures(StatsCollector::generate_report, (now,), report),
        call_ensures(StatsCollector::generate_report_at, (at, report.uptime_ns), report_at),
        old(counted)@ == old(counted_at)@,
        call_ensures(StatsCollector::aggregate, (counted,), stats),
        call_ensures(StatsCollector::aggregate_at, (counted_at, stats.elapsed_ns), stats_at),
    ensures
        report.aggregate == report_at.aggregate,
        report.flow_stats == report_at.flow_stats,
        final(now)@ == final(at)@,
        stats == stats_at,
        final(counted)@ == final(counted_at)@,
{
}

/// A collector for this machine has a CPU at least, and has counted nothing.
pub proof fn collectors_start_at_zero(
    capacity: usize,
    timeout_secs: u64,
    collector: StatsCollector,
    flows: FlowTableStats,
    current: CpuStats,
)
    requires
        call_ensures(StatsCollector::new, (capacity, timeout_secs), collector),
        call_ensures(StatsCollector::flow_stats, (&collector,), flows),
        call_ensures(StatsCollector::current_cpu_stats, (&collector,), &current),
    ensures
        collector@.cpus.len() >= 1,
        collector@.table.capacity == capacity,
        flows.total_flows == 0 && flows.total_packets == 0 && flows.total_bytes == 0,
        current.packets == 0 && current.bytes == 0 && current.tcp_packets == 0
            && current.udp_packets == 0 && current.icmp_packets == 0 && current.dropped == 0,
{
}

} // verus!
