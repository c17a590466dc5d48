//! Per-CPU packet counters and their aggregation.

use crate::bytes::{wide, widen};
use crate::clock::{elapsed_nanos, unix_nanos};
use crate::flow::ranking::Rank;
use crate::flow::table::{
    empty_table, is_top, table_after, table_stats, FlowTableModel, DEFAULT_LOAD_PERCENT,
};
use crate::flow::{FlowState, FlowTable, FlowTableStats};
use crate::parser::ip::IpModel;
use crate::parser::packet::PacketModel;
use crate::parser::transport::{tcp_of, TcpModel};
use crate::parser::{FlowKey, ParsedPacket, Protocol, TcpHeader};
use vstd::prelude::*;

verus! {

/// `num_cpus::get`: the number of CPUs that the process may use, which its documentation
/// gives as at least 1.
pub assume_specification[ num_cpus::get ]() -> (cpus: usize)
    ensures
        cpus >= 1,
;

/// Packet counters of one CPU. They wrap around at 64 bits.
#[derive(Debug, Clone, Copy, PartialEq, Eq, Structural)]
pub struct CpuStats {
    /// Packets received on this CPU
    pub packets: u64,
    /// Bytes received on this CPU
    pub bytes: u64,
    /// TCP packets
    pub tcp_packets: u64,
    /// UDP packets
    pub udp_packets: u64,
    /// ICMP packets
    pub icmp_packets: u64,
    /// IPv6 packets
    pub ipv6_packets: u64,
    /// ARP packets
    pub arp_packets: u64,
    /// Other packets
    pub other_packets: u64,
    /// Dropped packets (ring overflow)
    pub dropped: u64,
    /// Parse errors
    pub parse_errors: u64,
}

/// Counters at zero.
pub open spec fn zero_stats() -> CpuStats {
    CpuStats {
        packets: 0,
        bytes: 0,
        tcp_packets: 0,
        udp_packets: 0,
        icmp_packets: 0,
        ipv6_packets: 0,
        arp_packets: 0,
        other_packets: 0,
        dropped: 0,
        parse_errors: 0,
    }
}

/// `stats` with a packet counted, once in all and once in the class of its protocol.
pub open spec fn stats_after(
    stats: CpuStats,
    packet_len: usize,
    protocol: Protocol,
    is_ipv6: bool,
) -> CpuStats {
    let counted = CpuStats {
        packets: stats.packets.wrapping_add(1),
        bytes: stats.bytes.wrapping_add(wide(packet_len)),
        ipv6_packets: if is_ipv6 {
            stats.ipv6_packets.wrapping_add(1)
        } else {
            stats.ipv6_packets
        },
        ..stats
    };
    match protocol {
        Protocol::Tcp => CpuStats { tcp_packets: stats.tcp_packets.wrapping_add(1), ..counted },
        Protocol::Udp => CpuStats { udp_packets: stats.udp_packets.wrapping_add(1), ..counted },
        Protocol::Icmp | Protocol::Icmpv6 => CpuStats {
            icmp_packets: stats.icmp_packets.wrapping_add(1),
            ..counted
        },
        Protocol::Arp => CpuStats { arp_packets: stats.arp_packets.wrapping_add(1), ..counted },
        _ => CpuStats { other_packets: stats.other_packets.wrapping_add(1), ..counted },
    }
}

/// The counters of `stats`, as a value of their own.
pub open spec fn snapshot_of(stats: CpuStats) -> CpuStatsSnapshot {
    CpuStatsSnapshot {
        packets: stats.packets,
        bytes: stats.bytes,
        tcp_packets: stats.tcp_packets,
        udp_packets: stats.udp_packets,
        icmp_packets: stats.icmp_packets,
        ipv6_packets: stats.ipv6_packets,
        arp_packets: stats.arp_packets,
        other_packets: stats.other_packets,
        dropped: stats.dropped,
        parse_errors: stats.parse_errors,
    }
}

impl Default for CpuStats {
    fn default() -> (stats: CpuStats)
        ensures
            stats == zero_stats(),
    {
        CpuStats::new()
    }
}

impl CpuStats {
    /// Counters at zero.
    pub fn new() -> (stats: CpuStats)
        ensures
            stats == zero_stats(),
    {
        CpuStats {
            packets: 0,
            bytes: 0,
            tcp_packets: 0,
            udp_packets: 0,
            icmp_packets: 0,
            ipv6_packets: 0,
            arp_packets: 0,
            other_packets: 0,
            dropped: 0,
            parse_errors: 0,
        }
    }

    /// Counts a packet.
    pub fn record_packet(&mut self, packet_len: usize, protocol: Protocol, is_ipv6: bool)
        ensures
            *final(self) == stats_after(*old(self), packet_len, protocol, is_ipv6),
    {
        self.packets = self.packets.wrapping_add(1);
        self.bytes = self.bytes.wrapping_add(widen(packet_len));
        match protocol {
            Protocol::Tcp => {
                self.tcp_packets = self.tcp_packets.wrapping_add(1);
            },
            Protocol::Udp => {
                self.udp_packets = self.udp_packets.wrapping_add(1);
            },
            Protocol::Icmp | Protocol::Icmpv6 => {
                self.icmp_packets = self.icmp_packets.wrapping_add(1);
            },
            Protocol::Arp => {
                self.arp_packets = self.arp_packets.wrapping_add(1);
            },
            _ => {
                self.other_packets = self.other_packets.wrapping_add(1);
            },
        }
        if is_ipv6 {
            self.ipv6_packets = self.ipv6_packets.wrapping_add(1);
        }
    }

    /// Counts a dropped packet.
    pub fn record_drop(&mut self)
        ensures
            *final(self) == (CpuStats { dropped: old(self).dropped.wrapping_add(1), ..*old(self) }),
    {
        self.dropped = self.dropped.wrapping_add(1);
    }

    /// Counts a packet that could not be parsed.
    pub fn record_parse_error(&mut self)
        ensures
            *final(self) == (CpuStats {
                parse_errors: old(self).parse_errors.wrapping_add(1),
                ..*old(self)
            }),
    {
        self.parse_errors = self.parse_errors.wrapping_add(1);
    }

    /// The counters as they are now.
    pub fn snapshot(&self) -> (snapshot: CpuStatsSnapshot)
        ensures
            snapshot == snapshot_of(*self),
    {
        CpuStatsSnapshot {
            packets: self.packets,
            bytes: self.bytes,
            tcp_packets: self.tcp_packets,
            udp_packets: self.udp_packets,
            icmp_packets: self.icmp_packets,
            ipv6_packets: self.ipv6_packets,
            arp_packets: self.arp_packets,
            other_packets: self.other_packets,
            dropped: self.dropped,
            parse_errors: self.parse_errors,
        }
    }
}

/// Counters taken from one CPU or added up over several.
#[derive(Debug, Clone, Copy, PartialEq, Eq, Structural)]
pub struct CpuStatsSnapshot {
    pub packets: u64,
    pub bytes: u64,
    pub tcp_packets: u64,
    pub udp_packets: u64,
    pub icmp_packets: u64,
    pub ipv6_packets: u64,
    pub arp_packets: u64,
    pub other_packets: u64,
    pub dropped: u64,
    pub parse_errors: u64,
}

impl Default for CpuStatsSnapshot {
    fn default() -> (snapshot: CpuStatsSnapshot)
        ensures
            snapshot == snapshot_of(zero_stats()),
    {
        CpuStats::new().snapshot()
    }
}

/// The counters of both, field by field.
pub open spec fn sum_of(left: CpuStatsSnapshot, right: CpuStatsSnapshot) -> CpuStatsSnapshot {
    CpuStatsSnapshot {
        packets: left.packets.wrapping_add(right.packets),
        bytes: left.bytes.wrapping_add(right.bytes),
        tcp_packets: left.tcp_packets.wrapping_add(right.tcp_packets),
        udp_packets: left.udp_packets.wrapping_add(right.udp_packets),
        icmp_packets: left.icmp_packets.wrapping_add(right.icmp_packets),
        ipv6_packets: left.ipv6_packets.wrapping_add(right.ipv6_packets),
        arp_packets: left.arp_packets.wrapping_add(right.arp_packets),
        other_packets: left.other_packets.wrapping_add(right.other_packets),
        dropped: left.dropped.wrapping_add(right.dropped),
        parse_errors: left.parse_errors.wrapping_add(right.parse_errors),
    }
}

impl std::ops::Add for CpuStatsSnapshot {
    type Output = CpuStatsSnapshot;

    fn add(self, other: CpuStatsSnapshot) -> (sum: CpuStatsSnapshot) {
        CpuStatsSnapshot {
            packets: self.packets.wrapping_add(other.packets),
            bytes: self.bytes.wrapping_add(other.bytes),
            tcp_packets: self.tcp_packets.wrapping_add(other.tcp_packets),
            udp_packets: self.udp_packets.wrapping_add(other.udp_packets),
            icmp_packets: self.icmp_packets.wrapping_add(other.icmp_packets),
            ipv6_packets: self.ipv6_packets.wrapping_add(other.ipv6_packets),
            arp_packets: self.arp_packets.wrapping_add(other.arp_packets),
            other_packets: self.other_packets.wrapping_add(other.other_packets),
            dropped: self.dropped.wrapping_add(other.dropped),
            parse_errors: self.parse_errors.wrapping_add(other.parse_errors),
        }
    }
}

impl vstd::std_specs::ops::AddSpecImpl for CpuStatsSnapshot {
    open spec fn obeys_add_spec() -> bool {
        true
    }

    open spec fn add_req(self, other: CpuStatsSnapshot) -> bool {
        true
    }

    open spec fn add_spec(self, other: CpuStatsSnapshot) -> CpuStatsSnapshot {
        sum_of(self, other)
    }
}

/// Whether each packet was counted in exactly one protocol class: the classes add up to
/// all packets, as far as 64 bits show.
pub open spec fn classes_add_up(stats: CpuStatsSnapshot) -> bool {
    let classes = stats.tcp_packets + stats.udp_packets + stats.icmp_packets + stats.arp_packets
        + stats.other_packets;
    (classes - stats.packets) % 0x1_0000_0000_0000_0000 == 0
}

/// Counters start with each packet in one class, there being none.
pub proof fn classes_add_up_at_zero()
    ensures
        classes_add_up(snapshot_of(zero_stats())),
{
}

/// 1 where `counted`, else 0.
pub open spec fn one_if(counted: bool) -> u64 {
    if counted {
        1
    } else {
        0
    }
}

/// What a packet adds to the counters: one in all, one in the class of its protocol, one
/// under IPv6 where it has an IPv6 header, and its length.
pub open spec fn packet_share(
    packet_len: usize,
    protocol: Protocol,
    is_ipv6: bool,
) -> CpuStatsSnapshot {
    let tcp = protocol == Protocol::Tcp;
    let udp = protocol == Protocol::Udp;
    let icmp = protocol == Protocol::Icmp || protocol == Protocol::Icmpv6;
    let arp = protocol == Protocol::Arp;
    CpuStatsSnapshot {
        packets: 1,
        bytes: wide(packet_len),
        tcp_packets: one_if(tcp),
        udp_packets: one_if(udp),
        icmp_packets: one_if(icmp),
        ipv6_packets: one_if(is_ipv6),
        arp_packets: one_if(arp),
        other_packets: one_if(!tcp && !udp && !icmp && !arp),
        dropped: 0,
        parse_errors: 0,
    }
}

/// Counting a packet adds its share to the counters.
pub proof fn packet_adds_its_share(
    stats: CpuStats,
    packet_len: usize,
    protocol: Protocol,
    is_ipv6: bool,
)
    ensures
        snapshot_of(stats_after(stats, packet_len, protocol, is_ipv6)) == sum_of(
            snapshot_of(stats),
            packet_share(packet_len, protocol, is_ipv6),
        ),
{
}

/// Counting a packet counts it in exactly one protocol class.
pub proof fn classes_add_up_after_packet(
    stats: CpuStats,
    packet_len: usize,
    protocol: Protocol,
    is_ipv6: bool,
)
    requires
        classes_add_up(snapshot_of(stats)),
    ensures
        classes_add_up(snapshot_of(stats_after(stats, packet_len, protocol, is_ipv6))),
{
    packet_adds_its_share(stats, packet_len, protocol, is_ipv6);
    classes_add_up_in_sum(snapshot_of(stats), packet_share(packet_len, protocol, is_ipv6));
}

/// Adding up counters keeps each packet in exactly one protocol class.
#[verifier::rlimit(40)]
pub proof fn classes_add_up_in_sum(left: CpuStatsSnapshot, right: CpuStatsSnapshot)
    requires
        classes_add_up(left),
        classes_add_up(right),
    ensures
        classes_add_up(sum_of(left, right)),
{
    let m = 0x1_0000_0000_0000_0000int;
    let carry = |x: u64, y: u64|
        if x + y >= m {
            1int
        } else {
            0
        };
    let carried = carry(left.tcp_packets, right.tcp_packets) + carry(
        left.udp_packets,
        right.udp_packets,
    ) + carry(left.icmp_packets, right.icmp_packets) + carry(left.arp_packets, right.arp_packets)
        + carry(left.other_packets, right.other_packets) - carry(left.packets, right.packets);
    let excess = |stats: CpuStatsSnapshot|
        stats.tcp_packets + stats.udp_packets + stats.icmp_packets + stats.arp_packets
            + stats.other_packets - stats.packets;
    let sum = sum_of(left, right);
    assert(excess(sum) == excess(left) + excess(right) - m * carried);
    let q = excess(left) / m + excess(right) / m - carried;
    assert(excess(left) == m * (excess(left) / m));
    assert(excess(right) == m * (excess(right) / m));
    assert(excess(sum) == q * m);
    vstd::arithmetic::div_mod::lemma_mod_multiples_basic(q, m);
}

/// The order in which counters are added up does not matter.
pub proof fn sum_is_commutative(left: CpuStatsSnapshot, right: CpuStatsSnapshot)
    ensures
        sum_of(left, right) == sum_of(right, left),
{
}

/// The grouping in which counters are added up does not matter.
pub proof fn sum_is_associative(a: CpuStatsSnapshot, b: CpuStatsSnapshot, c: CpuStatsSnapshot)
    ensures
        sum_of(sum_of(a, b), c) == sum_of(a, sum_of(b, c)),
{
}

/// The counters of `cpus`, added up.
pub open spec fn total_of(cpus: Seq<CpuStats>) -> CpuStatsSnapshot
    decreases cpus.len(),
{
    if cpus.len() == 0 {
        snapshot_of(zero_stats())
    } else {
        sum_of(total_of(cpus.drop_last()), snapshot_of(cpus.last()))
    }
}

/// Counters at zero for `cpus` CPUs.
pub open spec fn zero_cpus(cpus: nat) -> Seq<CpuStats> {
    Seq::new(cpus, |i: int| zero_stats())
}

/// The counters of all CPUs, of which there is at least one.
pub struct CpuCounters {
    list: Vec<CpuStats>,
}

impl View for CpuCounters {
    type V = Seq<CpuStats>;

    closed spec fn view(&self) -> Seq<CpuStats> {
        self.list@
    }
}

impl CpuCounters {
    #[verifier::type_invariant]
    closed spec fn has_one(self) -> bool {
        self.list@.len() >= 1
    }

    /// Counters at zero for `cpus` CPUs.
    fn new(cpus: usize) -> (counters: CpuCounters)
        requires
            cpus >= 1,
        ensures
            counters@ == zero_cpus(cpus as nat),
    {
        let mut list: Vec<CpuStats> = Vec::with_capacity(cpus);
        let mut i: usize = 0;
        while i < cpus
            invariant
                i <= cpus,
                list@ == zero_cpus(i as nat),
            decreases cpus - i,
        {
            list.push(CpuStats::new());
            i = i + 1;
            assert(list@ =~= zero_cpus(i as nat));
        }
        CpuCounters { list }
    }

    /// The counters of the current CPU.
    fn current(&self) -> (stats: &CpuStats)
        ensures
            self@.len() >= 1,
            *stats == self@[0],
    {
        proof {
            use_type_invariant(self);
        }
        &self.list[0]
    }

    /// Replaces the counters of the current CPU.
    fn set_current(&mut self, stats: CpuStats)
        ensures
            old(self)@.len() >= 1,
            final(self)@ == old(self)@.update(0, stats),
    {
        proof {
            use_type_invariant(&*self);
        }
        self.list[0] = stats;
    }

    /// The counters of all CPUs, added up.
    fn total(&self) -> (total: CpuStatsSnapshot)
        ensures
            total == total_of(self@),
    {
        let mut total = CpuStatsSnapshot::default();
        let mut i: usize = 0;
        while i < self.list.len()
            invariant
                i <= self.list@.len(),
                total == total_of(self.list@.take(i as int)),
            decreases self.list@.len() - i,
        {
            assert(self.list@.take(i + 1).drop_last() =~= self.list@.take(i as int));
            total = total + self.list[i].snapshot();
            i = i + 1;
        }
        assert(self.list@.take(i as int) =~= self.list@);
        total
    }

    /// The number of CPUs.
    fn len(&self) -> (len: usize)
        ensures
            len == self@.len(),
            len >= 1,
    {
        proof {
            use_type_invariant(self);
        }
        self.list.len()
    }
}

/// The flags of a TCP header as a bitmask, lowest first: FIN, SYN, RST, PSH, ACK, URG.
pub open spec fn flag_bits(tcp: TcpModel) -> int {
    (if tcp.fin {
        0x01int
    } else {
        0
    }) + (if tcp.syn {
        0x02int
    } else {
        0
    }) + (if tcp.rst {
        0x04int
    } else {
        0
    }) + (if tcp.psh {
        0x08int
    } else {
        0
    }) + (if tcp.ack_flag {
        0x10int
    } else {
        0
    }) + (if tcp.urg {
        0x20int
    } else {
        0
    })
}

/// The flags of a TCP header as a bitmask.
pub fn tcp_flag_bits(tcp: &TcpHeader<'_>) -> (flags: u8)
    ensures
        flags == flag_bits(tcp@),
{
    let mut flags: u8 = 0;
    if tcp.fin {
        flags = flags + 0x01;
    }
    if tcp.syn {
        flags = flags + 0x02;
    }
    if tcp.rst {
        flags = flags + 0x04;
    }
    if tcp.psh {
        flags = flags + 0x08;
    }
    if tcp.ack_flag {
        flags = flags + 0x10;
    }
    if tcp.urg {
        flags = flags + 0x20;
    }
    flags
}

/// The bitmask is the low six bits of the header's flags byte.
pub proof fn flag_bits_are_header_bits(header: Seq<u8>)
    ensures
        tcp_of(header) matches Ok(tcp) ==> flag_bits(tcp) == header[13] & 0x3F,
{
    let b = header[13];
    assert((b & 0x3F) as int == (if b & 0x01 != 0 {
        0x01int
    } else {
        0
    }) + (if b & 0x02 != 0 {
        0x02int
    } else {
        0
    }) + (if b & 0x04 != 0 {
        0x04int
    } else {
        0
    }) + (if b & 0x08 != 0 {
        0x08int
    } else {
        0
    }) + (if b & 0x10 != 0 {
        0x10int
    } else {
        0
    }) + (if b & 0x20 != 0 {
        0x20int
    } else {
        0
    })) by (bit_vector);
}

/// Counters of all CPUs, with what rates and shares are computed from.
#[derive(Debug, Clone, Copy, PartialEq, Eq, Structural)]
pub struct AggregateStats {
    /// Total packets
    pub total_packets: u64,
    /// Total bytes
    pub total_bytes: u64,
    /// Packets since the aggregation before
    pub interval_packets: u64,
    /// Mean packet length in whole bytes, a total of 0 taken as 1
    pub mean_packet_len: u64,
    /// TCP packet count
    pub tcp_packets: u64,
    /// UDP packet count
    pub udp_packets: u64,
    /// ICMP packet count
    pub icmp_packets: u64,
    /// IPv6 packet count
    pub ipv6_packets: u64,
    /// ARP packet count
    pub arp_packets: u64,
    /// Other packet count
    pub other_packets: u64,
    /// Dropped packet count
    pub dropped: u64,
    /// Parse error count
    pub parse_errors: u64,
    /// TCP, UDP, ICMP and other packets, of which the shares are taken
    pub transport_total: u64,
    /// Nanoseconds since the collector was created
    pub elapsed_ns: u64,
}

/// `n`, or 1 where it is 0.
pub open spec fn at_least_one(n: u64) -> u64 {
    if n == 0 {
        1
    } else {
        n
    }
}

/// What is reported of `total`, where the report before it had counted `prev_packets`.
pub open spec fn aggregate_of(
    total: CpuStatsSnapshot,
    prev_packets: u64,
    elapsed_ns: u64,
) -> AggregateStats {
    AggregateStats {
        total_packets: total.packets,
        total_bytes: total.bytes,
        interval_packets: total.packets.wrapping_sub(prev_packets),
        mean_packet_len: at_least_one(total.bytes) / at_least_one(total.packets),
        tcp_packets: total.tcp_packets,
        udp_packets: total.udp_packets,
        icmp_packets: total.icmp_packets,
        ipv6_packets: total.ipv6_packets,
        arp_packets: total.arp_packets,
        other_packets: total.other_packets,
        dropped: total.dropped,
        parse_errors: total.parse_errors,
        transport_total: total.tcp_packets.wrapping_add(total.udp_packets).wrapping_add(
            total.icmp_packets,
        ).wrapping_add(total.other_packets),
        elapsed_ns,
    }
}

/// What a collector holds.
#[verifier::ext_equal]
pub struct CollectorModel {
    /// The counters of each CPU
    pub cpus: Seq<CpuStats>,
    /// The flows
    pub table: FlowTableModel,
    /// Total packets at the last aggregation
    pub prev_total_packets: u64,
    /// Total bytes at the last aggregation
    pub prev_total_bytes: u64,
}

/// A collector for `cpus` CPUs that has counted nothing yet.
pub open spec fn empty_collector(cpus: nat, flow_table_capacity: usize) -> CollectorModel {
    CollectorModel {
        cpus: zero_cpus(cpus),
        table: empty_table(flow_table_capacity, DEFAULT_LOAD_PERCENT),
        prev_total_packets: 0,
        prev_total_bytes: 0,
    }
}

/// Whether a packet has an IPv6 header.
pub open spec fn is_ipv6_packet(packet: PacketModel) -> bool {
    packet.ip matches Some(IpModel::V6(_))
}

/// The TCP flags of a packet, 0 where it has no TCP header.
pub open spec fn packet_flags(packet: PacketModel) -> u8 {
    match packet.tcp {
        Some(tcp) => flag_bits(tcp) as u8,
        None => 0,
    }
}

/// `collector` after a packet that arrived at `now_ns`: it is counted on the current
/// CPU, and in its flow where it has one.
pub open spec fn collector_after(
    collector: CollectorModel,
    packet: PacketModel,
    packet_len: usize,
    now_ns: u64,
) -> CollectorModel {
    CollectorModel {
        cpus: collector.cpus.update(
            0,
            stats_after(
                collector.cpus[0],
                packet_len,
                packet.protocol,
                is_ipv6_packet(packet),
            ),
        ),
        table: match packet.flow_key {
            Some(key) => table_after(
                collector.table,
                key,
                packet_len,
                packet_flags(packet),
                match packet.tcp {
                    Some(tcp) => Some(tcp.seq),
                    None => None,
                },
                match packet.tcp {
                    Some(tcp) => Some(tcp.ack),
                    None => None,
                },
                now_ns,
            ),
            None => collector.table,
        },
        ..collector
    }
}

/// `collector` after an aggregation.
pub open spec fn collector_aggregated(collector: CollectorModel) -> CollectorModel {
    CollectorModel {
        prev_total_packets: total_of(collector.cpus).packets,
        prev_total_bytes: total_of(collector.cpus).bytes,
        ..collector
    }
}

/// The collector of packet statistics.
pub struct StatsCollector {
    cpu_stats: CpuCounters,
    flow_table: FlowTable,
    prev_total_packets: u64,
    prev_total_bytes: u64,
    start_time: std::time::Instant,
}

impl View for StatsCollector {
    type V = CollectorModel;

    closed spec fn view(&self) -> CollectorModel {
        CollectorModel {
            cpus: self.cpu_stats@,
            table: self.flow_table@,
            prev_total_packets: self.prev_total_packets,
            prev_total_bytes: self.prev_total_bytes,
        }
    }
}

/// A full report.
#[derive(Debug, Clone)]
pub struct StatsReport {
    /// The counters of all CPUs
    pub aggregate: AggregateStats,
    /// The counters of the flow table
    pub flow_stats: FlowTableStats,
    /// Nanoseconds since the collector was created
    pub uptime_ns: u64,
    /// The flows with the most bytes, in descending order
    pub top_flows: Vec<(FlowKey, FlowState)>,
}

/// Whether `report` is what `collector` reports `elapsed_ns` nanoseconds after the start.
pub open spec fn is_report(
    report: StatsReport,
    collector: CollectorModel,
    elapsed_ns: u64,
) -> bool {
    &&& report.aggregate == aggregate_of(
        total_of(collector.cpus),
        collector.prev_total_packets,
        elapsed_ns,
    )
    &&& report.uptime_ns == elapsed_ns
    &&& report.flow_stats == table_stats(collector.table)
    &&& is_top(report.top_flows@, collector.table.flows, 10, Rank::Bytes)
}

impl StatsCollector {
    /// A collector for the CPUs of this machine and up to `flow_table_capacity` flows.
    pub fn new(flow_table_capacity: usize, _flow_timeout_secs: u64) -> (collector: StatsCollector)
        ensures
            collector@.cpus.len() >= 1,
            collector@ == empty_collector(collector@.cpus.len(), flow_table_capacity),
    {
        StatsCollector::with_cpus(num_cpus::get(), flow_table_capacity)
    }

    /// A collector for `cpus` CPUs and up to `flow_table_capacity` flows.
    pub fn with_cpus(cpus: usize, flow_table_capacity: usize) -> (collector: StatsCollector)
        requires
            cpus >= 1,
        ensures
            collector@ == empty_collector(cpus as nat, flow_table_capacity),
    {
        StatsCollector {
            cpu_stats: CpuCounters::new(cpus),
            flow_table: FlowTable::new(flow_table_capacity),
            prev_total_packets: 0,
            prev_total_bytes: 0,
            start_time: std::time::Instant::now(),
        }
    }

    /// The counters of the current CPU.
    pub fn current_cpu_stats(&self) -> (stats: &CpuStats)
        ensures
            self@.cpus.len() >= 1,
            *stats == self@.cpus[0],
    {
        self.cpu_stats.current()
    }

    /// Counts a packet that arrives now.
    pub fn record_packet(&mut self, packet: &ParsedPacket<'_>, packet_len: usize)
        ensures
            exists|now_ns: u64|
                final(self)@ == collector_after(old(self)@, packet@, packet_len, now_ns),
    {
        self.record_packet_at(packet, packet_len, unix_nanos());
    }

    /// Counts a packet that arrives at `now_ns`.
    pub fn record_packet_at(&mut self, packet: &ParsedPacket<'_>, packet_len: usize, now_ns: u64)
        ensures
            final(self)@ == collector_after(old(self)@, packet@, packet_len, now_ns),
    {
        let mut stats = *self.cpu_stats.current();
        let is_ipv6 = match &packet.ip {
            Some(ip) => ip.version().is_v6(),
            None => false,
        };
        stats.record_packet(packet_len, packet.protocol, is_ipv6);
        self.cpu_stats.set_current(stats);
        if let Some(flow_key) = packet.flow_key {
            let (tcp_flags, seq, ack): (u8, Option<u32>, Option<u32>) = match &packet.tcp {
                Some(tcp) => (tcp_flag_bits(tcp), Some(tcp.seq), Some(tcp.ack)),
                None => (0, None, None),
            };
            let _ = self.flow_table.insert_or_update_at(
                flow_key,
                packet_len,
                tcp_flags,
                seq,
                ack,
                now_ns,
            );
        }
        assert(self@ =~= collector_after(old(self)@, packet@, packet_len, now_ns));
    }

    /// Counts a dropped packet.
    pub fn record_drop(&mut self)
        ensures
            final(self)@ == (CollectorModel {
                cpus: old(self)@.cpus.update(
                    0,
                    CpuStats {
                        dropped: old(self)@.cpus[0].dropped.wrapping_add(1),
                        ..old(self)@.cpus[0]
                    },
                ),
                ..old(self)@
            }),
    {
        let mut stats = *self.cpu_stats.current();
        stats.record_drop();
        self.cpu_stats.set_current(stats);
    }

    /// Counts a packet that could not be parsed.
    pub fn record_parse_error(&mut self)
        ensures
            final(self)@ == (CollectorModel {
                cpus: old(self)@.cpus.update(
                    0,
                    CpuStats {
                        parse_errors: old(self)@.cpus[0].parse_errors.wrapping_add(1),
                        ..old(self)@.cpus[0]
                    },
                ),
                ..old(self)@
            }),
    {
        let mut stats = *self.cpu_stats.current();
        stats.record_parse_error();
        self.cpu_stats.set_current(stats);
    }

    /// Adds up the counters of all CPUs. The next aggregation counts its interval from
    /// here.
    pub fn aggregate(&mut self) -> (aggregate: AggregateStats)
        ensures
            aggregate == aggregate_of(
                total_of(old(self)@.cpus),
                old(self)@.prev_total_packets,
                aggregate.elapsed_ns,
            ),
            final(self)@ == collector_aggregated(old(self)@),
    {
        let elapsed_ns: u64 = elapsed_nanos(&self.start_time);
        self.aggregate_at(elapsed_ns)
    }

    /// Adds up the counters of all CPUs, `elapsed_ns` nanoseconds after the start.
    pub fn aggregate_at(&mut self, elapsed_ns: u64) -> (aggregate: AggregateStats)
        ensures
            aggregate == aggregate_of(
                total_of(old(self)@.cpus),
                old(self)@.prev_total_packets,
                elapsed_ns,
            ),
            final(self)@ == collector_aggregated(old(self)@),
    {
        let total = self.cpu_stats.total();
        let prev_packets: u64 = self.prev_total_packets;
        self.prev_total_packets = total.packets;
        self.prev_total_bytes = total.bytes;
        let bytes: u64 = if total.bytes == 0 {
            1
        } else {
            total.bytes
        };
        let packets: u64 = if total.packets == 0 {
            1
        } else {
            total.packets
        };
        AggregateStats {
            total_packets: total.packets,
            total_bytes: total.bytes,
            interval_packets: total.packets.wrapping_sub(prev_packets),
            mean_packet_len: bytes / packets,
            tcp_packets: total.tcp_packets,
            udp_packets: total.udp_packets,
            icmp_packets: total.icmp_packets,
            ipv6_packets: total.ipv6_packets,
            arp_packets: total.arp_packets,
            other_packets: total.other_packets,
            dropped: total.dropped,
            parse_errors: total.parse_errors,
            transport_total: total.tcp_packets.wrapping_add(total.udp_packets).wrapping_add(
                total.icmp_packets,
            ).wrapping_add(total.other_packets),
            elapsed_ns,
        }
    }

    /// The counters of the flow table.
    pub fn flow_stats(&self) -> (stats: FlowTableStats)
        ensures
            stats == table_stats(self@.table),
    {
        self.flow_table.stats()
    }

    /// The `n` flows with the most bytes, in descending order.
    pub fn top_flows_by_bytes(&self, n: usize) -> (top: Vec<(FlowKey, FlowState)>)
        ensures
            is_top(top@, self@.table.flows, n, Rank::Bytes),
    {
        self.flow_table.top_n_by_bytes(n)
    }

    /// The flow table.
    pub fn flow_table(&self) -> (table: &FlowTable)
        ensures
            table@ == self@.table,
    {
        &self.flow_table
    }

    /// Sets all counters to zero, those of the flow table too, and drops all flows.
    pub fn reset(&mut self)
        ensures
            final(self)@ == (CollectorModel {
                cpus: zero_cpus(old(self)@.cpus.len()),
                table: empty_table(old(self)@.table.capacity, old(self)@.table.load_percent),
                prev_total_packets: 0,
                prev_total_bytes: 0,
            }),
    {
        self.cpu_stats = CpuCounters::new(self.cpu_stats.len());
        self.flow_table.reset();
        self.prev_total_packets = 0;
        self.prev_total_bytes = 0;
    }

    /// A full report: the aggregate, the flow table and its ten largest flows.
    pub fn generate_report(&mut self) -> (report: StatsReport)
        ensures
            is_report(report, old(self)@, report.uptime_ns),
            final(self)@ == collector_aggregated(old(self)@),
    {
        let elapsed_ns: u64 = elapsed_nanos(&self.start_time);
        self.generate_report_at(elapsed_ns)
    }

    /// A full report, `elapsed_ns` nanoseconds after the start.
    pub fn generate_report_at(&mut self, elapsed_ns: u64) -> (report: StatsReport)
        ensures
            is_report(report, old(self)@, elapsed_ns),
            final(self)@ == collector_aggregated(old(self)@),
    {
        let aggregate = self.aggregate_at(elapsed_ns);
        let flow_stats = self.flow_stats();
        let top_flows = self.top_flows_by_bytes(10);
        StatsReport { aggregate, flow_stats, uptime_ns: elapsed_ns, top_flows }
    }
}

/// Aggregating twice in a row finds no packets in between, and the same totals.
pub proof fn aggregation_is_idle_at_once(collector: CollectorModel, elapsed_ns: u64)
    ensures
        ({
            let again = collector_aggregated(collector);
            let total = total_of(again.cpus);
            &&& aggregate_of(total, again.prev_total_packets, elapsed_ns).interval_packets == 0
            &&& total == total_of(collector.cpus)
        }),
{
}

proof fn wrapping_cancels(left: u64, right: u64, n: u64)
    requires
        left.wrapping_add(n) == right.wrapping_add(n),
    ensures
        left == right,
{
}

/// Counters that give the same sum with `other` are the same.
proof fn sum_cancels(left: CpuStatsSnapshot, right: CpuStatsSnapshot, other: CpuStatsSnapshot)
    requires
        sum_of(left, other) == sum_of(right, other),
    ensures
        left == right,
{
    wrapping_cancels(left.packets, right.packets, other.packets);
    wrapping_cancels(left.bytes, right.bytes, other.bytes);
    wrapping_cancels(left.tcp_packets, right.tcp_packets, other.tcp_packets);
    wrapping_cancels(left.udp_packets, right.udp_packets, other.udp_packets);
    wrapping_cancels(left.icmp_packets, right.icmp_packets, other.icmp_packets);
    wrapping_cancels(left.ipv6_packets, right.ipv6_packets, other.ipv6_packets);
    wrapping_cancels(left.arp_packets, right.arp_packets, other.arp_packets);
    wrapping_cancels(left.other_packets, right.other_packets, other.other_packets);
    wrapping_cancels(left.dropped, right.dropped, other.dropped);
    wrapping_cancels(left.parse_errors, right.parse_errors, other.parse_errors);
}

pub(crate) proof fn total_after_update(cpus: Seq<CpuStats>, stats: CpuStats)
    requires
        cpus.len() >= 1,
    ensures
        sum_of(total_of(cpus.update(0, stats)), snapshot_of(cpus[0])) == sum_of(
            total_of(cpus),
            snapshot_of(stats),
        ),
    decreases cpus.len(),
{
    let updated = cpus.update(0, stats);
    if cpus.len() == 1 {
        assert(updated.drop_last() =~= Seq::empty());
        assert(cpus.drop_last() =~= Seq::empty());
    } else {
        assert(updated.drop_last() =~= cpus.drop_last().update(0, stats));
        assert(updated.last() == cpus.last());
        total_after_update(cpus.drop_last(), stats);
    }
    let rest = total_of(updated.drop_last());
    let before = total_of(cpus.drop_last());
    sum_is_commutative(snapshot_of(updated.last()), snapshot_of(cpus[0]));
    sum_is_associative(rest, snapshot_of(updated.last()), snapshot_of(cpus[0]));
    sum_is_associative(rest, snapshot_of(cpus[0]), snapshot_of(updated.last()));
    sum_is_commutative(snapshot_of(cpus.last()), snapshot_of(stats));
    sum_is_associative(before, snapshot_of(cpus.last()), snapshot_of(stats));
    sum_is_associative(before, snapshot_of(stats), snapshot_of(cpus.last()));
}

/// Every packet adds one to the total, to the total of its protocol's class, and to that
/// of IPv6 where it has an IPv6 header; it adds its length to the bytes, and nothing to
/// any other total.
pub proof fn packet_counts_once_in_total(
    collector: CollectorModel,
    packet: PacketModel,
    packet_len: usize,
    now_ns: u64,
)
    requires
        collector.cpus.len() >= 1,
    ensures
        total_of(collector_after(collector, packet, packet_len, now_ns).cpus) == sum_of(
            total_of(collector.cpus),
            packet_share(packet_len, packet.protocol, is_ipv6_packet(packet)),
        ),
{
    let is_ipv6 = is_ipv6_packet(packet);
    let first = collector.cpus[0];
    let counted = stats_after(first, packet_len, packet.protocol, is_ipv6);
    let share = packet_share(packet_len, packet.protocol, is_ipv6);
    let before = total_of(collector.cpus);
    let after = total_of(collector.cpus.update(0, counted));
    packet_adds_its_share(first, packet_len, packet.protocol, is_ipv6);
    total_after_update(collector.cpus, counted);
    sum_is_commutative(snapshot_of(first), share);
    sum_is_associative(before, share, snapshot_of(first));
    sum_cancels(after, sum_of(before, share), snapshot_of(first));
}

/// Packets without a flow leave the flow table as it is.
pub proof fn packet_without_flow_keeps_table(
    collector: CollectorModel,
    packet: PacketModel,
    packet_len: usize,
    now_ns: u64,
)
    requires
        packet.flow_key is None,
    ensures
        collector_after(collector, packet, packet_len, now_ns).table == collector.table,
{
}

} // verus!
