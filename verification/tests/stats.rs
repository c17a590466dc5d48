use zero_copy_analyzer::flow::{FlowTable, FlowTableStats};
use zero_copy_analyzer::parser::{
    FlowKey, IpAddr, Ipv4Addr, PacketParser, ParsedPacket, Protocol,
};
use zero_copy_analyzer::parser::transport::parse_tcp;
use zero_copy_analyzer::stats::{tcp_flag_bits, CpuStats, CpuStatsSnapshot, StatsCollector};

/// A TCP SYN from 192.168.1.1 to 10.0.0.1.
fn create_test_tcp_packet(src_port: u16, dst_port: u16) -> Vec<u8> {
    let mut packet = vec![
        0xff, 0xff, 0xff, 0xff, 0xff, 0xff, 0x00, 0x11, 0x22, 0x33, 0x44, 0x55, 0x08, 0x00, 0x45,
        0x00, 0x00, 0x28, 0x00, 0x01, 0x40, 0x00, 0x40, 0x06, 0x00, 0x00, 0xc0, 0xa8, 0x01, 0x01,
        0x0a, 0x00, 0x00, 0x01,
    ];
    packet.extend_from_slice(&src_port.to_be_bytes());
    packet.extend_from_slice(&dst_port.to_be_bytes());
    packet.extend_from_slice(&[
        0x00, 0x00, 0x00, 0x01, 0x00, 0x00, 0x00, 0x00, 0x50, 0x02, 0xff, 0xff, 0x00, 0x00, 0x00,
        0x00,
    ]);
    packet
}

#[test]
fn test_cpu_stats_record() {
    let mut stats = CpuStats::new();
    stats.record_packet(1500, Protocol::Tcp, false);

    assert_eq!(stats.packets, 1);
    assert_eq!(stats.bytes, 1500);
    assert_eq!(stats.tcp_packets, 1);
}

#[test]
fn stats_test_stats_collector() {
    let mut collector = StatsCollector::new(1000, 300);

    let data = vec![0u8; 64];
    let mut packet = ParsedPacket::new(&data);
    packet.protocol = Protocol::Tcp;
    packet.flow_key = Some(FlowKey::new(
        IpAddr::V4(Ipv4Addr::new(192, 168, 1, 1)),
        IpAddr::V4(Ipv4Addr::new(10, 0, 0, 1)),
        12345,
        80,
        Protocol::Tcp,
    ));

    collector.record_packet(&packet, 64);

    let agg = collector.aggregate();
    assert!(agg.total_packets >= 1);
}

#[test]
fn integration_test_stats_collector() {
    let mut collector = StatsCollector::new(1000, 300);

    for i in 0..100 {
        let packet = create_test_tcp_packet(10000 + i as u16, 80);
        let mut parser = PacketParser::new();

        if let Ok(parsed) = parser.parse(&packet) {
            collector.record_packet(&parsed, packet.len());
        }
    }

    let stats = collector.aggregate();
    assert!(stats.total_packets >= 100);
    assert!(stats.tcp_packets >= 100);
}

#[test]
fn test_full_pipeline() {
    let mut table = FlowTable::new(1000);
    let mut parser = PacketParser::new();

    let syn = create_test_tcp_packet(12345, 80);
    let syn_ack = create_test_tcp_packet(80, 12345);
    let ack = create_test_tcp_packet(12345, 80);

    let parsed_syn = parser.parse(&syn).unwrap();
    if let Some(key) = parsed_syn.flow_key {
        table.insert_or_update(key, syn.len(), 0x02, parsed_syn.tcp.map(|t| t.seq), None);
    }

    let parsed_syn_ack = parser.parse(&syn_ack).unwrap();
    if let Some(key) = parsed_syn_ack.flow_key.map(|key| key.reverse()) {
        table.insert_or_update(key, syn_ack.len(), 0x12, parsed_syn_ack.tcp.map(|t| t.seq), None);
    }

    let parsed_ack = parser.parse(&ack).unwrap();
    if let Some(key) = parsed_ack.flow_key {
        table.insert_or_update(key, ack.len(), 0x10, None, None);
    }

    assert_eq!(table.len(), 2);

    let stats = table.stats();
    assert!(stats.total_flows >= 1);
}

#[test]
fn each_packet_counts_in_one_class() {
    let mut stats = CpuStats::default();
    for protocol in [
        Protocol::Tcp,
        Protocol::Udp,
        Protocol::Udp,
        Protocol::Icmp,
        Protocol::Icmpv6,
        Protocol::Arp,
        Protocol::Lldp,
        Protocol::Unknown,
        Protocol::Sctp,
    ] {
        stats.record_packet(10, protocol, protocol == Protocol::Icmpv6);
    }
    stats.record_drop();
    stats.record_parse_error();
    let snapshot = stats.snapshot();
    assert_eq!(snapshot.packets, 9);
    assert_eq!(snapshot.bytes, 90);
    assert_eq!(snapshot.tcp_packets, 1);
    assert_eq!(snapshot.udp_packets, 2);
    assert_eq!(snapshot.icmp_packets, 2);
    assert_eq!(snapshot.arp_packets, 1);
    assert_eq!(snapshot.other_packets, 3);
    assert_eq!(snapshot.ipv6_packets, 1);
    assert_eq!(snapshot.dropped, 1);
    assert_eq!(snapshot.parse_errors, 1);
}

#[test]
fn snapshots_add_up_field_by_field() {
    let mut one = CpuStats::new();
    one.record_packet(100, Protocol::Tcp, false);
    let mut two = CpuStats::new();
    two.record_packet(20, Protocol::Udp, true);
    two.record_drop();
    let sum = one.snapshot() + two.snapshot();
    assert_eq!(sum.packets, 2);
    assert_eq!(sum.bytes, 120);
    assert_eq!(sum.tcp_packets, 1);
    assert_eq!(sum.udp_packets, 1);
    assert_eq!(sum.ipv6_packets, 1);
    assert_eq!(sum.dropped, 1);
    assert_eq!(sum, two.snapshot() + one.snapshot());
    assert_eq!(CpuStatsSnapshot::default().packets, 0);
}

#[test]
fn aggregates_of_a_collector() {
    let mut collector = StatsCollector::with_cpus(4, 100);
    let tcp = create_test_tcp_packet(1, 2);
    let mut parser = PacketParser::new();
    let parsed = parser.parse(&tcp).unwrap();
    collector.record_packet_at(&parsed, 1000, 5);
    collector.record_packet_at(&parsed, 501, 6);
    let data = vec![0u8; 64];
    let mut other = ParsedPacket::new(&data);
    other.protocol = Protocol::Arp;
    collector.record_packet_at(&other, 64, 7);
    collector.record_drop();
    collector.record_parse_error();
    assert_eq!(collector.current_cpu_stats().packets, 3);

    let aggregate = collector.aggregate_at(2_000_000_000);
    assert_eq!(aggregate.total_packets, 3);
    assert_eq!(aggregate.total_bytes, 1565);
    assert_eq!(aggregate.interval_packets, 3);
    assert_eq!(aggregate.mean_packet_len, 521);
    assert_eq!(aggregate.transport_total, 2);
    assert_eq!(aggregate.arp_packets, 1);
    assert_eq!(aggregate.dropped, 1);
    assert_eq!(aggregate.parse_errors, 1);
    assert_eq!(aggregate.elapsed_ns, 2_000_000_000);

    assert_eq!(collector.aggregate_at(0).interval_packets, 0);
    collector.record_packet_at(&other, 1, 8);
    assert_eq!(collector.aggregate_at(0).interval_packets, 1);

    let flow = collector.flow_table().get(&parsed.flow_key.unwrap()).unwrap();
    assert_eq!(flow.packet_count, 2);
    assert_eq!(flow.byte_count, 1501);
    assert_eq!(flow.tcp_flags, 0x02);
    assert_eq!(flow.initial_seq, Some(1));
    assert_eq!(flow.last_ack, Some(0));
    assert_eq!(flow.last_seen_ns, 6);
    assert_eq!(collector.flow_stats().total_flows, 1);
}

#[test]
fn an_empty_collector_has_a_mean_length_of_one() {
    let mut collector = StatsCollector::new(10, 0);
    let aggregate = collector.aggregate();
    assert_eq!(aggregate.total_packets, 0);
    assert_eq!(aggregate.mean_packet_len, 1);
    assert_eq!(aggregate.transport_total, 0);
}

#[test]
fn resetting_a_collector() {
    let mut collector = StatsCollector::with_cpus(2, 100);
    let tcp = create_test_tcp_packet(1, 2);
    let mut parser = PacketParser::new();
    let parsed = parser.parse(&tcp).unwrap();
    collector.record_packet_at(&parsed, 1000, 5);
    collector.aggregate_at(0);
    collector.reset();
    let aggregate = collector.aggregate_at(0);
    assert_eq!(aggregate.total_packets, 0);
    assert_eq!(aggregate.interval_packets, 0);
    assert!(collector.flow_table().is_empty());
    assert_eq!(collector.flow_stats(), FlowTableStats::default());
    assert_eq!(collector.flow_table().capacity(), 100);

    let mut collector = StatsCollector::with_cpus(1, 0);
    collector.record_packet_at(&parsed, 1000, 5);
    assert_eq!(collector.flow_stats().collisions, 1);
    collector.reset();
    assert_eq!(collector.flow_stats().collisions, 0);
}

#[test]
fn reports_hold_the_largest_flows() {
    let mut collector = StatsCollector::with_cpus(1, 100);
    let mut parser = PacketParser::new();
    for port in 0..12u16 {
        let tcp = create_test_tcp_packet(port, 80);
        let parsed = parser.parse(&tcp).unwrap();
        collector.record_packet_at(&parsed, 100 + port as usize, 5);
    }
    let report = collector.generate_report();
    assert_eq!(report.top_flows.len(), 10);
    assert_eq!(report.top_flows[0].1.byte_count, 111);
    assert_eq!(report.top_flows[9].1.byte_count, 102);
    assert_eq!(report.flow_stats.total_flows, 12);
    assert_eq!(report.aggregate.total_packets, 12);
    assert_eq!(collector.top_flows_by_bytes(1).len(), 1);
    let report = collector.generate_report_at(2_000_000_000);
    assert_eq!(report.uptime_ns, 2_000_000_000);
    assert_eq!(report.aggregate.total_packets, 12);
    assert_eq!(report.top_flows.len(), 10);
}

#[test]
fn flag_bits_are_the_low_bits_of_the_header() {
    let packet = create_test_tcp_packet(1, 2);
    let mut header = packet[34..].to_vec();
    for flags in 0..=255u8 {
        header[13] = flags;
        assert_eq!(tcp_flag_bits(&parse_tcp(&header).unwrap().0), flags & 0x3F);
    }
}
