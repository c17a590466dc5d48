use zero_copy_analyzer::cli::{BackendKind, Cli, EngineKind};
use zero_copy_analyzer::flow::FlowTableStats;
use zero_copy_analyzer::output::console::{minimal_report, render_report, ReportFigures};
use zero_copy_analyzer::output::prometheus::MetricFigures;
use zero_copy_analyzer::output::{
    ConsoleOutput, JsonOutput, OutputBackend, OutputError, PacketRecord, PrometheusMetrics,
    ReportTimer,
};
use zero_copy_analyzer::parser::{
    FlowKey, IpAddr, Ipv4Addr, PacketParser, ParsedPacket, Protocol,
};
use zero_copy_analyzer::stats::{AggregateStats, StatsCollector};

fn create_test_tcp_packet(src_port: u16, dst_port: u16) -> Vec<u8> {
    let mut packet = vec![
        0xff, 0xff, 0xff, 0xff, 0xff, 0xff, 0x00, 0x11, 0x22, 0x33, 0x44, 0x55, 0x08, 0x00, 0x45,
        0x00, 0x00, 0x28, 0x00, 0x01, 0x40, 0x00, 0x40, 0x06, 0x00, 0x00, 0xc0, 0xa8, 0x01, 0x01,
        0x0a, 0x00, 0x00, 0x01,
    ];
    packet.extend_from_slice(&src_port.to_be_bytes());
    packet.extend_from_slice(&dst_port.to_be_bytes());
    packet.extend_from_slice(&[
        0x00, 0x00, 0x00, 0x01, 0x00, 0x00, 0x00, 0x00, 0x50, 0x02, 0xff, 0xff, 0x00, 0x00, 0x00,
        0x00,
    ]);
    packet
}

fn empty_aggregate() -> AggregateStats {
    StatsCollector::with_cpus(1, 1).aggregate_at(0)
}

fn figures() -> ReportFigures {
    ReportFigures {
        uptime_secs: "12.50".to_string(),
        pps: "3.00".to_string(),
        mbps: "0.25".to_string(),
        tcp_percent: "100.00".to_string(),
        udp_percent: "0.00".to_string(),
        icmp_percent: "0.00".to_string(),
        ipv6_percent: "0.00".to_string(),
        arp_percent: "0.00".to_string(),
    }
}

/// The record as a JSON object.
fn record_json(record: &PacketRecord) -> String {
    let text = |value: &Option<String>| match value {
        Some(value) => serde_json::Value::from(value.clone()),
        None => serde_json::Value::Null,
    };
    let number = |value: Option<u64>| match value {
        Some(value) => serde_json::Value::from(value),
        None => serde_json::Value::Null,
    };
    let mut object = serde_json::Map::new();
    object.insert("timestamp_ns".to_string(), serde_json::Value::from(record.timestamp_ns));
    object.insert("capture_len".to_string(), serde_json::Value::from(record.capture_len));
    object.insert("protocol".to_string(), serde_json::Value::from(record.protocol.clone()));
    object.insert("src_ip".to_string(), text(&record.src_ip));
    object.insert("dst_ip".to_string(), text(&record.dst_ip));
    object.insert("src_port".to_string(), number(record.src_port.map(u64::from)));
    object.insert("dst_port".to_string(), number(record.dst_port.map(u64::from)));
    object.insert("tcp_flags".to_string(), number(record.tcp_flags.map(u64::from)));
    object.insert("payload_len".to_string(), serde_json::Value::from(record.payload_len));
    serde_json::to_string(&serde_json::Value::Object(object)).unwrap()
}

#[test]
fn test_console_output_creation() {
    let output = ConsoleOutput::new(Vec::<u8>::new());
    assert_eq!(output.name(), "console");
}

#[test]
fn test_console_output_emit() {
    let mut output = ConsoleOutput::new(Vec::<u8>::new());

    let data = vec![0u8; 64];
    let mut packet = ParsedPacket::new(&data);
    packet.protocol = Protocol::Tcp;

    output.emit(&packet);
    assert_eq!(output.packet_count, 1);
}

#[test]
fn test_json_output_creation() {
    let output = JsonOutput::new(Vec::<u8>::new());
    assert_eq!(output.name(), "json");
}

#[test]
fn test_json_packet_serialization() {
    let data = vec![0u8; 64];
    let mut packet = ParsedPacket::new(&data);
    packet.protocol = Protocol::Tcp;
    packet.flow_key = Some(FlowKey::new(
        IpAddr::V4(Ipv4Addr::new(192, 168, 1, 1)),
        IpAddr::V4(Ipv4Addr::new(10, 0, 0, 1)),
        12345,
        80,
        Protocol::Tcp,
    ));
    packet.capture_len = 64;

    let record = PacketRecord::from(&packet);
    let json = record_json(&record);

    assert!(json.contains("tcp"));
    assert!(json.contains("192.168.1.1"));
}

#[test]
fn test_prometheus_metrics_creation() {
    let metrics = PrometheusMetrics::new().unwrap();
    assert!(metrics.gather().contains("network_packets_total"));
}

#[test]
fn test_prometheus_metrics_update() {
    let mut metrics = PrometheusMetrics::new().unwrap();

    let stats = AggregateStats {
        total_packets: 1000,
        total_bytes: 1500000,
        tcp_packets: 800,
        udp_packets: 150,
        icmp_packets: 50,
        ipv6_packets: 100,
        arp_packets: 0,
        other_packets: 0,
        dropped: 0,
        parse_errors: 0,
        ..empty_aggregate()
    };
    let pps = 1000.0f64;
    let bps = 12000000.0f64;
    let share = |packets: u64| (packets as f64 / 1000.0 * 1500000.0) as u64;
    let figures = MetricFigures {
        tcp_bytes: share(800),
        udp_bytes: share(150),
        icmp_bytes: share(50),
        pps: pps as i64,
        bytes_per_second: (bps / 8.0) as i64,
    };

    metrics.update(&stats, &figures);

    let output = metrics.gather();
    assert!(output.contains("network_packets_total"));
    assert!(output.contains("network_bytes_total"));
}

#[test]
fn test_console_output() {
    let mut output = ConsoleOutput::new(Vec::<u8>::new());

    let packet = create_test_tcp_packet(12345, 80);
    let mut parser = PacketParser::new();
    let parsed = parser.parse(&packet).unwrap();

    output.emit(&parsed);
    output.flush().unwrap();

    assert_eq!(output.name(), "console");
}

#[test]
fn reports_are_spaced_by_whole_seconds() {
    let mut timer = ReportTimer::new(2);
    assert!(timer.is_due_at(500));
    assert!(!timer.is_due_at(2_000_000_499));
    assert!(timer.is_due_at(2_000_000_500));
    assert!(!timer.is_due_at(0));
    let mut always = ReportTimer::new(0);
    assert!(always.is_due_at(5));
    assert!(always.is_due_at(5));
    assert!(always.is_due());
    let mut now = ReportTimer::new(1000);
    assert!(now.is_due());
    assert!(!now.is_due());
}

#[test]
fn lines_for_packets() {
    let mut output = ConsoleOutput::new(()).with_verbose(true);
    let packet = create_test_tcp_packet(12345, 80);
    let parsed = PacketParser::new().parse(&packet).unwrap();
    output.emit(&parsed);
    assert_eq!(output.lines, "[1] 192.168.1.1:12345 → 10.0.0.1:80 (Tcp, 54 bytes)\n");
    let data = vec![0u8; 64];
    output.emit(&ParsedPacket::new(&data));
    assert_eq!(
        output.take_lines(),
        "[1] 192.168.1.1:12345 → 10.0.0.1:80 (Tcp, 54 bytes)\n\
         [2] -:- → -:- (Unknown, 64 bytes)\n"
    );
    assert_eq!(output.take_lines(), "");
    let mut quiet = ConsoleOutput::new(());
    quiet.emit(&parsed);
    assert_eq!(quiet.lines, "");
    assert_eq!(quiet.packet_count, 1);
}

#[test]
fn a_whole_report() {
    let mut collector = StatsCollector::with_cpus(1, 10);
    let packet = create_test_tcp_packet(12345, 80);
    let parsed = PacketParser::new().parse(&packet).unwrap();
    collector.record_packet_at(&parsed, 54, 1);
    collector.record_drop();
    let report = collector.generate_report();
    let line = "=".repeat(60);
    let expected = format!(
        "\n{line}\nZero-Copy Network Analyzer - Statistics Report\n{line}\n\n\
         Uptime: 12.50s | Flows: 1 | Packets: 1 | Bytes: 54\n\
         Rate: 3.00 pps | 0.25 Mbps\n\n\
         Protocol Distribution:\n\
         \u{20} TCP:   100.00% (1)\n\
         \u{20} UDP:     0.00% (0)\n\
         \u{20} ICMP:    0.00% (0)\n\
         \u{20} IPv6:    0.00% (0)\n\
         \u{20} ARP:     0.00% (0)\n\n\
         Top 10 Flows by Bytes:\n\
         {:<8} {:<44} {:>12} {:>10}\n{}\n\
         {:<8} {:<44} {:>12} {:>10}\n\n\
         Errors:\n\
         \u{20} Dropped:      1\n\
         \u{20} Parse errors: 0\n\n\
         {line}\n",
        "#",
        "Flow",
        "Bytes",
        "Packets",
        "-".repeat(80),
        1,
        "192.168.1.1:12345 → 10.0.0.1:80",
        54,
        1
    );
    assert_eq!(render_report(&report, &figures()), expected);
}

#[test]
fn a_report_without_flows_and_errors() {
    let report = minimal_report(&empty_aggregate());
    assert_eq!(report.flow_stats, FlowTableStats::default());
    let text = render_report(&report, &figures());
    assert!(text.contains("Flows: 0 | Packets: 0"));
    assert!(!text.contains("Top 10"));
    assert!(!text.contains("Errors"));
}

#[test]
fn the_console_reports_when_it_is_due() {
    let mut output = ConsoleOutput::new(()).with_report_interval(5);
    let report = minimal_report(&empty_aggregate());
    assert!(output.write_report_at(&report, &figures(), 0).is_some());
    assert!(output.write_report_at(&report, &figures(), 4_999_999_999).is_none());
    assert!(output.write_report_at(&report, &figures(), 5_000_000_000).is_some());
    let mut output = ConsoleOutput::new(()).with_report_interval(1000);
    assert!(output.write_report(&report, &figures()).is_some());
    assert!(output.write_report(&report, &figures()).is_none());
    let stats = AggregateStats { dropped: 9, ..empty_aggregate() };
    output.report_stats(&stats).unwrap();
    assert_eq!(output.take_report().unwrap().aggregate, stats);
    assert!(output.take_report().is_none());
}

#[test]
fn records_of_packets() {
    let packet = create_test_tcp_packet(12345, 80);
    let mut parsed = PacketParser::new().parse(&packet).unwrap();
    let record = PacketRecord::from_at(&parsed, 77);
    assert_eq!(record.timestamp_ns, 77);
    assert_eq!(record.capture_len, 54);
    assert_eq!(record.protocol, "Tcp");
    assert_eq!(record.src_ip.unwrap(), "192.168.1.1");
    assert_eq!(record.dst_ip.unwrap(), "10.0.0.1");
    assert_eq!(record.src_port, Some(12345));
    assert_eq!(record.dst_port, Some(80));
    assert_eq!(record.tcp_flags, Some(0x02));
    assert_eq!(record.payload_len, 0);
    parsed.timestamp_ns = Some(5);
    assert_eq!(PacketRecord::from_at(&parsed, 77).timestamp_ns, 5);
    assert_eq!(PacketRecord::from(&parsed).timestamp_ns, 5);
    let data = vec![0u8; 4];
    let record = PacketRecord::from_at(&ParsedPacket::new(&data), 1);
    assert!(record.src_ip.is_none() && record.tcp_flags.is_none());
    assert_eq!(record.protocol, "Unknown");
}

#[test]
fn json_records_only_where_they_are_wanted() {
    let packet = create_test_tcp_packet(1, 2);
    let parsed = PacketParser::new().parse(&packet).unwrap();
    let mut output = JsonOutput::new(());
    output.emit(&parsed);
    assert!(output.take_records().is_empty());
    let mut output = output.with_packets(true).with_report_interval(1000);
    output.emit(&parsed);
    output.emit(&parsed);
    let records = output.take_records();
    assert_eq!(records.len(), 2);
    assert_eq!(records[0].src_port, Some(1));
    assert!(output.records.is_empty());

    assert!(output.take_report().is_none());
    let stats = AggregateStats { dropped: 9, ..empty_aggregate() };
    output.report_stats(&stats).unwrap();
    assert_eq!(output.take_report().unwrap().aggregate.dropped, 9);
    output.report_stats(&stats).unwrap();
    assert!(output.take_report().is_none());
    output.flush().unwrap();
}

#[test]
fn json_reports_are_given_when_they_are_due() {
    let mut output = JsonOutput::new(()).with_report_interval(2);
    assert!(output.take_report_at(10).is_none());
    let stats = AggregateStats { dropped: 9, ..empty_aggregate() };
    output.report_stats(&stats).unwrap();
    assert_eq!(output.take_report_at(10).unwrap().aggregate.dropped, 9);
    output.report_stats(&stats).unwrap();
    assert!(output.take_report_at(2_000_000_009).is_none());
    output.report_stats(&stats).unwrap();
    assert!(output.take_report_at(2_000_000_010).is_some());

    let mut output = JsonOutput::new(()).with_report_interval(0);
    for _ in 0..2 {
        output.report_stats(&stats).unwrap();
        assert!(output.take_report().is_some());
    }
}

#[test]
fn metrics_show_the_totals() {
    let mut metrics = PrometheusMetrics::default();
    let stats = AggregateStats {
        tcp_packets: 3,
        other_packets: 2,
        dropped: 7,
        ..empty_aggregate()
    };
    let figures = MetricFigures {
        tcp_bytes: 100,
        udp_bytes: 0,
        icmp_bytes: 0,
        pps: -1,
        bytes_per_second: 40,
    };
    metrics.update(&stats, &figures);
    metrics.update(&stats, &figures);
    metrics.set_active_flows(12);
    let text = metrics.gather();
    for line in [
        "network_packets_total{protocol=\"tcp\"} 3",
        "network_packets_total{protocol=\"udp\"} 0",
        "network_packets_total{protocol=\"other\"} 2",
        "network_bytes_total{protocol=\"tcp\"} 100",
        "network_dropped_packets_total{reason=\"ring_overflow\"} 7",
        "network_pps{protocol=\"total\"} -1",
        "network_bps{protocol=\"total\"} 40",
        "network_active_flows 12",
        "# HELP network_bps Bytes per second",
        "# TYPE network_packets_total counter",
    ] {
        assert!(text.lines().any(|l| l == line), "{}", line);
    }

    let later = AggregateStats { tcp_packets: 10, other_packets: 1, ..stats };
    metrics.update(&later, &figures);
    let text = metrics.gather();
    for line in [
        "network_packets_total{protocol=\"tcp\"} 10",
        "network_packets_total{protocol=\"other\"} 2",
    ] {
        assert!(text.lines().any(|l| l == line), "{}", line);
    }
}

#[test]
fn dropped_packets_appear_once_there_are_some() {
    let mut metrics = PrometheusMetrics::new().unwrap();
    let figures =
        MetricFigures { tcp_bytes: 0, udp_bytes: 0, icmp_bytes: 0, pps: 0, bytes_per_second: 0 };
    metrics.update(&empty_aggregate(), &figures);
    assert!(!metrics.gather().contains("ring_overflow"));
}

#[test]
fn messages_of_output_errors() {
    assert_eq!(OutputError::Io("gone".to_string()).to_string(), "IO error: gone");
    assert_eq!(OutputError::Json("bad".to_string()).to_string(), "JSON error: bad");
    assert_eq!(OutputError::Http("no".to_string()).to_string(), "HTTP server error: no");
    assert_eq!(
        OutputError::ChannelSend("full".to_string()).to_string(),
        "Channel send error: full"
    );
}

fn cli(output_format: &str) -> Cli {
    Cli {
        interface: "eth0".to_string(),
        queue_id: 1,
        umem_size: 1 << 21,
        frame_size: 0,
        fill_ring_size: 512,
        cpu_core: 3,
        flow_table_size: 100,
        flow_timeout_secs: 300,
        stats_interval_secs: 1,
        output_format: output_format.to_string(),
        prometheus_port: 9090,
        verbose: false,
        use_tpacket: false,
        pcap_file: None,
    }
}

#[test]
fn backends_by_name() {
    assert_eq!(cli("json").backend(), BackendKind::Json);
    assert_eq!(cli("prometheus").backend(), BackendKind::Prometheus);
    assert_eq!(cli("all").backend(), BackendKind::Console);
    assert_eq!(cli("JSON").backend(), BackendKind::Console);
}

#[test]
fn what_the_arguments_select() {
    let cli = cli("console");
    let config = cli.capture_config();
    assert_eq!(config.interface, "eth0");
    assert_eq!(config.queue_id, 1);
    assert_eq!(config.umem_size, 1 << 21);
    assert_eq!(config.frame_size, 2048);
    assert_eq!(config.fill_ring_size, 512);
    assert_eq!(config.cpu_core, 3);
    assert_eq!(cli.engine(), EngineKind::Xdp);
    assert_eq!(cli.log_level(), "info");
    let verbose = Cli { verbose: true, use_tpacket: true, ..cli };
    assert_eq!(verbose.engine(), EngineKind::Tpacket);
    assert_eq!(verbose.log_level(), "debug");
    assert!(verbose.capture_config().use_tpacket);
}
