use zero_copy_analyzer::parser::ethernet::{parse_ethernet, parse_vlan_tag};
use zero_copy_analyzer::parser::ip::{parse_ipv4, parse_ipv6};
use zero_copy_analyzer::parser::transport::{
    parse_icmp, parse_icmpv6, parse_tcp, parse_udp, TcpOptionKind,
};
use zero_copy_analyzer::parser::{
    EtherType, FlowKey, IpAddr, IpHeader, IpVersion, Ipv4Addr, PacketParser, ParseError,
    ParsedPacket, Protocol,
};

/// A TCP SYN from 192.168.1.1 to 10.0.0.1.
fn create_test_tcp_packet(src_port: u16, dst_port: u16) -> Vec<u8> {
    let mut packet = Vec::with_capacity(64);
    packet.extend_from_slice(&[
        0xff, 0xff, 0xff, 0xff, 0xff, 0xff, 0x00, 0x11, 0x22, 0x33, 0x44, 0x55, 0x08, 0x00,
    ]);
    packet.extend_from_slice(&[
        0x45, 0x00, 0x00, 0x28, 0x00, 0x01, 0x40, 0x00, 0x40, 0x06, 0x00, 0x00, 0xc0, 0xa8, 0x01,
        0x01, 0x0a, 0x00, 0x00, 0x01,
    ]);
    packet.extend_from_slice(&src_port.to_be_bytes());
    packet.extend_from_slice(&dst_port.to_be_bytes());
    packet.extend_from_slice(&[
        0x00, 0x00, 0x00, 0x01, 0x00, 0x00, 0x00, 0x00, 0x50, 0x02, 0xff, 0xff, 0x00, 0x00, 0x00,
        0x00,
    ]);
    packet
}

/// A UDP packet from 192.168.1.1 to 8.8.8.8.
fn create_test_udp_packet(src_port: u16, dst_port: u16) -> Vec<u8> {
    let mut packet = Vec::with_capacity(42);
    packet.extend_from_slice(&[
        0xff, 0xff, 0xff, 0xff, 0xff, 0xff, 0x00, 0x11, 0x22, 0x33, 0x44, 0x55, 0x08, 0x00,
    ]);
    packet.extend_from_slice(&[
        0x45, 0x00, 0x00, 0x1c, 0x00, 0x01, 0x40, 0x00, 0x40, 0x11, 0x00, 0x00, 0xc0, 0xa8, 0x01,
        0x01, 0x08, 0x08, 0x08, 0x08,
    ]);
    packet.extend_from_slice(&src_port.to_be_bytes());
    packet.extend_from_slice(&dst_port.to_be_bytes());
    packet.extend_from_slice(&[0x00, 0x08, 0x00, 0x00]);
    packet
}

/// An Ethernet and an IPv6 header that announces `next_header`, followed by `rest`.
fn create_ipv6_packet(next_header: u8, rest: &[u8]) -> Vec<u8> {
    let mut packet = vec![
        0xff, 0xff, 0xff, 0xff, 0xff, 0xff, 0x00, 0x11, 0x22, 0x33, 0x44, 0x55, 0x86, 0xdd,
    ];
    packet.extend_from_slice(&[0x60, 0x00, 0x00, 0x00, 0x00, 0x14, next_header, 0x40]);
    packet.extend_from_slice(&[0xfe, 0x80, 0, 0, 0, 0, 0, 0, 0, 0, 0, 0, 0, 0, 0, 1]);
    packet.extend_from_slice(&[0xfe, 0x80, 0, 0, 0, 0, 0, 0, 0, 0, 0, 0, 0, 0, 0, 2]);
    packet.extend_from_slice(rest);
    packet
}

const TCP_SYN: [u8; 20] = [
    0x00, 0x50, 0xc0, 0xa8, 0x00, 0x00, 0x00, 0x01, 0x00, 0x00, 0x00, 0x00, 0x50, 0x02, 0xff, 0xff,
    0x00, 0x00, 0x00, 0x00,
];

#[test]
fn test_parse_ethernet_ipv4() {
    let mut data = [0u8; 14];
    data[12] = 0x08;
    data[13] = 0x00;

    let (header, offset) = parse_ethernet(&data).unwrap();
    assert_eq!(offset, 14);
    assert_eq!(header.ether_type, EtherType::Ipv4);
}

#[test]
fn test_parse_ethernet_ipv6() {
    let mut data = [0u8; 14];
    data[12] = 0x86;
    data[13] = 0xDD;

    let (header, _) = parse_ethernet(&data).unwrap();
    assert_eq!(header.ether_type, EtherType::Ipv6);
}

#[test]
fn test_is_broadcast() {
    let data = [0xFFu8; 14];
    let (header, _) = parse_ethernet(&data).unwrap();
    assert!(header.is_broadcast());
}

#[test]
fn test_is_multicast() {
    let mut data = [0u8; 14];
    data[0] = 0x01;
    let (header, _) = parse_ethernet(&data).unwrap();
    assert!(header.is_multicast());
}

#[test]
fn test_too_short() {
    let data = [0u8; 10];
    assert!(parse_ethernet(&data).is_err());
}

#[test]
fn test_parse_ipv4_basic() {
    let data = [
        0x45, 0x00, 0x00, 0x28, 0x00, 0x00, 0x40, 0x00, 0x40, 0x06, 0x00, 0x00, 0xc0, 0xa8, 0x01,
        0x01, 0x0a, 0x00, 0x00, 0x01,
    ];

    let (header, len) = parse_ipv4(&data).unwrap();
    assert_eq!(len, 20);
    assert_eq!(header.version(), IpVersion::V4);
    assert_eq!(header.src_addr, Ipv4Addr::new(192, 168, 1, 1));
    assert_eq!(header.dst_addr, Ipv4Addr::new(10, 0, 0, 1));
    assert_eq!(header.protocol, Protocol::Tcp);
    assert!(header.dont_fragment());
}

#[test]
fn test_invalid_version() {
    let data = [0x50; 20];
    assert!(matches!(parse_ipv4(&data), Err(ParseError::InvalidIpVersion(5))));
}

#[test]
fn test_too_short_ipv4() {
    let data = [0x45; 15];
    assert!(matches!(parse_ipv4(&data), Err(ParseError::TooShort { .. })));
}

#[test]
fn test_flow_key_reverse() {
    let key = FlowKey::new(
        IpAddr::V4(Ipv4Addr::new(192, 168, 1, 1)),
        IpAddr::V4(Ipv4Addr::new(10, 0, 0, 1)),
        12345,
        80,
        Protocol::Tcp,
    );

    let rev = key.reverse();
    assert_eq!(rev.src_ip, IpAddr::V4(Ipv4Addr::new(10, 0, 0, 1)));
    assert_eq!(rev.dst_ip, IpAddr::V4(Ipv4Addr::new(192, 168, 1, 1)));
    assert_eq!(rev.src_port, 80);
    assert_eq!(rev.dst_port, 12345);
}

#[test]
fn test_parsed_packet_new() {
    let data = vec![0u8; 64];
    let parsed = ParsedPacket::new(&data);
    assert_eq!(parsed.data.len(), 64);
    assert!(parsed.ethernet.is_none());
}

#[test]
fn test_parse_tcp_basic() {
    let data = [
        0x00, 0x50, 0xc0, 0xa8, 0x00, 0x00, 0x00, 0x01, 0x00, 0x00, 0x00, 0x00, 0x50, 0x02, 0xff,
        0xff, 0x00, 0x00, 0x00, 0x00,
    ];

    let (header, len) = parse_tcp(&data).unwrap();
    assert_eq!(header.src_port, 80);
    assert_eq!(header.dst_port, 49320);
    assert_eq!(len, 20);
    assert!(header.syn);
    assert!(!header.ack_flag);
}

#[test]
fn test_parse_udp_basic() {
    let data = [0x00, 0x35, 0xc0, 0xa8, 0x00, 0x0c, 0x00, 0x00];

    let (header, len) = parse_udp(&data).unwrap();
    assert_eq!(header.src_port, 53);
    assert_eq!(header.payload_len(), 4);
    assert_eq!(len, 8);
}

#[test]
fn test_icmp_echo_request() {
    let data = [0x08, 0x00, 0x00, 0x00, 0x00, 0x01, 0x00, 0x01];

    let (header, _) = parse_icmp(&data).unwrap();
    assert!(header.is_echo_request());
    assert_eq!(header.identifier(), Some(1));
    assert_eq!(header.sequence(), Some(1));
}

#[test]
fn test_parser_basic_tcp() {
    let packet = create_test_tcp_packet(12345, 80);
    let mut parser = PacketParser::new();

    let result = parser.parse(&packet);
    assert!(result.is_ok());

    let parsed = result.unwrap();
    assert_eq!(parsed.protocol, Protocol::Tcp);
    assert!(parsed.tcp.is_some());
    assert_eq!(parsed.tcp.unwrap().src_port, 12345);
    assert_eq!(parsed.tcp.unwrap().dst_port, 80);
}

#[test]
fn test_parser_basic_udp() {
    let packet = create_test_udp_packet(54321, 53);
    let mut parser = PacketParser::new();

    let result = parser.parse(&packet);
    assert!(result.is_ok());

    let parsed = result.unwrap();
    assert_eq!(parsed.protocol, Protocol::Udp);
    assert!(parsed.udp.is_some());
    assert_eq!(parsed.udp.unwrap().src_port, 54321);
    assert_eq!(parsed.udp.unwrap().dst_port, 53);
}

#[test]
fn test_flow_key_generation() {
    let packet = create_test_tcp_packet(12345, 80);
    let mut parser = PacketParser::new();

    let parsed = parser.parse(&packet).unwrap();
    assert!(parsed.flow_key.is_some());

    let flow_key = parsed.flow_key.unwrap();
    assert_eq!(flow_key.src_port, 12345);
    assert_eq!(flow_key.dst_port, 80);
    assert_eq!(flow_key.protocol, Protocol::Tcp);
}

#[test]
fn test_ipv6_parsing() {
    let mut packet = Vec::with_capacity(74);
    packet.extend_from_slice(&[
        0xff, 0xff, 0xff, 0xff, 0xff, 0xff, 0x00, 0x11, 0x22, 0x33, 0x44, 0x55, 0x86, 0xdd,
    ]);
    packet.extend_from_slice(&[
        0x60, 0x00, 0x00, 0x00, 0x00, 0x14, 0x06, 0x40, 0xfe, 0x80, 0x00, 0x00, 0x00, 0x00, 0x00,
        0x00, 0x00, 0x00, 0x00, 0x00, 0x00, 0x00, 0x00, 0x01, 0xfe, 0x80, 0x00, 0x00, 0x00, 0x00,
        0x00, 0x00, 0x00, 0x00, 0x00, 0x00, 0x00, 0x00, 0x00, 0x02,
    ]);
    packet.extend_from_slice(&TCP_SYN);

    let mut parser = PacketParser::new();
    let result = parser.parse(&packet);

    assert!(result.is_ok());
    let parsed = result.unwrap();
    assert_eq!(parsed.protocol, Protocol::Tcp);
    assert!(parsed.ip.is_some());
    assert!(parsed.ip.as_ref().unwrap().version().is_v6());
}

#[test]
fn test_vlan_parsing() {
    let mut packet = Vec::with_capacity(68);
    packet.extend_from_slice(&[
        0xff, 0xff, 0xff, 0xff, 0xff, 0xff, 0x00, 0x11, 0x22, 0x33, 0x44, 0x55, 0x81, 0x00, 0x00,
        0x01, 0x08, 0x00,
    ]);
    packet.extend_from_slice(&[
        0x45, 0x00, 0x00, 0x28, 0x00, 0x01, 0x40, 0x00, 0x40, 0x06, 0x00, 0x00, 0xc0, 0xa8, 0x01,
        0x01, 0x0a, 0x00, 0x00, 0x01,
    ]);
    packet.extend_from_slice(&TCP_SYN);

    let mut parser = PacketParser::new();
    let result = parser.parse(&packet);

    assert!(result.is_ok());
    let parsed = result.unwrap();
    assert!(!parsed.vlan_tags.is_empty());
    assert_eq!(parsed.vlan_tags[0], 1);
}

#[test]
fn ether_type_numbers_map_back() {
    for number in [0x0800u16, 0x0806, 0x86DD, 0x8100, 0x88CC, 0x1234, 0x0000, 0xFFFF] {
        let ether_type = EtherType::from(number);
        let back = u16::from(ether_type);
        assert!(back == number || ether_type == EtherType::from(back));
    }
    assert_eq!(EtherType::from(0x8100), EtherType::Vlan);
    assert_eq!(u16::from(EtherType::Ipv6), 0x86DD);
}

#[test]
fn protocol_numbers_map_back() {
    assert_eq!(Protocol::from(6u8), Protocol::Tcp);
    assert_eq!(Protocol::from(17u8), Protocol::Udp);
    assert_eq!(Protocol::from(1u8), Protocol::Icmp);
    assert_eq!(Protocol::from(58u8), Protocol::Icmpv6);
    assert_eq!(u8::from(Protocol::Tcp), 6);
    assert_eq!(u8::from(Protocol::Sctp), 132);
    assert_eq!(u8::from(Protocol::Mptcp), 6);
}

#[test]
fn vlan_tag_fields() {
    let (priority, drop_eligible, vid, next) = parse_vlan_tag(&[0xB0, 0x2A, 0x08, 0x00]).unwrap();
    assert_eq!(priority, 5);
    assert!(drop_eligible);
    assert_eq!(vid, 42);
    assert_eq!(next, EtherType::Ipv4);
    assert!(matches!(
        parse_vlan_tag(&[0xB0, 0x2A]),
        Err(ParseError::TooShort { expected: 4, actual: 2 })
    ));
}

#[test]
fn the_payload_lies_behind_the_vlan_tags() {
    let mut data = vec![0u8; 12];
    data.extend_from_slice(&[0x81, 0x00, 0x00, 0x2A, 0x81, 0x00, 0x00, 0x2B, 0x08, 0x00, 0x45]);
    let (header, offset) = parse_ethernet(&data).unwrap();
    assert_eq!(header.ether_type, EtherType::Vlan);
    assert_eq!(offset, 22);
    // The second tag is not there in full.
    assert_eq!(parse_ethernet(&data[..20]).unwrap().1, 18);
    assert_eq!(parse_ethernet(&data[..14]).unwrap().1, 14);
    data[16] = 0x08;
    assert_eq!(parse_ethernet(&data).unwrap().1, 18);
}

#[test]
fn the_nonce_flag_is_the_low_bit_of_the_offset_byte() {
    let mut data = create_test_tcp_packet(1, 2)[34..].to_vec();
    data.extend_from_slice(&[0; 12]);
    for (byte, ns) in [(0x50u8, false), (0x51, true), (0x80, false), (0x81, true), (0x5E, false)] {
        data[12] = byte;
        assert_eq!(parse_tcp(&data).unwrap().0.ns, ns);
    }
}

#[test]
fn mac_addresses_are_the_first_bytes() {
    let packet = create_test_tcp_packet(1, 2);
    let (header, _) = parse_ethernet(&packet).unwrap();
    assert_eq!(header.dst_mac_array(), [0xff; 6]);
    assert_eq!(header.src_mac_array(), [0x00, 0x11, 0x22, 0x33, 0x44, 0x55]);
    let parsed = PacketParser::new().parse(&packet).unwrap();
    assert_eq!(parsed.src_mac().unwrap(), &packet[6..12]);
    assert_eq!(parsed.dst_mac().unwrap(), &packet[0..6]);
}

#[test]
fn ipv4_options_follow_the_fixed_header() {
    let data = vec![
        0x46, 0x00, 0x00, 0x28, 0x00, 0x00, 0x40, 0x00, 0x40, 0x06, 0x00, 0x00, 0xc0, 0xa8, 0x01,
        0x01, 0x0a, 0x00, 0x00, 0x01, 0x01, 0x02, 0x03, 0x04,
    ];
    let (header, len) = parse_ipv4(&data).unwrap();
    assert_eq!(len, 24);
    assert_eq!(header.options.unwrap(), &[1, 2, 3, 4]);
}

#[test]
fn ipv4_header_errors() {
    let mut data = vec![0u8; 20];
    data[0] = 0x44;
    assert!(matches!(parse_ipv4(&data), Err(ParseError::InvalidIpHeaderLength(4))));
    data[0] = 0x46;
    assert!(matches!(
        parse_ipv4(&data),
        Err(ParseError::TooShort { expected: 24, actual: 20 })
    ));
    assert!(matches!(
        parse_ipv4(&data[..19]),
        Err(ParseError::TooShort { expected: 20, actual: 19 })
    ));
}

#[test]
fn ipv4_flags_and_fragments() {
    let mut data = vec![0u8; 20];
    data[0] = 0x45;
    data[6] = 0x20;
    data[7] = 0x03;
    let (header, _) = parse_ipv4(&data).unwrap();
    assert_eq!(header.flags, 1);
    assert_eq!(header.frag_offset, 3);
    assert!(header.is_fragment());
    assert!(!header.dont_fragment());
}

#[test]
fn ipv4_checksum_of_a_known_header() {
    let mut data = [
        0x45u8, 0x00, 0x00, 0x73, 0x00, 0x00, 0x40, 0x00, 0x40, 0x11, 0xb8, 0x61, 0xc0, 0xa8, 0x00,
        0x01, 0xc0, 0xa8, 0x00, 0xc7,
    ];
    assert!(parse_ipv4(&data).unwrap().0.verify_checksum());
    data[8] = 0x3f;
    assert!(!parse_ipv4(&data).unwrap().0.verify_checksum());
}

#[test]
fn ipv6_fields() {
    let packet = create_ipv6_packet(6, &TCP_SYN);
    let (header, len, next_header) = parse_ipv6(&packet[14..]).unwrap();
    assert_eq!(len, 40);
    assert_eq!(next_header, 6);
    assert_eq!(header.payload_len, 20);
    assert_eq!(header.hop_limit, 64);
    assert_eq!(header.src_addr[15], 1);
    assert_eq!(header.dst_addr[15], 2);
    assert!(!header.is_multicast());

    let mut labelled = packet[14..54].to_vec();
    labelled[0] = 0x6A;
    labelled[1] = 0xB1;
    labelled[2] = 0x23;
    labelled[3] = 0x45;
    let (header, _, _) = parse_ipv6(&labelled).unwrap();
    assert_eq!(header.traffic_class, 0xAB);
    assert_eq!(header.flow_label, 0x12345);

    labelled[0] = 0x40;
    assert!(matches!(parse_ipv6(&labelled), Err(ParseError::InvalidIpVersion(4))));
    assert!(matches!(
        parse_ipv6(&labelled[..39]),
        Err(ParseError::TooShort { expected: 40, actual: 39 })
    ));
}

#[test]
fn ip_header_accessors() {
    let packet = create_test_tcp_packet(1, 2);
    let parsed = PacketParser::new().parse(&packet).unwrap();
    let ip = parsed.ip.unwrap();
    assert!(ip.version().is_v4());
    assert_eq!(ip.protocol(), 6);
    assert_eq!(ip.header_len(), 20);
    assert_eq!(ip.src_addr(), IpAddr::from(Ipv4Addr::new(192, 168, 1, 1)));
    assert!(matches!(ip, IpHeader::V4(_)));
    assert!(ip.src_addr().is_ipv4());
    assert!(!ip.src_addr().is_ipv6());
}

#[test]
fn tcp_header_errors() {
    assert!(matches!(
        parse_tcp(&TCP_SYN[..19]),
        Err(ParseError::TooShort { expected: 20, actual: 19 })
    ));
    let mut data = TCP_SYN;
    data[12] = 0x40;
    assert!(matches!(parse_tcp(&data), Err(ParseError::InvalidTcpHeader)));
    data[12] = 0x60;
    assert!(matches!(parse_tcp(&data), Err(ParseError::InvalidTcpHeader)));
}

#[test]
fn tcp_options_are_read_in_order() {
    let mut data = TCP_SYN.to_vec();
    data[12] = 0x80;
    data.extend_from_slice(&[2, 4, 0x05, 0xb4, 1, 3, 3, 7, 4, 2, 0, 0]);
    let (header, len) = parse_tcp(&data).unwrap();
    assert_eq!(len, 32);
    let mut options = header.options_iter();
    assert!(matches!(options.next(), Some(TcpOptionKind::Mss(1460))));
    assert!(matches!(options.next(), Some(TcpOptionKind::Nop)));
    assert!(matches!(options.next(), Some(TcpOptionKind::WindowScale(7))));
    assert!(matches!(options.next(), Some(TcpOptionKind::SackPermitted)));
    while options.next().is_some() {}
    assert!(options.next().is_none());
}

#[test]
fn udp_and_icmp_headers_that_are_too_short() {
    assert!(matches!(
        parse_udp(&[0; 7]),
        Err(ParseError::TooShort { expected: 8, actual: 7 })
    ));
    assert!(matches!(
        parse_icmp(&[0; 3]),
        Err(ParseError::TooShort { expected: 4, actual: 3 })
    ));
    assert!(parse_icmpv6(&[128, 0, 0, 0]).is_ok());
}

#[test]
fn tcp_flags_of_packets() {
    let mut packet = create_test_tcp_packet(1, 2);
    let flags_at = 14 + 20 + 13;
    let mut parser = PacketParser::new();
    assert!(parser.parse(&packet).unwrap().is_tcp_syn());
    packet[flags_at] = 0x12;
    assert!(parser.parse(&packet).unwrap().is_tcp_syn_ack());
    assert!(!parser.parse(&packet).unwrap().is_tcp_syn());
    packet[flags_at] = 0x11;
    assert!(parser.parse(&packet).unwrap().is_tcp_fin());
    packet[flags_at] = 0x04;
    assert!(parser.parse(&packet).unwrap().is_tcp_rst());
}

#[test]
fn headers_and_payload_cover_the_packet() {
    let mut packet = create_test_tcp_packet(1, 2);
    packet.extend_from_slice(b"payload");
    let parsed = PacketParser::new().parse(&packet).unwrap();
    assert_eq!(parsed.header_len, 14 + 20 + 20);
    assert_eq!(parsed.payload_len, 7);
    assert_eq!(parsed.capture_len, packet.len());
    assert_eq!(parsed.payload(), b"payload");
    assert_eq!(parsed.src_port(), Some(1));
    assert_eq!(parsed.dst_port(), Some(2));
}

#[test]
fn stacked_vlan_tags() {
    let mut packet = vec![0u8; 12];
    packet.extend_from_slice(&[0x81, 0x00, 0x20, 0x05, 0x81, 0x00, 0x00, 0x06, 0x08, 0x06]);
    let parsed = PacketParser::new().parse(&packet).unwrap();
    assert_eq!(parsed.vlan_tags, vec![5, 6]);
    assert_eq!(parsed.protocol, Protocol::Arp);
    assert_eq!(parsed.header_len, 22);
    assert!(parsed.flow_key.is_none());

    assert!(matches!(
        PacketParser::new().parse(&packet[..16]),
        Err(ParseError::TooShort { expected: 18, actual: 16 })
    ));
}

#[test]
fn non_ip_frames() {
    let mut packet = vec![0u8; 20];
    packet[12] = 0x88;
    packet[13] = 0xcc;
    assert_eq!(PacketParser::new().parse(&packet).unwrap().protocol, Protocol::Lldp);
    packet[12] = 0x12;
    packet[13] = 0x34;
    let parsed = PacketParser::new().parse(&packet).unwrap();
    assert_eq!(parsed.protocol, Protocol::Unknown);
    assert_eq!(parsed.payload_len, 6);
}

#[test]
fn ipv6_protocols_without_extension_headers() {
    for (number, protocol) in [
        (4u8, Protocol::Ipv4),
        (50, Protocol::Esp),
        (59, Protocol::NoNextHeader),
        (132, Protocol::Sctp),
        (200, Protocol::Unknown),
    ] {
        let packet = create_ipv6_packet(number, &[0; 16]);
        let parsed = PacketParser::new().parse(&packet).unwrap();
        assert_eq!(parsed.protocol, protocol);
        assert_eq!(parsed.header_len, 54);
        assert!(parsed.flow_key.is_none());
    }
}

#[test]
fn ipv6_extension_headers_are_skipped() {
    // Destination options of 8 bytes, then an authentication header of 12.
    let mut rest = vec![51u8, 0, 0, 0, 0, 0, 0, 0];
    rest.extend_from_slice(&[6, 1, 0, 0, 0, 0, 0, 0, 0, 0, 0, 0]);
    rest.extend_from_slice(&TCP_SYN);
    let packet = create_ipv6_packet(60, &rest);
    let parsed = PacketParser::new().parse(&packet).unwrap();
    assert_eq!(parsed.protocol, Protocol::Tcp);
    assert_eq!(parsed.tcp.unwrap().src_port, 80);
    assert_eq!(parsed.header_len, 54 + 8 + 12 + 20);
}

#[test]
fn every_ipv6_extension_header_names_its_successor() {
    let parser = PacketParser::new();
    let data = [17u8, 0, 0, 0, 0, 0, 0, 0, 6];
    for number in [0u8, 43, 60] {
        let (protocol, len) = parser.parse_ipv6_extension_headers(&data, 0, number).unwrap();
        assert_eq!(protocol, Protocol::Udp);
        assert_eq!(len, 8);
    }
    // A routing header of 16 bytes from offset 1 on, then options.
    let mut data = vec![9u8, 60, 1];
    data.extend_from_slice(&[0; 14]);
    data.extend_from_slice(&[58, 0, 0, 0, 0, 0, 0, 0, 128]);
    let (protocol, len) = parser.parse_ipv6_extension_headers(&data, 1, 43).unwrap();
    assert_eq!(protocol, Protocol::Icmpv6);
    assert_eq!(len, 24);
}

#[test]
fn ipv6_hop_by_hop_options_are_skipped() {
    let mut rest = vec![6u8, 0, 0, 0, 0, 0, 0, 0];
    rest.extend_from_slice(&TCP_SYN);
    let packet = create_ipv6_packet(0, &rest);
    let parsed = PacketParser::new().parse(&packet).unwrap();
    assert_eq!(parsed.protocol, Protocol::Tcp);
    assert_eq!(parsed.tcp.unwrap().src_port, 80);
    assert_eq!(parsed.header_len, 54 + 8 + 20);
}

#[test]
fn ipv6_extension_headers_beyond_the_data() {
    let parser = PacketParser::new();
    assert!(matches!(
        parser.parse_ipv6_extension_headers(&[6, 0], usize::MAX, 60),
        Err(ParseError::TooShort { expected: usize::MAX, actual: 2 })
    ));
    assert!(matches!(
        parser.parse_ipv6_extension_headers(&[6, 0], usize::MAX, 44),
        Err(ParseError::TruncatedIpHeader)
    ));
    let (protocol, len) = parser.parse_ipv6_extension_headers(&[], 9, 6).unwrap();
    assert_eq!(protocol, Protocol::Tcp);
    assert_eq!(len, 0);
}

#[test]
fn ipv6_fragments_end_the_walk() {
    let packet = create_ipv6_packet(44, &[6, 0, 0, 0, 0, 0, 0, 0, 1]);
    let parsed = PacketParser::new().parse(&packet).unwrap();
    assert_eq!(parsed.protocol, Protocol::Fragment);
    assert_eq!(parsed.header_len, 54 + 8);
    assert_eq!(parsed.payload_len, 1);
}

#[test]
fn truncated_ipv6_extension_headers() {
    let mut parser = PacketParser::new();
    assert!(matches!(
        parser.parse(&create_ipv6_packet(44, &[0; 8])),
        Err(ParseError::TruncatedIpHeader)
    ));
    assert!(matches!(
        parser.parse(&create_ipv6_packet(60, &[6, 3, 0, 0])),
        Err(ParseError::TruncatedIpHeader)
    ));
    assert!(matches!(
        parser.parse(&create_ipv6_packet(43, &[6])),
        Err(ParseError::TooShort { expected: 56, actual: 55 })
    ));
}

#[test]
fn transport_header_may_be_missing_altogether() {
    let packet = create_test_tcp_packet(1, 2);
    let parsed = PacketParser::new().parse(&packet[..34]).unwrap();
    assert_eq!(parsed.protocol, Protocol::Tcp);
    assert!(parsed.tcp.is_none());
    assert_eq!(parsed.flow_key.unwrap().src_port, 0);
    assert!(PacketParser::new().parse(&packet[..40]).is_err());
}

#[test]
fn icmp_packets_have_flows_without_ports() {
    let mut packet = create_test_tcp_packet(1, 2);
    packet[14 + 9] = 1;
    let parsed = PacketParser::new().parse(&packet).unwrap();
    assert_eq!(parsed.protocol, Protocol::Icmp);
    assert!(parsed.icmp.is_some());
    assert!(parsed.tcp.is_none());
    assert_eq!(parsed.header_len, 38);
    let key = parsed.flow_key.unwrap();
    assert_eq!((key.src_port, key.dst_port), (0, 0));
    assert_eq!(parsed.transport_protocol(), Some(Protocol::Icmp));
    assert_eq!(PacketParser::new().get_transport_protocol(Protocol::Arp), None);
}

#[test]
fn reversing_a_key_twice_gives_it_back() {
    let key = FlowKey::new(
        IpAddr::V6([1; 16]),
        IpAddr::V4(Ipv4Addr::new(10, 0, 0, 1)),
        1,
        2,
        Protocol::Udp,
    );
    assert!(key.reverse() != key);
    assert_eq!(key.reverse().reverse(), key);
}

#[test]
fn texts_of_addresses_and_keys() {
    let key = FlowKey::new(
        IpAddr::V4(Ipv4Addr::new(192, 168, 1, 1)),
        IpAddr::V6([0xfe, 0x80, 0, 0, 0, 0, 0, 0, 0, 0, 0, 0, 0, 0, 0xab, 0x0f]),
        12345,
        80,
        Protocol::Tcp,
    );
    assert_eq!(key.src_ip.to_string(), "192.168.1.1");
    assert_eq!(key.dst_ip.to_string(), "fe80:0000:0000:0000:0000:0000:0000:ab0f");
    assert_eq!(
        key.to_string(),
        "192.168.1.1:12345 -> fe80:0000:0000:0000:0000:0000:0000:ab0f:80 (Tcp)"
    );
}

#[test]
fn messages_of_parse_errors() {
    let message = |error: ParseError| error.to_string();
    assert_eq!(
        message(ParseError::TooShort { expected: 20, actual: 7 }),
        "Packet too short: expected 20 bytes, got 7"
    );
    assert_eq!(message(ParseError::InvalidIpVersion(5)), "Invalid IP version: 5");
    assert_eq!(message(ParseError::InvalidIpHeaderLength(4)), "Invalid IP header length: 4");
    assert_eq!(message(ParseError::UnknownNextHeader(255)), "Unknown next header: 255");
    assert_eq!(message(ParseError::UnsupportedProtocol(0)), "Unsupported protocol: 0");
    assert_eq!(message(ParseError::TruncatedIpHeader), "Truncated IP header");
    assert_eq!(message(ParseError::InvalidIcmpHeader), "Invalid ICMP header");
    assert_eq!(message(ParseError::InvalidEthernet), "Invalid Ethernet frame");
}

#[test]
fn tagging_a_packet_keeps_its_headers() {
    for packet in [
        create_test_tcp_packet(7, 8),
        create_test_udp_packet(9, 10),
        create_ipv6_packet(6, &TCP_SYN),
        create_ipv6_packet(44, &[6, 0, 0, 0, 0, 0, 0, 0, 1]),
    ] {
        let mut tagged = packet[..12].to_vec();
        tagged.extend_from_slice(&[0x81, 0x00, 0xF0, 0x2A]);
        tagged.extend_from_slice(&packet[12..]);
        let mut parser = PacketParser::new();
        let before = parser.parse(&packet).unwrap();
        let after = parser.parse(&tagged).unwrap();
        assert_eq!(after.vlan_tags, vec![42]);
        assert_eq!(after.protocol, before.protocol);
        assert_eq!(after.flow_key, before.flow_key);
        assert_eq!(after.header_len, before.header_len + 4);
        assert_eq!(after.payload_len, before.payload_len);
        assert_eq!(after.src_port(), before.src_port());
        assert_eq!(after.src_ip(), before.src_ip());
        assert_eq!(after.ethernet.unwrap().ether_type, before.ethernet.unwrap().ether_type);
    }
}

#[test]
fn a_checksum_of_all_ones_or_zero() {
    // The other words add up to all ones.
    let mut data = [0u8; 20];
    data[0] = 0x45;
    data[2] = 0xba;
    data[3] = 0xff;
    assert!(parse_ipv4(&data).unwrap().0.verify_checksum());
    data[10] = 0xff;
    data[11] = 0xff;
    assert!(parse_ipv4(&data).unwrap().0.verify_checksum());
    data[11] = 0xfe;
    assert!(!parse_ipv4(&data).unwrap().0.verify_checksum());
}

#[test]
fn flags_of_a_tcp_header() {
    let mut data = TCP_SYN;
    let (header, _) = parse_tcp(&data).unwrap();
    assert!(header.is_syn() && !header.is_ack() && !header.is_syn_ack());
    data[13] = 0x12;
    let (header, _) = parse_tcp(&data).unwrap();
    assert!(header.is_syn_ack() && header.is_ack());
    data[13] = 0x05;
    let (header, _) = parse_tcp(&data).unwrap();
    assert!(header.is_fin() && header.is_rst());
    assert!(!header.is_syn());
}

#[test]
fn types_of_icmp_messages() {
    let header = |icmp_type: u8| [icmp_type, 0, 0xAB, 0xCD];
    assert!(parse_icmp(&header(0)).unwrap().0.is_echo_reply());
    assert!(parse_icmp(&header(3)).unwrap().0.is_dest_unreachable());
    assert!(parse_icmp(&header(11)).unwrap().0.is_time_exceeded());
    let (header, len) = (parse_icmp(&header(8)).unwrap().0.checksum, 4);
    assert_eq!((header, len), (0xABCD, 4));
    assert_eq!(parse_icmp(&[8, 0, 0, 0]).unwrap().0.identifier(), None);
    assert_eq!(parse_icmp(&[8, 0, 0, 0, 0, 9]).unwrap().0.sequence(), None);
}

#[test]
fn protocol_numbers_come_from_the_header() {
    let mut packet = create_test_tcp_packet(1, 2);
    for number in [1u8, 6, 47, 89, 255] {
        packet[23] = number;
        let (header, _) = parse_ipv4(&packet[14..]).unwrap();
        assert_eq!(IpHeader::V4(header).protocol(), number);
    }
}
