//! What a dissected packet says of the frame it was read from: where in the frame each
//! header, address, port and tag lies.

use crate::bytes::be16;
use crate::parser::address::ipv4_addr_octets;
use crate::parser::ethernet::{
    ether_type_number, ether_type_number_roundtrip, ether_type_of, ethernet_of,
};
use crate::parser::header_laws::{
    ether_types_are_assigned, four_bytes, network_bytes, two_bytes, word_bytes,
};
use crate::parser::ip::{ipv4_of, ipv6_of, parse_ipv4, parse_ipv6};
use crate::parser::packet::{
    extension_headers, is_extension, network_of, packet_of, transport_of, vlan_stack,
    TransportModel,
};
use crate::parser::packet_laws::{extension_headers_in_bounds, packet_headers_in_bounds, tagged};
use crate::parser::transport::{parse_icmp, parse_icmpv6, parse_tcp, parse_udp, protocol_of};
use crate::parser::{
    EtherType, IcmpHeader, IpAddr, IpHeader, Ipv4Header, Ipv6Header, PacketParser, ParseError,
    ParseResult, ParsedPacket, Protocol, TcpHeader, UdpHeader,
};
use vstd::prelude::*;

verus! {

/// The offset behind the Ethernet header and `tags` VLAN tags.
pub open spec fn behind_tags(tags: nat) -> int {
    14 + 4 * (tags as int)
}

/// The bytes that announce an 802.1Q tag.
pub open spec fn tag_bytes() -> Seq<u8> {
    seq![0x81u8, 0x00u8]
}

/// Two bytes are what is announced at `at` where each of them is.
proof fn announces(packet: Seq<u8>, at: int, hi: u8, lo: u8)
    requires
        2 <= at <= packet.len(),
    ensures
        packet.subrange(at - 2, at) == seq![hi, lo] <==> packet[at - 2] == hi && packet[at - 1]
            == lo,
{
    let announced = packet.subrange(at - 2, at);
    assert(announced[0] == packet[at - 2] && announced[1] == packet[at - 1]);
    if packet[at - 2] == hi && packet[at - 1] == lo {
        assert(announced =~= seq![hi, lo]);
    } else {
        assert(seq![hi, lo][0] == hi && seq![hi, lo][1] == lo);
    }
}

proof fn stack_is_in_the_frame(packet: Seq<u8>, at: int, ether_type: EtherType, i: int)
    requires
        2 <= at <= packet.len(),
        ether_type == ether_type_of(be16(packet[at - 2], packet[at - 1])),
        0 <= i,
        vlan_stack(packet, at, ether_type) is Ok,
    ensures
        ({
            let (tags, last, end) = vlan_stack(packet, at, ether_type)->Ok_0;
            &&& end == at + 4 * tags.len()
            &&& end <= packet.len()
            &&& i < tags.len() ==> {
                &&& packet.subrange(at - 2 + 4 * i, at + 4 * i) == tag_bytes()
                &&& tags[i] == (packet[at + 4 * i] % 16) * 0x100 + packet[at + 4 * i + 1]
            }
            &&& packet.subrange(end - 2, end) != tag_bytes()
            &&& network_bytes(ether_type_number(last) as nat, 2) == packet.subrange(end - 2, end)
            &&& last == ether_type_of(be16(packet[end - 2], packet[end - 1]))
        }),
    decreases packet.len() - at,
{
    let number = be16(packet[at - 2], packet[at - 1]);
    ether_types_are_assigned(number);
    if ether_type == EtherType::Vlan {
        let next = ether_type_of(be16(packet[at + 2], packet[at + 3]));
        let (tags, last, end) = vlan_stack(packet, at + 4, next)->Ok_0;
        if i == 0 {
            assert(packet.subrange(at - 2, at) =~= tag_bytes());
            let tci = packet[at] * 0x100 + packet[at + 1];
            assert(tci % 0x1000 == (packet[at] % 16) * 0x100 + packet[at + 1]);
            stack_is_in_the_frame(packet, at + 4, next, 0);
        } else {
            stack_is_in_the_frame(packet, at + 4, next, i - 1);
        }
    } else {
        two_bytes(packet, at - 2);
        ether_type_number_roundtrip(number);
        if packet.subrange(at - 2, at) == tag_bytes() {
            assert(packet.subrange(at - 2, at)[0] == 0x81 && packet.subrange(at - 2, at)[1] == 0x00);
        }
    }
}

/// The addresses of the frame come first. Then, four bytes apart, come the tags, each behind
/// the bytes that announce one; the tags of the packet are their identifiers in order, and
/// the last type announces no tag.
pub proof fn tags_are_in_the_frame<'a>(
    parser: &mut PacketParser,
    data: &'a [u8],
    result: ParseResult<ParsedPacket<'a>>,
    i: int,
)
    requires
        call_ensures(PacketParser::parse, (parser, data), result),
        result is Ok,
        0 <= i,
    ensures
        ({
            let parsed = result->Ok_0;
            let at = behind_tags(parsed.vlan_tags@.len());
            &&& at <= data@.len()
            &&& parsed.data@ == data@
            &&& i < parsed.vlan_tags@.len() ==> {
                &&& data@.subrange(12 + 4 * i, 14 + 4 * i) == tag_bytes()
                &&& parsed.vlan_tags@[i] == (data@[14 + 4 * i] % 16) * 0x100 + data@[15 + 4 * i]
            }
            &&& data@.subrange(at - 2, at) != tag_bytes()
            &&& parsed.ethernet matches Some(ethernet) && {
                &&& ethernet.dst_mac@ == data@.subrange(0, 6)
                &&& ethernet.src_mac@ == data@.subrange(6, 12)
                &&& network_bytes(ether_type_number(ethernet.ether_type) as nat, 2)
                    == data@.subrange(at - 2, at)
            }
        }),
{
    let first = ethernet_of(data@)->Ok_0.ether_type;
    stack_is_in_the_frame(data@, 14, first, i);
}

/// A packet has an IPv4 header exactly where type 0800 is announced last, and an IPv6
/// header exactly where type 86DD is; the header is the bytes that follow, and so are its
/// addresses.
#[verifier::rlimit(40)]
pub proof fn addresses_are_in_the_frame<'a>(
    parser: &mut PacketParser,
    data: &'a [u8],
    result: ParseResult<ParsedPacket<'a>>,
)
    requires
        call_ensures(PacketParser::parse, (parser, data), result),
        result is Ok,
    ensures
        ({
            let parsed = result->Ok_0;
            let at = behind_tags(parsed.vlan_tags@.len());
            let announced = data@.subrange(at - 2, at);
            match parsed.ip {
                Some(IpHeader::V4(v4)) => {
                    &&& announced == seq![0x08u8, 0x00u8]
                    &&& v4.raw@ == data@.subrange(at, at + v4.header_len)
                    &&& v4.header_len == 4 * (data@[at] - 0x40)
                    &&& v4.src_addr@ == data@.subrange(at + 12, at + 16)
                    &&& v4.dst_addr@ == data@.subrange(at + 16, at + 20)
                    &&& parsed.protocol == protocol_of(data@[at + 9])
                    &&& v4.protocol == parsed.protocol
                },
                Some(IpHeader::V6(v6)) => {
                    &&& announced == seq![0x86u8, 0xDDu8]
                    &&& v6.raw@ == data@.subrange(at, at + 40)
                    &&& v6.src_addr@ == data@.subrange(at + 8, at + 24)
                    &&& v6.dst_addr@ == data@.subrange(at + 24, at + 40)
                    &&& v6.next_header == data@[at + 6]
                },
                None => {
                    &&& announced != seq![0x08u8, 0x00u8]
                    &&& announced != seq![0x86u8, 0xDDu8]
                    &&& parsed.protocol == Protocol::Arp <==> announced == seq![0x08u8, 0x06u8]
                    &&& parsed.protocol == Protocol::Lldp <==> announced == seq![0x88u8, 0xCCu8]
                    &&& parsed.protocol == Protocol::Arp || parsed.protocol == Protocol::Lldp
                        || parsed.protocol == Protocol::Unknown
                },
            }
        }),
{
    broadcast use ipv4_addr_octets;

    let s = data@;
    let parsed = result->Ok_0;
    let first = ethernet_of(s)->Ok_0.ether_type;
    stack_is_in_the_frame(s, 14, first, 0);
    let (tags, last, at) = vlan_stack(s, 14, first)->Ok_0;
    ether_types_are_assigned(be16(s[at - 2], s[at - 1]));
    announces(s, at, 0x08, 0x00);
    announces(s, at, 0x86, 0xDD);
    announces(s, at, 0x08, 0x06);
    announces(s, at, 0x88, 0xCC);
    let rest = s.skip(at);
    match parsed.ip {
        Some(IpHeader::V4(v4)) => {
            assert(v4@ == ipv4_of(rest)->Ok_0);
            assert(v4.raw@ =~= s.subrange(at, at + v4.header_len));
            assert(v4.src_addr@ =~= s.subrange(at + 12, at + 16));
            assert(v4.dst_addr@ =~= s.subrange(at + 16, at + 20));
        },
        Some(IpHeader::V6(v6)) => {
            assert(v6@ == ipv6_of(rest)->Ok_0);
            assert(v6.raw@ =~= s.subrange(at, at + 40));
            assert(v6.src_addr@ =~= s.subrange(at + 8, at + 24));
            assert(v6.dst_addr@ =~= s.subrange(at + 24, at + 40));
        },
        None => {},
    }
}

/// The end of the network layer of a packet that parses, and what lies there.
proof fn network_ends_before_the_transport<'a>(
    parser: &mut PacketParser,
    data: &'a [u8],
    result: ParseResult<ParsedPacket<'a>>,
) -> (end: int)
    requires
        call_ensures(PacketParser::parse, (parser, data), result),
        result is Ok,
    ensures
        ({
            let parsed = result->Ok_0;
            let at = behind_tags(parsed.vlan_tags@.len());
            let transport = transport_of(parsed.protocol, data@.skip(end));
            &&& at <= end <= data@.len()
            &&& transport is Ok
            &&& parsed.header_len == end + transport->Ok_0.header_len()
            &&& parsed.header_len <= data@.len()
            &&& parsed@.tcp == match transport->Ok_0 {
                TransportModel::Tcp(tcp) => Some(tcp),
                _ => None,
            }
            &&& parsed@.udp == match transport->Ok_0 {
                TransportModel::Udp(udp) => Some(udp),
                _ => None,
            }
            &&& parsed@.icmp == match transport->Ok_0 {
                TransportModel::Icmp(icmp) => Some(icmp),
                _ => None,
            }
            &&& parsed.ip matches Some(IpHeader::V4(v4)) ==> end == at + v4.header_len
            &&& parsed.ip matches Some(IpHeader::V6(v6)) ==> extension_headers(
                data@,
                at + 40,
                v6.next_header,
            ) == Ok::<_, ParseError>((parsed.protocol, end))
            &&& parsed.ip is None ==> end == at
        }),
{
    let s = data@;
    let first = ethernet_of(s)->Ok_0.ether_type;
    stack_is_in_the_frame(s, 14, first, 0);
    let (tags, last, at) = vlan_stack(s, 14, first)->Ok_0;
    let (ip, protocol, end) = network_of(s, at, last)->Ok_0;
    if last == EtherType::Ipv6 {
        let v6 = ipv6_of(s.skip(at))->Ok_0;
        extension_headers_in_bounds(s, at + 40, v6.next_header);
    }
    assert(data.len() == s.len());
    end
}

/// A TCP header is the bytes before the payload, and its ports are the first four of them;
/// it is as long as its own offset field says.
pub proof fn tcp_is_in_the_frame<'a>(
    parser: &mut PacketParser,
    data: &'a [u8],
    result: ParseResult<ParsedPacket<'a>>,
)
    requires
        call_ensures(PacketParser::parse, (parser, data), result),
        result matches Ok(parsed) && parsed.tcp is Some,
    ensures
        ({
            let parsed = result->Ok_0;
            let tcp = parsed.tcp->Some_0;
            let at = parsed.header_len - tcp.header_len;
            &&& at >= 14
            &&& parsed.protocol == Protocol::Tcp
            &&& tcp.header_len == 4 * (data@[at + 12] / 16)
            &&& tcp.raw@ == data@.subrange(at, parsed.header_len as int)
            &&& word_bytes(tcp.src_port) == data@.subrange(at, at + 2)
            &&& word_bytes(tcp.dst_port) == data@.subrange(at + 2, at + 4)
            &&& network_bytes(tcp.seq as nat, 4) == data@.subrange(at + 4, at + 8)
            &&& network_bytes(tcp.ack as nat, 4) == data@.subrange(at + 8, at + 12)
            &&& parsed.ip matches Some(IpHeader::V4(v4)) ==> at == behind_tags(
                parsed.vlan_tags@.len(),
            ) + v4.header_len
        }),
{
    let s = data@;
    let at = network_ends_before_the_transport(parser, data, result);
    let tcp = result->Ok_0.tcp->Some_0;
    two_bytes(s, at);
    two_bytes(s, at + 2);
    four_bytes(s, at + 4);
    four_bytes(s, at + 8);
    assert(tcp.raw@ =~= s.subrange(at, at + tcp.header_len));
}

/// A UDP header is the eight bytes before the payload, and its ports are the first four of
/// them.
pub proof fn udp_is_in_the_frame<'a>(
    parser: &mut PacketParser,
    data: &'a [u8],
    result: ParseResult<ParsedPacket<'a>>,
)
    requires
        call_ensures(PacketParser::parse, (parser, data), result),
        result matches Ok(parsed) && parsed.udp is Some,
    ensures
        ({
            let parsed = result->Ok_0;
            let udp = parsed.udp->Some_0;
            let at = parsed.header_len - 8;
            &&& at >= 14
            &&& parsed.protocol == Protocol::Udp
            &&& udp.raw@ == data@.subrange(at, parsed.header_len as int)
            &&& word_bytes(udp.src_port) == data@.subrange(at, at + 2)
            &&& word_bytes(udp.dst_port) == data@.subrange(at + 2, at + 4)
            &&& word_bytes(udp.length) == data@.subrange(at + 4, at + 6)
            &&& parsed.ip matches Some(IpHeader::V4(v4)) ==> at == behind_tags(
                parsed.vlan_tags@.len(),
            ) + v4.header_len
        }),
{
    let s = data@;
    let at = network_ends_before_the_transport(parser, data, result);
    let udp = result->Ok_0.udp->Some_0;
    two_bytes(s, at);
    two_bytes(s, at + 2);
    two_bytes(s, at + 4);
    assert(udp.raw@ =~= s.subrange(at, at + 8));
}

/// An ICMP message takes up the packet from four bytes before the payload on.
pub proof fn icmp_is_in_the_frame<'a>(
    parser: &mut PacketParser,
    data: &'a [u8],
    result: ParseResult<ParsedPacket<'a>>,
)
    requires
        call_ensures(PacketParser::parse, (parser, data), result),
        result matches Ok(parsed) && parsed.icmp is Some,
    ensures
        ({
            let parsed = result->Ok_0;
            let icmp = parsed.icmp->Some_0;
            let at = parsed.header_len - 4;
            &&& at >= 14
            &&& parsed.protocol == Protocol::Icmp || parsed.protocol == Protocol::Icmpv6
            &&& icmp.icmp_type == data@[at]
            &&& icmp.code == data@[at + 1]
            &&& word_bytes(icmp.checksum) == data@.subrange(at + 2, at + 4)
            &&& icmp.rest@ == data@.skip(at + 4)
            &&& parsed.ip matches Some(IpHeader::V4(v4)) ==> at == behind_tags(
                parsed.vlan_tags@.len(),
            ) + v4.header_len
        }),
{
    let s = data@;
    let at = network_ends_before_the_transport(parser, data, result);
    let icmp = result->Ok_0.icmp->Some_0;
    two_bytes(s, at + 2);
    assert(icmp.rest@ =~= s.skip(at + 4));
}

/// A packet has the transport header of its protocol, unless nothing is left of it behind
/// the network layer; where it has none, the payload starts there.
pub proof fn transport_headers_are_found<'a>(
    parser: &mut PacketParser,
    data: &'a [u8],
    result: ParseResult<ParsedPacket<'a>>,
)
    requires
        call_ensures(PacketParser::parse, (parser, data), result),
        result is Ok,
    ensures
        ({
            let parsed = result->Ok_0;
            let at = behind_tags(parsed.vlan_tags@.len());
            let any = parsed.tcp is Some || parsed.udp is Some || parsed.icmp is Some;
            &&& parsed.header_len < data@.len() ==> {
                &&& parsed.tcp is Some <==> parsed.protocol == Protocol::Tcp
                &&& parsed.udp is Some <==> parsed.protocol == Protocol::Udp
                &&& parsed.icmp is Some <==> parsed.protocol == Protocol::Icmp || parsed.protocol
                    == Protocol::Icmpv6
            }
            &&& !any ==> (match parsed.ip {
                Some(IpHeader::V4(v4)) => parsed.header_len == at + v4.header_len,
                Some(IpHeader::V6(_)) => parsed.header_len >= at + 40,
                None => parsed.header_len == at,
            })
        }),
{
    let end = network_ends_before_the_transport(parser, data, result);
    let parsed = result->Ok_0;
    let at = behind_tags(parsed.vlan_tags@.len());
    if let Some(IpHeader::V6(v6)) = parsed.ip {
        addresses_are_in_the_frame(parser, data, result);
        extension_headers_in_bounds(data@, at + 40, v6.next_header);
    }
}

/// The flow of a packet is read from its frame: the addresses lie in the IP header, the
/// ports are the first four bytes of the TCP or UDP header and 0 without one, and the
/// protocol is the packet's. A packet over IP belongs to a flow exactly where its protocol
/// is TCP, UDP, ICMP or ICMPv6.
pub proof fn flows_are_in_the_frame<'a>(
    parser: &mut PacketParser,
    data: &'a [u8],
    result: ParseResult<ParsedPacket<'a>>,
)
    requires
        call_ensures(PacketParser::parse, (parser, data), result),
        result is Ok,
    ensures
        ({
            let parsed = result->Ok_0;
            let at = behind_tags(parsed.vlan_tags@.len());
            &&& parsed.flow_key is Some <==> parsed.ip is Some && (parsed.protocol == Protocol::Tcp
                || parsed.protocol == Protocol::Udp || parsed.protocol == Protocol::Icmp
                || parsed.protocol == Protocol::Icmpv6)
            &&& parsed.flow_key matches Some(key) ==> {
                &&& key.protocol == parsed.protocol
                &&& (key.src_ip is V4 && key.dst_ip is V4) || (key.src_ip is V6 && key.dst_ip is V6)
                &&& key.src_ip matches IpAddr::V4(v4) ==> v4@ == data@.subrange(at + 12, at + 16)
                &&& key.dst_ip matches IpAddr::V4(v4) ==> v4@ == data@.subrange(at + 16, at + 20)
                &&& key.src_ip matches IpAddr::V6(v6) ==> v6@ == data@.subrange(at + 8, at + 24)
                &&& key.dst_ip matches IpAddr::V6(v6) ==> v6@ == data@.subrange(at + 24, at + 40)
                &&& parsed.tcp matches Some(tcp) ==> word_bytes(key.src_port) == data@.subrange(
                    parsed.header_len - tcp.header_len,
                    parsed.header_len - tcp.header_len + 2,
                ) && word_bytes(key.dst_port) == data@.subrange(
                    parsed.header_len - tcp.header_len + 2,
                    parsed.header_len - tcp.header_len + 4,
                )
                &&& parsed.udp is Some ==> word_bytes(key.src_port) == data@.subrange(
                    parsed.header_len - 8,
                    parsed.header_len - 6,
                ) && word_bytes(key.dst_port) == data@.subrange(
                    parsed.header_len - 6,
                    parsed.header_len - 4,
                )
                &&& parsed.tcp is None && parsed.udp is None ==> key.src_port == 0 && key.dst_port
                    == 0
            }
        }),
{
    let parsed = result->Ok_0;
    addresses_are_in_the_frame(parser, data, result);
    if parsed.tcp is Some {
        tcp_is_in_the_frame(parser, data, result);
    }
    if parsed.udp is Some {
        udp_is_in_the_frame(parser, data, result);
    }
}

/// Headers and payload make up the packet, and nothing is lost of it.
pub proof fn payload_follows_the_headers<'a>(
    parser: &mut PacketParser,
    data: &'a [u8],
    result: ParseResult<ParsedPacket<'a>>,
    payload: &'a [u8],
)
    requires
        call_ensures(PacketParser::parse, (parser, data), result),
        result is Ok,
        call_ensures(ParsedPacket::payload, (&result->Ok_0,), payload),
    ensures
        ({
            let parsed = result->Ok_0;
            &&& data@.take(parsed.header_len as int) + payload@ == data@
            &&& payload@.len() == parsed.payload_len
            &&& parsed.capture_len == data@.len()
            &&& parsed.timestamp_ns is None
        }),
{
    let parsed = result->Ok_0;
    let end = network_ends_before_the_transport(parser, data, result);
    assert(data.len() == data@.len());
    packet_headers_in_bounds(data@);
    assert(data@.take(parsed.header_len as int) + payload@ =~= data@);
}

/// What is asked of a packet is answered by its headers.
pub proof fn packet_answers<'a>(
    parsed: ParsedPacket<'a>,
    mac: Option<&'a [u8]>,
    addr: Option<IpAddr>,
    port: Option<u16>,
    yes: bool,
    protocol: Option<Protocol>,
)
    ensures
        call_ensures(ParsedPacket::src_mac, (&parsed,), mac) ==> match (mac, parsed.ethernet) {
            (Some(mac), Some(ethernet)) => mac@ == ethernet.src_mac@,
            (mac, ethernet) => mac is None && ethernet is None,
        },
        call_ensures(ParsedPacket::dst_mac, (&parsed,), mac) ==> match (mac, parsed.ethernet) {
            (Some(mac), Some(ethernet)) => mac@ == ethernet.dst_mac@,
            (mac, ethernet) => mac is None && ethernet is None,
        },
        call_ensures(ParsedPacket::src_ip, (&parsed,), addr) ==> addr == match parsed.ip {
            Some(IpHeader::V4(v4)) => Some(IpAddr::V4(v4.src_addr)),
            Some(IpHeader::V6(v6)) => Some(IpAddr::V6(v6.src_addr)),
            None => None,
        },
        call_ensures(ParsedPacket::dst_ip, (&parsed,), addr) ==> addr == match parsed.ip {
            Some(IpHeader::V4(v4)) => Some(IpAddr::V4(v4.dst_addr)),
            Some(IpHeader::V6(v6)) => Some(IpAddr::V6(v6.dst_addr)),
            None => None,
        },
        call_ensures(ParsedPacket::src_port, (&parsed,), port) ==> match port {
            Some(port) => (parsed.tcp matches Some(tcp) && tcp.src_port == port) || (
            parsed.tcp is None && (parsed.udp matches Some(udp) && udp.src_port == port)),
            None => parsed.tcp is None && parsed.udp is None,
        },
        call_ensures(ParsedPacket::dst_port, (&parsed,), port) ==> match port {
            Some(port) => (parsed.tcp matches Some(tcp) && tcp.dst_port == port) || (
            parsed.tcp is None && (parsed.udp matches Some(udp) && udp.dst_port == port)),
            None => parsed.tcp is None && parsed.udp is None,
        },
        call_ensures(ParsedPacket::is_tcp_syn, (&parsed,), yes) && yes ==> (
        parsed.tcp matches Some(tcp) && tcp.syn && !tcp.ack_flag),
        call_ensures(ParsedPacket::is_tcp_syn, (&parsed,), yes) && !yes ==> (
        parsed.tcp matches Some(tcp) ==> !tcp.syn || tcp.ack_flag),
        call_ensures(ParsedPacket::is_tcp_syn_ack, (&parsed,), yes) && yes ==> (
        parsed.tcp matches Some(tcp) && tcp.syn && tcp.ack_flag),
        call_ensures(ParsedPacket::is_tcp_syn_ack, (&parsed,), yes) && !yes ==> (
        parsed.tcp matches Some(tcp) ==> !tcp.syn || !tcp.ack_flag),
        call_ensures(ParsedPacket::is_tcp_fin, (&parsed,), yes) ==> (yes
            <==> (parsed.tcp matches Some(tcp) && tcp.fin)),
        call_ensures(ParsedPacket::is_tcp_rst, (&parsed,), yes) ==> (yes
            <==> (parsed.tcp matches Some(tcp) && tcp.rst)),
        call_ensures(ParsedPacket::transport_protocol, (&parsed,), protocol) ==> protocol == (
        if parsed.protocol == Protocol::Tcp || parsed.protocol == Protocol::Udp || parsed.protocol
            == Protocol::Icmp || parsed.protocol == Protocol::Icmpv6 {
            Some(parsed.protocol)
        } else {
            None
        }),
{
}

/// A frame without tags that announces IPv4 or IPv6 parses only where its IP header does,
/// and else fails with the same error; the packet then holds that header.
pub proof fn ip_is_parsed_as_such<'a>(
    parser: &mut PacketParser,
    data: &'a [u8],
    result: ParseResult<ParsedPacket<'a>>,
    rest: &'a [u8],
    v4: ParseResult<(Ipv4Header<'a>, usize)>,
    v6: ParseResult<(Ipv6Header<'a>, usize, u8)>,
)
    requires
        call_ensures(PacketParser::parse, (parser, data), result),
        data@.len() >= 14,
        rest@ == data@.skip(14),
        call_ensures(parse_ipv4, (rest,), v4),
        call_ensures(parse_ipv6, (rest,), v6),
    ensures
        data@[12] == 0x08 && data@[13] == 0x00 ==> match v4 {
            Ok((header, _)) => result matches Ok(parsed) ==> (parsed.ip matches Some(
                IpHeader::V4(found),
            ) && found@ == header@),
            Err(error) => result matches Err(failed) && failed == error,
        },
        data@[12] == 0x86 && data@[13] == 0xDD ==> match v6 {
            Ok((header, _, _)) => result matches Ok(parsed) ==> (parsed.ip matches Some(
                IpHeader::V6(found),
            ) && found@ == header@),
            Err(error) => result matches Err(failed) && failed == error,
        },
{
    ether_types_are_assigned(be16(data@[12], data@[13]));
}

/// A frame that ends inside its Ethernet header or inside a tag is too short.
pub proof fn frames_that_end_early<'a>(
    parser: &mut PacketParser,
    data: &'a [u8],
    result: ParseResult<ParsedPacket<'a>>,
)
    requires
        call_ensures(PacketParser::parse, (parser, data), result),
    ensures
        data@.len() < 14 ==> (result matches Err(error) && error == (ParseError::TooShort {
            expected: 14,
            actual: data@.len() as usize,
        })),
        14 <= data@.len() < 18 && data@[12] == 0x81 && data@[13] == 0x00 ==> (
        result matches Err(error) && error == (ParseError::TooShort {
            expected: 18,
            actual: data@.len() as usize,
        })),
        14 <= data@.len() && data@[12] == 0x08 && data@[13] == 0x06 ==> result is Ok,
{
    if data@.len() >= 14 {
        ether_types_are_assigned(be16(data@[12], data@[13]));
    }
}

/// `packet` with `bytes` put in at offset `at`.
pub open spec fn inserted(packet: Seq<u8>, at: int, bytes: Seq<u8>) -> Seq<u8> {
    packet.take(at) + bytes + packet.skip(at)
}

proof fn walk_behind_an_insertion(
    packet: Seq<u8>,
    from: int,
    bytes: Seq<u8>,
    at: int,
    next_header: u8,
)
    requires
        0 <= from <= at <= packet.len(),
        extension_headers(packet, at, next_header) is Ok,
    ensures
        ({
            let (protocol, end) = extension_headers(packet, at, next_header)->Ok_0;
            extension_headers(inserted(packet, from, bytes), at + bytes.len(), next_header) == Ok::<
                _,
                ParseError,
            >((protocol, end + bytes.len()))
        }),
    decreases packet.len() - at,
{
    let longer = inserted(packet, from, bytes);
    if is_extension(next_header) {
        let end = at + crate::parser::packet::extension_len(next_header, packet[at + 1]);
        assert(longer[at + bytes.len()] == packet[at]);
        assert(longer[at + bytes.len() + 1] == packet[at + 1]);
        walk_behind_an_insertion(packet, from, bytes, end, packet[at]);
    }
}

/// An extension header that is put in front of what a packet holds changes only where that
/// is found: hop-by-hop options, a routing header and destination options take eight bytes
/// and eight more for each that they count, an authentication header takes eight bytes and
/// four more for each. Each names in its first byte what follows it.
pub proof fn extension_headers_are_skipped(
    parser: PacketParser,
    data: &[u8],
    found: ParseResult<(Protocol, usize)>,
    longer: &[u8],
    found_longer: ParseResult<(Protocol, usize)>,
    offset: usize,
    next_header: u8,
    number: u8,
    count: u8,
    body: Seq<u8>,
)
    requires
        call_ensures(
            PacketParser::parse_ipv6_extension_headers,
            (&parser, data, offset, next_header),
            found,
        ),
        found is Ok,
        offset < data@.len(),
        number == 0 || number == 43 || number == 60 || number == 51,
        body.len() + 2 == if number == 51 {
            8 + 4 * count
        } else {
            8 + 8 * count
        },
        longer@ == inserted(data@, offset as int, seq![next_header, count] + body),
        call_ensures(
            PacketParser::parse_ipv6_extension_headers,
            (&parser, longer, offset, number),
            found_longer,
        ),
    ensures
        found_longer matches Ok((protocol, len)) && protocol == found->Ok_0.0 && len
            == found->Ok_0.1 + 2 + body.len(),
{
    let header = seq![next_header, count] + body;
    walk_behind_an_insertion(data@, offset as int, header, offset as int, next_header);
    assert(longer@[offset as int] == next_header);
    assert(longer@[offset + 1] == count);
}

/// A number that is no extension header ends the walk where it is announced, and stands
/// for its protocol; a fragment header is taken up, and ends it too.
pub proof fn the_walk_ends_at_a_protocol(
    parser: PacketParser,
    data: &[u8],
    found: ParseResult<(Protocol, usize)>,
    offset: usize,
    next_header: u8,
)
    requires
        call_ensures(
            PacketParser::parse_ipv6_extension_headers,
            (&parser, data, offset, next_header),
            found,
        ),
    ensures
        next_header == 4 ==> (found matches Ok((p, len)) && p == Protocol::Ipv4 && len == 0),
        next_header == 6 ==> (found matches Ok((p, len)) && p == Protocol::Tcp && len == 0),
        next_header == 17 ==> (found matches Ok((p, len)) && p == Protocol::Udp && len == 0),
        next_header == 50 ==> (found matches Ok((p, len)) && p == Protocol::Esp && len == 0),
        next_header == 58 ==> (found matches Ok((p, len)) && p == Protocol::Icmpv6 && len == 0),
        next_header == 59 ==> (found matches Ok((p, len)) && p == Protocol::NoNextHeader && len
            == 0),
        next_header == 132 ==> (found matches Ok((p, len)) && p == Protocol::Sctp && len == 0),
        !seq![0u8, 4, 6, 17, 43, 44, 50, 51, 58, 59, 60, 132].contains(next_header) ==> (
        found matches Ok((p, len)) && p == Protocol::Unknown && len == 0),
        next_header == 44 && offset + 8 < data@.len() ==> (found matches Ok((p, len)) && p
            == Protocol::Fragment && len == 8),
        next_header == 44 && offset + 8 >= data@.len() ==> (found matches Err(error) && error
            == ParseError::TruncatedIpHeader),
{
    let known = seq![0u8, 4, 6, 17, 43, 44, 50, 51, 58, 59, 60, 132];
    assert(known[0] == 0 && known[1] == 4 && known[2] == 6 && known[3] == 17 && known[4] == 43
        && known[5] == 44 && known[6] == 50 && known[7] == 51 && known[8] == 58 && known[9] == 59
        && known[10] == 60 && known[11] == 132);
}

/// An extension header must be there with its length, and something must follow it.
pub proof fn cut_off_extension_headers_are_errors(
    parser: PacketParser,
    data: &[u8],
    found: ParseResult<(Protocol, usize)>,
    offset: usize,
    next_header: u8,
)
    requires
        call_ensures(
            PacketParser::parse_ipv6_extension_headers,
            (&parser, data, offset, next_header),
            found,
        ),
        next_header == 0 || next_header == 43 || next_header == 51 || next_header == 60,
    ensures
        offset + 2 > data@.len() && offset + 2 <= usize::MAX ==> (found matches Err(error) && error
            == (ParseError::TooShort {
            expected: (offset + 2) as usize,
            actual: data@.len() as usize,
        })),
        offset + 2 <= data@.len() && next_header != 51 && offset + 8 + 8 * data@[offset + 1]
            >= data@.len() ==> (found matches Err(error) && error == ParseError::TruncatedIpHeader),
        offset + 2 <= data@.len() && next_header == 51 && offset + 8 + 4 * data@[offset + 1]
            >= data@.len() ==> (found matches Err(error) && error == ParseError::TruncatedIpHeader),
{
}

/// The protocol of an IPv6 packet is the one behind its extension headers, and its headers
/// end behind them and the transport header.
pub proof fn ipv6_protocols_are_behind_the_extension_headers<'a>(
    parser: &mut PacketParser,
    data: &'a [u8],
    result: ParseResult<ParsedPacket<'a>>,
    walker: PacketParser,
    offset: usize,
    found: ParseResult<(Protocol, usize)>,
)
    requires
        call_ensures(PacketParser::parse, (parser, data), result),
        result matches Ok(parsed) && (parsed.ip matches Some(IpHeader::V6(_))),
        offset == behind_tags(result->Ok_0.vlan_tags@.len()) + 40,
        call_ensures(
            PacketParser::parse_ipv6_extension_headers,
            (&walker, data, offset, data@[offset - 34]),
            found,
        ),
    ensures
        ({
            let parsed = result->Ok_0;
            &&& found matches Ok((protocol, len)) && parsed.protocol == protocol
                && parsed.header_len == offset + len + (match (parsed.tcp, parsed.udp) {
                (Some(tcp), _) => tcp.header_len + 0,
                (_, Some(_)) => 8,
                _ => if parsed.icmp is Some {
                    4
                } else {
                    0
                },
            })
        }),
{
    let end = network_ends_before_the_transport(parser, data, result);
    addresses_are_in_the_frame(parser, data, result);
}

/// Whether a packet of `protocol` with `tail` behind its network layer comes out as its
/// transport header says: it holds the header that `tail` parses as, or fails with the
/// error of that header. Without such a header, or without a tail, it parses.
pub open spec fn comes_out_as<'a>(
    result: ParseResult<ParsedPacket<'a>>,
    protocol: Protocol,
    tail: Seq<u8>,
    tcp: ParseResult<(TcpHeader<'a>, usize)>,
    udp: ParseResult<(UdpHeader<'a>, usize)>,
    echo: ParseResult<(IcmpHeader<'a>, usize)>,
) -> bool {
    if tail.len() == 0 {
        result is Ok
    } else if protocol == Protocol::Tcp {
        match tcp {
            Ok((header, _)) => result matches Ok(parsed) && (parsed.tcp matches Some(found)
                && found@ == header@),
            Err(error) => result matches Err(failed) && failed == error,
        }
    } else if protocol == Protocol::Udp {
        match udp {
            Ok((header, _)) => result matches Ok(parsed) && (parsed.udp matches Some(found)
                && found@ == header@),
            Err(error) => result matches Err(failed) && failed == error,
        }
    } else if protocol == Protocol::Icmp || protocol == Protocol::Icmpv6 {
        match echo {
            Ok((header, _)) => result matches Ok(parsed) && (parsed.icmp matches Some(found)
                && found@ == header@),
            Err(error) => result matches Err(failed) && failed == error,
        }
    } else {
        result is Ok
    }
}

/// A frame without tags that holds an IPv4 header parses wherever the transport header
/// behind it does, with the headers that each parses as.
pub proof fn ipv4_packets_parse<'a>(
    parser: &mut PacketParser,
    data: &'a [u8],
    result: ParseResult<ParsedPacket<'a>>,
    rest: &'a [u8],
    v4: ParseResult<(Ipv4Header<'a>, usize)>,
    tail: &'a [u8],
    tcp: ParseResult<(TcpHeader<'a>, usize)>,
    udp: ParseResult<(UdpHeader<'a>, usize)>,
    echo: ParseResult<(IcmpHeader<'a>, usize)>,
)
    requires
        call_ensures(PacketParser::parse, (parser, data), result),
        data@.len() >= 14,
        data@[12] == 0x08 && data@[13] == 0x00,
        rest@ == data@.skip(14),
        call_ensures(parse_ipv4, (rest,), v4),
        v4 is Ok,
        tail@ == data@.skip(14 + v4->Ok_0.1),
        call_ensures(parse_tcp, (tail,), tcp),
        call_ensures(parse_udp, (tail,), udp),
        call_ensures(parse_icmp, (tail,), echo),
    ensures
        comes_out_as(result, v4->Ok_0.0.protocol, tail@, tcp, udp, echo),
        result matches Ok(parsed) ==> (parsed.ip matches Some(IpHeader::V4(found)) && found@
            == v4->Ok_0.0@),
{
    ether_types_are_assigned(be16(data@[12], data@[13]));
}

/// A frame without tags that holds an IPv6 header parses wherever its extension headers and
/// the transport header behind them do, with the headers that each parses as.
pub proof fn ipv6_packets_parse<'a>(
    parser: &mut PacketParser,
    data: &'a [u8],
    result: ParseResult<ParsedPacket<'a>>,
    rest: &'a [u8],
    v6: ParseResult<(Ipv6Header<'a>, usize, u8)>,
    walker: PacketParser,
    found: ParseResult<(Protocol, usize)>,
    tail: &'a [u8],
    tcp: ParseResult<(TcpHeader<'a>, usize)>,
    udp: ParseResult<(UdpHeader<'a>, usize)>,
    echo: ParseResult<(IcmpHeader<'a>, usize)>,
)
    requires
        call_ensures(PacketParser::parse, (parser, data), result),
        data@.len() >= 14,
        data@[12] == 0x86 && data@[13] == 0xDD,
        rest@ == data@.skip(14),
        call_ensures(parse_ipv6, (rest,), v6),
        v6 is Ok,
        call_ensures(
            PacketParser::parse_ipv6_extension_headers,
            (&walker, data, 54, v6->Ok_0.2),
            found,
        ),
        found matches Ok((_, len)) ==> tail@ == data@.skip(54 + len),
        call_ensures(parse_tcp, (tail,), tcp),
        call_ensures(parse_udp, (tail,), udp),
        call_ensures(parse_icmpv6, (tail,), echo),
    ensures
        match found {
            Ok((protocol, _)) => comes_out_as(result, protocol, tail@, tcp, udp, echo),
            Err(error) => result matches Err(failed) && failed == error,
        },
{
    ether_types_are_assigned(be16(data@[12], data@[13]));
}

/// A tag in front changes no error either: a frame that does not parse still does not when
/// it is tagged.
pub proof fn tagged_frames_fail_alike(packet: Seq<u8>, tci_hi: u8, tci_lo: u8)
    requires
        packet.len() + 4 <= usize::MAX,
        packet.len() >= 14,
        packet[12] == 0x08 && packet[13] == 0x00,
        packet_of(packet) is Err,
    ensures
        packet_of(tagged(packet, tci_hi, tci_lo)) == packet_of(packet),
{
    let t = tagged(packet, tci_hi, tci_lo);
    assert(t[12] == 0x81 && t[13] == 0x00 && t[16] == packet[12] && t[17] == packet[13]);
    ether_types_are_assigned(0x8100);
    ether_types_are_assigned(0x0800);
    assert(be16(0x81, 0x00) == 0x8100 && be16(0x08, 0x00) == 0x0800);
    assert(t.skip(18) =~= packet.skip(14));
    assert(vlan_stack(packet, 14, EtherType::Ipv4) == Ok::<_, ParseError>(
        (Seq::<u16>::empty(), EtherType::Ipv4, 14int),
    ));
    assert(vlan_stack(t, 18, EtherType::Ipv4) == Ok::<_, ParseError>(
        (Seq::<u16>::empty(), EtherType::Ipv4, 18int),
    ));
    if let Ok(v4) = ipv4_of(packet.skip(14)) {
        assert(t.skip(18 + v4.header_len) =~= packet.skip(14 + v4.header_len));
    }
}

/// A packet in which nothing was parsed yet is all payload.
pub proof fn raw_packets_are_payload<'a>(data: &'a [u8], parsed: ParsedPacket<'a>)
    requires
        call_ensures(ParsedPacket::new, (data,), parsed),
    ensures
        parsed.data@ == data@,
        parsed.header_len == 0,
        parsed.payload_len == data@.len(),
        parsed.capture_len == data@.len(),
        parsed.ethernet is None && parsed.ip is None && parsed.flow_key is None,
        parsed.tcp is None && parsed.udp is None && parsed.icmp is None,
        parsed.vlan_tags@.len() == 0,
        parsed.protocol == Protocol::Unknown,
{
    assert(data.len() == data@.len());
}

/// Flows are kept for TCP, UDP, ICMP and ICMPv6, and for nothing else.
pub proof fn four_protocols_have_flows(
    parser: PacketParser,
    protocol: Protocol,
    found: Option<Protocol>,
)
    requires
        call_ensures(PacketParser::get_transport_protocol, (&parser, protocol), found),
    ensures
        found is Some <==> protocol == Protocol::Tcp || protocol == Protocol::Udp || protocol
            == Protocol::Icmp || protocol == Protocol::Icmpv6,
        found is Some ==> found == Some(protocol),
{
}

} // verus!
