//! What holds of every packet that parses.

use crate::bytes::be16;
use crate::parser::ethernet::{ether_type_of, ethernet_of, EthernetModel};
use crate::parser::ip::ipv6_of;
use crate::parser::packet::{
    extension_headers, extension_len, has_flows, is_extension, network_of, packet_of,
    transport_of, vlan_stack,
};
use crate::parser::{EtherType, ParseError, Protocol};
use vstd::prelude::*;

verus! {

/// Where a packet parses, its headers lie within it, what follows them is payload, and
/// no byte is counted twice.
pub proof fn packet_headers_in_bounds(packet: Seq<u8>)
    requires
        packet.len() <= usize::MAX,
    ensures
        packet_of(packet) matches Ok(parsed) ==> {
            &&& 14 + 4 * parsed.vlan_tags.len() <= parsed.header_len <= packet.len()
            &&& parsed.payload_len + parsed.header_len == packet.len()
            &&& parsed.capture_len == packet.len()
            &&& parsed.data == packet
        },
{
    if let Ok(ethernet) = ethernet_of(packet) {
        vlan_stack_in_bounds(packet, 14, ethernet.ether_type);
        if let Ok((tags, ether_type, at)) = vlan_stack(packet, 14, ethernet.ether_type) {
            if ether_type == EtherType::Ipv6 {
                if let Ok(v6) = ipv6_of(packet.skip(at)) {
                    extension_headers_in_bounds(packet, at + 40, v6.next_header);
                }
            }
        }
    }
}

pub(crate) proof fn vlan_stack_in_bounds(packet: Seq<u8>, at: int, ether_type: EtherType)
    requires
        at <= packet.len(),
    ensures
        vlan_stack(packet, at, ether_type) matches Ok((tags, last, end)) ==> end == at + 4
            * tags.len() && end <= packet.len() && last != EtherType::Vlan,
    decreases packet.len() - at,
{
    if ether_type == EtherType::Vlan && at + 4 <= packet.len() {
        vlan_stack_in_bounds(
            packet,
            at + 4,
            ether_type_of(be16(packet[at + 2], packet[at + 3])),
        );
    }
}

pub(crate) proof fn extension_headers_in_bounds(packet: Seq<u8>, at: int, next_header: u8)
    requires
        0 <= at <= packet.len(),
    ensures
        extension_headers(packet, at, next_header) matches Ok((_, end)) ==> at <= end
            <= packet.len(),
    decreases packet.len() - at,
{
    if is_extension(next_header) {
        if at + 2 <= packet.len() {
            let end = at + extension_len(next_header, packet[at + 1]);
            if end < packet.len() {
                extension_headers_in_bounds(packet, end, packet[at]);
            }
        }
    }
}

/// A packet has a flow key exactly where it has an IP header and carries a protocol
/// that flows are tracked for; the key then repeats the addresses of that header and
/// the ports of the transport header.
pub proof fn flow_key_agrees_with_headers(packet: Seq<u8>)
    ensures
        packet_of(packet) matches Ok(parsed) ==> {
            &&& parsed.flow_key is Some <==> parsed.ip is Some && has_flows(parsed.protocol)
            &&& parsed.flow_key matches Some(key) ==> {
                &&& key.protocol == parsed.protocol
                &&& key.src_ip == parsed.ip->Some_0.src_addr()
                &&& key.dst_ip == parsed.ip->Some_0.dst_addr()
                &&& parsed.tcp matches Some(tcp) ==> key.src_port == tcp.src_port && key.dst_port
                    == tcp.dst_port
                &&& parsed.udp matches Some(udp) ==> key.src_port == udp.src_port && key.dst_port
                    == udp.dst_port
                &&& parsed.tcp is None && parsed.udp is None ==> key.src_port == 0 && key.dst_port
                    == 0
            }
        },
{
}

/// At most one transport header is found, and only the one of the packet's protocol.
pub proof fn one_transport_header(packet: Seq<u8>)
    ensures
        packet_of(packet) matches Ok(parsed) ==> {
            &&& parsed.tcp is Some ==> parsed.protocol == Protocol::Tcp
            &&& parsed.udp is Some ==> parsed.protocol == Protocol::Udp
            &&& parsed.icmp is Some ==> parsed.protocol == Protocol::Icmp || parsed.protocol
                == Protocol::Icmpv6
        },
{
}

/// The MAC addresses are the packet's first bytes, and a TCP or UDP header is the bytes
/// directly before the payload: headers are borrowed, not copied.
#[verifier::rlimit(40)]
pub proof fn headers_borrow_the_packet(packet: Seq<u8>)
    requires
        packet.len() <= usize::MAX,
    ensures
        packet_of(packet) matches Ok(parsed) ==> {
            &&& parsed.ethernet matches Some(ethernet) && ethernet.dst_mac == packet.subrange(0, 6)
                && ethernet.src_mac == packet.subrange(6, 12)
            &&& parsed.tcp matches Some(tcp) ==> tcp.raw == packet.subrange(
                parsed.header_len - tcp.header_len,
                parsed.header_len + 0,
            )
            &&& parsed.udp matches Some(udp) ==> udp.raw == packet.subrange(
                parsed.header_len - 8,
                parsed.header_len + 0,
            )
        },
{
    packet_headers_in_bounds(packet);
    if let Ok(ethernet) = ethernet_of(packet) {
        vlan_stack_in_bounds(packet, 14, ethernet.ether_type);
        if let Ok((tags, ether_type, at)) = vlan_stack(packet, 14, ethernet.ether_type) {
            if ether_type == EtherType::Ipv6 {
                if let Ok(v6) = ipv6_of(packet.skip(at)) {
                    extension_headers_in_bounds(packet, at + 40, v6.next_header);
                }
            }
            if let Ok((ip, protocol, end)) = network_of(packet, at, ether_type) {
                let rest = packet.skip(end);
                if let Ok(transport) = transport_of(protocol, rest) {
                    let len = transport.header_len();
                    assert(rest.subrange(0, len) =~= packet.subrange(end, end + len));
                }
            }
        }
    }
}

/// `packet` with a VLAN tag put behind its MAC addresses.
pub open spec fn tagged(packet: Seq<u8>, tci_hi: u8, tci_lo: u8) -> Seq<u8> {
    packet.take(12) + seq![0x81u8, 0x00u8, tci_hi, tci_lo] + packet.skip(12)
}

/// Behind the tag, everything lies four bytes further on.
proof fn tagged_is_shifted(packet: Seq<u8>, tci_hi: u8, tci_lo: u8, at: int)
    requires
        12 <= at <= packet.len(),
    ensures
        tagged(packet, tci_hi, tci_lo).len() == packet.len() + 4,
        tagged(packet, tci_hi, tci_lo).skip(at + 4) == packet.skip(at),
        forall|i: int|
            12 <= i < packet.len() ==> tagged(packet, tci_hi, tci_lo)[i + 4] == #[trigger] packet[i],
{
    assert(tagged(packet, tci_hi, tci_lo).skip(at + 4) =~= packet.skip(at));
}

proof fn vlan_stack_shifted(packet: Seq<u8>, hi: u8, lo: u8, at: int, ether_type: EtherType)
    requires
        12 <= at <= packet.len(),
        vlan_stack(packet, at, ether_type) is Ok,
    ensures
        ({
            let found = vlan_stack(packet, at, ether_type)->Ok_0;
            vlan_stack(tagged(packet, hi, lo), at + 4, ether_type) == Ok::<
                _,
                ParseError,
            >((found.0, found.1, found.2 + 4))
        }),
    decreases packet.len() - at,
{
    if ether_type == EtherType::Vlan {
        let next = ether_type_of(be16(packet[at + 2], packet[at + 3]));
        tagged_is_shifted(packet, hi, lo, at);
        vlan_stack_shifted(packet, hi, lo, at + 4, next);
        let t = tagged(packet, hi, lo);
        assert(t[at + 4] == packet[at] && t[at + 1 + 4] == packet[at + 1] && t[at + 2 + 4]
            == packet[at + 2] && t[at + 3 + 4] == packet[at + 3]);
    }
}

proof fn extension_headers_shifted(packet: Seq<u8>, hi: u8, lo: u8, at: int, next_header: u8)
    requires
        12 <= at <= packet.len(),
        extension_headers(packet, at, next_header) is Ok,
    ensures
        ({
            let found = extension_headers(packet, at, next_header)->Ok_0;
            extension_headers(tagged(packet, hi, lo), at + 4, next_header) == Ok::<
                _,
                ParseError,
            >((found.0, found.1 + 4))
        }),
    decreases packet.len() - at,
{
    tagged_is_shifted(packet, hi, lo, at);
    if is_extension(next_header) {
        let t = tagged(packet, hi, lo);
        let end = at + extension_len(next_header, packet[at + 1]);
        assert(t[at + 1 + 4] == packet[at + 1] && t[at + 4] == packet[at]);
        extension_headers_shifted(packet, hi, lo, end, packet[at]);
    }
}

proof fn link_layer_shifted(packet: Seq<u8>, hi: u8, lo: u8)
    requires
        packet.len() >= 14,
        vlan_stack(packet, 14, ethernet_of(packet)->Ok_0.ether_type) is Ok,
    ensures
        ({
            let before = ethernet_of(packet)->Ok_0;
            let found = vlan_stack(packet, 14, before.ether_type)->Ok_0;
            let t = tagged(packet, hi, lo);
            &&& ethernet_of(t) == Ok::<_, ParseError>(
                EthernetModel { ether_type: EtherType::Vlan, ..before },
            )
            &&& vlan_stack(t, 14, EtherType::Vlan) == Ok::<_, ParseError>(
                (seq![be16(hi, lo) % 0x1000] + found.0, found.1, found.2 + 4),
            )
        }),
{
    let t = tagged(packet, hi, lo);
    let before = ethernet_of(packet)->Ok_0;
    tagged_is_shifted(packet, hi, lo, 14);
    assert(t.subrange(0, 6) =~= packet.subrange(0, 6));
    assert(t.subrange(6, 12) =~= packet.subrange(6, 12));
    assert(t[12] == 0x81 && t[13] == 0x00 && t[14] == hi && t[15] == lo);
    assert(t[16] == packet[12] && t[17] == packet[13]);
    assert(be16(0x81, 0x00) == 0x8100);
    vlan_stack_shifted(packet, hi, lo, 14, before.ether_type);
}

proof fn network_shifted(packet: Seq<u8>, hi: u8, lo: u8, at: int, ether_type: EtherType)
    requires
        12 <= at <= packet.len(),
        network_of(packet, at, ether_type) is Ok,
    ensures
        ({
            let found = network_of(packet, at, ether_type)->Ok_0;
            &&& network_of(tagged(packet, hi, lo), at + 4, ether_type) == Ok::<_, ParseError>(
                (found.0, found.1, found.2 + 4),
            )
            &&& at <= found.2 <= packet.len()
        }),
{
    tagged_is_shifted(packet, hi, lo, at);
    if ether_type == EtherType::Ipv6 {
        let v6 = ipv6_of(packet.skip(at))->Ok_0;
        extension_headers_in_bounds(packet, at + 40, v6.next_header);
        extension_headers_shifted(packet, hi, lo, at + 40, v6.next_header);
    }
}

/// A VLAN tag changes nothing that lies behind it: a packet that parses still does when
/// it is tagged, with the tag's identifier in front of the others, the same headers and
/// the same flow, and a header that is four bytes longer.
#[verifier::rlimit(40)]
pub proof fn tagging_keeps_the_headers(packet: Seq<u8>, tci_hi: u8, tci_lo: u8)
    requires
        packet.len() + 4 <= usize::MAX,
        packet_of(packet) is Ok,
    ensures
        packet_of(tagged(packet, tci_hi, tci_lo)) matches Ok(after) && ({
            let before = packet_of(packet)->Ok_0;
            &&& after.vlan_tags == seq![be16(tci_hi, tci_lo) % 0x1000] + before.vlan_tags
            &&& after.ethernet == before.ethernet
            &&& after.ip == before.ip
            &&& after.protocol == before.protocol
            &&& after.tcp == before.tcp
            &&& after.udp == before.udp
            &&& after.icmp == before.icmp
            &&& after.flow_key == before.flow_key
            &&& after.header_len == before.header_len + 4
            &&& after.payload_len == before.payload_len
        }),
{
    let ethernet = ethernet_of(packet)->Ok_0;
    packet_headers_in_bounds(packet);
    vlan_stack_in_bounds(packet, 14, ethernet.ether_type);
    link_layer_shifted(packet, tci_hi, tci_lo);
    let (tags, ether_type, at) = vlan_stack(packet, 14, ethernet.ether_type)->Ok_0;
    network_shifted(packet, tci_hi, tci_lo, at, ether_type);
    let (ip, protocol, end) = network_of(packet, at, ether_type)->Ok_0;
    tagged_is_shifted(packet, tci_hi, tci_lo, end);
}

} // verus!
