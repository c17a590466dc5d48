//! Flow keys as tuples of plain values, by which a hash map can find them.

use crate::parser::address::{ipv4_addr, ipv4_addr_is_its_octets};
use crate::parser::{FlowKey, IpAddr, Ipv4Addr, Protocol};
use vstd::prelude::*;

verus! {

/// A flow key in plain values: for the source and then the destination whether it is
/// an IPv6 address, and its octets, an IPv4 address followed by zeros; the two ports;
/// and the code of the protocol.
pub type FlowId = (bool, [u8; 16], bool, [u8; 16], u16, u16, u8);

/// The octets of an address, an IPv4 address followed by zeros.
pub open spec fn addr_octets(addr: IpAddr) -> [u8; 16] {
    match addr {
        IpAddr::V4(v4) => [v4@[0], v4@[1], v4@[2], v4@[3], 0, 0, 0, 0, 0, 0, 0, 0, 0, 0, 0, 0],
        IpAddr::V6(octets) => octets,
    }
}

/// The address with these octets.
pub open spec fn addr_with(v6: bool, octets: [u8; 16]) -> IpAddr {
    if v6 {
        IpAddr::V6(octets)
    } else {
        IpAddr::V4(ipv4_addr(octets@[0], octets@[1], octets@[2], octets@[3]))
    }
}

/// A code for each protocol.
pub open spec fn protocol_code(protocol: Protocol) -> u8 {
    match protocol {
        Protocol::Icmp => 0,
        Protocol::Igmp => 1,
        Protocol::Ipv4 => 2,
        Protocol::Tcp => 3,
        Protocol::Udp => 4,
        Protocol::Ipv6 => 5,
        Protocol::Ipv6Route => 6,
        Protocol::Ipv6Frag => 7,
        Protocol::Esp => 8,
        Protocol::Ah => 9,
        Protocol::Icmpv6 => 10,
        Protocol::NoNextHeader => 11,
        Protocol::Gre => 12,
        Protocol::Sctp => 13,
        Protocol::Mptcp => 14,
        Protocol::Fragment => 15,
        Protocol::Arp => 16,
        Protocol::Lldp => 17,
        Protocol::Unknown => 18,
    }
}

/// The protocol with the code `code`.
pub open spec fn protocol_with(code: u8) -> Protocol {
    match code {
        0 => Protocol::Icmp,
        1 => Protocol::Igmp,
        2 => Protocol::Ipv4,
        3 => Protocol::Tcp,
        4 => Protocol::Udp,
        5 => Protocol::Ipv6,
        6 => Protocol::Ipv6Route,
        7 => Protocol::Ipv6Frag,
        8 => Protocol::Esp,
        9 => Protocol::Ah,
        10 => Protocol::Icmpv6,
        11 => Protocol::NoNextHeader,
        12 => Protocol::Gre,
        13 => Protocol::Sctp,
        14 => Protocol::Mptcp,
        15 => Protocol::Fragment,
        16 => Protocol::Arp,
        17 => Protocol::Lldp,
        _ => Protocol::Unknown,
    }
}

/// `key` in plain values.
pub open spec fn flow_id(key: FlowKey) -> FlowId {
    (
        key.src_ip is V6,
        addr_octets(key.src_ip),
        key.dst_ip is V6,
        addr_octets(key.dst_ip),
        key.src_port,
        key.dst_port,
        protocol_code(key.protocol),
    )
}

/// The key that `id` stands for.
pub open spec fn key_with(id: FlowId) -> FlowKey {
    FlowKey {
        src_ip: addr_with(id.0, id.1),
        dst_ip: addr_with(id.2, id.3),
        src_port: id.4,
        dst_port: id.5,
        protocol: protocol_with(id.6),
    }
}

/// No two keys share their plain values.
pub broadcast proof fn flow_id_roundtrip(key: FlowKey)
    ensures
        key_with(#[trigger] flow_id(key)) == key,
{
    broadcast use ipv4_addr_is_its_octets;

}

fn addr_to_octets(addr: &IpAddr) -> (octets: [u8; 16])
    ensures
        octets == addr_octets(*addr),
{
    match addr {
        IpAddr::V4(v4) => {
            let o = v4.octets();
            let octets = [o[0], o[1], o[2], o[3], 0, 0, 0, 0, 0, 0, 0, 0, 0, 0, 0, 0];
            assert(octets@ =~= addr_octets(*addr)@);
            assert(octets =~= addr_octets(*addr));
            octets
        },
        IpAddr::V6(octets) => *octets,
    }
}

fn addr_from_octets(v6: bool, octets: [u8; 16]) -> (addr: IpAddr)
    ensures
        addr == addr_with(v6, octets),
{
    if v6 {
        IpAddr::V6(octets)
    } else {
        IpAddr::V4(Ipv4Addr::new(octets[0], octets[1], octets[2], octets[3]))
    }
}

fn protocol_to_code(protocol: Protocol) -> (code: u8)
    ensures
        code == protocol_code(protocol),
{
    match protocol {
        Protocol::Icmp => 0,
        Protocol::Igmp => 1,
        Protocol::Ipv4 => 2,
        Protocol::Tcp => 3,
        Protocol::Udp => 4,
        Protocol::Ipv6 => 5,
        Protocol::Ipv6Route => 6,
        Protocol::Ipv6Frag => 7,
        Protocol::Esp => 8,
        Protocol::Ah => 9,
        Protocol::Icmpv6 => 10,
        Protocol::NoNextHeader => 11,
        Protocol::Gre => 12,
        Protocol::Sctp => 13,
        Protocol::Mptcp => 14,
        Protocol::Fragment => 15,
        Protocol::Arp => 16,
        Protocol::Lldp => 17,
        Protocol::Unknown => 18,
    }
}

fn protocol_from_code(code: u8) -> (protocol: Protocol)
    ensures
        protocol == protocol_with(code),
{
    match code {
        0 => Protocol::Icmp,
        1 => Protocol::Igmp,
        2 => Protocol::Ipv4,
        3 => Protocol::Tcp,
        4 => Protocol::Udp,
        5 => Protocol::Ipv6,
        6 => Protocol::Ipv6Route,
        7 => Protocol::Ipv6Frag,
        8 => Protocol::Esp,
        9 => Protocol::Ah,
        10 => Protocol::Icmpv6,
        11 => Protocol::NoNextHeader,
        12 => Protocol::Gre,
        13 => Protocol::Sctp,
        14 => Protocol::Mptcp,
        15 => Protocol::Fragment,
        16 => Protocol::Arp,
        17 => Protocol::Lldp,
        _ => Protocol::Unknown,
    }
}

/// `key` in plain values.
pub fn encode_key(key: &FlowKey) -> (id: FlowId)
    ensures
        id == flow_id(*key),
{
    (
        key.src_ip.is_ipv6(),
        addr_to_octets(&key.src_ip),
        key.dst_ip.is_ipv6(),
        addr_to_octets(&key.dst_ip),
        key.src_port,
        key.dst_port,
        protocol_to_code(key.protocol),
    )
}

/// The key that `id` stands for.
pub fn decode_key(id: &FlowId) -> (key: FlowKey)
    ensures
        key == key_with(*id),
{
    FlowKey::new(
        addr_from_octets(id.0, id.1),
        addr_from_octets(id.2, id.3),
        id.4,
        id.5,
        protocol_from_code(id.6),
    )
}

} // verus!
