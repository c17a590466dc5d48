//! The recursive descent parser: Ethernet, VLAN tags, IP, extension headers and
//! transport, each read in place.

use crate::bytes::{be16, clamp_usize, read_be16};
use crate::parser::ethernet::{
    ether_type_of, ethernet_of, parse_ethernet, EthernetModel, ETHERNET_HEADER_LEN,
};
use crate::parser::ip::{ipv4_of, ipv6_of, parse_ipv4, parse_ipv6, IpModel};
use crate::parser::transport::{
    icmp_of, parse_icmp, parse_icmpv6, parse_tcp, parse_udp, tcp_of, udp_of, IcmpModel, TcpModel,
    UdpModel,
};
use crate::parser::{
    too_short, EtherType, EthernetHeader, FlowKey, IcmpHeader, IpAddr, IpHeader, ParseError,
    ParseResult, Protocol, TcpHeader, UdpHeader,
};
use vstd::prelude::*;

verus! {

/// A packet with the headers found in it, all of them borrowed from `data`.
#[derive(Debug, Clone)]
pub struct ParsedPacket<'a> {
    /// Raw packet data
    pub data: &'a [u8],
    /// Ethernet header
    pub ethernet: Option<EthernetHeader<'a>>,
    /// VLAN identifiers, outermost first
    pub vlan_tags: Vec<u16>,
    /// IP header
    pub ip: Option<IpHeader<'a>>,
    /// Transport protocol
    pub protocol: Protocol,
    /// TCP header, if any
    pub tcp: Option<TcpHeader<'a>>,
    /// UDP header, if any
    pub udp: Option<UdpHeader<'a>>,
    /// ICMP or ICMPv6 header, if any
    pub icmp: Option<IcmpHeader<'a>>,
    /// Flow key, where there is one
    pub flow_key: Option<FlowKey>,
    /// Total header length (L2 + L3 + L4)
    pub header_len: usize,
    /// Payload length
    pub payload_len: usize,
    /// Timestamp (nanoseconds since the epoch, if available)
    pub timestamp_ns: Option<u64>,
    /// Captured length
    pub capture_len: usize,
}

/// What a parsed packet holds.
#[verifier::ext_equal]
pub struct PacketModel {
    pub data: Seq<u8>,
    pub ethernet: Option<EthernetModel>,
    pub vlan_tags: Seq<u16>,
    pub ip: Option<IpModel>,
    pub protocol: Protocol,
    pub tcp: Option<TcpModel>,
    pub udp: Option<UdpModel>,
    pub icmp: Option<IcmpModel>,
    pub flow_key: Option<FlowKey>,
    pub header_len: usize,
    pub payload_len: usize,
    pub timestamp_ns: Option<u64>,
    pub capture_len: usize,
}

impl<'a> View for ParsedPacket<'a> {
    type V = PacketModel;

    open spec fn view(&self) -> PacketModel {
        PacketModel {
            data: self.data@,
            ethernet: match self.ethernet {
                Some(header) => Some(header@),
                None => None,
            },
            vlan_tags: self.vlan_tags@,
            ip: match self.ip {
                Some(header) => Some(header@),
                None => None,
            },
            protocol: self.protocol,
            tcp: match self.tcp {
                Some(header) => Some(header@),
                None => None,
            },
            udp: match self.udp {
                Some(header) => Some(header@),
                None => None,
            },
            icmp: match self.icmp {
                Some(header) => Some(header@),
                None => None,
            },
            flow_key: self.flow_key,
            header_len: self.header_len,
            payload_len: self.payload_len,
            timestamp_ns: self.timestamp_ns,
            capture_len: self.capture_len,
        }
    }
}

/// The number of bytes of a packet.
pub open spec fn packet_len(packet: Seq<u8>) -> usize {
    packet.len() as usize
}

/// What is left of a packet from offset `at` on.
pub open spec fn packet_from(packet: Seq<u8>, at: usize) -> Seq<u8> {
    packet.skip(at as int)
}

/// The packet in which nothing was parsed yet: all of it is payload.
pub open spec fn raw_packet(packet: Seq<u8>) -> PacketModel {
    PacketModel {
        data: packet,
        ethernet: None,
        vlan_tags: Seq::empty(),
        ip: None,
        protocol: Protocol::Unknown,
        tcp: None,
        udp: None,
        icmp: None,
        flow_key: None,
        header_len: 0,
        payload_len: packet_len(packet),
        timestamp_ns: None,
        capture_len: packet_len(packet),
    }
}

/// The VLAN identifiers from offset `at` on, where `ether_type` is the type that was
/// announced for that offset: the identifiers, the first type that is no VLAN tag, and
/// the offset of what it announces.
pub open spec fn vlan_stack(packet: Seq<u8>, at: int, ether_type: EtherType) -> Result<
    (Seq<u16>, EtherType, int),
    ParseError,
>
    decreases packet.len() - at,
{
    if ether_type != EtherType::Vlan {
        Ok((Seq::empty(), ether_type, at))
    } else if at + 4 > packet.len() {
        Err(too_short(clamp_usize(at + 4), packet))
    } else {
        let tag = be16(packet[at], packet[at + 1]) % 0x1000;
        match vlan_stack(packet, at + 4, ether_type_of(be16(packet[at + 2], packet[at + 3]))) {
            Ok((tags, last, end)) => Ok((seq![tag] + tags, last, end)),
            Err(error) => Err(error),
        }
    }
}

/// Whether `next_header` announces an extension header that names its successor in its
/// first byte: hop-by-hop options, routing, authentication or destination options.
pub open spec fn is_extension(next_header: u8) -> bool {
    next_header == 0 || next_header == 43 || next_header == 51 || next_header == 60
}

/// The protocol behind the IPv6 extension headers from offset `at` on, and the offset
/// where they end; `next_header` is the number that was announced for offset `at`. A
/// fragment header ends the walk.
pub open spec fn extension_headers(packet: Seq<u8>, at: int, next_header: u8) -> Result<
    (Protocol, int),
    ParseError,
>
    decreases packet.len() - at,
{
    if next_header == 44 {
        if at + 8 >= packet.len() {
            Err(ParseError::TruncatedIpHeader)
        } else {
            Ok((Protocol::Fragment, at + 8))
        }
    } else if is_extension(next_header) {
        if at + 2 > packet.len() {
            Err(too_short(clamp_usize(at + 2), packet))
        } else {
            let end = at + extension_len(next_header, packet[at + 1]);
            if end >= packet.len() {
                Err(ParseError::TruncatedIpHeader)
            } else {
                extension_headers(packet, end, packet[at])
            }
        }
    } else {
        Ok((upper_protocol_of(next_header), at))
    }
}

/// The protocol with the number `next_header`, where that is no extension header.
pub open spec fn upper_protocol_of(next_header: u8) -> Protocol {
    if next_header == 4 {
        Protocol::Ipv4
    } else if next_header == 6 {
        Protocol::Tcp
    } else if next_header == 17 {
        Protocol::Udp
    } else if next_header == 50 {
        Protocol::Esp
    } else if next_header == 58 {
        Protocol::Icmpv6
    } else if next_header == 59 {
        Protocol::NoNextHeader
    } else if next_header == 132 {
        Protocol::Sctp
    } else {
        Protocol::Unknown
    }
}

/// The protocol with the number `next_header`, where that is no extension header.
fn upper_protocol(next_header: u8) -> (protocol: Protocol)
    ensures
        protocol == upper_protocol_of(next_header),
{
    match next_header {
        4 => Protocol::Ipv4,
        6 => Protocol::Tcp,
        17 => Protocol::Udp,
        50 => Protocol::Esp,
        58 => Protocol::Icmpv6,
        59 => Protocol::NoNextHeader,
        132 => Protocol::Sctp,
        _ => Protocol::Unknown,
    }
}

/// The bytes in an extension header whose length field holds `field`: an
/// authentication header counts words of four bytes, the others eight.
pub open spec fn extension_len(next_header: u8, field: u8) -> int {
    if next_header == 51 {
        (field + 2) * 4
    } else {
        field * 8 + 8
    }
}

/// The network layer at offset `at`: its IP header, if it has one, the protocol it
/// carries, and the offset where it ends.
pub open spec fn network_of(packet: Seq<u8>, at: int, ether_type: EtherType) -> Result<
    (Option<IpModel>, Protocol, int),
    ParseError,
> {
    match ether_type {
        EtherType::Ipv4 => match ipv4_of(packet.skip(at)) {
            Ok(v4) => Ok((Some(IpModel::V4(v4)), v4.protocol, at + v4.header_len)),
            Err(error) => Err(error),
        },
        EtherType::Ipv6 => match ipv6_of(packet.skip(at)) {
            Ok(v6) => match extension_headers(packet, at + 40, v6.next_header) {
                Ok((protocol, end)) => Ok((Some(IpModel::V6(v6)), protocol, end)),
                Err(error) => Err(error),
            },
            Err(error) => Err(error),
        },
        EtherType::Arp => Ok((None, Protocol::Arp, at)),
        EtherType::Lldp => Ok((None, Protocol::Lldp, at)),
        _ => Ok((None, Protocol::Unknown, at)),
    }
}

/// A transport header, if there is one.
#[verifier::ext_equal]
pub enum TransportModel {
    Absent,
    Tcp(TcpModel),
    Udp(UdpModel),
    Icmp(IcmpModel),
}

impl TransportModel {
    /// The bytes that the header takes.
    pub open spec fn header_len(self) -> int {
        match self {
            TransportModel::Absent => 0,
            TransportModel::Tcp(tcp) => tcp.header_len + 0,
            TransportModel::Udp(_) => 8,
            TransportModel::Icmp(_) => 4,
        }
    }

    /// The source port, 0 where there is none.
    pub open spec fn src_port(self) -> u16 {
        match self {
            TransportModel::Tcp(tcp) => tcp.src_port,
            TransportModel::Udp(udp) => udp.src_port,
            _ => 0,
        }
    }

    /// The destination port, 0 where there is none.
    pub open spec fn dst_port(self) -> u16 {
        match self {
            TransportModel::Tcp(tcp) => tcp.dst_port,
            TransportModel::Udp(udp) => udp.dst_port,
            _ => 0,
        }
    }
}

/// The transport header of `protocol` at the start of `rest`. Where nothing is left of
/// the packet there is none.
pub open spec fn transport_of(protocol: Protocol, rest: Seq<u8>) -> Result<
    TransportModel,
    ParseError,
> {
    if rest.len() == 0 {
        Ok(TransportModel::Absent)
    } else {
        match protocol {
            Protocol::Tcp => match tcp_of(rest) {
                Ok(tcp) => Ok(TransportModel::Tcp(tcp)),
                Err(error) => Err(error),
            },
            Protocol::Udp => match udp_of(rest) {
                Ok(udp) => Ok(TransportModel::Udp(udp)),
                Err(error) => Err(error),
            },
            Protocol::Icmp | Protocol::Icmpv6 => match icmp_of(rest) {
                Ok(icmp) => Ok(TransportModel::Icmp(icmp)),
                Err(error) => Err(error),
            },
            _ => Ok(TransportModel::Absent),
        }
    }
}

/// Whether flows are tracked for `protocol`.
pub open spec fn has_flows(protocol: Protocol) -> bool {
    protocol == Protocol::Tcp || protocol == Protocol::Udp || protocol == Protocol::Icmp
        || protocol == Protocol::Icmpv6
}

/// The flow that a packet with these headers belongs to, if any.
pub open spec fn flow_key_of(
    ip: Option<IpModel>,
    protocol: Protocol,
    transport: TransportModel,
) -> Option<FlowKey> {
    match ip {
        Some(ip) => if has_flows(protocol) {
            Some(
                FlowKey {
                    src_ip: ip.src_addr(),
                    dst_ip: ip.dst_addr(),
                    src_port: transport.src_port(),
                    dst_port: transport.dst_port(),
                    protocol,
                },
            )
        } else {
            None
        },
        None => None,
    }
}

/// `packet` with `transport` read at the end of its headers.
pub open spec fn with_transport(packet: PacketModel, transport: TransportModel) -> PacketModel {
    PacketModel {
        tcp: match transport {
            TransportModel::Tcp(tcp) => Some(tcp),
            _ => packet.tcp,
        },
        udp: match transport {
            TransportModel::Udp(udp) => Some(udp),
            _ => packet.udp,
        },
        icmp: match transport {
            TransportModel::Icmp(icmp) => Some(icmp),
            _ => packet.icmp,
        },
        header_len: clamp_usize(packet.header_len + transport.header_len()),
        ..packet
    }
}

/// What parsing `packet` gives.
pub open spec fn packet_of(packet: Seq<u8>) -> Result<PacketModel, ParseError> {
    match ethernet_of(packet) {
        Err(error) => Err(error),
        Ok(ethernet) => match vlan_stack(packet, 14, ethernet.ether_type) {
            Err(error) => Err(error),
            Ok((vlan_tags, ether_type, at)) => match network_of(packet, at, ether_type) {
                Err(error) => Err(error),
                Ok((ip, protocol, end)) => match transport_of(protocol, packet.skip(end)) {
                    Err(error) => Err(error),
                    Ok(transport) => {
                        let header_len = end + transport.header_len();
                        Ok(
                            with_transport(
                                PacketModel {
                                    ethernet: Some(EthernetModel { ether_type, ..ethernet }),
                                    vlan_tags,
                                    ip,
                                    protocol,
                                    flow_key: flow_key_of(ip, protocol, transport),
                                    header_len: end as usize,
                                    payload_len: (packet.len() - header_len) as usize,
                                    ..raw_packet(packet)
                                },
                                transport,
                            ),
                        )
                    },
                },
            },
        },
    }
}

impl<'a> ParsedPacket<'a> {
    /// A packet in which nothing was parsed yet.
    pub fn new(data: &'a [u8]) -> (parsed: ParsedPacket<'a>)
        ensures
            parsed@ == raw_packet(data@),
    {
        let parsed = ParsedPacket {
            data,
            ethernet: None,
            vlan_tags: Vec::new(),
            ip: None,
            protocol: Protocol::Unknown,
            tcp: None,
            udp: None,
            icmp: None,
            flow_key: None,
            header_len: 0,
            payload_len: data.len(),
            timestamp_ns: None,
            capture_len: data.len(),
        };
        assert(parsed@ =~= raw_packet(data@));
        parsed
    }

    /// The source MAC address, if there is an Ethernet header.
    pub fn src_mac(&self) -> (mac: Option<&'a [u8]>)
        ensures
            match (mac, self@.ethernet) {
                (Some(mac), Some(ethernet)) => mac@ == ethernet.src_mac,
                (None, None) => true,
                _ => false,
            },
    {
        match &self.ethernet {
            Some(ethernet) => Some(ethernet.src_mac),
            None => None,
        }
    }

    /// The destination MAC address, if there is an Ethernet header.
    pub fn dst_mac(&self) -> (mac: Option<&'a [u8]>)
        ensures
            match (mac, self@.ethernet) {
                (Some(mac), Some(ethernet)) => mac@ == ethernet.dst_mac,
                (None, None) => true,
                _ => false,
            },
    {
        match &self.ethernet {
            Some(ethernet) => Some(ethernet.dst_mac),
            None => None,
        }
    }

    /// The source IP address, if there is an IP header.
    pub fn src_ip(&self) -> (addr: Option<IpAddr>)
        ensures
            addr == (match self@.ip {
                Some(ip) => Some(ip.src_addr()),
                None => None,
            }),
    {
        match &self.ip {
            Some(ip) => Some(ip.src_addr()),
            None => None,
        }
    }

    /// The destination IP address, if there is an IP header.
    pub fn dst_ip(&self) -> (addr: Option<IpAddr>)
        ensures
            addr == (match self@.ip {
                Some(ip) => Some(ip.dst_addr()),
                None => None,
            }),
    {
        match &self.ip {
            Some(ip) => Some(ip.dst_addr()),
            None => None,
        }
    }

    /// The source port of the TCP header, else of the UDP header.
    pub fn src_port(&self) -> (port: Option<u16>)
        ensures
            port == (match (self.tcp, self.udp) {
                (Some(tcp), _) => Some(tcp.src_port),
                (None, Some(udp)) => Some(udp.src_port),
                (None, None) => None,
            }),
    {
        match (&self.tcp, &self.udp) {
            (Some(tcp), _) => Some(tcp.src_port),
            (None, Some(udp)) => Some(udp.src_port),
            (None, None) => None,
        }
    }

    /// The destination port of the TCP header, else of the UDP header.
    pub fn dst_port(&self) -> (port: Option<u16>)
        ensures
            port == (match (self.tcp, self.udp) {
                (Some(tcp), _) => Some(tcp.dst_port),
                (None, Some(udp)) => Some(udp.dst_port),
                (None, None) => None,
            }),
    {
        match (&self.tcp, &self.udp) {
            (Some(tcp), _) => Some(tcp.dst_port),
            (None, Some(udp)) => Some(udp.dst_port),
            (None, None) => None,
        }
    }

    /// What follows the headers.
    pub fn payload(&self) -> (payload: &'a [u8])
        requires
            self.header_len <= self.data@.len(),
        ensures
            payload@ == packet_from(self.data@, self.header_len),
    {
        &self.data[self.header_len..self.data.len()]
    }

    /// Whether this is a TCP SYN that acknowledges nothing.
    pub fn is_tcp_syn(&self) -> (yes: bool)
        ensures
            yes == (self.tcp matches Some(tcp) && tcp.syn && !tcp.ack_flag),
    {
        match &self.tcp {
            Some(tcp) => tcp.syn && !tcp.ack_flag,
            None => false,
        }
    }

    /// Whether this is a TCP SYN-ACK.
    pub fn is_tcp_syn_ack(&self) -> (yes: bool)
        ensures
            yes == (self.tcp matches Some(tcp) && tcp.syn && tcp.ack_flag),
    {
        match &self.tcp {
            Some(tcp) => tcp.syn && tcp.ack_flag,
            None => false,
        }
    }

    /// Whether this is a TCP FIN.
    pub fn is_tcp_fin(&self) -> (yes: bool)
        ensures
            yes == (self.tcp matches Some(tcp) && tcp.fin),
    {
        match &self.tcp {
            Some(tcp) => tcp.fin,
            None => false,
        }
    }

    /// Whether this is a TCP RST.
    pub fn is_tcp_rst(&self) -> (yes: bool)
        ensures
            yes == (self.tcp matches Some(tcp) && tcp.rst),
    {
        match &self.tcp {
            Some(tcp) => tcp.rst,
            None => false,
        }
    }

    /// The protocol, where flows are tracked for it.
    pub fn transport_protocol(&self) -> (protocol: Option<Protocol>)
        ensures
            protocol == if has_flows(self.protocol) {
                Some(self.protocol)
            } else {
                None
            },
    {
        flow_protocol(self.protocol)
    }
}

/// `protocol`, where flows are tracked for it.
fn flow_protocol(protocol: Protocol) -> (result: Option<Protocol>)
    ensures
        result == if has_flows(protocol) {
            Some(protocol)
        } else {
            None
        },
{
    match protocol {
        Protocol::Tcp | Protocol::Udp | Protocol::Icmp | Protocol::Icmpv6 => Some(protocol),
        _ => None,
    }
}

/// The packet parser.
pub struct PacketParser {
    /// Buffer for reassembly, not used in zero-copy mode
    _reasm_buffer: Vec<u8>,
}

impl Default for PacketParser {
    fn default() -> (parser: PacketParser)
        ensures
            parser.reassembly_pending() == Seq::<u8>::empty(),
    {
        PacketParser::new()
    }
}

/// The VLAN tags of a frame and what follows them.
struct VlanStack {
    tags: Vec<u16>,
    ether_type: EtherType,
    end: usize,
}

/// Reads the VLAN tags of `data` from offset `at` on.
fn parse_vlan_stack(data: &[u8], at: usize, ether_type: EtherType) -> (stack: ParseResult<
    VlanStack,
>)
    requires
        at <= data@.len(),
    ensures
        match stack {
            Ok(stack) => vlan_stack(data@, at as int, ether_type) == Ok::<_, ParseError>(
                (stack.tags@, stack.ether_type, stack.end as int),
            ) && at <= stack.end <= data@.len(),
            Err(error) => vlan_stack(data@, at as int, ether_type) == Err::<
                (Seq<u16>, EtherType, int),
                _,
            >(error),
        },
{
    let mut tags: Vec<u16> = Vec::new();
    let mut next: EtherType = ether_type;
    let mut end: usize = at;
    while next == EtherType::Vlan
        invariant
            at <= end <= data@.len(),
            vlan_stack(data@, at as int, ether_type) == (match vlan_stack(data@, end as int, next) {
                Ok((rest, last, stop)) => Ok::<_, ParseError>((tags@ + rest, last, stop)),
                Err(error) => Err(error),
            }),
        decreases data@.len() - end,
    {
        if data.len() - end < 4 {
            return Err(
                ParseError::TooShort { expected: end.saturating_add(4), actual: data.len() },
            );
        }
        let tag: u16 = read_be16(data[end], data[end + 1]) % 0x1000;
        let ghost before = tags@;
        next = EtherType::from(read_be16(data[end + 2], data[end + 3]));
        tags.push(tag);
        end = end + 4;
        proof {
            if let Ok((rest, last, stop)) = vlan_stack(data@, end as int, next) {
                assert(before + (seq![tag] + rest) =~= tags@ + rest);
            }
        }
    }
    assert(tags@ + Seq::<u16>::empty() =~= tags@);
    Ok(VlanStack { tags, ether_type: next, end })
}

impl PacketParser {
    /// The bytes held back for reassembly.
    pub closed spec fn reassembly_pending(&self) -> Seq<u8> {
        self._reasm_buffer@
    }

    /// A parser with nothing held back.
    pub fn new() -> (parser: PacketParser)
        ensures
            parser.reassembly_pending() == Seq::<u8>::empty(),
    {
        PacketParser { _reasm_buffer: Vec::with_capacity(65536) }
    }

    /// Finds the protocol behind the IPv6 extension headers of `data` from `offset` on.
    /// Returns it with their total length.
    pub fn parse_ipv6_extension_headers(
        &self,
        data: &[u8],
        offset: usize,
        next_header: u8,
    ) -> (found: ParseResult<(Protocol, usize)>)
        ensures
            match found {
                Ok((protocol, len)) => extension_headers(data@, offset as int, next_header)
                    == Ok::<_, ParseError>((protocol, offset + len)) && (offset <= data@.len()
                    ==> offset + len <= data@.len()),
                Err(error) => extension_headers(data@, offset as int, next_header) == Err::<
                    (Protocol, int),
                    _,
                >(error),
            },
    {
        let mut announced: u8 = next_header;
        let mut at: usize = offset;
        while announced == 0 || announced == 43 || announced == 51 || announced == 60
            invariant
                offset <= at,
                offset <= data@.len() ==> at <= data@.len(),
                extension_headers(data@, offset as int, next_header) == extension_headers(
                    data@,
                    at as int,
                    announced,
                ),
            decreases data@.len() - at,
        {
            if data.len() < 2 || data.len() - 2 < at {
                return Err(
                    ParseError::TooShort { expected: at.saturating_add(2), actual: data.len() },
                );
            }
            let field: usize = data[at + 1] as usize;
            let len: usize = if announced == 51 {
                (field + 2) * 4
            } else {
                field * 8 + 8
            };
            if len >= data.len() - at {
                return Err(ParseError::TruncatedIpHeader);
            }
            announced = data[at];
            at = at + len;
        }
        if announced == 44 {
            if data.len() < 8 || data.len() - 8 <= at {
                return Err(ParseError::TruncatedIpHeader);
            }
            return Ok((Protocol::Fragment, at + 8 - offset));
        }
        Ok((upper_protocol(announced), at - offset))
    }

    /// `proto`, where flows are tracked for it.
    pub fn get_transport_protocol(&self, proto: Protocol) -> (result: Option<Protocol>)
        ensures
            result == if has_flows(proto) {
                Some(proto)
            } else {
                None
            },
    {
        flow_protocol(proto)
    }

    /// Reads the transport header that `parsed.protocol` announces at `offset`.
    fn parse_transport<'a>(
        &mut self,
        parsed: &mut ParsedPacket<'a>,
        data: &'a [u8],
        offset: usize,
    ) -> (read: ParseResult<()>)
        requires
            offset <= data@.len(),
            old(parsed).header_len == offset,
        ensures
            *final(self) == *old(self),
            match read {
                Ok(()) => match transport_of(old(parsed).protocol, packet_from(data@, offset)) {
                    Ok(transport) => final(parsed)@ == with_transport(old(parsed)@, transport)
                        && final(parsed).header_len <= data@.len(),
                    Err(_) => false,
                },
                Err(error) => transport_of(old(parsed).protocol, packet_from(data@, offset))
                    == Err::<TransportModel, _>(error),
            },
    {
        if offset >= data.len() {
            return Ok(());
        }
        let rest = &data[offset..data.len()];
        match parsed.protocol {
            Protocol::Tcp => match parse_tcp(rest) {
                Ok((tcp, len)) => {
                    parsed.tcp = Some(tcp);
                    parsed.header_len = offset + len;
                },
                Err(error) => return Err(error),
            },
            Protocol::Udp => match parse_udp(rest) {
                Ok((udp, len)) => {
                    parsed.udp = Some(udp);
                    parsed.header_len = offset + len;
                },
                Err(error) => return Err(error),
            },
            Protocol::Icmp => match parse_icmp(rest) {
                Ok((icmp, len)) => {
                    parsed.icmp = Some(icmp);
                    parsed.header_len = offset + len;
                },
                Err(error) => return Err(error),
            },
            Protocol::Icmpv6 => match parse_icmpv6(rest) {
                Ok((icmp, len)) => {
                    parsed.icmp = Some(icmp);
                    parsed.header_len = offset + len;
                },
                Err(error) => return Err(error),
            },
            _ => {},
        }
        Ok(())
    }

    /// Reads the network layer of `data` at offset `at` into `parsed`. Returns the
    /// offset where it ends.
    fn parse_network<'a>(
        &mut self,
        parsed: &mut ParsedPacket<'a>,
        data: &'a [u8],
        at: usize,
        ether_type: EtherType,
    ) -> (read: ParseResult<usize>)
        requires
            at <= data@.len(),
            old(parsed).ip is None,
        ensures
            *final(self) == *old(self),
            match read {
                Ok(end) => end <= data@.len() && (match network_of(data@, at as int, ether_type) {
                    Ok((ip, protocol, stop)) => stop == end && final(parsed)@ == (PacketModel {
                        ip,
                        protocol,
                        ..old(parsed)@
                    }),
                    Err(_) => false,
                }),
                Err(error) => network_of(data@, at as int, ether_type) == Err::<
                    (Option<IpModel>, Protocol, int),
                    _,
                >(error),
            },
    {
        match ether_type {
            EtherType::Ipv4 => match parse_ipv4(&data[at..data.len()]) {
                Ok((v4, len)) => {
                    parsed.ip = Some(IpHeader::V4(v4));
                    parsed.protocol = v4.protocol;
                    Ok(at + len)
                },
                Err(error) => Err(error),
            },
            EtherType::Ipv6 => match parse_ipv6(&data[at..data.len()]) {
                Ok((v6, len, next_header)) => {
                    match self.parse_ipv6_extension_headers(data, at + len, next_header) {
                        Ok((protocol, ext_len)) => {
                            parsed.ip = Some(IpHeader::V6(v6));
                            parsed.protocol = protocol;
                            Ok(at + len + ext_len)
                        },
                        Err(error) => Err(error),
                    }
                },
                Err(error) => Err(error),
            },
            EtherType::Arp => {
                parsed.protocol = Protocol::Arp;
                Ok(at)
            },
            EtherType::Lldp => {
                parsed.protocol = Protocol::Lldp;
                Ok(at)
            },
            _ => {
                parsed.protocol = Protocol::Unknown;
                Ok(at)
            },
        }
    }

    /// Parses a packet that starts with an Ethernet header.
    #[verifier::rlimit(40)]
    pub fn parse<'a>(&mut self, data: &'a [u8]) -> (result: ParseResult<ParsedPacket<'a>>)
        ensures
            *final(self) == *old(self),
            match result {
                Ok(parsed) => packet_of(data@) == Ok::<_, ParseError>(parsed@) && parsed.header_len
                    <= data@.len(),
                Err(error) => packet_of(data@) == Err::<PacketModel, _>(error),
            },
    {
        let mut parsed = ParsedPacket::new(data);
        let mut ethernet = match parse_ethernet(data) {
            Ok((header, _)) => header,
            Err(error) => return Err(error),
        };
        let stack = match parse_vlan_stack(data, ETHERNET_HEADER_LEN, ethernet.ether_type) {
            Ok(stack) => stack,
            Err(error) => return Err(error),
        };
        ethernet.ether_type = stack.ether_type;
        parsed.ethernet = Some(ethernet);
        parsed.vlan_tags = stack.tags;
        let end: usize = match self.parse_network(
            &mut parsed,
            data,
            stack.end,
            ethernet.ether_type,
        ) {
            Ok(end) => end,
            Err(error) => return Err(error),
        };
        parsed.header_len = end;
        match self.parse_transport(&mut parsed, data, end) {
            Ok(()) => {},
            Err(error) => return Err(error),
        }
        if let Some(ip) = parsed.ip {
            if let Some(protocol) = parsed.transport_protocol() {
                let src_port: u16 = match parsed.src_port() {
                    Some(port) => port,
                    None => 0,
                };
                let dst_port: u16 = match parsed.dst_port() {
                    Some(port) => port,
                    None => 0,
                };
                parsed.flow_key = Some(
                    FlowKey::new(ip.src_addr(), ip.dst_addr(), src_port, dst_port, protocol),
                );
            }
        }
        parsed.payload_len = data.len().saturating_sub(parsed.header_len);
        parsed.capture_len = data.len();
        Ok(parsed)
    }
}

} // verus!
