//! TCP, UDP, ICMP and ICMPv6 headers.

use crate::bytes::{read_be16, read_be32};
use crate::parser::{ParseError, ParseResult};
use vstd::prelude::*;

verus! {

/// Bytes in a TCP header without options.
pub const TCP_MIN_HEADER_LEN: usize = 20;

/// Bytes in a UDP header.
pub const UDP_HEADER_LEN: usize = 8;

/// Bytes in the part of an ICMP header that every message type has.
pub const ICMP_HEADER_LEN: usize = 4;

/// Transport or network layer protocol.
#[derive(Debug, Clone, Copy, PartialEq, Eq, Hash, Structural)]
pub enum Protocol {
    /// Internet Control Message Protocol
    Icmp,
    /// Internet Group Management Protocol
    Igmp,
    /// IPv4 encapsulation
    Ipv4,
    /// Transmission Control Protocol
    Tcp,
    /// User Datagram Protocol
    Udp,
    /// IPv6
    Ipv6,
    /// IPv6 routing header
    Ipv6Route,
    /// IPv6 fragment header
    Ipv6Frag,
    /// Encapsulating Security Payload
    Esp,
    /// Authentication header
    Ah,
    /// ICMP for IPv6
    Icmpv6,
    /// No next header (IPv6)
    NoNextHeader,
    /// Generic Routing Encapsulation
    Gre,
    /// Stream Control Transmission Protocol
    Sctp,
    /// Multipath TCP
    Mptcp,
    /// Fragmented packet
    Fragment,
    /// Address Resolution Protocol
    Arp,
    /// Link Layer Discovery Protocol
    Lldp,
    /// Unknown protocol
    Unknown,
}

/// The protocol that an IP protocol number stands for.
pub open spec fn protocol_of(number: u8) -> Protocol {
    match number {
        1 => Protocol::Icmp,
        2 => Protocol::Igmp,
        4 => Protocol::Ipv4,
        6 => Protocol::Tcp,
        17 => Protocol::Udp,
        41 => Protocol::Ipv6,
        43 => Protocol::Ipv6Route,
        44 => Protocol::Ipv6Frag,
        47 => Protocol::Gre,
        50 => Protocol::Esp,
        51 => Protocol::Ah,
        58 => Protocol::Icmpv6,
        59 => Protocol::NoNextHeader,
        132 => Protocol::Sctp,
        _ => Protocol::Unknown,
    }
}

/// The IP protocol number of a protocol; zero for those that have none. Multipath TCP
/// (262 in the registry) keeps the low eight bits, which are those of TCP.
pub open spec fn protocol_number(protocol: Protocol) -> u8 {
    match protocol {
        Protocol::Icmp => 1,
        Protocol::Igmp => 2,
        Protocol::Ipv4 => 4,
        Protocol::Tcp => 6,
        Protocol::Udp => 17,
        Protocol::Ipv6 => 41,
        Protocol::Ipv6Route => 43,
        Protocol::Ipv6Frag => 44,
        Protocol::Gre => 47,
        Protocol::Esp => 50,
        Protocol::Ah => 51,
        Protocol::Icmpv6 => 58,
        Protocol::NoNextHeader => 59,
        Protocol::Sctp => 132,
        Protocol::Mptcp => 6,
        _ => 0,
    }
}

impl From<u8> for Protocol {
    fn from(value: u8) -> (protocol: Protocol) {
        match value {
            1 => Protocol::Icmp,
            2 => Protocol::Igmp,
            4 => Protocol::Ipv4,
            6 => Protocol::Tcp,
            17 => Protocol::Udp,
            41 => Protocol::Ipv6,
            43 => Protocol::Ipv6Route,
            44 => Protocol::Ipv6Frag,
            47 => Protocol::Gre,
            50 => Protocol::Esp,
            51 => Protocol::Ah,
            58 => Protocol::Icmpv6,
            59 => Protocol::NoNextHeader,
            132 => Protocol::Sctp,
            _ => Protocol::Unknown,
        }
    }
}

impl vstd::std_specs::convert::FromSpecImpl<u8> for Protocol {
    open spec fn obeys_from_spec() -> bool {
        true
    }

    open spec fn from_spec(value: u8) -> Protocol {
        protocol_of(value)
    }
}

impl From<Protocol> for u8 {
    fn from(protocol: Protocol) -> (number: u8) {
        match protocol {
            Protocol::Icmp => 1,
            Protocol::Igmp => 2,
            Protocol::Ipv4 => 4,
            Protocol::Tcp => 6,
            Protocol::Udp => 17,
            Protocol::Ipv6 => 41,
            Protocol::Ipv6Route => 43,
            Protocol::Ipv6Frag => 44,
            Protocol::Gre => 47,
            Protocol::Esp => 50,
            Protocol::Ah => 51,
            Protocol::Icmpv6 => 58,
            Protocol::NoNextHeader => 59,
            Protocol::Sctp => 132,
            Protocol::Mptcp => 6,
            _ => 0,
        }
    }
}

impl vstd::std_specs::convert::FromSpecImpl<Protocol> for u8 {
    open spec fn obeys_from_spec() -> bool {
        true
    }

    open spec fn from_spec(protocol: Protocol) -> u8 {
        protocol_number(protocol)
    }
}

/// Naming a protocol number and taking the number again gives it back, for every
/// number that has a name.
pub proof fn protocol_number_roundtrip(number: u8)
    requires
        protocol_of(number) != Protocol::Unknown,
    ensures
        protocol_number(protocol_of(number)) == number,
{
}

/// A TCP header that borrows the packet it was read from.
#[derive(Debug, Clone, Copy)]
pub struct TcpHeader<'a> {
    /// Raw header bytes
    pub raw: &'a [u8],
    /// Source port
    pub src_port: u16,
    /// Destination port
    pub dst_port: u16,
    /// Sequence number
    pub seq: u32,
    /// Acknowledgment number
    pub ack: u32,
    /// Data offset (header length / 4)
    pub data_offset: u8,
    /// Header length in bytes
    pub header_len: usize,
    /// FIN flag
    pub fin: bool,
    /// SYN flag
    pub syn: bool,
    /// RST flag
    pub rst: bool,
    /// PSH flag
    pub psh: bool,
    /// ACK flag
    pub ack_flag: bool,
    /// URG flag
    pub urg: bool,
    /// ECE flag
    pub ece: bool,
    /// CWR flag
    pub cwr: bool,
    /// NS flag
    pub ns: bool,
    /// Window size
    pub window: u16,
    /// Checksum
    pub checksum: u16,
    /// Urgent pointer
    pub urgent_ptr: u16,
    /// Options, if any
    pub options: Option<&'a [u8]>,
}

/// What a TCP header holds.
#[verifier::ext_equal]
pub struct TcpModel {
    pub raw: Seq<u8>,
    pub src_port: u16,
    pub dst_port: u16,
    pub seq: u32,
    pub ack: u32,
    pub data_offset: u8,
    pub header_len: usize,
    pub fin: bool,
    pub syn: bool,
    pub rst: bool,
    pub psh: bool,
    pub ack_flag: bool,
    pub urg: bool,
    pub ece: bool,
    pub cwr: bool,
    pub ns: bool,
    pub window: u16,
    pub checksum: u16,
    pub urgent_ptr: u16,
    pub options: Option<Seq<u8>>,
}

impl<'a> View for TcpHeader<'a> {
    type V = TcpModel;

    open spec fn view(&self) -> TcpModel {
        TcpModel {
            raw: self.raw@,
            src_port: self.src_port,
            dst_port: self.dst_port,
            seq: self.seq,
            ack: self.ack,
            data_offset: self.data_offset,
            header_len: self.header_len,
            fin: self.fin,
            syn: self.syn,
            rst: self.rst,
            psh: self.psh,
            ack_flag: self.ack_flag,
            urg: self.urg,
            ece: self.ece,
            cwr: self.cwr,
            ns: self.ns,
            window: self.window,
            checksum: self.checksum,
            urgent_ptr: self.urgent_ptr,
            options: match self.options {
                Some(bytes) => Some(bytes@),
                None => None,
            },
        }
    }
}

/// The TCP header at the start of `s`.
pub open spec fn tcp_of(s: Seq<u8>) -> Result<TcpModel, ParseError> {
    if s.len() < TCP_MIN_HEADER_LEN {
        Err(crate::parser::too_short(TCP_MIN_HEADER_LEN, s))
    } else {
        let header_len = (s[12] / 16) * 4;
        if header_len < TCP_MIN_HEADER_LEN || s.len() < header_len {
            Err(ParseError::InvalidTcpHeader)
        } else {
            let flags = s[13];
            Ok(
                TcpModel {
                    raw: s.subrange(0, header_len),
                    src_port: crate::bytes::be16(s[0], s[1]),
                    dst_port: crate::bytes::be16(s[2], s[3]),
                    seq: crate::bytes::be32(s[4], s[5], s[6], s[7]),
                    ack: crate::bytes::be32(s[8], s[9], s[10], s[11]),
                    data_offset: s[12] / 16,
                    header_len: header_len as usize,
                    fin: flags & 0x01 != 0,
                    syn: flags & 0x02 != 0,
                    rst: flags & 0x04 != 0,
                    psh: flags & 0x08 != 0,
                    ack_flag: flags & 0x10 != 0,
                    urg: flags & 0x20 != 0,
                    ece: flags & 0x40 != 0,
                    cwr: flags & 0x80 != 0,
                    ns: s[12] & 0x01 != 0,
                    window: crate::bytes::be16(s[14], s[15]),
                    checksum: crate::bytes::be16(s[16], s[17]),
                    urgent_ptr: crate::bytes::be16(s[18], s[19]),
                    options: if header_len > TCP_MIN_HEADER_LEN {
                        Some(s.subrange(TCP_MIN_HEADER_LEN as int, header_len))
                    } else {
                        None
                    },
                },
            )
        }
    }
}

impl<'a> TcpHeader<'a> {
    /// The acknowledgment flag.
    pub fn is_ack(&self) -> (flag: bool)
        ensures
            flag == self.ack_flag,
    {
        self.ack_flag
    }

    /// Whether this is an initial connection request.
    pub fn is_syn(&self) -> (flag: bool)
        ensures
            flag == (self.syn && !self.ack_flag),
    {
        self.syn && !self.ack_flag
    }

    /// Whether this accepts a connection.
    pub fn is_syn_ack(&self) -> (flag: bool)
        ensures
            flag == (self.syn && self.ack_flag),
    {
        self.syn && self.ack_flag
    }

    /// Whether this ends a connection.
    pub fn is_fin(&self) -> (flag: bool)
        ensures
            flag == self.fin,
    {
        self.fin
    }

    /// Whether this resets a connection.
    pub fn is_rst(&self) -> (flag: bool)
        ensures
            flag == self.rst,
    {
        self.rst
    }

    /// An iterator over the options, empty where the header has none.
    pub fn options_iter(&self) -> (iter: TcpOptionsIter<'a>)
        ensures
            iter@ == (match self.options {
                Some(bytes) => bytes@,
                None => Seq::<u8>::empty(),
            }),
    {
        match self.options {
            Some(bytes) => TcpOptionsIter::new(bytes),
            None => TcpOptionsIter::new(&[]),
        }
    }
}

/// A TCP option.
#[derive(Debug, Clone, Copy, PartialEq, Eq, Structural)]
pub enum TcpOptionKind {
    /// End of the option list
    End,
    /// No operation (padding)
    Nop,
    /// Maximum segment size
    Mss(u16),
    /// Window scale
    WindowScale(u8),
    /// Selective acknowledgment permitted
    SackPermitted,
    /// Selective acknowledgment
    Sack,
    /// Timestamp
    Timestamp { ts_val: u32, ts_ecr: u32 },
    /// Any other option
    Unknown(u8),
}

/// The option at the start of `rest`, and how many bytes of `rest` it takes. A list that
/// is exhausted or truncated has no next option and is used up, and so is one whose next
/// option, of no kind known here, claims a length under 2. A selective acknowledgment takes
/// the length that it claims: one that claims 0 is found again and again.
pub open spec fn tcp_option_of(rest: Seq<u8>) -> (Option<TcpOptionKind>, int) {
    let ended = (None::<TcpOptionKind>, rest.len() as int);
    if rest.len() == 0 {
        ended
    } else if rest[0] == 0 {
        (Some(TcpOptionKind::End), 1)
    } else if rest[0] == 1 {
        (Some(TcpOptionKind::Nop), 1)
    } else if rest[0] == 2 {
        if rest.len() < 4 {
            ended
        } else {
            (Some(TcpOptionKind::Mss(crate::bytes::be16(rest[2], rest[3]))), 4)
        }
    } else if rest[0] == 3 {
        if rest.len() < 3 {
            ended
        } else {
            (Some(TcpOptionKind::WindowScale(rest[2])), 3)
        }
    } else if rest[0] == 4 {
        (Some(TcpOptionKind::SackPermitted), if rest.len() < 2 { rest.len() as int } else { 2 })
    } else if rest[0] == 5 {
        if rest.len() < 2 || rest.len() < rest[1] {
            ended
        } else {
            (Some(TcpOptionKind::Sack), rest[1] as int)
        }
    } else if rest[0] == 8 {
        if rest.len() < 10 {
            ended
        } else {
            (
                Some(
                    TcpOptionKind::Timestamp {
                        ts_val: crate::bytes::be32(rest[2], rest[3], rest[4], rest[5]),
                        ts_ecr: crate::bytes::be32(rest[6], rest[7], rest[8], rest[9]),
                    },
                ),
                10,
            )
        }
    } else if rest.len() < 2 || rest[1] < 2 || rest.len() < rest[1] {
        ended
    } else {
        (Some(TcpOptionKind::Unknown(rest[0])), rest[1] as int)
    }
}

/// An iterator over TCP options. Its view is the bytes still to be read.
pub struct TcpOptionsIter<'a> {
    data: &'a [u8],
    offset: usize,
}

impl<'a> View for TcpOptionsIter<'a> {
    type V = Seq<u8>;

    closed spec fn view(&self) -> Seq<u8> {
        self.data@.skip(self.offset as int)
    }
}

impl<'a> TcpOptionsIter<'a> {
    #[verifier::type_invariant]
    closed spec fn in_bounds(self) -> bool {
        self.offset <= self.data@.len()
    }

    /// An iterator over the options that `data` holds.
    pub fn new(data: &'a [u8]) -> (iter: Self)
        ensures
            iter@ == data@,
    {
        assert(data@.skip(0) =~= data@);
        TcpOptionsIter { data, offset: 0 }
    }

    /// Takes the next option.
    pub fn next(&mut self) -> (option: Option<TcpOptionKind>)
        ensures
            option == tcp_option_of(old(self)@).0,
            final(self)@ == old(self)@.skip(tcp_option_of(old(self)@).1),
    {
        proof {
            use_type_invariant(&*self);
        }
        let data = self.data;
        let at: usize = self.offset;
        let left: usize = data.len() - at;
        if left == 0 {
            proof {
                assert(self@.skip(0) =~= self@);
            }
            return None;
        }
        let kind: u8 = data[at];
        let (option, taken): (Option<TcpOptionKind>, usize) = match kind {
            0 => (Some(TcpOptionKind::End), 1),
            1 => (Some(TcpOptionKind::Nop), 1),
            2 => {
                if left < 4 {
                    (None, left)
                } else {
                    (Some(TcpOptionKind::Mss(read_be16(data[at + 2], data[at + 3]))), 4)
                }
            },
            3 => {
                if left < 3 {
                    (None, left)
                } else {
                    (Some(TcpOptionKind::WindowScale(data[at + 2])), 3)
                }
            },
            4 => (Some(TcpOptionKind::SackPermitted), if left < 2 { left } else { 2 }),
            5 => {
                if left < 2 || left < data[at + 1] as usize {
                    (None, left)
                } else {
                    (Some(TcpOptionKind::Sack), data[at + 1] as usize)
                }
            },
            8 => {
                if left < 10 {
                    (None, left)
                } else {
                    let ts_val: u32 = read_be32(
                        data[at + 2],
                        data[at + 3],
                        data[at + 4],
                        data[at + 5],
                    );
                    let ts_ecr: u32 = read_be32(
                        data[at + 6],
                        data[at + 7],
                        data[at + 8],
                        data[at + 9],
                    );
                    (Some(TcpOptionKind::Timestamp { ts_val, ts_ecr }), 10)
                }
            },
            _ => {
                if left < 2 || data[at + 1] < 2 || left < data[at + 1] as usize {
                    (None, left)
                } else {
                    (Some(TcpOptionKind::Unknown(kind)), data[at + 1] as usize)
                }
            },
        };
        self.offset = at + taken;
        assert(self@ =~= old(self)@.skip(taken as int));
        option
    }
}

/// Once the iterator has found no further option, every later call finds none.
pub proof fn tcp_options_stay_ended(rest: Seq<u8>)
    requires
        tcp_option_of(rest).0 is None,
    ensures
        tcp_option_of(rest.skip(tcp_option_of(rest).1)).0 is None,
{
}

/// Every option that is found takes at least one byte, so the list comes to an end,
/// unless it is a selective acknowledgment that claims a length of zero.
pub proof fn tcp_options_advance(rest: Seq<u8>)
    requires
        tcp_option_of(rest).0 is Some,
        !(rest[0] == 5 && rest[1] == 0),
    ensures
        rest.skip(tcp_option_of(rest).1).len() < rest.len(),
{
}

/// A UDP header that borrows the packet it was read from.
#[derive(Debug, Clone, Copy)]
pub struct UdpHeader<'a> {
    /// Raw header bytes
    pub raw: &'a [u8],
    /// Source port
    pub src_port: u16,
    /// Destination port
    pub dst_port: u16,
    /// Length (header + payload)
    pub length: u16,
    /// Checksum (0 means none over IPv4)
    pub checksum: u16,
}

/// What a UDP header holds.
#[verifier::ext_equal]
pub struct UdpModel {
    pub raw: Seq<u8>,
    pub src_port: u16,
    pub dst_port: u16,
    pub length: u16,
    pub checksum: u16,
}

impl<'a> View for UdpHeader<'a> {
    type V = UdpModel;

    open spec fn view(&self) -> UdpModel {
        UdpModel {
            raw: self.raw@,
            src_port: self.src_port,
            dst_port: self.dst_port,
            length: self.length,
            checksum: self.checksum,
        }
    }
}

/// The UDP header at the start of `s`.
pub open spec fn udp_of(s: Seq<u8>) -> Result<UdpModel, ParseError> {
    if s.len() < UDP_HEADER_LEN {
        Err(crate::parser::too_short(UDP_HEADER_LEN, s))
    } else {
        Ok(
            UdpModel {
                raw: s.subrange(0, UDP_HEADER_LEN as int),
                src_port: crate::bytes::be16(s[0], s[1]),
                dst_port: crate::bytes::be16(s[2], s[3]),
                length: crate::bytes::be16(s[4], s[5]),
                checksum: crate::bytes::be16(s[6], s[7]),
            },
        )
    }
}

impl<'a> UdpHeader<'a> {
    /// The payload length that the header states, zero where it states less than its
    /// own length.
    pub fn payload_len(&self) -> (len: u16)
        ensures
            len == (if self.length < UDP_HEADER_LEN {
                0
            } else {
                self.length - UDP_HEADER_LEN
            }),
    {
        self.length.saturating_sub(UDP_HEADER_LEN as u16)
    }
}

/// An ICMP header that borrows the packet it was read from.
#[derive(Debug, Clone, Copy)]
pub struct IcmpHeader<'a> {
    /// Raw header bytes
    pub raw: &'a [u8],
    /// ICMP type
    pub icmp_type: u8,
    /// ICMP code
    pub code: u8,
    /// Checksum
    pub checksum: u16,
    /// Rest of the message (type-dependent)
    pub rest: &'a [u8],
}

/// What an ICMP header holds.
#[verifier::ext_equal]
pub struct IcmpModel {
    pub raw: Seq<u8>,
    pub icmp_type: u8,
    pub code: u8,
    pub checksum: u16,
    pub rest: Seq<u8>,
}

impl<'a> View for IcmpHeader<'a> {
    type V = IcmpModel;

    open spec fn view(&self) -> IcmpModel {
        IcmpModel {
            raw: self.raw@,
            icmp_type: self.icmp_type,
            code: self.code,
            checksum: self.checksum,
            rest: self.rest@,
        }
    }
}

/// The ICMP header at the start of `s`.
pub open spec fn icmp_of(s: Seq<u8>) -> Result<IcmpModel, ParseError> {
    if s.len() < ICMP_HEADER_LEN {
        Err(crate::parser::too_short(ICMP_HEADER_LEN, s))
    } else {
        Ok(
            IcmpModel {
                raw: s.subrange(0, 4),
                icmp_type: s[0],
                code: s[1],
                checksum: crate::bytes::be16(s[2], s[3]),
                rest: s.skip(4),
            },
        )
    }
}

impl<'a> IcmpHeader<'a> {
    /// The identifier of an echo request or reply.
    pub fn identifier(&self) -> (id: Option<u16>)
        ensures
            id == (if self.rest@.len() >= 2 {
                Some(crate::bytes::be16(self.rest@[0], self.rest@[1]))
            } else {
                None
            }),
    {
        if self.rest.len() >= 2 {
            Some(read_be16(self.rest[0], self.rest[1]))
        } else {
            None
        }
    }

    /// The sequence number of an echo request or reply.
    pub fn sequence(&self) -> (number: Option<u16>)
        ensures
            number == (if self.rest@.len() >= 4 {
                Some(crate::bytes::be16(self.rest@[2], self.rest@[3]))
            } else {
                None
            }),
    {
        if self.rest.len() >= 4 {
            Some(read_be16(self.rest[2], self.rest[3]))
        } else {
            None
        }
    }

    /// Whether this is an echo request.
    pub fn is_echo_request(&self) -> (yes: bool)
        ensures
            yes == (self.icmp_type == 8),
    {
        self.icmp_type == 8
    }

    /// Whether this is an echo reply.
    pub fn is_echo_reply(&self) -> (yes: bool)
        ensures
            yes == (self.icmp_type == 0),
    {
        self.icmp_type == 0
    }

    /// Whether this reports an unreachable destination.
    pub fn is_dest_unreachable(&self) -> (yes: bool)
        ensures
            yes == (self.icmp_type == 3),
    {
        self.icmp_type == 3
    }

    /// Whether this reports an exceeded time to live.
    pub fn is_time_exceeded(&self) -> (yes: bool)
        ensures
            yes == (self.icmp_type == 11),
    {
        self.icmp_type == 11
    }
}

/// Parses the TCP header at the start of `data`. Returns it with its length.
pub fn parse_tcp(data: &[u8]) -> (parsed: ParseResult<(TcpHeader<'_>, usize)>)
    ensures
        match parsed {
            Ok((header, len)) => tcp_of(data@) == Ok::<_, ParseError>(header@) && len
                == header.header_len && len <= data@.len(),
            Err(error) => tcp_of(data@) == Err::<TcpModel, _>(error),
        },
{
    if data.len() < TCP_MIN_HEADER_LEN {
        return Err(ParseError::TooShort { expected: TCP_MIN_HEADER_LEN, actual: data.len() });
    }
    let data_offset: u8 = data[12] / 16;
    let header_len: usize = data_offset as usize * 4;
    if header_len < TCP_MIN_HEADER_LEN || data.len() < header_len {
        return Err(ParseError::InvalidTcpHeader);
    }
    let flags: u8 = data[13];
    let options = if header_len > TCP_MIN_HEADER_LEN {
        Some(&data[TCP_MIN_HEADER_LEN..header_len])
    } else {
        None
    };
    let header = TcpHeader {
        raw: &data[0..header_len],
        src_port: read_be16(data[0], data[1]),
        dst_port: read_be16(data[2], data[3]),
        seq: read_be32(data[4], data[5], data[6], data[7]),
        ack: read_be32(data[8], data[9], data[10], data[11]),
        data_offset,
        header_len,
        fin: flags & 0x01 != 0,
        syn: flags & 0x02 != 0,
        rst: flags & 0x04 != 0,
        psh: flags & 0x08 != 0,
        ack_flag: flags & 0x10 != 0,
        urg: flags & 0x20 != 0,
        ece: flags & 0x40 != 0,
        cwr: flags & 0x80 != 0,
        ns: data[12] & 0x01 != 0,
        window: read_be16(data[14], data[15]),
        checksum: read_be16(data[16], data[17]),
        urgent_ptr: read_be16(data[18], data[19]),
        options,
    };
    Ok((header, header_len))
}

/// Parses the UDP header at the start of `data`. Returns it with its length.
pub fn parse_udp(data: &[u8]) -> (parsed: ParseResult<(UdpHeader<'_>, usize)>)
    ensures
        match parsed {
            Ok((header, len)) => udp_of(data@) == Ok::<_, ParseError>(header@) && len
                == UDP_HEADER_LEN,
            Err(error) => udp_of(data@) == Err::<UdpModel, _>(error),
        },
{
    if data.len() < UDP_HEADER_LEN {
        return Err(ParseError::TooShort { expected: UDP_HEADER_LEN, actual: data.len() });
    }
    let header = UdpHeader {
        raw: &data[0..UDP_HEADER_LEN],
        src_port: read_be16(data[0], data[1]),
        dst_port: read_be16(data[2], data[3]),
        length: read_be16(data[4], data[5]),
        checksum: read_be16(data[6], data[7]),
    };
    Ok((header, UDP_HEADER_LEN))
}

/// Parses the ICMP header at the start of `data`. Returns it with its length.
pub fn parse_icmp(data: &[u8]) -> (parsed: ParseResult<(IcmpHeader<'_>, usize)>)
    ensures
        match parsed {
            Ok((header, len)) => icmp_of(data@) == Ok::<_, ParseError>(header@) && len
                == ICMP_HEADER_LEN,
            Err(error) => icmp_of(data@) == Err::<IcmpModel, _>(error),
        },
{
    if data.len() < ICMP_HEADER_LEN {
        return Err(ParseError::TooShort { expected: ICMP_HEADER_LEN, actual: data.len() });
    }
    let header = IcmpHeader {
        raw: &data[0..ICMP_HEADER_LEN],
        icmp_type: data[0],
        code: data[1],
        checksum: read_be16(data[2], data[3]),
        rest: &data[ICMP_HEADER_LEN..data.len()],
    };
    Ok((header, ICMP_HEADER_LEN))
}

/// Parses the ICMPv6 header at the start of `data`, which has the shape of an ICMP one.
pub fn parse_icmpv6(data: &[u8]) -> (parsed: ParseResult<(IcmpHeader<'_>, usize)>)
    ensures
        match parsed {
            Ok((header, len)) => icmp_of(data@) == Ok::<_, ParseError>(header@) && len
                == ICMP_HEADER_LEN,
            Err(error) => icmp_of(data@) == Err::<IcmpModel, _>(error),
        },
{
    parse_icmp(data)
}

} // verus!
