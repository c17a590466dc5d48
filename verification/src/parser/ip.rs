//! IPv4 and IPv6 headers.

use crate::bytes::{read_be16, read_be32};
use crate::parser::{IpAddr, Ipv4Addr, ParseError, ParseResult, Protocol};
use vstd::prelude::*;

verus! {

/// Bytes in an IPv4 header without options.
pub const IPV4_MIN_HEADER_LEN: usize = 20;

/// Bytes in a fixed IPv6 header.
pub const IPV6_HEADER_LEN: usize = 40;

/// IP version.
#[derive(Debug, Clone, Copy, PartialEq, Eq, Structural)]
pub enum IpVersion {
    /// IPv4
    V4,
    /// IPv6
    V6,
}

impl IpVersion {
    /// Whether this is IPv4.
    pub fn is_v4(&self) -> (yes: bool)
        ensures
            yes == (self is V4),
    {
        match self {
            IpVersion::V4 => true,
            IpVersion::V6 => false,
        }
    }

    /// Whether this is IPv6.
    pub fn is_v6(&self) -> (yes: bool)
        ensures
            yes == (self is V6),
    {
        match self {
            IpVersion::V4 => false,
            IpVersion::V6 => true,
        }
    }
}

/// An IPv4 header that borrows the packet it was read from.
#[derive(Debug, Clone, Copy)]
pub struct Ipv4Header<'a> {
    /// Raw header bytes
    pub raw: &'a [u8],
    /// Header length in bytes (IHL * 4)
    pub header_len: usize,
    /// Total length (header + payload)
    pub total_len: u16,
    /// Identification field
    pub id: u16,
    /// Flags (3 bits)
    pub flags: u8,
    /// Fragment offset (13 bits)
    pub frag_offset: u16,
    /// Time to live
    pub ttl: u8,
    /// Protocol
    pub protocol: Protocol,
    /// Header checksum
    pub checksum: u16,
    /// Source address
    pub src_addr: Ipv4Addr,
    /// Destination address
    pub dst_addr: Ipv4Addr,
    /// Options, if any
    pub options: Option<&'a [u8]>,
}

/// What an IPv4 header holds.
#[verifier::ext_equal]
pub struct Ipv4Model {
    pub raw: Seq<u8>,
    pub header_len: usize,
    pub total_len: u16,
    pub id: u16,
    pub flags: u8,
    pub frag_offset: u16,
    pub ttl: u8,
    pub protocol: Protocol,
    pub checksum: u16,
    pub src_addr: Ipv4Addr,
    pub dst_addr: Ipv4Addr,
    pub options: Option<Seq<u8>>,
}

impl<'a> View for Ipv4Header<'a> {
    type V = Ipv4Model;

    open spec fn view(&self) -> Ipv4Model {
        Ipv4Model {
            raw: self.raw@,
            header_len: self.header_len,
            total_len: self.total_len,
            id: self.id,
            flags: self.flags,
            frag_offset: self.frag_offset,
            ttl: self.ttl,
            protocol: self.protocol,
            checksum: self.checksum,
            src_addr: self.src_addr,
            dst_addr: self.dst_addr,
            options: match self.options {
                Some(bytes) => Some(bytes@),
                None => None,
            },
        }
    }
}

/// The IPv4 header at the start of `s`.
pub open spec fn ipv4_of(s: Seq<u8>) -> Result<Ipv4Model, ParseError> {
    if s.len() < IPV4_MIN_HEADER_LEN {
        Err(crate::parser::too_short(IPV4_MIN_HEADER_LEN, s))
    } else if s[0] / 16 != 4 {
        Err(ParseError::InvalidIpVersion(s[0] / 16))
    } else {
        let header_len = ((s[0] % 16) * 4) as usize;
        let flags_frag = crate::bytes::be16(s[6], s[7]);
        if header_len < IPV4_MIN_HEADER_LEN {
            Err(ParseError::InvalidIpHeaderLength(s[0] % 16))
        } else if s.len() < header_len {
            Err(crate::parser::too_short(header_len, s))
        } else {
            Ok(
                Ipv4Model {
                    raw: s.subrange(0, header_len as int),
                    header_len,
                    total_len: crate::bytes::be16(s[2], s[3]),
                    id: crate::bytes::be16(s[4], s[5]),
                    flags: (flags_frag / 0x2000) as u8,
                    frag_offset: flags_frag % 0x2000,
                    ttl: s[8],
                    protocol: crate::parser::transport::protocol_of(s[9]),
                    checksum: crate::bytes::be16(s[10], s[11]),
                    src_addr: crate::parser::address::ipv4_addr(s[12], s[13], s[14], s[15]),
                    dst_addr: crate::parser::address::ipv4_addr(s[16], s[17], s[18], s[19]),
                    options: if header_len > IPV4_MIN_HEADER_LEN {
                        Some(s.subrange(IPV4_MIN_HEADER_LEN as int, header_len as int))
                    } else {
                        None
                    },
                },
            )
        }
    }
}

/// The 16-bit word at offset `at` of a header of `len` bytes, padded with a zero byte
/// where the header ends inside it.
pub open spec fn header_word(raw: Seq<u8>, len: int, at: int) -> int {
    if at + 1 < len {
        crate::bytes::be16(raw[at], raw[at + 1]) as int
    } else {
        raw[at] * 0x100
    }
}

/// The sum of the first `words` 16-bit words of a header of `len` bytes, without the
/// checksum field at offset 10.
pub open spec fn header_sum(raw: Seq<u8>, len: int, words: int) -> int
    decreases words,
{
    if words <= 0 {
        0
    } else {
        header_sum(raw, len, words - 1) + if words - 1 == 5 {
            0
        } else {
            header_word(raw, len, 2 * (words - 1))
        }
    }
}

/// A sum of 16-bit words folded to 16 bits with end-around carry.
pub open spec fn ones_complement(sum: int) -> int {
    if sum <= 0 {
        0
    } else {
        (sum - 1) % 0xFFFF + 1
    }
}

/// Whether `checksum` fits a header of `len` bytes: with it, the words of the header add
/// up to all ones.
pub open spec fn checksum_fits(raw: Seq<u8>, len: int, checksum: u16) -> bool {
    ones_complement(header_sum(raw, len, (len + 1) / 2) + checksum) == 0xFFFF
}

/// The complement of the sum of the other words is a checksum that fits, and the only one
/// unless that sum is all ones.
pub proof fn complement_fits(raw: Seq<u8>, len: int, checksum: u16)
    ensures
        ({
            let sum = ones_complement(header_sum(raw, len, (len + 1) / 2));
            &&& checksum == 0xFFFF - sum ==> checksum_fits(raw, len, checksum)
            &&& checksum_fits(raw, len, checksum) && sum != 0xFFFF ==> checksum == 0xFFFF - sum
        }),
{
    header_sum_nonnegative(raw, len, (len + 1) / 2);
    ones_complement_step(header_sum(raw, len, (len + 1) / 2), checksum as int);
}

/// Folding commutes with adding one more word.
proof fn ones_complement_step(sum: int, word: int)
    requires
        sum >= 0,
        0 <= word <= 0xFFFF,
    ensures
        ({
            let folded = ones_complement(sum) + word;
            ones_complement(sum + word) == if folded > 0xFFFF {
                folded - 0xFFFF
            } else {
                folded
            }
        }),
        0 <= ones_complement(sum) <= 0xFFFF,
{
}

proof fn header_sum_nonnegative(raw: Seq<u8>, len: int, words: int)
    ensures
        header_sum(raw, len, words) >= 0,
    decreases words,
{
    if words > 0 {
        header_sum_nonnegative(raw, len, words - 1);
    }
}

impl<'a> Ipv4Header<'a> {
    /// The IP version, which is 4.
    pub fn version(&self) -> (version: IpVersion)
        ensures
            version == IpVersion::V4,
    {
        IpVersion::V4
    }

    /// The source address.
    pub fn src_ip(&self) -> (addr: IpAddr)
        ensures
            addr == IpAddr::V4(self.src_addr),
    {
        IpAddr::V4(self.src_addr)
    }

    /// The destination address.
    pub fn dst_ip(&self) -> (addr: IpAddr)
        ensures
            addr == IpAddr::V4(self.dst_addr),
    {
        IpAddr::V4(self.dst_addr)
    }

    /// Whether this is a fragment: not the first, or followed by more.
    pub fn is_fragment(&self) -> (yes: bool)
        ensures
            yes == (self.frag_offset != 0 || self.flags & 0x01 != 0),
    {
        self.frag_offset != 0 || self.flags & 0x01 != 0
    }

    /// Whether the Don't Fragment flag is set.
    pub fn dont_fragment(&self) -> (yes: bool)
        ensures
            yes == (self.flags & 0x02 != 0),
    {
        self.flags & 0x02 != 0
    }

    /// Verifies the header checksum: whether it and the other words of the header add up
    /// to all ones, carries going round.
    pub fn verify_checksum(&self) -> (valid: bool)
        requires
            self.header_len <= self.raw@.len(),
        ensures
            valid == checksum_fits(self.raw@, self.header_len as int, self.checksum),
    {
        let len: usize = self.header_len;
        let raw = self.raw;
        let mut sum: u32 = 0;
        let mut at: usize = 0;
        let ghost mut words: int = 0;
        while at < len
            invariant
                len == self.header_len,
                raw == self.raw,
                len <= raw@.len(),
                words >= 0,
                at == 2 * words || (at == len && 2 * words == len + 1),
                at <= len,
                sum == ones_complement(header_sum(raw@, len as int, words)),
                sum <= 0xFFFF,
            decreases len - at,
        {
            let word: u32 = if at == 10 {
                0
            } else if len - at > 1 {
                read_be16(raw[at], raw[at + 1]) as u32
            } else {
                raw[at] as u32 * 0x100
            };
            proof {
                header_sum_nonnegative(raw@, len as int, words);
                ones_complement_step(header_sum(raw@, len as int, words), word as int);
                words = words + 1;
                assert(header_sum(raw@, len as int, words) == header_sum(
                    raw@,
                    len as int,
                    words - 1,
                ) + word);
            }
            sum = sum + word;
            if sum > 0xFFFF {
                sum = sum - 0xFFFF;
            }
            at = if len - at > 1 {
                at + 2
            } else {
                len
            };
        }
        assert(words == (len + 1) / 2);
        proof {
            header_sum_nonnegative(raw@, len as int, words);
            ones_complement_step(header_sum(raw@, len as int, words), self.checksum as int);
        }
        sum = sum + self.checksum as u32;
        if sum > 0xFFFF {
            sum = sum - 0xFFFF;
        }
        sum == 0xFFFF
    }
}

/// An IPv6 header that borrows the packet it was read from.
#[derive(Debug, Clone, Copy)]
pub struct Ipv6Header<'a> {
    /// Raw header bytes
    pub raw: &'a [u8],
    /// Traffic class (8 bits)
    pub traffic_class: u8,
    /// Flow label (20 bits)
    pub flow_label: u32,
    /// Payload length
    pub payload_len: u16,
    /// Next header
    pub next_header: u8,
    /// Hop limit
    pub hop_limit: u8,
    /// Source address
    pub src_addr: [u8; 16],
    /// Destination address
    pub dst_addr: [u8; 16],
}

/// What an IPv6 header holds.
#[verifier::ext_equal]
pub struct Ipv6Model {
    pub raw: Seq<u8>,
    pub traffic_class: u8,
    pub flow_label: u32,
    pub payload_len: u16,
    pub next_header: u8,
    pub hop_limit: u8,
    pub src_addr: [u8; 16],
    pub dst_addr: [u8; 16],
}

impl<'a> View for Ipv6Header<'a> {
    type V = Ipv6Model;

    open spec fn view(&self) -> Ipv6Model {
        Ipv6Model {
            raw: self.raw@,
            traffic_class: self.traffic_class,
            flow_label: self.flow_label,
            payload_len: self.payload_len,
            next_header: self.next_header,
            hop_limit: self.hop_limit,
            src_addr: self.src_addr,
            dst_addr: self.dst_addr,
        }
    }
}

/// The 16 bytes of `s` from offset `at` on.
pub open spec fn octets16(s: Seq<u8>, at: int) -> [u8; 16] {
    [
        s[at],
        s[at + 1],
        s[at + 2],
        s[at + 3],
        s[at + 4],
        s[at + 5],
        s[at + 6],
        s[at + 7],
        s[at + 8],
        s[at + 9],
        s[at + 10],
        s[at + 11],
        s[at + 12],
        s[at + 13],
        s[at + 14],
        s[at + 15],
    ]
}

/// Copies 16 bytes of `data` from offset `at` on.
fn read_octets16(data: &[u8], at: usize) -> (octets: [u8; 16])
    requires
        at + 16 <= data@.len(),
    ensures
        octets == octets16(data@, at as int),
        octets@ == data@.subrange(at as int, at + 16),
{
    let octets = [
        data[at],
        data[at + 1],
        data[at + 2],
        data[at + 3],
        data[at + 4],
        data[at + 5],
        data[at + 6],
        data[at + 7],
        data[at + 8],
        data[at + 9],
        data[at + 10],
        data[at + 11],
        data[at + 12],
        data[at + 13],
        data[at + 14],
        data[at + 15],
    ];
    assert(octets@ =~= data@.subrange(at as int, at + 16));
    assert(octets@ =~= octets16(data@, at as int)@);
    assert(octets =~= octets16(data@, at as int));
    octets
}

/// The IPv6 header at the start of `s`.
pub open spec fn ipv6_of(s: Seq<u8>) -> Result<Ipv6Model, ParseError> {
    if s.len() < IPV6_HEADER_LEN {
        Err(crate::parser::too_short(IPV6_HEADER_LEN, s))
    } else {
        let word = crate::bytes::be32(s[0], s[1], s[2], s[3]);
        if word / 0x1000_0000 != 6 {
            Err(ParseError::InvalidIpVersion((word / 0x1000_0000) as u8))
        } else {
            Ok(
                Ipv6Model {
                    raw: s.subrange(0, IPV6_HEADER_LEN as int),
                    traffic_class: ((word / 0x10_0000) % 0x100) as u8,
                    flow_label: word % 0x10_0000,
                    payload_len: crate::bytes::be16(s[4], s[5]),
                    next_header: s[6],
                    hop_limit: s[7],
                    src_addr: octets16(s, 8),
                    dst_addr: octets16(s, 24),
                },
            )
        }
    }
}

impl<'a> Ipv6Header<'a> {
    /// The source address.
    pub fn src_ip(&self) -> (addr: IpAddr)
        ensures
            addr == IpAddr::V6(self.src_addr),
    {
        IpAddr::V6(self.src_addr)
    }

    /// The destination address.
    pub fn dst_ip(&self) -> (addr: IpAddr)
        ensures
            addr == IpAddr::V6(self.dst_addr),
    {
        IpAddr::V6(self.dst_addr)
    }

    /// Whether the destination is a multicast address.
    pub fn is_multicast(&self) -> (yes: bool)
        ensures
            yes == (self.dst_addr@[0] == 0xFF),
    {
        self.dst_addr[0] == 0xFF
    }
}

/// An IPv4 or IPv6 header.
#[derive(Debug, Clone, Copy)]
pub enum IpHeader<'a> {
    /// IPv4 header
    V4(Ipv4Header<'a>),
    /// IPv6 header
    V6(Ipv6Header<'a>),
}

/// What an IPv4 or IPv6 header holds.
#[verifier::ext_equal]
pub enum IpModel {
    V4(Ipv4Model),
    V6(Ipv6Model),
}

impl<'a> View for IpHeader<'a> {
    type V = IpModel;

    open spec fn view(&self) -> IpModel {
        match self {
            IpHeader::V4(v4) => IpModel::V4(v4@),
            IpHeader::V6(v6) => IpModel::V6(v6@),
        }
    }
}

impl IpModel {
    /// The source address.
    pub open spec fn src_addr(self) -> IpAddr {
        match self {
            IpModel::V4(v4) => IpAddr::V4(v4.src_addr),
            IpModel::V6(v6) => IpAddr::V6(v6.src_addr),
        }
    }

    /// The destination address.
    pub open spec fn dst_addr(self) -> IpAddr {
        match self {
            IpModel::V4(v4) => IpAddr::V4(v4.dst_addr),
            IpModel::V6(v6) => IpAddr::V6(v6.dst_addr),
        }
    }

    /// The number of the protocol (IPv4) or of the next header (IPv6). Where an IPv4
    /// protocol has no name, its number is the byte at offset 9 of the header.
    pub open spec fn protocol_number(self) -> u8 {
        match self {
            IpModel::V4(v4) => if v4.protocol == Protocol::Unknown && v4.raw.len() > 9 {
                v4.raw[9]
            } else {
                crate::parser::transport::protocol_number(v4.protocol)
            },
            IpModel::V6(v6) => v6.next_header,
        }
    }
}

impl<'a> IpHeader<'a> {
    /// The IP version.
    pub fn version(&self) -> (version: IpVersion)
        ensures
            version == (match self {
                IpHeader::V4(_) => IpVersion::V4,
                IpHeader::V6(_) => IpVersion::V6,
            }),
    {
        match self {
            IpHeader::V4(_) => IpVersion::V4,
            IpHeader::V6(_) => IpVersion::V6,
        }
    }

    /// The source address.
    pub fn src_addr(&self) -> (addr: IpAddr)
        ensures
            addr == self@.src_addr(),
    {
        match self {
            IpHeader::V4(v4) => v4.src_ip(),
            IpHeader::V6(v6) => v6.src_ip(),
        }
    }

    /// The destination address.
    pub fn dst_addr(&self) -> (addr: IpAddr)
        ensures
            addr == self@.dst_addr(),
    {
        match self {
            IpHeader::V4(v4) => v4.dst_ip(),
            IpHeader::V6(v6) => v6.dst_ip(),
        }
    }

    /// The number of the protocol (IPv4) or of the next header (IPv6).
    pub fn protocol(&self) -> (number: u8)
        ensures
            number == self@.protocol_number(),
    {
        match self {
            IpHeader::V4(v4) => {
                if v4.protocol == Protocol::Unknown && v4.raw.len() > 9 {
                    v4.raw[9]
                } else {
                    u8::from(v4.protocol)
                }
            },
            IpHeader::V6(v6) => v6.next_header,
        }
    }

    /// The header length in bytes, without extension headers.
    pub fn header_len(&self) -> (len: usize)
        ensures
            len == (match self {
                IpHeader::V4(v4) => v4.header_len,
                IpHeader::V6(_) => IPV6_HEADER_LEN,
            }),
    {
        match self {
            IpHeader::V4(v4) => v4.header_len,
            IpHeader::V6(_) => IPV6_HEADER_LEN,
        }
    }
}

/// The protocol number of an IPv4 header is the byte at its offset 9, whether or not it has
/// a name.
pub proof fn protocol_number_is_in_the_header(data: Seq<u8>)
    ensures
        ipv4_of(data) matches Ok(v4) ==> IpModel::V4(v4).protocol_number() == data[9],
{
    if crate::parser::transport::protocol_of(data[9]) != Protocol::Unknown {
        crate::parser::transport::protocol_number_roundtrip(data[9]);
    }
}

/// Parses the IPv4 header at the start of `data`. Returns it with its length.
pub fn parse_ipv4(data: &[u8]) -> (parsed: ParseResult<(Ipv4Header<'_>, usize)>)
    ensures
        match parsed {
            Ok((header, len)) => ipv4_of(data@) == Ok::<_, ParseError>(header@) && len
                == header.header_len && len <= data@.len(),
            Err(error) => ipv4_of(data@) == Err::<Ipv4Model, _>(error),
        },
{
    if data.len() < IPV4_MIN_HEADER_LEN {
        return Err(ParseError::TooShort { expected: IPV4_MIN_HEADER_LEN, actual: data.len() });
    }
    let version: u8 = data[0] / 16;
    if version != 4 {
        return Err(ParseError::InvalidIpVersion(version));
    }
    let ihl: u8 = data[0] % 16;
    let header_len: usize = ihl as usize * 4;
    if header_len < IPV4_MIN_HEADER_LEN {
        return Err(ParseError::InvalidIpHeaderLength(ihl));
    }
    if data.len() < header_len {
        return Err(ParseError::TooShort { expected: header_len, actual: data.len() });
    }
    let flags_frag: u16 = read_be16(data[6], data[7]);
    let options = if header_len > IPV4_MIN_HEADER_LEN {
        Some(&data[IPV4_MIN_HEADER_LEN..header_len])
    } else {
        None
    };
    let header = Ipv4Header {
        raw: &data[0..header_len],
        header_len,
        total_len: read_be16(data[2], data[3]),
        id: read_be16(data[4], data[5]),
        flags: (flags_frag / 0x2000) as u8,
        frag_offset: flags_frag % 0x2000,
        ttl: data[8],
        protocol: Protocol::from(data[9]),
        checksum: read_be16(data[10], data[11]),
        src_addr: Ipv4Addr::new(data[12], data[13], data[14], data[15]),
        dst_addr: Ipv4Addr::new(data[16], data[17], data[18], data[19]),
        options,
    };
    Ok((header, header_len))
}

/// Parses the IPv6 header at the start of `data`. Returns it with its length and the
/// number of the next header.
pub fn parse_ipv6(data: &[u8]) -> (parsed: ParseResult<(Ipv6Header<'_>, usize, u8)>)
    ensures
        match parsed {
            Ok((header, len, next_header)) => ipv6_of(data@) == Ok::<_, ParseError>(header@) && len
                == IPV6_HEADER_LEN && next_header == header.next_header,
            Err(error) => ipv6_of(data@) == Err::<Ipv6Model, _>(error),
        },
{
    if data.len() < IPV6_HEADER_LEN {
        return Err(ParseError::TooShort { expected: IPV6_HEADER_LEN, actual: data.len() });
    }
    let word: u32 = read_be32(data[0], data[1], data[2], data[3]);
    let version: u32 = word / 0x1000_0000;
    if version != 6 {
        return Err(ParseError::InvalidIpVersion(version as u8));
    }
    let next_header: u8 = data[6];
    let header = Ipv6Header {
        raw: &data[0..IPV6_HEADER_LEN],
        traffic_class: ((word / 0x10_0000) % 0x100) as u8,
        flow_label: word % 0x10_0000,
        payload_len: read_be16(data[4], data[5]),
        next_header,
        hop_limit: data[7],
        src_addr: read_octets16(data, 8),
        dst_addr: read_octets16(data, 24),
    };
    Ok((header, IPV6_HEADER_LEN, next_header))
}

} // verus!
