//! What the fields of a header say of the bytes it was read from: written out again in
//! network byte order, they are those bytes.

use crate::bytes::{read_be16, read_be32, read_u32_at, ByteOrder};
use crate::parser::address::ipv4_addr_octets;
use crate::parser::ethernet::{
    ether_type_number, ether_type_number_roundtrip, ether_type_of, parse_ethernet,
    parse_vlan_tag,
};
use crate::parser::ip::{checksum_fits, header_sum, parse_ipv4, parse_ipv6};
use crate::parser::transport::{
    parse_icmp, parse_icmpv6, parse_tcp, parse_udp, protocol_number, protocol_of, tcp_option_of,
    TcpOptionKind, TcpOptionsIter,
};
use crate::parser::{
    EtherType, EthernetHeader, IcmpHeader, IpAddr, IpHeader, IpVersion, Ipv4Header, Ipv6Header,
    ParseError, ParseResult, Protocol, TcpHeader, UdpHeader,
};
use vstd::prelude::*;

verus! {

/// The `width` bytes of `n`, the highest first.
pub open spec fn network_bytes(n: nat, width: nat) -> Seq<u8>
    decreases width,
{
    if width == 0 {
        Seq::empty()
    } else {
        network_bytes(n / 0x100, (width - 1) as nat).push((n % 0x100) as u8)
    }
}

/// The two bytes of a 16-bit number, the higher one first.
pub open spec fn word_bytes(n: u16) -> Seq<u8> {
    network_bytes(n as nat, 2)
}

/// The error for data that are shorter than `expected` bytes.
pub open spec fn shorter_than(expected: usize, data: Seq<u8>) -> ParseError {
    ParseError::TooShort { expected, actual: data.len() as usize }
}

/// Two bytes are written as they were read.
pub(crate) proof fn two_bytes(s: Seq<u8>, at: int)
    requires
        0 <= at,
        at + 2 <= s.len(),
    ensures
        network_bytes((s[at] * 0x100 + s[at + 1]) as nat, 2) == s.subrange(at, at + 2),
{
    reveal_with_fuel(network_bytes, 3);
    assert(network_bytes((s[at] * 0x100 + s[at + 1]) as nat, 2) =~= s.subrange(at, at + 2));
}

/// Four bytes are written as they were read.
pub(crate) proof fn four_bytes(s: Seq<u8>, at: int)
    requires
        0 <= at,
        at + 4 <= s.len(),
    ensures
        network_bytes(
            (s[at] * 0x100_0000 + s[at + 1] * 0x1_0000 + s[at + 2] * 0x100 + s[at + 3]) as nat,
            4,
        ) == s.subrange(at, at + 4),
{
    reveal_with_fuel(network_bytes, 5);
    let n = s[at] * 0x100_0000 + s[at + 1] * 0x1_0000 + s[at + 2] * 0x100 + s[at + 3];
    assert(n / 0x100 == s[at] * 0x1_0000 + s[at + 1] * 0x100 + s[at + 2]);
    assert(n / 0x100 / 0x100 == s[at] * 0x100 + s[at + 1]);
    assert(network_bytes(n as nat, 4) =~= s.subrange(at, at + 4));
}

/// A frame starts with the destination address, the source address and the type that its
/// header states; every frame of 14 bytes or more has a header.
pub proof fn ethernet_headers_are_the_bytes(
    data: &[u8],
    parsed: ParseResult<(EthernetHeader<'_>, usize)>,
)
    requires
        call_ensures(parse_ethernet, (data,), parsed),
    ensures
        match parsed {
            Ok((header, offset)) => {
                &&& data@.len() >= 14
                &&& header.dst_mac@ + header.src_mac@ + network_bytes(
                    ether_type_number(header.ether_type) as nat,
                    2,
                ) == data@.take(14)
                &&& header.dst_mac@.len() == 6
                &&& header.src_mac@.len() == 6
                &&& offset >= 14
                &&& (offset - 14) % 4 == 0
            },
            Err(error) => data@.len() < 14 && error == (ParseError::TooShort {
                expected: 14,
                actual: data@.len() as usize,
            }),
        },
{
    if let Ok((header, offset)) = parsed {
        let s = data@;
        two_bytes(s, 12);
        ether_type_number_roundtrip(crate::bytes::be16(s[12], s[13]));
        assert(header.dst_mac@ + header.src_mac@ + network_bytes(
            ether_type_number(header.ether_type) as nat,
            2,
        ) =~= s.take(14));
        tags_take_four_bytes(s, 14, header.ether_type);
    }
}

proof fn tags_take_four_bytes(frame: Seq<u8>, at: int, ether_type: EtherType)
    ensures
        (crate::parser::ethernet::payload_offset(frame, at, ether_type) - at) % 4 == 0,
        crate::parser::ethernet::payload_offset(frame, at, ether_type) >= at,
    decreases frame.len() - at,
{
    if ether_type == EtherType::Vlan && at + 4 <= frame.len() {
        tags_take_four_bytes(
            frame,
            at + 4,
            ether_type_of(crate::bytes::be16(frame[at + 2], frame[at + 3])),
        );
    }
}

/// The payload starts behind the tags: every two bytes before it that announce what
/// follows, from offset 12 on and four bytes apart, announce a tag, but for the last ones.
pub proof fn the_payload_is_behind_the_tags(
    data: &[u8],
    parsed: ParseResult<(EthernetHeader<'_>, usize)>,
    i: int,
)
    requires
        call_ensures(parse_ethernet, (data,), parsed),
        0 <= i,
    ensures
        parsed matches Ok((_, offset)) ==> {
            &&& 16 + 4 * i < offset ==> data@.subrange(12 + 4 * i, 14 + 4 * i) == seq![
                0x81u8,
                0x00u8,
            ]
            &&& offset + 4 <= data@.len() ==> data@.subrange(offset - 2, offset as int) != seq![
                0x81u8,
                0x00u8,
            ]
        },
{
    if let Ok((header, offset)) = parsed {
        tags_announce_each_other(data@, 14, header.ether_type, i);
    }
}

proof fn tags_announce_each_other(frame: Seq<u8>, at: int, ether_type: EtherType, i: int)
    requires
        0 <= i,
        2 <= at <= frame.len(),
        ether_type == ether_type_of(crate::bytes::be16(frame[at - 2], frame[at - 1])),
    ensures
        ({
            let offset = crate::parser::ethernet::payload_offset(frame, at, ether_type);
            &&& at <= offset <= frame.len()
            &&& at + 2 + 4 * i < offset ==> frame.subrange(at - 2 + 4 * i, at + 4 * i) == seq![
                0x81u8,
                0x00u8,
            ]
            &&& offset + 4 <= frame.len() ==> frame.subrange(offset - 2, offset) != seq![
                0x81u8,
                0x00u8,
            ]
        }),
    decreases frame.len() - at,
{
    ether_types_are_assigned(crate::bytes::be16(frame[at - 2], frame[at - 1]));
    if ether_type == EtherType::Vlan {
        assert(frame.subrange(at - 2, at) =~= seq![0x81u8, 0x00u8]);
        if at + 4 <= frame.len() {
            let next = ether_type_of(crate::bytes::be16(frame[at + 2], frame[at + 3]));
            if i == 0 {
                tags_announce_each_other(frame, at + 4, next, 0);
            } else {
                tags_announce_each_other(frame, at + 4, next, i - 1);
            }
        }
    } else {
        let last = frame.subrange(at - 2, at);
        if last == seq![0x81u8, 0x00u8] {
            assert(last[0] == 0x81 && last[1] == 0x00);
            assert(frame[at - 2] == 0x81 && frame[at - 1] == 0x00);
        }
    }
}

/// The four bytes of a VLAN tag are its priority (3 bits), its drop eligibility (1 bit) and
/// its identifier (12 bits), and the type of what follows.
pub proof fn vlan_tags_are_the_bytes(
    data: &[u8],
    parsed: ParseResult<(u8, bool, u16, EtherType)>,
)
    requires
        call_ensures(parse_vlan_tag, (data,), parsed),
    ensures
        match parsed {
            Ok((priority, drop_eligible, vlan_id, ether_type)) => {
                &&& data@.len() >= 4
                &&& priority < 8
                &&& vlan_id < 0x1000
                &&& network_bytes(
                    (priority * 0x2000 + (if drop_eligible {
                        0x1000int
                    } else {
                        0
                    }) + vlan_id) as nat,
                    2,
                ) + network_bytes(ether_type_number(ether_type) as nat, 2) == data@.take(4)
            },
            Err(error) => data@.len() < 4 && error == (ParseError::TooShort {
                expected: 4,
                actual: data@.len() as usize,
            }),
        },
{
    if let Ok((priority, drop_eligible, vlan_id, ether_type)) = parsed {
        let s = data@;
        two_bytes(s, 0);
        two_bytes(s, 2);
        ether_type_number_roundtrip(crate::bytes::be16(s[2], s[3]));
        assert(s.subrange(0, 2) + s.subrange(2, 4) =~= s.take(4));
    }
}

/// Each type that has a name has its number, and no other number has that name.
pub proof fn ether_types_are_assigned(number: u16)
    ensures
        ether_type_of(number) == EtherType::Ipv4 <==> number == 0x0800,
        ether_type_of(number) == EtherType::Ipv6 <==> number == 0x86DD,
        ether_type_of(number) == EtherType::Arp <==> number == 0x0806,
        ether_type_of(number) == EtherType::Wol <==> number == 0x0842,
        ether_type_of(number) == EtherType::Trill <==> number == 0x22F3,
        ether_type_of(number) == EtherType::Decnet <==> number == 0x6003,
        ether_type_of(number) == EtherType::Rarp <==> number == 0x8035,
        ether_type_of(number) == EtherType::Aarp <==> number == 0x80F3,
        ether_type_of(number) == EtherType::Vlan <==> number == 0x8100,
        ether_type_of(number) == EtherType::Lldp <==> number == 0x88CC,
        ether_type_of(number) == EtherType::Ptp <==> number == 0x88F7,
        ether_type_of(number) == EtherType::PppoeDiscovery <==> number == 0x8863,
        ether_type_of(number) == EtherType::PppoeSession <==> number == 0x8864,
        ether_type_of(number) == EtherType::Mpls <==> number == 0x8847,
        ether_type_of(number) == EtherType::MplsMulticast <==> number == 0x8848,
        ether_type_of(number) != EtherType::Pxe,
        ether_type_number(EtherType::Pxe) == 0,
        ether_type_number(EtherType::Custom(number)) == number,
{
}

/// Each IP protocol that has a name has its number, and no other number has that name.
pub proof fn protocols_are_assigned(number: u8)
    ensures
        protocol_of(number) == Protocol::Icmp <==> number == 1,
        protocol_of(number) == Protocol::Igmp <==> number == 2,
        protocol_of(number) == Protocol::Ipv4 <==> number == 4,
        protocol_of(number) == Protocol::Tcp <==> number == 6,
        protocol_of(number) == Protocol::Udp <==> number == 17,
        protocol_of(number) == Protocol::Ipv6 <==> number == 41,
        protocol_of(number) == Protocol::Ipv6Route <==> number == 43,
        protocol_of(number) == Protocol::Ipv6Frag <==> number == 44,
        protocol_of(number) == Protocol::Gre <==> number == 47,
        protocol_of(number) == Protocol::Esp <==> number == 50,
        protocol_of(number) == Protocol::Ah <==> number == 51,
        protocol_of(number) == Protocol::Icmpv6 <==> number == 58,
        protocol_of(number) == Protocol::NoNextHeader <==> number == 59,
        protocol_of(number) == Protocol::Sctp <==> number == 132,
        protocol_of(number) != Protocol::Mptcp,
        protocol_of(number) != Protocol::Fragment,
        protocol_of(number) != Protocol::Arp,
        protocol_of(number) != Protocol::Lldp,
        protocol_of(number) != Protocol::Unknown ==> protocol_number(protocol_of(number))
            == number,
        protocol_number(Protocol::Mptcp) == 6,
        protocol_number(Protocol::Fragment) == 0,
        protocol_number(Protocol::Arp) == 0,
        protocol_number(Protocol::Lldp) == 0,
        protocol_number(Protocol::Unknown) == 0,
{
}

/// An IPv4 header is its fields in order: version and length, the total length, the
/// identification, flags and fragment offset, time to live, protocol, checksum, source
/// address, destination address and options.
pub proof fn ipv4_headers_are_the_bytes(
    data: &[u8],
    parsed: ParseResult<(Ipv4Header<'_>, usize)>,
)
    requires
        call_ensures(parse_ipv4, (data,), parsed),
        parsed is Ok,
    ensures
        ({
            let (header, len) = parsed->Ok_0;
            let s = data@;
            &&& len == header.header_len
            &&& 20 <= len <= s.len()
            &&& s[0] == 0x40 + len / 4
            &&& len % 4 == 0
            &&& header.raw@ == s.take(len as int)
            &&& network_bytes(header.total_len as nat, 2) == s.subrange(2, 4)
            &&& network_bytes(header.id as nat, 2) == s.subrange(4, 6)
            &&& header.flags < 8 && header.frag_offset < 0x2000
            &&& network_bytes((header.flags * 0x2000 + header.frag_offset) as nat, 2)
                == s.subrange(6, 8)
            &&& header.ttl == s[8]
            &&& header.protocol == protocol_of(s[9])
            &&& network_bytes(header.checksum as nat, 2) == s.subrange(10, 12)
            &&& header.src_addr@ == s.subrange(12, 16)
            &&& header.dst_addr@ == s.subrange(16, 20)
            &&& match header.options {
                Some(options) => len > 20 && options@ == s.subrange(20, len as int),
                None => len == 20,
            }
        }),
{
    broadcast use ipv4_addr_octets;

    let (header, len) = parsed->Ok_0;
    let s = data@;
    two_bytes(s, 2);
    two_bytes(s, 4);
    two_bytes(s, 6);
    two_bytes(s, 10);
    assert(header.src_addr@ =~= s.subrange(12, 16));
    assert(header.dst_addr@ =~= s.subrange(16, 20));
    assert(header.raw@ =~= s.take(len as int));
}

/// Data parse as an IPv4 header exactly where they say version 4, state a length of 20 bytes
/// or more, and are that long; the first of these that fails is the error.
pub proof fn ipv4_header_errors(data: &[u8], parsed: ParseResult<(Ipv4Header<'_>, usize)>)
    requires
        call_ensures(parse_ipv4, (data,), parsed),
    ensures
        data@.len() < 20 ==> (parsed matches Err(error) && error == (ParseError::TooShort {
            expected: 20,
            actual: data@.len() as usize,
        })),
        data@.len() >= 20 && !(0x40 <= data@[0] < 0x50) ==> (parsed matches Err(error) && error
            == ParseError::InvalidIpVersion(data@[0] / 16)),
        data@.len() >= 20 && 0x40 <= data@[0] < 0x45 ==> (parsed matches Err(error) && error
            == ParseError::InvalidIpHeaderLength((data@[0] - 0x40) as u8)),
        data@.len() >= 20 && 0x45 <= data@[0] < 0x50 && data@.len() < 4 * (data@[0] - 0x40) ==> (
        parsed matches Err(error) && error == (ParseError::TooShort {
            expected: (4 * (data@[0] - 0x40)) as usize,
            actual: data@.len() as usize,
        })),
        data@.len() >= 20 && 0x45 <= data@[0] < 0x50 && data@.len() >= 4 * (data@[0] - 0x40)
            ==> parsed is Ok,
{
}

/// What is asked of an IPv4 header is answered by its bytes: the addresses, whether it
/// belongs to a fragment (an offset, or more fragments to come) and whether it may be
/// fragmented.
pub proof fn ipv4_answers(
    data: &[u8],
    parsed: ParseResult<(Ipv4Header<'_>, usize)>,
    version: IpVersion,
    addr: IpAddr,
    yes: bool,
)
    requires
        call_ensures(parse_ipv4, (data,), parsed),
        parsed is Ok,
    ensures
        ({
            let (header, _) = parsed->Ok_0;
            let s = data@;
            &&& call_ensures(Ipv4Header::version, (&header,), version) ==> version == IpVersion::V4
            &&& call_ensures(Ipv4Header::src_ip, (&header,), addr) ==> (addr matches IpAddr::V4(v4)
                && v4@ == s.subrange(12, 16))
            &&& call_ensures(Ipv4Header::dst_ip, (&header,), addr) ==> (addr matches IpAddr::V4(v4)
                && v4@ == s.subrange(16, 20))
            &&& call_ensures(Ipv4Header::is_fragment, (&header,), yes) ==> (yes <==> (s[6] % 0x40
                != 0 || s[7] != 0))
            &&& call_ensures(Ipv4Header::dont_fragment, (&header,), yes) ==> (yes <==> (s[6] / 0x40)
                % 2 == 1)
        }),
{
    ipv4_headers_are_the_bytes(data, parsed);
    let (header, _) = parsed->Ok_0;
    let flags = header.flags;
    let s = data@;
    two_bytes(s, 6);
    assert(flags & 0x01 != 0 <==> flags % 2 == 1) by (bit_vector);
    assert(flags & 0x02 != 0 <==> (flags / 2) % 2 == 1) by (bit_vector);
    assert(header.flags == s[6] / 0x20);
    assert(header.frag_offset == (s[6] % 0x20) * 0x100 + s[7]);
}

/// A header of five words or more fits its checksum exactly where its 16-bit words, with
/// the checksum in place of the sixth, add up to a multiple of 65535 that is not 0.
pub proof fn checksums_add_up(raw: Seq<u8>, checksum: u16)
    requires
        raw.len() >= 20,
    ensures
        ({
            let word = |i: int| raw[2 * i] * 0x100 + raw[2 * i + 1];
            let sum = word(0) + word(1) + word(2) + word(3) + word(4) + checksum + word(6) + word(7)
                + word(8) + word(9);
            checksum_fits(raw, 20, checksum) <==> sum > 0 && sum % 0xFFFF == 0
        }),
{
    reveal_with_fuel(header_sum, 11);
}

/// Each further word of a header counts in its checksum.
pub proof fn option_words_are_summed(raw: Seq<u8>, len: int)
    requires
        20 <= len,
        len + 2 <= raw.len(),
        len % 2 == 0,
    ensures
        header_sum(raw, len + 2, (len + 2) / 2) == header_sum(raw, len, len / 2) + raw[len] * 0x100
            + raw[len + 1],
{
    sum_of_a_prefix(raw, len, len / 2);
    assert((len + 2) / 2 - 1 == len / 2);
    assert(2 * (len / 2) == len);
}

proof fn sum_of_a_prefix(raw: Seq<u8>, len: int, words: int)
    requires
        0 <= words,
        2 * words <= len,
    ensures
        header_sum(raw, len + 2, words) == header_sum(raw, len, words),
    decreases words,
{
    if words > 0 {
        sum_of_a_prefix(raw, len, words - 1);
    }
}

/// The checksum of a header is verified against its own bytes.
pub proof fn checksums_are_verified(
    data: &[u8],
    parsed: ParseResult<(Ipv4Header<'_>, usize)>,
    valid: bool,
)
    requires
        call_ensures(parse_ipv4, (data,), parsed),
        parsed is Ok,
        call_ensures(Ipv4Header::verify_checksum, (&parsed->Ok_0.0,), valid),
    ensures
        valid == checksum_fits(
            data@.take(parsed->Ok_0.1 as int),
            parsed->Ok_0.1 as int,
            (data@[10] * 0x100 + data@[11]) as u16,
        ),
{
    ipv4_headers_are_the_bytes(data, parsed);
}

/// An IPv6 header is its fields in order: version, traffic class and flow label, the
/// payload length, next header, hop limit, source address and destination address. Data
/// parse exactly where they say version 6 and have 40 bytes.
pub proof fn ipv6_headers_are_the_bytes(
    data: &[u8],
    parsed: ParseResult<(Ipv6Header<'_>, usize, u8)>,
)
    requires
        call_ensures(parse_ipv6, (data,), parsed),
    ensures
        match parsed {
            Ok((header, len, next_header)) => {
                let s = data@;
                &&& len == 40
                &&& s.len() >= 40
                &&& header.raw@ == s.take(40)
                &&& header.flow_label < 0x10_0000
                &&& network_bytes(
                    (0x6000_0000 + header.traffic_class * 0x10_0000 + header.flow_label) as nat,
                    4,
                ) == s.take(4)
                &&& network_bytes(header.payload_len as nat, 2) == s.subrange(4, 6)
                &&& header.next_header == s[6]
                &&& next_header == s[6]
                &&& header.hop_limit == s[7]
                &&& header.src_addr@ == s.subrange(8, 24)
                &&& header.dst_addr@ == s.subrange(24, 40)
            },
            Err(error) => {
                &&& data@.len() < 40 ==> error == (ParseError::TooShort {
                    expected: 40,
                    actual: data@.len() as usize,
                })
                &&& data@.len() >= 40 ==> !(0x60 <= data@[0] < 0x70) && error
                    == ParseError::InvalidIpVersion(data@[0] / 16)
            },
        },
{
    let s = data@;
    if s.len() >= 40 {
        let word = s[0] * 0x100_0000 + s[1] * 0x1_0000 + s[2] * 0x100 + s[3];
        assert(word / 0x1000_0000 == s[0] / 16);
        four_bytes(s, 0);
        two_bytes(s, 4);
        if let Ok((header, len, next_header)) = parsed {
            assert(header.raw@ =~= s.take(40));
            assert(s.subrange(0, 4) =~= s.take(4));
            assert(header.src_addr@ =~= s.subrange(8, 24));
            assert(header.dst_addr@ =~= s.subrange(24, 40));
            assert(0x6000_0000 + header.traffic_class * 0x10_0000 + header.flow_label == word);
        }
    }
}

/// What is asked of an IPv6 header is answered by its bytes.
pub proof fn ipv6_answers(
    data: &[u8],
    parsed: ParseResult<(Ipv6Header<'_>, usize, u8)>,
    addr: IpAddr,
    yes: bool,
)
    requires
        call_ensures(parse_ipv6, (data,), parsed),
        parsed is Ok,
    ensures
        ({
            let (header, _, _) = parsed->Ok_0;
            let s = data@;
            &&& call_ensures(Ipv6Header::src_ip, (&header,), addr) ==> (addr matches IpAddr::V6(v6)
                && v6@ == s.subrange(8, 24))
            &&& call_ensures(Ipv6Header::dst_ip, (&header,), addr) ==> (addr matches IpAddr::V6(v6)
                && v6@ == s.subrange(24, 40))
            &&& call_ensures(Ipv6Header::is_multicast, (&header,), yes) ==> (yes <==> s[24] == 0xFF)
        }),
{
    ipv6_headers_are_the_bytes(data, parsed);
}

/// What is asked of an IP header is answered by the header it is.
pub proof fn ip_answers(
    header: IpHeader<'_>,
    version: IpVersion,
    addr: IpAddr,
    len: usize,
    yes: bool,
)
    ensures
        call_ensures(IpHeader::version, (&header,), version) ==> (version == IpVersion::V6 <==> (
        header is V6)),
        call_ensures(IpHeader::src_addr, (&header,), addr) ==> (match header {
            IpHeader::V4(v4) => addr == IpAddr::V4(v4.src_addr),
            IpHeader::V6(v6) => addr == IpAddr::V6(v6.src_addr),
        }),
        call_ensures(IpHeader::dst_addr, (&header,), addr) ==> (match header {
            IpHeader::V4(v4) => addr == IpAddr::V4(v4.dst_addr),
            IpHeader::V6(v6) => addr == IpAddr::V6(v6.dst_addr),
        }),
        call_ensures(IpHeader::header_len, (&header,), len) ==> len == (match header {
            IpHeader::V4(v4) => v4.header_len,
            IpHeader::V6(_) => 40,
        }),
        call_ensures(IpVersion::is_v4, (&version,), yes) ==> (yes <==> version == IpVersion::V4),
        call_ensures(IpVersion::is_v6, (&version,), yes) ==> (yes <==> version == IpVersion::V6),
{
}

/// `weight` where `set`, else 0.
pub open spec fn weighed(set: bool, weight: int) -> int {
    if set {
        weight
    } else {
        0
    }
}

/// A byte is the sum of its bits, each at its weight.
proof fn byte_is_its_bits(b: u8)
    ensures
        b == weighed(b & 0x01 != 0, 1) + weighed(b & 0x02 != 0, 2) + weighed(b & 0x04 != 0, 4)
            + weighed(b & 0x08 != 0, 8) + weighed(b & 0x10 != 0, 16) + weighed(b & 0x20 != 0, 32)
            + weighed(b & 0x40 != 0, 64) + weighed(b & 0x80 != 0, 128),
{
    assert(b == (b & 0x01) + (b & 0x02) + (b & 0x04) + (b & 0x08) + (b & 0x10) + (b & 0x20) + (b
        & 0x40) + (b & 0x80)) by (bit_vector);
    assert((b & 0x01 == 0 || b & 0x01 == 0x01) && (b & 0x02 == 0 || b & 0x02 == 0x02) && (b & 0x04
        == 0 || b & 0x04 == 0x04) && (b & 0x08 == 0 || b & 0x08 == 0x08) && (b & 0x10 == 0 || b
        & 0x10 == 0x10) && (b & 0x20 == 0 || b & 0x20 == 0x20) && (b & 0x40 == 0 || b & 0x40
        == 0x40) && (b & 0x80 == 0 || b & 0x80 == 0x80)) by (bit_vector);
}

/// A TCP header is its fields in order: the ports, the sequence and acknowledgment numbers,
/// the data offset, the flags (each worth its bit), window, checksum, urgent pointer and
/// options. Data parse exactly where they have 20 bytes, state a length of 20 or more, and
/// are that long.
pub proof fn tcp_headers_are_the_bytes(data: &[u8], parsed: ParseResult<(TcpHeader<'_>, usize)>)
    requires
        call_ensures(parse_tcp, (data,), parsed),
    ensures
        match parsed {
            Ok((header, len)) => {
                let s = data@;
                &&& 20 <= len <= s.len()
                &&& len == header.header_len
                &&& header.data_offset as int == s[12] / 16
                &&& len == 4 * header.data_offset
                &&& header.raw@ == s.take(len as int)
                &&& network_bytes(header.src_port as nat, 2) == s.subrange(0, 2)
                &&& network_bytes(header.dst_port as nat, 2) == s.subrange(2, 4)
                &&& network_bytes(header.seq as nat, 4) == s.subrange(4, 8)
                &&& network_bytes(header.ack as nat, 4) == s.subrange(8, 12)
                &&& header.ns <==> s[12] % 2 == 1
                &&& s[13] == weighed(header.fin, 1) + weighed(header.syn, 2) + weighed(
                    header.rst,
                    4,
                ) + weighed(header.psh, 8) + weighed(header.ack_flag, 16) + weighed(
                    header.urg,
                    32,
                ) + weighed(header.ece, 64) + weighed(header.cwr, 128)
                &&& network_bytes(header.window as nat, 2) == s.subrange(14, 16)
                &&& network_bytes(header.checksum as nat, 2) == s.subrange(16, 18)
                &&& network_bytes(header.urgent_ptr as nat, 2) == s.subrange(18, 20)
                &&& match header.options {
                    Some(options) => len > 20 && options@ == s.subrange(20, len as int),
                    None => len == 20,
                }
            },
            Err(error) => {
                &&& data@.len() < 20 ==> error == (ParseError::TooShort {
                    expected: 20,
                    actual: data@.len() as usize,
                })
                &&& data@.len() >= 20 ==> error == ParseError::InvalidTcpHeader && (data@[12] < 0x50
                    || data@.len() < 4 * (data@[12] / 16))
            },
        },
{
    if let Ok((header, len)) = parsed {
        let s = data@;
        two_bytes(s, 0);
        two_bytes(s, 2);
        four_bytes(s, 4);
        four_bytes(s, 8);
        two_bytes(s, 14);
        two_bytes(s, 16);
        two_bytes(s, 18);
        let b = s[12];
        assert(b & 0x01 != 0 <==> b % 2 == 1) by (bit_vector);
        byte_is_its_bits(s[13]);
        assert(header.raw@ =~= s.take(len as int));
    }
}

/// What is asked of a TCP header is answered by its flags.
pub proof fn tcp_answers(header: TcpHeader<'_>, yes: bool)
    ensures
        call_ensures(TcpHeader::is_ack, (&header,), yes) ==> yes == header.ack_flag,
        call_ensures(TcpHeader::is_syn, (&header,), yes) ==> (yes <==> header.syn
            && !header.ack_flag),
        call_ensures(TcpHeader::is_syn_ack, (&header,), yes) ==> (yes <==> header.syn
            && header.ack_flag),
        call_ensures(TcpHeader::is_fin, (&header,), yes) ==> yes == header.fin,
        call_ensures(TcpHeader::is_rst, (&header,), yes) ==> yes == header.rst,
{
}

/// The options of a header are read from its options, and a header without options has
/// none to read.
pub proof fn options_are_those_of_the_header<'a>(header: TcpHeader<'a>, iter: TcpOptionsIter<'a>)
    requires
        call_ensures(TcpHeader::options_iter, (&header,), iter),
    ensures
        header.options matches Some(options) ==> iter@ == options@,
        header.options is None ==> iter@.len() == 0,
{
}

/// A UDP header is its fields in order: the ports, the length and the checksum. Data parse
/// exactly where they have 8 bytes.
pub proof fn udp_headers_are_the_bytes(data: &[u8], parsed: ParseResult<(UdpHeader<'_>, usize)>)
    requires
        call_ensures(parse_udp, (data,), parsed),
    ensures
        match parsed {
            Ok((header, len)) => {
                &&& len == 8
                &&& data@.len() >= 8
                &&& header.raw@ == data@.take(8)
                &&& network_bytes(header.src_port as nat, 2) + network_bytes(
                    header.dst_port as nat,
                    2,
                ) + network_bytes(header.length as nat, 2) + network_bytes(
                    header.checksum as nat,
                    2,
                ) == data@.take(8)
            },
            Err(error) => data@.len() < 8 && error == (ParseError::TooShort {
                expected: 8,
                actual: data@.len() as usize,
            }),
        },
{
    if let Ok((header, len)) = parsed {
        let s = data@;
        two_bytes(s, 0);
        two_bytes(s, 2);
        two_bytes(s, 4);
        two_bytes(s, 6);
        assert(s.subrange(0, 2) + s.subrange(2, 4) + s.subrange(4, 6) + s.subrange(6, 8)
            =~= s.take(8));
        assert(header.raw@ =~= s.take(8));
    }
}

/// Header and payload of a UDP packet have the length that the header states, where it
/// states at least its own.
pub proof fn udp_payloads_fill_the_length(header: UdpHeader<'_>, len: u16)
    requires
        call_ensures(UdpHeader::payload_len, (&header,), len),
    ensures
        header.length >= 8 ==> len + 8 == header.length,
        header.length < 8 ==> len == 0,
{
}

/// An ICMP message is its type, its code, its checksum and the rest, over IPv4 and IPv6
/// alike. Data parse exactly where they have 4 bytes.
pub proof fn icmp_headers_are_the_bytes(data: &[u8], parsed: ParseResult<(IcmpHeader<'_>, usize)>)
    requires
        call_ensures(parse_icmp, (data,), parsed) || call_ensures(parse_icmpv6, (data,), parsed),
    ensures
        match parsed {
            Ok((header, len)) => {
                &&& len == 4
                &&& data@.len() >= 4
                &&& header.raw@ == data@.take(4)
                &&& seq![header.icmp_type, header.code] + word_bytes(header.checksum)
                    + header.rest@ == data@
            },
            Err(error) => data@.len() < 4 && error == shorter_than(4, data@),
        },
{
    if let Ok((header, len)) = parsed {
        let s = data@;
        two_bytes(s, 2);
        assert(header.raw@ =~= s.take(4));
        assert(seq![header.icmp_type, header.code] + s.subrange(2, 4) + header.rest@ =~= s);
    }
}

/// An echo message carries its identifier and its sequence number in the first four bytes
/// of the rest; the kinds of message have their numbers.
pub proof fn icmp_answers(header: IcmpHeader<'_>, number: Option<u16>, yes: bool)
    ensures
        call_ensures(IcmpHeader::identifier, (&header,), number) ==> match number {
            Some(n) => header.rest@.len() >= 2 && word_bytes(n)
                == header.rest@.subrange(0, 2),
            None => header.rest@.len() < 2,
        },
        call_ensures(IcmpHeader::sequence, (&header,), number) ==> match number {
            Some(n) => header.rest@.len() >= 4 && word_bytes(n)
                == header.rest@.subrange(2, 4),
            None => header.rest@.len() < 4,
        },
        call_ensures(IcmpHeader::is_echo_request, (&header,), yes) ==> (yes <==> header.icmp_type
            == 8),
        call_ensures(IcmpHeader::is_echo_reply, (&header,), yes) ==> (yes <==> header.icmp_type
            == 0),
        call_ensures(IcmpHeader::is_dest_unreachable, (&header,), yes) ==> (yes
            <==> header.icmp_type == 3),
        call_ensures(IcmpHeader::is_time_exceeded, (&header,), yes) ==> (yes <==> header.icmp_type
            == 11),
{
    if header.rest@.len() >= 2 {
        two_bytes(header.rest@, 0);
    }
    if header.rest@.len() >= 4 {
        two_bytes(header.rest@, 2);
    }
}

/// What is asked of an Ethernet header is answered by its addresses.
pub proof fn ethernet_answers(header: EthernetHeader<'_>, mac: [u8; 6], yes: bool)
    requires
        header.dst_mac@.len() == 6,
        header.src_mac@.len() == 6,
    ensures
        call_ensures(EthernetHeader::dst_mac_array, (&header,), mac) ==> mac@ == header.dst_mac@,
        call_ensures(EthernetHeader::src_mac_array, (&header,), mac) ==> mac@ == header.src_mac@,
        call_ensures(EthernetHeader::is_broadcast, (&header,), yes) ==> (yes <==> header.dst_mac@
            == seq![0xFFu8, 0xFF, 0xFF, 0xFF, 0xFF, 0xFF]),
        call_ensures(EthernetHeader::is_multicast, (&header,), yes) ==> (yes <==> header.dst_mac@[0]
            % 2 == 1),
{
    assert(header.dst_mac@.subrange(0, 6) =~= header.dst_mac@);
    assert(header.src_mac@.subrange(0, 6) =~= header.src_mac@);
    if call_ensures(EthernetHeader::is_broadcast, (&header,), yes) {
        let all = seq![0xFFu8, 0xFF, 0xFF, 0xFF, 0xFF, 0xFF];
        if yes {
            assert(header.dst_mac@ =~= all);
        } else {
            assert(header.dst_mac@ != all);
        }
    }
}

/// An option that is written in front of others is read back, and the others are left:
/// the padding, the end of the list, the segment size, the window scale, the permission
/// for selective acknowledgments, the acknowledgments themselves, the timestamps, and any
/// other kind with a length.
pub proof fn written_options_are_read_back(
    rest: Seq<u8>,
    mss: u16,
    scale: u8,
    ts_val: u32,
    ts_ecr: u32,
    kind: u8,
    body: Seq<u8>,
)
    requires
        body.len() + 2 <= 255,
        kind > 8 || kind == 6 || kind == 7,
    ensures
        tcp_option_of(seq![0u8] + rest) == (Some(TcpOptionKind::End), 1int),
        tcp_option_of(seq![1u8] + rest) == (Some(TcpOptionKind::Nop), 1int),
        tcp_option_of(seq![2u8, 4u8] + network_bytes(mss as nat, 2) + rest) == (
            Some(TcpOptionKind::Mss(mss)),
            4int,
        ),
        tcp_option_of(seq![3u8, 3u8, scale] + rest) == (
            Some(TcpOptionKind::WindowScale(scale)),
            3int,
        ),
        tcp_option_of(seq![4u8, 2u8] + rest) == (Some(TcpOptionKind::SackPermitted), 2int),
        tcp_option_of(seq![5u8, (body.len() + 2) as u8] + body + rest) == (
            Some(TcpOptionKind::Sack),
            body.len() as int + 2,
        ),
        tcp_option_of(
            seq![8u8, 10u8] + network_bytes(ts_val as nat, 4) + network_bytes(ts_ecr as nat, 4)
                + rest,
        ) == (Some(TcpOptionKind::Timestamp { ts_val, ts_ecr }), 10int),
        tcp_option_of(seq![kind, (body.len() + 2) as u8] + body + rest) == (
            Some(TcpOptionKind::Unknown(kind)),
            body.len() as int + 2,
        ),
{
    reveal_with_fuel(network_bytes, 5);
    let m = mss as nat;
    assert(network_bytes(m, 2) =~= seq![(m / 0x100) as u8, (m % 0x100) as u8]);
    four_byte_digits(ts_val);
    four_byte_digits(ts_ecr);
    let stamps = seq![8u8, 10u8] + network_bytes(ts_val as nat, 4) + network_bytes(
        ts_ecr as nat,
        4,
    ) + rest;
    let v = network_bytes(ts_val as nat, 4);
    let e = network_bytes(ts_ecr as nat, 4);
    assert(stamps[2] == v[0] && stamps[3] == v[1] && stamps[4] == v[2] && stamps[5] == v[3]);
    assert(stamps[6] == e[0] && stamps[7] == e[1] && stamps[8] == e[2] && stamps[9] == e[3]);
}

proof fn four_byte_digits(n: u32)
    ensures
        ({
            let b = network_bytes(n as nat, 4);
            &&& b.len() == 4
            &&& b[0] * 0x100_0000 + b[1] * 0x1_0000 + b[2] * 0x100 + b[3] == n
        }),
{
    reveal_with_fuel(network_bytes, 5);
    let m = n as nat;
    assert(m / 0x100 / 0x100 / 0x100 < 0x100);
}

/// Whether the option at the start of `rest` needs more bytes than there are, or states a
/// length that does not even cover itself.
pub open spec fn is_cut_off(rest: Seq<u8>) -> bool {
    ||| rest[0] == 2 && rest.len() < 4
    ||| rest[0] == 3 && rest.len() < 3
    ||| rest[0] == 8 && rest.len() < 10
    ||| rest[0] == 5 && (rest.len() < 2 || rest[1] > rest.len())
    ||| (rest[0] == 6 || rest[0] == 7 || rest[0] > 8) && (rest.len() < 2 || rest[1] > rest.len()
        || rest[1] < 2)
}

/// An option that is cut off has no meaning, and ends the list.
pub proof fn truncated_options_end_the_list(rest: Seq<u8>)
    requires
        rest.len() > 0,
        is_cut_off(rest),
    ensures
        tcp_option_of(rest).0 is None,
        rest.skip(tcp_option_of(rest).1).len() == 0,
{
}

/// Taking the next option takes the option in front, and leaves what is behind it.
pub proof fn options_are_taken_in_order<'a>(
    iter: &mut TcpOptionsIter<'a>,
    option: Option<TcpOptionKind>,
    mss: u16,
    rest: Seq<u8>,
)
    requires
        call_ensures(TcpOptionsIter::next, (iter,), option),
    ensures
        old(iter)@.len() == 0 ==> option is None && final(iter)@.len() == 0,
        old(iter)@ == seq![1u8] + rest ==> option == Some(TcpOptionKind::Nop) && final(iter)@
            == rest,
        old(iter)@ == seq![2u8, 4u8] + network_bytes(mss as nat, 2) + rest ==> option == Some(
            TcpOptionKind::Mss(mss),
        ) && final(iter)@ == rest,
{
    written_options_are_read_back(rest, mss, 0, 0, 0, 9, Seq::empty());
    reveal_with_fuel(network_bytes, 3);
    let nop = seq![1u8] + rest;
    let sized = seq![2u8, 4u8] + network_bytes(mss as nat, 2) + rest;
    assert(nop.skip(1) =~= rest);
    assert(sized.skip(4) =~= rest);
}

/// Reading a number reads its bytes, the highest first.
pub proof fn numbers_are_read_from_bytes(a: u8, b: u8, c: u8, d: u8, word: u16, long: u32)
    requires
        call_ensures(read_be16, (a, b), word),
        call_ensures(read_be32, (a, b, c, d), long),
    ensures
        network_bytes(word as nat, 2) == seq![a, b],
        network_bytes(long as nat, 4) == seq![a, b, c, d],
{
    let s = seq![a, b, c, d];
    two_bytes(s, 0);
    four_bytes(s, 0);
    assert(s.subrange(0, 2) =~= seq![a, b]);
    assert(s.subrange(0, 4) =~= s);
}

/// A number in a buffer is read from its four bytes, the highest first or last.
pub proof fn numbers_are_read_from_buffers(data: &[u8], at: usize, order: ByteOrder, n: u32)
    requires
        at + 4 <= data@.len(),
        call_ensures(read_u32_at, (data, at, order), n),
    ensures
        order == ByteOrder::Big ==> network_bytes(n as nat, 4) == data@.subrange(
            at as int,
            at + 4,
        ),
        order == ByteOrder::Little ==> network_bytes(n as nat, 4) == seq![
            data@[at + 3],
            data@[at + 2],
            data@[at + 1],
            data@[at as int],
        ],
{
    four_bytes(data@, at as int);
    let reversed = seq![data@[at + 3], data@[at + 2], data@[at + 1], data@[at as int]];
    four_bytes(reversed, 0);
    assert(reversed.subrange(0, 4) =~= reversed);
}

} // verus!
