//! Ethernet II frames and 802.1Q VLAN tags.

use crate::bytes::read_be16;
use crate::parser::packet::vlan_stack;
use crate::parser::{ParseError, ParseResult};
use vstd::prelude::*;

verus! {

/// Bytes in an Ethernet II header.
pub const ETHERNET_HEADER_LEN: usize = 14;

/// EtherType values of common protocols.
#[derive(Debug, Clone, Copy, PartialEq, Eq, Structural)]
pub enum EtherType {
    /// IPv4
    Ipv4,
    /// IPv6
    Ipv6,
    /// ARP
    Arp,
    /// Wake-on-LAN
    Wol,
    /// TRILL
    Trill,
    /// DECnet
    Decnet,
    /// RARP
    Rarp,
    /// AppleTalk
    Aarp,
    /// 802.1Q VLAN
    Vlan,
    /// PXE boot, which has no number of its own
    Pxe,
    /// Link Layer Discovery Protocol
    Lldp,
    /// Precision Time Protocol
    Ptp,
    /// PPPoE discovery
    PppoeDiscovery,
    /// PPPoE session
    PppoeSession,
    /// MPLS unicast
    Mpls,
    /// MPLS multicast
    MplsMulticast,
    /// Any other number
    Custom(u16),
}

/// The protocol that an EtherType number stands for.
pub open spec fn ether_type_of(number: u16) -> EtherType {
    match number {
        0x0800 => EtherType::Ipv4,
        0x86DD => EtherType::Ipv6,
        0x0806 => EtherType::Arp,
        0x0842 => EtherType::Wol,
        0x22F3 => EtherType::Trill,
        0x6003 => EtherType::Decnet,
        0x8035 => EtherType::Rarp,
        0x80F3 => EtherType::Aarp,
        0x8100 => EtherType::Vlan,
        0x88CC => EtherType::Lldp,
        0x88F7 => EtherType::Ptp,
        0x8863 => EtherType::PppoeDiscovery,
        0x8864 => EtherType::PppoeSession,
        0x8847 => EtherType::Mpls,
        0x8848 => EtherType::MplsMulticast,
        _ => EtherType::Custom(number),
    }
}

/// The number of an EtherType; zero for PXE, which has none.
pub open spec fn ether_type_number(ether_type: EtherType) -> u16 {
    match ether_type {
        EtherType::Ipv4 => 0x0800,
        EtherType::Ipv6 => 0x86DD,
        EtherType::Arp => 0x0806,
        EtherType::Wol => 0x0842,
        EtherType::Trill => 0x22F3,
        EtherType::Decnet => 0x6003,
        EtherType::Rarp => 0x8035,
        EtherType::Aarp => 0x80F3,
        EtherType::Vlan => 0x8100,
        EtherType::Pxe => 0,
        EtherType::Lldp => 0x88CC,
        EtherType::Ptp => 0x88F7,
        EtherType::PppoeDiscovery => 0x8863,
        EtherType::PppoeSession => 0x8864,
        EtherType::Mpls => 0x8847,
        EtherType::MplsMulticast => 0x8848,
        EtherType::Custom(number) => number,
    }
}

impl From<u16> for EtherType {
    fn from(value: u16) -> (ether_type: EtherType) {
        match value {
            0x0800 => EtherType::Ipv4,
            0x86DD => EtherType::Ipv6,
            0x0806 => EtherType::Arp,
            0x0842 => EtherType::Wol,
            0x22F3 => EtherType::Trill,
            0x6003 => EtherType::Decnet,
            0x8035 => EtherType::Rarp,
            0x80F3 => EtherType::Aarp,
            0x8100 => EtherType::Vlan,
            0x88CC => EtherType::Lldp,
            0x88F7 => EtherType::Ptp,
            0x8863 => EtherType::PppoeDiscovery,
            0x8864 => EtherType::PppoeSession,
            0x8847 => EtherType::Mpls,
            0x8848 => EtherType::MplsMulticast,
            _ => EtherType::Custom(value),
        }
    }
}

impl vstd::std_specs::convert::FromSpecImpl<u16> for EtherType {
    open spec fn obeys_from_spec() -> bool {
        true
    }

    open spec fn from_spec(value: u16) -> EtherType {
        ether_type_of(value)
    }
}

impl From<EtherType> for u16 {
    fn from(ether_type: EtherType) -> (number: u16) {
        match ether_type {
            EtherType::Ipv4 => 0x0800,
            EtherType::Ipv6 => 0x86DD,
            EtherType::Arp => 0x0806,
            EtherType::Wol => 0x0842,
            EtherType::Trill => 0x22F3,
            EtherType::Decnet => 0x6003,
            EtherType::Rarp => 0x8035,
            EtherType::Aarp => 0x80F3,
            EtherType::Vlan => 0x8100,
            EtherType::Pxe => 0,
            EtherType::Lldp => 0x88CC,
            EtherType::Ptp => 0x88F7,
            EtherType::PppoeDiscovery => 0x8863,
            EtherType::PppoeSession => 0x8864,
            EtherType::Mpls => 0x8847,
            EtherType::MplsMulticast => 0x8848,
            EtherType::Custom(number) => number,
        }
    }
}

impl vstd::std_specs::convert::FromSpecImpl<EtherType> for u16 {
    open spec fn obeys_from_spec() -> bool {
        true
    }

    open spec fn from_spec(ether_type: EtherType) -> u16 {
        ether_type_number(ether_type)
    }
}

/// Naming an EtherType number and taking the number again gives it back.
pub proof fn ether_type_number_roundtrip(number: u16)
    ensures
        ether_type_number(ether_type_of(number)) == number,
{
}

/// An Ethernet header that borrows the frame it was read from.
#[derive(Debug, Clone, Copy)]
pub struct EthernetHeader<'a> {
    /// Destination MAC address (6 bytes)
    pub dst_mac: &'a [u8],
    /// Source MAC address (6 bytes)
    pub src_mac: &'a [u8],
    /// Protocol of the payload
    pub ether_type: EtherType,
}

/// What an Ethernet header holds.
#[verifier::ext_equal]
pub struct EthernetModel {
    pub dst_mac: Seq<u8>,
    pub src_mac: Seq<u8>,
    pub ether_type: EtherType,
}

impl<'a> View for EthernetHeader<'a> {
    type V = EthernetModel;

    open spec fn view(&self) -> EthernetModel {
        EthernetModel {
            dst_mac: self.dst_mac@,
            src_mac: self.src_mac@,
            ether_type: self.ether_type,
        }
    }
}

/// The header at the start of a frame.
pub open spec fn ethernet_of(frame: Seq<u8>) -> Result<EthernetModel, ParseError> {
    if frame.len() < ETHERNET_HEADER_LEN {
        Err(crate::parser::too_short(ETHERNET_HEADER_LEN, frame))
    } else {
        Ok(
            EthernetModel {
                dst_mac: frame.subrange(0, 6),
                src_mac: frame.subrange(6, 12),
                ether_type: ether_type_of(crate::bytes::be16(frame[12], frame[13])),
            },
        )
    }
}

/// The fields of a VLAN tag: priority, drop eligibility, VLAN identifier and the
/// EtherType that follows.
pub open spec fn vlan_tag_of(tag: Seq<u8>) -> Result<(u8, bool, u16, EtherType), ParseError> {
    if tag.len() < 4 {
        Err(crate::parser::too_short(4, tag))
    } else {
        let tci = crate::bytes::be16(tag[0], tag[1]);
        Ok(
            (
                (tci / 0x2000) as u8,
                (tci / 0x1000) % 2 == 1,
                tci % 0x1000,
                ether_type_of(crate::bytes::be16(tag[2], tag[3])),
            ),
        )
    }
}

impl<'a> EthernetHeader<'a> {
    /// The destination MAC address as an array.
    pub fn dst_mac_array(&self) -> (mac: [u8; 6])
        requires
            self.dst_mac@.len() >= 6,
        ensures
            mac@ == self.dst_mac@.subrange(0, 6),
    {
        let mac = [
            self.dst_mac[0],
            self.dst_mac[1],
            self.dst_mac[2],
            self.dst_mac[3],
            self.dst_mac[4],
            self.dst_mac[5],
        ];
        assert(mac@ =~= self.dst_mac@.subrange(0, 6));
        mac
    }

    /// The source MAC address as an array.
    pub fn src_mac_array(&self) -> (mac: [u8; 6])
        requires
            self.src_mac@.len() >= 6,
        ensures
            mac@ == self.src_mac@.subrange(0, 6),
    {
        let mac = [
            self.src_mac[0],
            self.src_mac[1],
            self.src_mac[2],
            self.src_mac[3],
            self.src_mac[4],
            self.src_mac[5],
        ];
        assert(mac@ =~= self.src_mac@.subrange(0, 6));
        mac
    }

    /// Whether every byte of the destination address is `0xFF`.
    pub fn is_broadcast(&self) -> (broadcast: bool)
        ensures
            broadcast == (forall|i: int|
                0 <= i < self.dst_mac@.len() ==> #[trigger] self.dst_mac@[i] == 0xFF),
    {
        let mut i: usize = 0;
        while i < self.dst_mac.len()
            invariant
                i <= self.dst_mac@.len(),
                forall|j: int| 0 <= j < i ==> #[trigger] self.dst_mac@[j] == 0xFF,
            decreases self.dst_mac@.len() - i,
        {
            if self.dst_mac[i] != 0xFF {
                return false;
            }
            i += 1;
        }
        true
    }

    /// Whether the group bit of the destination address is set.
    pub fn is_multicast(&self) -> (multicast: bool)
        requires
            self.dst_mac@.len() > 0,
        ensures
            multicast == (self.dst_mac@[0] % 2 == 1),
    {
        self.dst_mac[0] % 2 == 1
    }
}

/// The offset behind the VLAN tags of `frame` that are there in full, where `ether_type`
/// was announced for offset `at`.
pub open spec fn payload_offset(frame: Seq<u8>, at: int, ether_type: EtherType) -> int
    decreases frame.len() - at,
{
    if ether_type != EtherType::Vlan || at + 4 > frame.len() {
        at
    } else {
        payload_offset(
            frame,
            at + 4,
            ether_type_of(crate::bytes::be16(frame[at + 2], frame[at + 3])),
        )
    }
}

/// Where all VLAN tags are there in full, the payload starts where they end.
proof fn payload_is_behind_the_tags(frame: Seq<u8>, at: int, ether_type: EtherType)
    ensures
        vlan_stack(frame, at, ether_type) matches Ok((_, _, end)) ==> payload_offset(
            frame,
            at,
            ether_type,
        ) == end,
    decreases frame.len() - at,
{
    if ether_type == EtherType::Vlan && at + 4 <= frame.len() {
        payload_is_behind_the_tags(
            frame,
            at + 4,
            ether_type_of(crate::bytes::be16(frame[at + 2], frame[at + 3])),
        );
    }
}

/// Parses the Ethernet header of a frame. Returns it with the offset of the payload,
/// behind any VLAN tags. The header keeps the type that it announces itself.
pub fn parse_ethernet(data: &[u8]) -> (parsed: ParseResult<(EthernetHeader<'_>, usize)>)
    ensures
        match parsed {
            Ok((header, offset)) => {
                &&& ethernet_of(data@) == Ok::<_, ParseError>(header@)
                &&& offset == payload_offset(data@, 14, header@.ether_type)
                &&& vlan_stack(data@, 14, header@.ether_type) matches Ok((_, _, end)) ==> offset
                    == end
                &&& header@.ether_type != EtherType::Vlan ==> offset == ETHERNET_HEADER_LEN
                &&& ETHERNET_HEADER_LEN <= offset <= data@.len()
            },
            Err(error) => ethernet_of(data@) == Err::<EthernetModel, _>(error),
        },
{
    if data.len() < ETHERNET_HEADER_LEN {
        return Err(ParseError::TooShort { expected: ETHERNET_HEADER_LEN, actual: data.len() });
    }
    let ether_type = EtherType::from(read_be16(data[12], data[13]));
    let header = EthernetHeader { dst_mac: &data[0..6], src_mac: &data[6..12], ether_type };
    let mut next: EtherType = ether_type;
    let mut offset: usize = ETHERNET_HEADER_LEN;
    while next == EtherType::Vlan && data.len() - offset >= 4
        invariant
            ETHERNET_HEADER_LEN <= offset <= data@.len(),
            payload_offset(data@, 14, ether_type) == payload_offset(data@, offset as int, next),
            ether_type != EtherType::Vlan ==> next == ether_type && offset == ETHERNET_HEADER_LEN,
        decreases data@.len() - offset,
    {
        next = EtherType::from(read_be16(data[offset + 2], data[offset + 3]));
        offset = offset + 4;
    }
    proof {
        payload_is_behind_the_tags(data@, 14, ether_type);
    }
    Ok((header, offset))
}

/// Parses the four bytes of an 802.1Q tag that follow its EtherType.
pub fn parse_vlan_tag(data: &[u8]) -> (parsed: ParseResult<(u8, bool, u16, EtherType)>)
    ensures
        parsed == vlan_tag_of(data@),
{
    if data.len() < 4 {
        return Err(ParseError::TooShort { expected: 4, actual: data.len() });
    }
    let tci: u16 = read_be16(data[0], data[1]);
    let priority: u8 = (tci / 0x2000) as u8;
    let drop_eligible = (tci / 0x1000) % 2 == 1;
    let vlan_id: u16 = tci % 0x1000;
    let ether_type = EtherType::from(read_be16(data[2], data[3]));
    Ok((priority, drop_eligible, vlan_id, ether_type))
}

} // verus!
