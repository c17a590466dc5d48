//! Zero-copy packet dissection.

use vstd::prelude::*;

pub mod address;
pub mod dissect_laws;
pub mod ethernet;
pub mod header_laws;
pub mod ip;
pub mod packet;
pub mod packet_laws;
pub mod transport;

pub use address::{FlowKey, IpAddr, Ipv4Addr};
pub use ethernet::{EtherType, EthernetHeader};
pub use ip::{IpHeader, IpVersion, Ipv4Header, Ipv6Header};
pub use packet::{PacketParser, ParsedPacket};
pub use transport::{IcmpHeader, Protocol, TcpHeader, UdpHeader};

verus! {

/// Why a packet could not be parsed.
#[derive(Debug, Clone, Copy, PartialEq, Eq, Structural)]
pub enum ParseError {
    /// Packet too short for the expected header
    TooShort { expected: usize, actual: usize },
    /// Invalid Ethernet frame
    InvalidEthernet,
    /// Invalid IP version
    InvalidIpVersion(u8),
    /// Invalid IP header length
    InvalidIpHeaderLength(u8),
    /// IP header checksum mismatch
    IpChecksumMismatch,
    /// Truncated IP header
    TruncatedIpHeader,
    /// Unsupported protocol
    UnsupportedProtocol(u8),
    /// Invalid TCP header
    InvalidTcpHeader,
    /// Invalid UDP header
    InvalidUdpHeader,
    /// Invalid ICMP header
    InvalidIcmpHeader,
    /// Unknown next header (IPv6)
    UnknownNextHeader(u8),
    /// Invalid VLAN tag
    InvalidVlanTag,
    /// Invalid extension header (IPv6)
    InvalidExtensionHeader,
}

/// The error for a packet that ends before a header of `expected` bytes does.
pub open spec fn too_short(expected: usize, packet: Seq<u8>) -> ParseError {
    ParseError::TooShort { expected, actual: packet.len() as usize }
}

/// Result of a parsing operation.
pub type ParseResult<T> = Result<T, ParseError>;

} // verus!
