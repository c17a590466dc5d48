//! Numbers, addresses and columns as text.

use crate::parser::transport::Protocol;
use crate::capture::CaptureError;
use crate::parser::{FlowKey, IpAddr, ParseError};
use crate::umem::UMemError;
use vstd::prelude::*;
use vstd::string::StrSliceExecFns;
use vstd::string::StringExecFns;

verus! {

/// The digit `d`, in base 16 or less.
pub open spec fn digit(d: u8) -> char {
    match d {
        0 => '0',
        1 => '1',
        2 => '2',
        3 => '3',
        4 => '4',
        5 => '5',
        6 => '6',
        7 => '7',
        8 => '8',
        9 => '9',
        10 => 'a',
        11 => 'b',
        12 => 'c',
        13 => 'd',
        14 => 'e',
        _ => 'f',
    }
}

/// `n` in decimal.
pub open spec fn decimal(n: nat) -> Seq<char>
    decreases n,
{
    if n < 10 {
        seq![digit(n as u8)]
    } else {
        decimal(n / 10).push(digit((n % 10) as u8))
    }
}

/// A 64-bit number in decimal.
pub open spec fn number(n: u64) -> Seq<char> {
    decimal(n as nat)
}

/// `b` in two hexadecimal digits.
pub open spec fn hex2(b: u8) -> Seq<char> {
    seq![digit(b / 16), digit(b % 16)]
}

/// `n` times the same character.
pub open spec fn repeated(c: char, n: int) -> Seq<char> {
    Seq::new(
        if n < 0 {
            0
        } else {
            n as nat
        },
        |i: int| c,
    )
}

/// `text` at the left of a column of `width` characters.
pub open spec fn left_aligned(text: Seq<char>, width: int) -> Seq<char> {
    text + repeated(' ', width - text.len())
}

/// `text` at the right of a column of `width` characters.
pub open spec fn right_aligned(text: Seq<char>, width: int) -> Seq<char> {
    repeated(' ', width - text.len()) + text
}

/// The text of one digit.
fn digit_text(d: u8) -> (text: &'static str)
    requires
        d < 16,
    ensures
        text@ == seq![digit(d)],
{
    proof {
        reveal_strlit("0");
        reveal_strlit("1");
        reveal_strlit("2");
        reveal_strlit("3");
        reveal_strlit("4");
        reveal_strlit("5");
        reveal_strlit("6");
        reveal_strlit("7");
        reveal_strlit("8");
        reveal_strlit("9");
        reveal_strlit("a");
        reveal_strlit("b");
        reveal_strlit("c");
        reveal_strlit("d");
        reveal_strlit("e");
        reveal_strlit("f");
    }
    let text = match d {
        0 => "0",
        1 => "1",
        2 => "2",
        3 => "3",
        4 => "4",
        5 => "5",
        6 => "6",
        7 => "7",
        8 => "8",
        9 => "9",
        10 => "a",
        11 => "b",
        12 => "c",
        13 => "d",
        14 => "e",
        _ => "f",
    };
    assert(text@ =~= seq![digit(d)]);
    text
}

/// `n` in decimal.
pub fn decimal_text(n: u64) -> (text: String)
    ensures
        text@ == number(n),
    decreases n,
{
    if n < 10 {
        digit_text(n as u8).to_string()
    } else {
        let mut text = decimal_text(n / 10);
        text.append(digit_text((n % 10) as u8));
        assert(text@ =~= decimal(n as nat));
        text
    }
}

/// `b` in two hexadecimal digits.
fn hex2_text(b: u8) -> (text: String)
    ensures
        text@ == hex2(b),
{
    let mut text = digit_text(b / 16).to_string();
    text.append(digit_text(b % 16));
    assert(text@ =~= hex2(b));
    text
}

/// Appends `n` spaces to `text`.
fn append_spaces(text: &mut String, n: usize)
    ensures
        final(text)@ == old(text)@ + repeated(' ', n as int),
{
    let mut i: usize = 0;
    proof {
        reveal_strlit(" ");
        assert(text@ =~= old(text)@ + repeated(' ', 0));
    }
    while i < n
        invariant
            i <= n,
            text@ == old(text)@ + repeated(' ', i as int),
            " "@ == seq![' '],
        decreases n - i,
    {
        text.append(" ");
        i = i + 1;
        assert(text@ =~= old(text)@ + repeated(' ', i as int));
    }
}

/// `text` at the left of a column of `width` characters.
pub fn left_aligned_text(text: &str, width: usize) -> (column: String)
    ensures
        column@ == left_aligned(text@, width as int),
{
    let mut column = text.to_string();
    let len: usize = text.unicode_len();
    append_spaces(
        &mut column,
        if len < width {
            width - len
        } else {
            0
        },
    );
    assert(column@ =~= left_aligned(text@, width as int));
    column
}

/// `text` at the right of a column of `width` characters.
pub fn right_aligned_text(text: &str, width: usize) -> (column: String)
    ensures
        column@ == right_aligned(text@, width as int),
{
    let mut column = String::new();
    let len: usize = text.unicode_len();
    append_spaces(
        &mut column,
        if len < width {
            width - len
        } else {
            0
        },
    );
    column.append(text);
    assert(column@ =~= right_aligned(text@, width as int));
    column
}

/// `n` times the one character that `unit` holds.
pub fn repeated_text(unit: &str, n: usize) -> (text: String)
    requires
        unit@.len() == 1,
    ensures
        text@ == repeated(unit@[0], n as int),
{
    let mut text = String::new();
    let mut i: usize = 0;
    assert(text@ =~= repeated(unit@[0], 0));
    while i < n
        invariant
            i <= n,
            unit@.len() == 1,
            text@ == repeated(unit@[0], i as int),
        decreases n - i,
    {
        text.append(unit);
        i = i + 1;
        assert(text@ =~= repeated(unit@[0], i as int));
    }
    text
}

/// An IPv4 address in dotted decimal.
pub open spec fn ipv4_text(octets: Seq<u8>) -> Seq<char> {
    decimal(octets[0] as nat) + "."@ + decimal(octets[1] as nat) + "."@ + decimal(octets[2] as nat)
        + "."@ + decimal(octets[3] as nat)
}

/// The first `groups` groups of an IPv6 address: four hexadecimal digits each, none
/// left out, with colons between them.
pub open spec fn ipv6_groups(octets: Seq<u8>, groups: int) -> Seq<char>
    decreases groups,
{
    if groups <= 0 {
        Seq::empty()
    } else {
        let group = hex2(octets[2 * groups - 2]) + hex2(octets[2 * groups - 1]);
        if groups == 1 {
            group
        } else {
            ipv6_groups(octets, groups - 1) + ":"@ + group
        }
    }
}

/// The text of an IP address.
pub open spec fn ip_text(addr: IpAddr) -> Seq<char> {
    match addr {
        IpAddr::V4(v4) => ipv4_text(v4@),
        IpAddr::V6(octets) => ipv6_groups(octets@, 8),
    }
}

impl IpAddr {
    /// The address in dotted decimal, or in eight groups of hexadecimal digits.
    pub fn to_string(&self) -> (text: String)
        ensures
            text@ == ip_text(*self),
    {
        match self {
            IpAddr::V4(v4) => {
                let o = v4.octets();
                let mut text = decimal_text(o[0] as u64);
                text.append(".");
                text.append(decimal_text(o[1] as u64).as_str());
                text.append(".");
                text.append(decimal_text(o[2] as u64).as_str());
                text.append(".");
                text.append(decimal_text(o[3] as u64).as_str());
                text
            },
            IpAddr::V6(octets) => {
                let mut text = String::new();
                let mut groups: usize = 0;
                while groups < 8
                    invariant
                        groups <= 8,
                        text@ == ipv6_groups(octets@, groups as int),
                    decreases 8 - groups,
                {
                    if groups > 0 {
                        text.append(":");
                    }
                    text.append(hex2_text(octets[2 * groups]).as_str());
                    text.append(hex2_text(octets[2 * groups + 1]).as_str());
                    groups = groups + 1;
                    assert(text@ =~= ipv6_groups(octets@, groups as int));
                }
                text
            },
        }
    }
}

/// The name of a protocol.
pub open spec fn protocol_name(protocol: Protocol) -> Seq<char> {
    match protocol {
        Protocol::Icmp => "Icmp"@,
        Protocol::Igmp => "Igmp"@,
        Protocol::Ipv4 => "Ipv4"@,
        Protocol::Tcp => "Tcp"@,
        Protocol::Udp => "Udp"@,
        Protocol::Ipv6 => "Ipv6"@,
        Protocol::Ipv6Route => "Ipv6Route"@,
        Protocol::Ipv6Frag => "Ipv6Frag"@,
        Protocol::Esp => "Esp"@,
        Protocol::Ah => "Ah"@,
        Protocol::Icmpv6 => "Icmpv6"@,
        Protocol::NoNextHeader => "NoNextHeader"@,
        Protocol::Gre => "Gre"@,
        Protocol::Sctp => "Sctp"@,
        Protocol::Mptcp => "Mptcp"@,
        Protocol::Fragment => "Fragment"@,
        Protocol::Arp => "Arp"@,
        Protocol::Lldp => "Lldp"@,
        Protocol::Unknown => "Unknown"@,
    }
}

impl Protocol {
    /// The name of the protocol.
    pub fn name(&self) -> (name: &'static str)
        ensures
            name@ == protocol_name(*self),
    {
        match self {
            Protocol::Icmp => "Icmp",
            Protocol::Igmp => "Igmp",
            Protocol::Ipv4 => "Ipv4",
            Protocol::Tcp => "Tcp",
            Protocol::Udp => "Udp",
            Protocol::Ipv6 => "Ipv6",
            Protocol::Ipv6Route => "Ipv6Route",
            Protocol::Ipv6Frag => "Ipv6Frag",
            Protocol::Esp => "Esp",
            Protocol::Ah => "Ah",
            Protocol::Icmpv6 => "Icmpv6",
            Protocol::NoNextHeader => "NoNextHeader",
            Protocol::Gre => "Gre",
            Protocol::Sctp => "Sctp",
            Protocol::Mptcp => "Mptcp",
            Protocol::Fragment => "Fragment",
            Protocol::Arp => "Arp",
            Protocol::Lldp => "Lldp",
            Protocol::Unknown => "Unknown",
        }
    }
}

/// The two ends of a flow, with `arrow` between them.
pub open spec fn ends_text(key: FlowKey, arrow: Seq<char>) -> Seq<char> {
    ip_text(key.src_ip) + ":"@ + decimal(key.src_port as nat) + arrow + ip_text(key.dst_ip) + ":"@
        + decimal(key.dst_port as nat)
}

/// The text of a flow key.
pub open spec fn key_text(key: FlowKey) -> Seq<char> {
    ends_text(key, " -> "@) + " ("@ + protocol_name(key.protocol) + ")"@
}

/// The two ends of a flow, with `arrow` between them.
pub(crate) fn flow_ends(key: &FlowKey, arrow: &str) -> (text: String)
    ensures
        text@ == ends_text(*key, arrow@),
{
    let mut text = key.src_ip.to_string();
    text.append(":");
    text.append(decimal_text(key.src_port as u64).as_str());
    text.append(arrow);
    text.append(key.dst_ip.to_string().as_str());
    text.append(":");
    text.append(decimal_text(key.dst_port as u64).as_str());
    text
}

impl FlowKey {
    /// The two ends of the flow and its protocol.
    pub fn to_string(&self) -> (text: String)
        ensures
            text@ == key_text(*self),
    {
        let mut text = flow_ends(self, " -> ");
        text.append(" (");
        text.append(self.protocol.name());
        text.append(")");
        text
    }
}

/// `label` followed by `n` in decimal.
pub open spec fn labelled_byte(label: Seq<char>, n: u8) -> Seq<char> {
    label + decimal(n as nat)
}

/// `label` followed by `n` in decimal.
fn labelled_byte_text(label: &str, n: u8) -> (text: String)
    ensures
        text@ == labelled_byte(label@, n),
{
    let mut text = label.to_string();
    text.append(decimal_text(n as u64).as_str());
    text
}

/// The message for a packet that is too short.
pub open spec fn too_short_message(expected: usize, actual: usize) -> Seq<char> {
    "Packet too short: expected "@ + decimal(expected as nat) + " bytes, got "@ + decimal(
        actual as nat,
    )
}

/// The message for a packet that is too short.
fn too_short_text(expected: usize, actual: usize) -> (text: String)
    ensures
        text@ == too_short_message(expected, actual),
{
    let mut text = "Packet too short: expected ".to_string();
    text.append(decimal_text(expected as u64).as_str());
    text.append(" bytes, got ");
    text.append(decimal_text(actual as u64).as_str());
    text
}

/// The message of a parse error.
pub open spec fn error_message(error: ParseError) -> Seq<char> {
    match error {
        ParseError::TooShort { expected, actual } => too_short_message(expected, actual),
        ParseError::InvalidEthernet => "Invalid Ethernet frame"@,
        ParseError::InvalidIpVersion(n) => labelled_byte("Invalid IP version: "@, n),
        ParseError::InvalidIpHeaderLength(n) => labelled_byte("Invalid IP header length: "@, n),
        ParseError::IpChecksumMismatch => "IP header checksum mismatch"@,
        ParseError::TruncatedIpHeader => "Truncated IP header"@,
        ParseError::UnsupportedProtocol(n) => labelled_byte("Unsupported protocol: "@, n),
        ParseError::InvalidTcpHeader => "Invalid TCP header"@,
        ParseError::InvalidUdpHeader => "Invalid UDP header"@,
        ParseError::InvalidIcmpHeader => "Invalid ICMP header"@,
        ParseError::UnknownNextHeader(n) => labelled_byte("Unknown next header: "@, n),
        ParseError::InvalidVlanTag => "Invalid VLAN tag"@,
        ParseError::InvalidExtensionHeader => "Invalid extension header"@,
    }
}

impl ParseError {
    /// The message of the error.
    pub fn to_string(&self) -> (text: String)
        ensures
            text@ == error_message(*self),
    {
        match self {
            ParseError::TooShort { expected, actual } => too_short_text(*expected, *actual),
            ParseError::InvalidEthernet => "Invalid Ethernet frame".to_string(),
            ParseError::InvalidIpVersion(n) => labelled_byte_text("Invalid IP version: ", *n),
            ParseError::InvalidIpHeaderLength(n) => labelled_byte_text(
                "Invalid IP header length: ",
                *n,
            ),
            ParseError::IpChecksumMismatch => "IP header checksum mismatch".to_string(),
            ParseError::TruncatedIpHeader => "Truncated IP header".to_string(),
            ParseError::UnsupportedProtocol(n) => labelled_byte_text("Unsupported protocol: ", *n),
            ParseError::InvalidTcpHeader => "Invalid TCP header".to_string(),
            ParseError::InvalidUdpHeader => "Invalid UDP header".to_string(),
            ParseError::InvalidIcmpHeader => "Invalid ICMP header".to_string(),
            ParseError::UnknownNextHeader(n) => labelled_byte_text("Unknown next header: ", *n),
            ParseError::InvalidVlanTag => "Invalid VLAN tag".to_string(),
            ParseError::InvalidExtensionHeader => "Invalid extension header".to_string(),
        }
    }
}

/// `to_string` of a `std::io::Error` made of the system's error number `code`: what the
/// system says of that error. The wording is the system's, so nothing is claimed of it.
#[verifier::external_body]
fn system_error_text(code: i32) -> (text: String) {
    std::io::Error::from_raw_os_error(code).to_string()
}

/// The message for an access outside of packet memory.
pub open spec fn out_of_bounds_message(offset: usize, len: usize, size: usize) -> Seq<char> {
    "Access out of bounds: offset="@ + decimal(offset as nat) + ", len="@ + decimal(len as nat)
        + ", umem_size="@ + decimal(size as nat)
}

/// The message for an access outside of packet memory.
fn out_of_bounds_text(offset: usize, len: usize, size: usize) -> (text: String)
    ensures
        text@ == out_of_bounds_message(offset, len, size),
{
    let mut text = "Access out of bounds: offset=".to_string();
    text.append(decimal_text(offset as u64).as_str());
    text.append(", len=");
    text.append(decimal_text(len as u64).as_str());
    text.append(", umem_size=");
    text.append(decimal_text(size as u64).as_str());
    text
}

/// The message of an error of packet memory, where the system says `cause` of an error of
/// its own.
pub open spec fn umem_error_message(error: UMemError, cause: Seq<char>) -> Seq<char> {
    match error {
        UMemError::MmapFailed(_) => "Failed to map memory: "@ + cause,
        UMemError::InvalidSize(text) => "Invalid UMEM size: "@ + text@,
        UMemError::InvalidFrameSize(text) => "Invalid frame size: "@ + text@,
        UMemError::OutOfBounds(offset, len, size) => out_of_bounds_message(offset, len, size),
    }
}

impl UMemError {
    /// The message of the error. Of an error of the system, the system says what it is.
    pub fn to_string(&self) -> (text: String)
        ensures
            exists|cause: Seq<char>| text@ == #[trigger] umem_error_message(*self, cause),
    {
        match self {
            UMemError::MmapFailed(code) => self.message_with_cause(
                system_error_text(*code).as_str(),
            ),
            _ => self.message_with_cause(""),
        }
    }

    /// The message of the error, where the system says `cause` of an error of its own.
    pub fn message_with_cause(&self, cause: &str) -> (text: String)
        ensures
            text@ == umem_error_message(*self, cause@),
    {
        match self {
            UMemError::MmapFailed(_) => "Failed to map memory: ".to_string().concat(cause),
            UMemError::InvalidSize(text) => "Invalid UMEM size: ".to_string().concat(
                text.as_str(),
            ),
            UMemError::InvalidFrameSize(text) => "Invalid frame size: ".to_string().concat(
                text.as_str(),
            ),
            UMemError::OutOfBounds(offset, len, size) => out_of_bounds_text(*offset, *len, *size),
        }
    }
}

/// The message of a capture error, where the system says `cause` of an error of its own.
pub open spec fn capture_error_message(error: CaptureError, cause: Seq<char>) -> Seq<char> {
    match error {
        CaptureError::SocketCreation(_) => "Failed to create socket: "@ + cause,
        CaptureError::BindError(_) => "Failed to bind socket: "@ + cause,
        CaptureError::SocketOption(_) => "Failed to set socket option: "@ + cause,
        CaptureError::InterfaceNotFound(name) => "Network interface '"@ + name@ + "' not found"@,
        CaptureError::InvalidConfig(text) => "Invalid configuration: "@ + text@,
        CaptureError::RingOverflow => "Ring buffer overflow - packets dropped"@,
        CaptureError::XdpLoadError(text) => "Failed to load XDP program: "@ + text@,
        CaptureError::MmapError(_) => "Failed to mmap memory: "@ + cause,
        CaptureError::ChannelSend(text) => "Channel send error: "@ + text@,
    }
}

impl CaptureError {
    /// The message of the error. Of an error of the system, the system says what it is.
    pub fn to_string(&self) -> (text: String)
        ensures
            exists|cause: Seq<char>| text@ == #[trigger] capture_error_message(*self, cause),
    {
        match self {
            CaptureError::SocketCreation(code)
            | CaptureError::BindError(code)
            | CaptureError::SocketOption(code)
            | CaptureError::MmapError(code) => self.message_with_cause(
                system_error_text(*code).as_str(),
            ),
            _ => self.message_with_cause(""),
        }
    }

    /// The message of the error, where the system says `cause` of an error of its own.
    pub fn message_with_cause(&self, cause: &str) -> (text: String)
        ensures
            text@ == capture_error_message(*self, cause@),
    {
        match self {
            CaptureError::SocketCreation(_) => "Failed to create socket: ".to_string().concat(
                cause,
            ),
            CaptureError::BindError(_) => "Failed to bind socket: ".to_string().concat(cause),
            CaptureError::SocketOption(_) => "Failed to set socket option: ".to_string().concat(
                cause,
            ),
            CaptureError::InterfaceNotFound(name) => {
                let mut text = "Network interface '".to_string();
                text.append(name.as_str());
                text.append("' not found");
                text
            },
            CaptureError::InvalidConfig(text) => "Invalid configuration: ".to_string().concat(
                text.as_str(),
            ),
            CaptureError::RingOverflow => "Ring buffer overflow - packets dropped".to_string(),
            CaptureError::XdpLoadError(text) => "Failed to load XDP program: ".to_string().concat(
                text.as_str(),
            ),
            CaptureError::MmapError(_) => "Failed to mmap memory: ".to_string().concat(cause),
            CaptureError::ChannelSend(text) => "Channel send error: ".to_string().concat(
                text.as_str(),
            ),
        }
    }
}

} // verus!
