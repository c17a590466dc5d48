//! What is written can be read back: numbers, addresses and columns.

use crate::capture::CaptureError;
use crate::output::OutputError;
use crate::parser::{FlowKey, IpAddr, ParseError, Protocol};
use crate::text::{
    decimal, decimal_text, digit, hex2, ipv6_groups, left_aligned_text, number, protocol_name,
    repeated, repeated_text, right_aligned_text,
};
use crate::umem::UMemError;
use vstd::prelude::*;

verus! {

/// Whether `c` is a decimal digit.
pub open spec fn is_digit(c: char) -> bool {
    '0' <= c <= '9'
}

/// What a decimal digit, or a hexadecimal one in small letters, is worth.
pub open spec fn worth(c: char) -> int {
    if c <= '9' {
        c as int - '0' as int
    } else {
        c as int - 'a' as int + 10
    }
}

/// The number that decimal digits stand for.
pub open spec fn value_of(digits: Seq<char>) -> int
    decreases digits.len(),
{
    if digits.len() == 0 {
        0
    } else {
        value_of(digits.drop_last()) * 10 + worth(digits.last())
    }
}

/// Whether `text` is `n` in decimal digits, without a leading zero.
pub open spec fn is_number(text: Seq<char>, n: int) -> bool {
    &&& text.len() > 0
    &&& forall|i: int| 0 <= i < text.len() ==> is_digit(#[trigger] text[i])
    &&& value_of(text) == n
    &&& text.len() > 1 ==> text[0] != '0'
}

/// Decimal digits are worth what they stand for.
pub proof fn decimals_are_numbers(n: nat)
    ensures
        is_number(decimal(n), n as int),
        n > 0 ==> decimal(n)[0] != '0',
    decreases n,
{
    if n < 10 {
        reveal_with_fuel(value_of, 2);
        assert(decimal(n).drop_last() =~= Seq::empty());
        assert(decimal(n).last() == digit(n as u8));
    } else {
        decimals_are_numbers(n / 10);
        let text = decimal(n);
        assert(text.drop_last() =~= decimal(n / 10));
        assert(text.last() == digit((n % 10) as u8));
        assert(text[0] == decimal(n / 10)[0]);
        assert forall|i: int| 0 <= i < text.len() implies is_digit(#[trigger] text[i]) by {
            if i < text.len() - 1 {
                assert(text[i] == decimal(n / 10)[i]);
            }
        }
    }
}

/// A number is written in decimal.
pub proof fn numbers_are_read_back(n: u64, text: String)
    requires
        call_ensures(decimal_text, (n,), text),
    ensures
        is_number(text@, n as int),
{
    decimals_are_numbers(n as nat);
}

/// Whether `text` holds `piece`, as of `i`.
pub open spec fn holds_at(text: Seq<char>, piece: Seq<char>, i: int) -> bool {
    0 <= i && i + piece.len() <= text.len() && text.subrange(i, i + piece.len()) == piece
}

/// Whether `text` holds `piece` somewhere.
#[verifier::opaque]
pub open spec fn holds(text: Seq<char>, piece: Seq<char>) -> bool {
    exists|i: int| holds_at(text, piece, i)
}

/// Whether `text` holds `label`, as of `i`, directly followed by the number `n` in decimal,
/// which ends before `k`.
pub open spec fn shows_at(text: Seq<char>, label: Seq<char>, n: int, i: int, k: int) -> bool {
    &&& holds_at(text, label, i)
    &&& i + label.len() < k < text.len()
    &&& is_number(text.subrange(i + label.len(), k), n)
    &&& !is_digit(text[k])
}

/// Whether the number that follows `label` somewhere in `text` is `n`.
#[verifier::opaque]
pub open spec fn shows(text: Seq<char>, label: Seq<char>, n: int) -> bool {
    exists|i: int, k: int| shows_at(text, label, n, i, k)
}

/// Text that is put together holds its parts.
pub proof fn parts_are_held(before: Seq<char>, piece: Seq<char>, behind: Seq<char>)
    ensures
        holds(before + piece + behind, piece),
{
    reveal(holds);
    let text = before + piece + behind;
    assert(text.subrange(before.len() as int, before.len() as int + piece.len()) =~= piece);
    assert(holds_at(text, piece, before.len() as int));
}

/// Text that is put together of a label, a number and more that is no digit shows it.
pub proof fn parts_are_shown(before: Seq<char>, label: Seq<char>, n: nat, behind: Seq<char>)
    requires
        behind.len() > 0,
        !is_digit(behind[0]),
    ensures
        shows(before + label + decimal(n) + behind, label, n as int),
{
    reveal(shows);
    let text = before + label + decimal(n) + behind;
    let i = before.len() as int;
    let k = i + label.len() + decimal(n).len();
    decimals_are_numbers(n);
    assert(text.subrange(i, i + label.len()) =~= label);
    assert(text.subrange(i + label.len(), k) =~= decimal(n));
    assert(text[k] == behind[0]);
    assert(shows_at(text, label, n as int, i, k));
}

/// Text that is put together of a label, a 64-bit number and more that is no digit shows it.
pub proof fn counts_are_shown(before: Seq<char>, label: Seq<char>, n: u64, behind: Seq<char>)
    requires
        behind.len() > 0,
        !is_digit(behind[0]),
    ensures
        shows(before + label + number(n) + behind, label, n as int),
{
    parts_are_shown(before, label, n as nat, behind);
}

/// The same where the label is the end of a longer one.
pub proof fn labels_are_followed(
    before: Seq<char>,
    mark: Seq<char>,
    label: Seq<char>,
    n: u64,
    behind: Seq<char>,
)
    requires
        behind.len() > 0,
        !is_digit(behind[0]),
    ensures
        shows(before + (mark + label) + number(n) + behind, label, n as int),
{
    counts_are_shown(before + mark, label, n, behind);
    assert(before + mark + label =~= before + (mark + label));
}

/// What a text holds or shows, it still does with more behind it.
pub proof fn more_changes_nothing(text: Seq<char>, more: Seq<char>, label: Seq<char>, n: int)
    ensures
        shows(text, label, n) ==> shows(text + more, label, n),
        holds(text, label) ==> holds(text + more, label),
{
    the_whole_shows_its_parts(Seq::empty(), text, more, label, n);
    assert(Seq::<char>::empty() + text + more =~= text + more);
}

/// What a part holds or shows, the whole does.
pub proof fn the_whole_shows_its_parts(
    before: Seq<char>,
    text: Seq<char>,
    behind: Seq<char>,
    label: Seq<char>,
    n: int,
)
    ensures
        shows(text, label, n) ==> shows(before + text + behind, label, n),
        holds(text, label) ==> holds(before + text + behind, label),
{
    reveal(shows);
    reveal(holds);
    let whole = before + text + behind;
    let shift = before.len() as int;
    if shows(text, label, n) {
        let (i, k) = choose|i: int, k: int| shows_at(text, label, n, i, k);
        assert(whole.subrange(i + shift, i + shift + label.len()) =~= label);
        assert(whole.subrange(i + shift + label.len(), k + shift) =~= text.subrange(
            i + label.len(),
            k,
        ));
        assert(whole[k + shift] == text[k]);
        assert(shows_at(whole, label, n, i + shift, k + shift));
    }
    if holds(text, label) {
        let i = choose|i: int| holds_at(text, label, i);
        assert(whole.subrange(i + shift, i + shift + label.len()) =~= label);
        assert(holds_at(whole, label, i + shift));
    }
}

/// A column is as wide as asked, or as its text; the text stands at its left or at its
/// right, and the rest is blank.
pub proof fn columns_are_aligned(text: &str, width: usize, left: String, right: String)
    requires
        call_ensures(left_aligned_text, (text, width), left),
        call_ensures(right_aligned_text, (text, width), right),
    ensures
        left@.len() == right@.len(),
        text@.len() <= width ==> left@.len() == width,
        text@.len() > width ==> left@ == text@ && right@ == text@,
        left@.take(text@.len() as int) == text@,
        right@.skip(right@.len() - text@.len()) == text@,
        forall|i: int| text@.len() <= i < left@.len() ==> #[trigger] left@[i] == ' ',
        forall|i: int| 0 <= i < right@.len() - text@.len() ==> #[trigger] right@[i] == ' ',
{
    assert(left@.take(text@.len() as int) =~= text@);
    assert(right@.skip(right@.len() - text@.len()) =~= text@);
    if text@.len() > width {
        assert(left@ =~= text@);
        assert(right@ =~= text@);
    }
}

/// A character that is repeated stands at every place.
pub proof fn repetitions_are_of_one_character(unit: &str, n: usize, text: String)
    requires
        unit@.len() == 1,
        call_ensures(repeated_text, (unit, n), text),
    ensures
        text@.len() == n,
        forall|i: int| 0 <= i < n ==> #[trigger] text@[i] == unit@[0],
{
}

/// The text of an IPv4 address is its four octets in order, as numbers with dots between
/// them.
pub proof fn ipv4_addresses_are_read_back(addr: IpAddr, text: String)
    requires
        call_ensures(IpAddr::to_string, (&addr,), text),
        addr is V4,
    ensures
        ({
            let octets = addr->V4_0@;
            exists|a: int, b: int, c: int|
                {
                    &&& 0 < a < b < c < text@.len()
                    &&& text@[a] == '.' && text@[b] == '.' && text@[c] == '.'
                    &&& is_number(#[trigger] text@.subrange(0, a), octets[0] as int)
                    &&& is_number(#[trigger] text@.subrange(a + 1, b), octets[1] as int)
                    &&& is_number(#[trigger] text@.subrange(b + 1, c), octets[2] as int)
                    &&& is_number(text@.subrange(c + 1, text@.len() as int), octets[3] as int)
                }
        }),
{
    let o = addr->V4_0@;
    reveal_strlit(".");
    let (p, q, r, s) = (
        decimal(o[0] as nat),
        decimal(o[1] as nat),
        decimal(o[2] as nat),
        decimal(o[3] as nat),
    );
    decimals_are_numbers(o[0] as nat);
    decimals_are_numbers(o[1] as nat);
    decimals_are_numbers(o[2] as nat);
    decimals_are_numbers(o[3] as nat);
    let t = text@;
    let a = p.len() as int;
    let b = a + 1 + q.len();
    let c = b + 1 + r.len();
    assert(t == p + "."@ + q + "."@ + r + "."@ + s);
    assert(t.subrange(0, a) =~= p);
    assert(t.subrange(a + 1, b) =~= q);
    assert(t.subrange(b + 1, c) =~= r);
    assert(t.subrange(c + 1, t.len() as int) =~= s);
    assert(t[a] == '.' && t[b] == '.' && t[c] == '.');
}

proof fn groups_are_read_back(octets: Seq<u8>, groups: int, g: int)
    requires
        octets.len() == 16,
        0 <= g < groups <= 8,
    ensures
        ({
            let text = ipv6_groups(octets, groups);
            &&& text.len() == 5 * groups - 1
            &&& worth(text[5 * g]) * 16 + worth(text[5 * g + 1]) == octets[2 * g]
            &&& worth(text[5 * g + 2]) * 16 + worth(text[5 * g + 3]) == octets[2 * g + 1]
            &&& g + 1 < groups ==> text[5 * g + 4] == ':'
        }),
    decreases groups,
{
    reveal_strlit(":");
    let text = ipv6_groups(octets, groups);
    let hi = octets[2 * groups - 2];
    let lo = octets[2 * groups - 1];
    let group = hex2(hi) + hex2(lo);
    assert(group[0] == digit(hi / 16) && group[1] == digit(hi % 16) && group[2] == digit(lo / 16)
        && group[3] == digit(lo % 16));
    if groups > 1 {
        let rest = ipv6_groups(octets, groups - 1);
        if g < groups - 1 {
            groups_are_read_back(octets, groups - 1, g);
            assert(text[5 * g] == rest[5 * g] && text[5 * g + 1] == rest[5 * g + 1]);
            assert(text[5 * g + 2] == rest[5 * g + 2] && text[5 * g + 3] == rest[5 * g + 3]);
            if g + 1 < groups - 1 {
                assert(text[5 * g + 4] == rest[5 * g + 4]);
            } else {
                assert(text[5 * g + 4] == ":"@[0]);
            }
        } else {
            groups_are_read_back(octets, groups - 1, 0);
            assert(text[5 * g] == group[0] && text[5 * g + 1] == group[1]);
            assert(text[5 * g + 2] == group[2] && text[5 * g + 3] == group[3]);
        }
    }
}

/// The text of an IPv6 address is eight groups of two octets in order, each octet in two
/// hexadecimal digits, with colons between the groups.
pub proof fn ipv6_addresses_are_read_back(addr: IpAddr, text: String, g: int)
    requires
        call_ensures(IpAddr::to_string, (&addr,), text),
        addr is V6,
        0 <= g < 8,
    ensures
        text@.len() == 39,
        worth(text@[5 * g]) * 16 + worth(text@[5 * g + 1]) == addr->V6_0@[2 * g],
        worth(text@[5 * g + 2]) * 16 + worth(text@[5 * g + 3]) == addr->V6_0@[2 * g + 1],
        g < 7 ==> text@[5 * g + 4] == ':',
{
    groups_are_read_back(addr->V6_0@, 8, g);
}

/// The text of a flow starts with the source address and its port, and goes on behind the
/// arrow with the destination address and its port; the protocol comes last, in brackets.
pub proof fn flow_keys_are_read_back(key: FlowKey, text: String, src: String, dst: String)
    requires
        call_ensures(FlowKey::to_string, (&key,), text),
        call_ensures(IpAddr::to_string, (&key.src_ip,), src),
        call_ensures(IpAddr::to_string, (&key.dst_ip,), dst),
    ensures
        text@.take(src@.len() as int) == src@,
        shows_at(text@, src@ + ":"@, key.src_port as int, 0, text@.len() - (key_tail(
            key,
            dst@,
        )).len()),
        text@.skip(text@.len() - key_tail(key, dst@).len()) == key_tail(key, dst@),
{
    reveal_strlit(":");
    reveal_strlit(" -> ");
    let tail = key_tail(key, dst@);
    let port = decimal(key.src_port as nat);
    let t = text@;
    decimals_are_numbers(key.src_port as nat);
    assert(t =~= src@ + ":"@ + port + tail);
    assert(t.take(src@.len() as int) =~= src@);
    assert(t.skip(t.len() - tail.len()) =~= tail);
    assert(t.subrange(0, src@.len() as int + 1) =~= src@ + ":"@);
    assert(t.subrange(src@.len() as int + 1, t.len() - tail.len()) =~= port);
    assert(t[t.len() - tail.len()] == ' ');
}

/// What follows the source port in the text of a flow whose destination address is `dst`.
pub open spec fn key_tail(key: FlowKey, dst: Seq<char>) -> Seq<char> {
    " -> "@ + dst + ":"@ + decimal(key.dst_port as nat) + " ("@ + protocol_name(key.protocol)
        + ")"@
}

/// Every protocol is named as such.
pub proof fn protocols_have_their_names(protocol: Protocol, name: &'static str)
    requires
        call_ensures(Protocol::name, (&protocol,), name),
    ensures
        protocol == Protocol::Icmp ==> name@ == "Icmp"@,
        protocol == Protocol::Igmp ==> name@ == "Igmp"@,
        protocol == Protocol::Ipv4 ==> name@ == "Ipv4"@,
        protocol == Protocol::Tcp ==> name@ == "Tcp"@,
        protocol == Protocol::Udp ==> name@ == "Udp"@,
        protocol == Protocol::Ipv6 ==> name@ == "Ipv6"@,
        protocol == Protocol::Ipv6Route ==> name@ == "Ipv6Route"@,
        protocol == Protocol::Ipv6Frag ==> name@ == "Ipv6Frag"@,
        protocol == Protocol::Esp ==> name@ == "Esp"@,
        protocol == Protocol::Ah ==> name@ == "Ah"@,
        protocol == Protocol::Icmpv6 ==> name@ == "Icmpv6"@,
        protocol == Protocol::NoNextHeader ==> name@ == "NoNextHeader"@,
        protocol == Protocol::Gre ==> name@ == "Gre"@,
        protocol == Protocol::Sctp ==> name@ == "Sctp"@,
        protocol == Protocol::Mptcp ==> name@ == "Mptcp"@,
        protocol == Protocol::Fragment ==> name@ == "Fragment"@,
        protocol == Protocol::Arp ==> name@ == "Arp"@,
        protocol == Protocol::Lldp ==> name@ == "Lldp"@,
        protocol == Protocol::Unknown ==> name@ == "Unknown"@,
{
}

/// Whether `text` is `label` followed by the number `n`, and nothing else.
pub open spec fn ends_with_number(text: Seq<char>, label: Seq<char>, n: int) -> bool {
    &&& text.len() > label.len()
    &&& text.take(label.len() as int) == label
    &&& is_number(text.skip(label.len() as int), n)
}

proof fn labelled_numbers_end(label: Seq<char>, n: nat)
    ensures
        ends_with_number(label + decimal(n), label, n as int),
{
    let text = label + decimal(n);
    decimals_are_numbers(n);
    assert(text.take(label.len() as int) =~= label);
    assert(text.skip(label.len() as int) =~= decimal(n));
}

/// The message of a parse error says what was wrong, with the numbers it holds: how many
/// bytes were expected and how many there were, or the value that is not valid.
pub proof fn parse_errors_are_read_back(error: ParseError, text: String)
    requires
        call_ensures(ParseError::to_string, (&error,), text),
    ensures
        error matches ParseError::TooShort { expected, actual } ==> {
            &&& shows(text@, "Packet too short: expected "@, expected as int)
            &&& exists|head: Seq<char>|
                {
                    &&& #[trigger] ends_with_number(text@, head, actual as int)
                    &&& head.len() >= " bytes, got "@.len()
                    &&& head.skip(head.len() - " bytes, got "@.len()) == " bytes, got "@
                }
        },
        error matches ParseError::InvalidIpVersion(n) ==> ends_with_number(
            text@,
            "Invalid IP version: "@,
            n as int,
        ),
        error matches ParseError::InvalidIpHeaderLength(n) ==> ends_with_number(
            text@,
            "Invalid IP header length: "@,
            n as int,
        ),
        error matches ParseError::UnsupportedProtocol(n) ==> ends_with_number(
            text@,
            "Unsupported protocol: "@,
            n as int,
        ),
        error matches ParseError::UnknownNextHeader(n) ==> ends_with_number(
            text@,
            "Unknown next header: "@,
            n as int,
        ),
        error == ParseError::InvalidEthernet ==> text@ == "Invalid Ethernet frame"@,
        error == ParseError::IpChecksumMismatch ==> text@ == "IP header checksum mismatch"@,
        error == ParseError::TruncatedIpHeader ==> text@ == "Truncated IP header"@,
        error == ParseError::InvalidTcpHeader ==> text@ == "Invalid TCP header"@,
        error == ParseError::InvalidUdpHeader ==> text@ == "Invalid UDP header"@,
        error == ParseError::InvalidVlanTag ==> text@ == "Invalid VLAN tag"@,
        error == ParseError::InvalidExtensionHeader ==> text@ == "Invalid extension header"@,
{
    match error {
        ParseError::TooShort { expected, actual } => {
            reveal_strlit(" bytes, got ");
            parts_are_shown(
                Seq::empty(),
                "Packet too short: expected "@,
                expected as nat,
                " bytes, got "@,
            );
            let start = "Packet too short: expected "@ + decimal(expected as nat);
            let head = start + " bytes, got "@;
            assert(Seq::<char>::empty() + "Packet too short: expected "@ + decimal(expected as nat)
                + " bytes, got "@ =~= head);
            more_changes_nothing(
                head,
                decimal(actual as nat),
                "Packet too short: expected "@,
                expected as int,
            );
            labelled_numbers_end(head, actual as nat);
            assert(text@ == head + decimal(actual as nat));
            assert(head.skip(head.len() - " bytes, got "@.len()) =~= " bytes, got "@);
        },
        ParseError::InvalidIpVersion(n) => {
            labelled_numbers_end("Invalid IP version: "@, n as nat);
        },
        ParseError::InvalidIpHeaderLength(n) => {
            labelled_numbers_end("Invalid IP header length: "@, n as nat);
        },
        ParseError::UnsupportedProtocol(n) => {
            labelled_numbers_end("Unsupported protocol: "@, n as nat);
        },
        ParseError::UnknownNextHeader(n) => {
            labelled_numbers_end("Unknown next header: "@, n as nat);
        },
        _ => {},
    }
}

/// The message of an error of packet memory says what was wrong: an access with its offset,
/// its length and the size of the memory, or the text it holds behind its own label.
pub proof fn memory_errors_are_read_back(error: UMemError, cause: &str, text: String)
    requires
        call_ensures(UMemError::message_with_cause, (&error, cause), text),
    ensures
        error matches UMemError::OutOfBounds(offset, len, size) ==> {
            &&& shows(text@, "Access out of bounds: offset="@, offset as int)
            &&& shows(text@, ", len="@, len as int)
            &&& exists|head: Seq<char>|
                {
                    &&& #[trigger] ends_with_number(text@, head, size as int)
                    &&& head.len() >= ", umem_size="@.len()
                    &&& head.skip(head.len() - ", umem_size="@.len()) == ", umem_size="@
                }
        },
        error matches UMemError::MmapFailed(_) ==> text@.take("Failed to map memory: "@.len() as int)
            == "Failed to map memory: "@ && text@.skip("Failed to map memory: "@.len() as int)
            == cause@,
        error matches UMemError::InvalidSize(what) ==> text@.take(
            "Invalid UMEM size: "@.len() as int,
        ) == "Invalid UMEM size: "@ && text@.skip("Invalid UMEM size: "@.len() as int) == what@,
        error matches UMemError::InvalidFrameSize(what) ==> text@.take(
            "Invalid frame size: "@.len() as int,
        ) == "Invalid frame size: "@ && text@.skip("Invalid frame size: "@.len() as int) == what@,
{
    match error {
        UMemError::OutOfBounds(offset, len, size) => {
            reveal_strlit(", len=");
            reveal_strlit(", umem_size=");
            let lead = "Access out of bounds: offset="@;
            let t1 = lead + decimal(offset as nat);
            let t2 = t1 + ", len="@ + decimal(len as nat);
            let head = t2 + ", umem_size="@;
            parts_are_shown(Seq::empty(), lead, offset as nat, ", len="@);
            assert(Seq::<char>::empty() + lead =~= lead);
            more_changes_nothing(t1 + ", len="@, decimal(len as nat), lead, offset as int);
            more_changes_nothing(t2, ", umem_size="@, lead, offset as int);
            more_changes_nothing(head, decimal(size as nat), lead, offset as int);
            parts_are_shown(t1, ", len="@, len as nat, ", umem_size="@);
            more_changes_nothing(head, decimal(size as nat), ", len="@, len as int);
            labelled_numbers_end(head, size as nat);
            assert(head.skip(head.len() - ", umem_size="@.len()) =~= ", umem_size="@);
        },
        UMemError::MmapFailed(_) => {
            split_behind("Failed to map memory: "@, cause@);
        },
        UMemError::InvalidSize(what) => {
            split_behind("Invalid UMEM size: "@, what@);
        },
        UMemError::InvalidFrameSize(what) => {
            split_behind("Invalid frame size: "@, what@);
        },
    }
}

proof fn split_behind(label: Seq<char>, text: Seq<char>)
    ensures
        (label + text).take(label.len() as int) == label,
        (label + text).skip(label.len() as int) == text,
{
    assert((label + text).take(label.len() as int) =~= label);
    assert((label + text).skip(label.len() as int) =~= text);
}

/// The message of a capture error starts with what failed, and goes on with the text it
/// holds or with what the system says.
pub proof fn capture_errors_are_read_back(error: CaptureError, cause: &str, text: String)
    requires
        call_ensures(CaptureError::message_with_cause, (&error, cause), text),
    ensures
        error matches CaptureError::SocketCreation(_) ==> text@ == "Failed to create socket: "@
            + cause@,
        error matches CaptureError::BindError(_) ==> text@ == "Failed to bind socket: "@ + cause@,
        error matches CaptureError::SocketOption(_) ==> text@ == "Failed to set socket option: "@
            + cause@,
        error matches CaptureError::MmapError(_) ==> text@ == "Failed to mmap memory: "@ + cause@,
        error matches CaptureError::InterfaceNotFound(name) ==> holds(text@, "'"@ + name@ + "'"@),
        error matches CaptureError::InvalidConfig(what) ==> text@ == "Invalid configuration: "@
            + what@,
        error matches CaptureError::XdpLoadError(what) ==> text@ == "Failed to load XDP program: "@
            + what@,
        error matches CaptureError::ChannelSend(what) ==> text@ == "Channel send error: "@ + what@,
        error == CaptureError::RingOverflow ==> text@ == "Ring buffer overflow - packets dropped"@,
{
    if let CaptureError::InterfaceNotFound(name) = error {
        reveal_strlit("Network interface '");
        reveal_strlit("Network interface ");
        reveal_strlit("' not found");
        reveal_strlit(" not found");
        reveal_strlit("'");
        assert("Network interface '"@ =~= "Network interface "@ + "'"@);
        assert("' not found"@ =~= "'"@ + " not found"@);
        parts_are_held("Network interface "@, "'"@ + name@ + "'"@, " not found"@);
        assert(text@ =~= "Network interface "@ + ("'"@ + name@ + "'"@) + " not found"@);
    }
}

/// The message of an output error starts with what failed, and goes on with the cause.
pub proof fn output_errors_are_read_back(error: OutputError, text: String)
    requires
        call_ensures(OutputError::to_string, (&error,), text),
    ensures
        error matches OutputError::Io(cause) ==> text@ == "IO error: "@ + cause@,
        error matches OutputError::Json(cause) ==> text@ == "JSON error: "@ + cause@,
        error matches OutputError::Http(cause) ==> text@ == "HTTP server error: "@ + cause@,
        error matches OutputError::ChannelSend(cause) ==> text@ == "Channel send error: "@ + cause@,
{
}

} // verus!
