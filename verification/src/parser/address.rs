//! IP addresses and the 5-tuple that identifies a flow.

use crate::parser::Protocol;
use vstd::prelude::*;

verus! {

/// An IPv4 address, as its four octets.
#[derive(Debug, Clone, Copy, PartialEq, Eq, Hash, Structural)]
pub struct Ipv4Addr {
    a: u8,
    b: u8,
    c: u8,
    d: u8,
}

impl View for Ipv4Addr {
    type V = Seq<u8>;

    closed spec fn view(&self) -> Seq<u8> {
        seq![self.a, self.b, self.c, self.d]
    }
}

impl Ipv4Addr {
    /// The address `a.b.c.d`.
    pub fn new(a: u8, b: u8, c: u8, d: u8) -> (addr: Ipv4Addr)
        ensures
            addr@ == seq![a, b, c, d],
            addr == ipv4_addr(a, b, c, d),
    {
        Ipv4Addr { a, b, c, d }
    }

    /// The four octets, first to last.
    pub fn octets(&self) -> (octets: [u8; 4])
        ensures
            octets@ == self@,
    {
        let octets = [self.a, self.b, self.c, self.d];
        assert(octets@ =~= self@);
        octets
    }
}

/// The address `a.b.c.d`.
pub closed spec fn ipv4_addr(a: u8, b: u8, c: u8, d: u8) -> Ipv4Addr {
    Ipv4Addr { a, b, c, d }
}

/// An address is its four octets, and nothing else.
pub broadcast proof fn ipv4_addr_is_its_octets(addr: Ipv4Addr)
    ensures
        (#[trigger] addr@).len() == 4,
        addr == ipv4_addr(addr@[0], addr@[1], addr@[2], addr@[3]),
{
}

/// The octets of `a.b.c.d`.
pub broadcast proof fn ipv4_addr_octets(a: u8, b: u8, c: u8, d: u8)
    ensures
        #[trigger] ipv4_addr(a, b, c, d)@ == seq![a, b, c, d],
{
}

/// An IPv4 or IPv6 address.
#[derive(Debug, Clone, Copy, Eq, Hash)]
pub enum IpAddr {
    /// IPv4 address
    V4(Ipv4Addr),
    /// IPv6 address
    V6([u8; 16]),
}

/// Whether two 16-byte arrays hold the same bytes.
fn same_octets(left: &[u8; 16], right: &[u8; 16]) -> (same: bool)
    ensures
        same == (*left == *right),
{
    let mut i: usize = 0;
    while i < 16
        invariant
            i <= 16,
            forall|j: int| 0 <= j < i ==> left@[j] == right@[j],
        decreases 16 - i,
    {
        if left[i] != right[i] {
            return false;
        }
        i += 1;
    }
    assert(left@ =~= right@);
    assert(*left =~= *right);
    true
}

impl PartialEq for IpAddr {
    fn eq(&self, other: &IpAddr) -> (same: bool) {
        match (self, other) {
            (IpAddr::V4(left), IpAddr::V4(right)) => *left == *right,
            (IpAddr::V6(left), IpAddr::V6(right)) => same_octets(left, right),
            _ => false,
        }
    }
}

impl vstd::std_specs::cmp::PartialEqSpecImpl for IpAddr {
    open spec fn obeys_eq_spec() -> bool {
        true
    }

    open spec fn eq_spec(&self, other: &IpAddr) -> bool {
        *self == *other
    }
}

impl IpAddr {
    /// Whether this is an IPv4 address.
    pub fn is_ipv4(&self) -> (yes: bool)
        ensures
            yes == (self is V4),
    {
        match self {
            IpAddr::V4(_) => true,
            IpAddr::V6(_) => false,
        }
    }

    /// Whether this is an IPv6 address.
    pub fn is_ipv6(&self) -> (yes: bool)
        ensures
            yes == (self is V6),
    {
        match self {
            IpAddr::V4(_) => false,
            IpAddr::V6(_) => true,
        }
    }
}

impl From<Ipv4Addr> for IpAddr {
    fn from(addr: Ipv4Addr) -> (ip: IpAddr) {
        IpAddr::V4(addr)
    }
}

impl vstd::std_specs::convert::FromSpecImpl<Ipv4Addr> for IpAddr {
    open spec fn obeys_from_spec() -> bool {
        true
    }

    open spec fn from_spec(addr: Ipv4Addr) -> IpAddr {
        IpAddr::V4(addr)
    }
}

/// The 5-tuple that identifies a network flow.
#[derive(Debug, Clone, Copy, Eq, Hash)]
pub struct FlowKey {
    /// Source IP address
    pub src_ip: IpAddr,
    /// Destination IP address
    pub dst_ip: IpAddr,
    /// Source port (0 where the protocol has none)
    pub src_port: u16,
    /// Destination port (0 where the protocol has none)
    pub dst_port: u16,
    /// Transport protocol
    pub protocol: Protocol,
}

impl PartialEq for FlowKey {
    fn eq(&self, other: &FlowKey) -> (same: bool) {
        self.src_ip == other.src_ip && self.dst_ip == other.dst_ip && self.src_port
            == other.src_port && self.dst_port == other.dst_port && self.protocol
            == other.protocol
    }
}

impl vstd::std_specs::cmp::PartialEqSpecImpl for FlowKey {
    open spec fn obeys_eq_spec() -> bool {
        true
    }

    open spec fn eq_spec(&self, other: &FlowKey) -> bool {
        *self == *other
    }
}

/// The key of the flow in the opposite direction.
pub open spec fn reverse_key(key: FlowKey) -> FlowKey {
    FlowKey {
        src_ip: key.dst_ip,
        dst_ip: key.src_ip,
        src_port: key.dst_port,
        dst_port: key.src_port,
        protocol: key.protocol,
    }
}

/// The opposite direction of the opposite direction is the flow itself.
pub proof fn reverse_key_involution(key: FlowKey)
    ensures
        reverse_key(reverse_key(key)) == key,
{
}

impl FlowKey {
    /// A flow key from its five parts.
    pub fn new(
        src_ip: IpAddr,
        dst_ip: IpAddr,
        src_port: u16,
        dst_port: u16,
        protocol: Protocol,
    ) -> (key: FlowKey)
        ensures
            key == (FlowKey { src_ip, dst_ip, src_port, dst_port, protocol }),
    {
        FlowKey { src_ip, dst_ip, src_port, dst_port, protocol }
    }

    /// The key of the flow in the opposite direction.
    pub fn reverse(&self) -> (key: FlowKey)
        ensures
            key == reverse_key(*self),
    {
        FlowKey {
            src_ip: self.dst_ip,
            dst_ip: self.src_ip,
            src_port: self.dst_port,
            dst_port: self.src_port,
            protocol: self.protocol,
        }
    }
}

} // verus!
