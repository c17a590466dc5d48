//! Flow tracking: the state kept for a flow, the table of flows, and the timers that
//! expire them.

use crate::clock::unix_nanos;
use crate::parser::FlowKey;
use vstd::prelude::*;

pub mod flow_laws;
pub mod id;
pub mod ranking;
pub mod table;
pub mod timer_laws;
pub mod timer_wheel;

pub use table::FlowTable;
pub use timer_wheel::TimingWheel;

verus! {

/// What is known of one flow.
#[derive(Debug, Clone, Copy, PartialEq, Eq, Structural)]
pub struct FlowState {
    /// Number of packets in this flow
    pub packet_count: u64,
    /// Total bytes in this flow
    pub byte_count: u64,
    /// First packet timestamp (nanoseconds since the epoch)
    pub first_seen_ns: u64,
    /// Last packet timestamp (nanoseconds since the epoch)
    pub last_seen_ns: u64,
    /// TCP flags seen (bitmask)
    pub tcp_flags: u8,
    /// Initial sequence number (for RTT estimation)
    pub initial_seq: Option<u32>,
    /// Last acknowledgment number (for RTT estimation)
    pub last_ack: Option<u32>,
}

/// The state of a flow that was opened at `now_ns` and has no packet yet.
pub open spec fn opened_flow(now_ns: u64) -> FlowState {
    FlowState {
        packet_count: 0,
        byte_count: 0,
        first_seen_ns: now_ns,
        last_seen_ns: now_ns,
        tcp_flags: 0,
        initial_seq: None,
        last_ack: None,
    }
}

/// `state` after a packet of `packet_len` bytes that arrived at `now_ns`. The counters
/// wrap around at 64 bits.
pub open spec fn flow_after(
    state: FlowState,
    packet_len: usize,
    tcp_flags: u8,
    seq: Option<u32>,
    ack: Option<u32>,
    now_ns: u64,
) -> FlowState {
    FlowState {
        packet_count: state.packet_count.wrapping_add(1),
        byte_count: state.byte_count.wrapping_add(packet_len as u64),
        first_seen_ns: state.first_seen_ns,
        last_seen_ns: now_ns,
        tcp_flags: state.tcp_flags | tcp_flags,
        initial_seq: match state.initial_seq {
            Some(first) => Some(first),
            None => seq,
        },
        last_ack: ack,
    }
}

/// Whether `state` has seen no packet for more than `timeout_ns` at `now_ns`.
pub open spec fn idle_at(state: FlowState, timeout_ns: u64, now_ns: u64) -> bool {
    now_ns - state.last_seen_ns > timeout_ns
}

/// Whether `tcp_flags` shows a connection that was opened (SYN, ACK) and closed (FIN or
/// RST).
pub open spec fn complete_connection(tcp_flags: u8) -> bool {
    tcp_flags & 0x02 != 0 && tcp_flags & 0x10 != 0 && (tcp_flags & 0x01 != 0 || tcp_flags & 0x04
        != 0)
}

impl Default for FlowState {
    fn default() -> (state: FlowState)
        ensures
            state == opened_flow(state.first_seen_ns),
    {
        FlowState::new()
    }
}

impl FlowState {
    /// The state of a flow that is opened now.
    pub fn new() -> (state: FlowState)
        ensures
            state == opened_flow(state.first_seen_ns),
    {
        FlowState::new_at(unix_nanos())
    }

    /// The state of a flow that is opened at `now_ns`.
    pub fn new_at(now_ns: u64) -> (state: FlowState)
        ensures
            state == opened_flow(now_ns),
    {
        FlowState {
            packet_count: 0,
            byte_count: 0,
            first_seen_ns: now_ns,
            last_seen_ns: now_ns,
            tcp_flags: 0,
            initial_seq: None,
            last_ack: None,
        }
    }

    /// Counts a packet that arrives now.
    pub fn update(&mut self, packet_len: usize, tcp_flags: u8, seq: Option<u32>, ack: Option<u32>)
        ensures
            *final(self) == flow_after(
                *old(self),
                packet_len,
                tcp_flags,
                seq,
                ack,
                final(self).last_seen_ns,
            ),
    {
        self.update_at(packet_len, tcp_flags, seq, ack, unix_nanos());
    }

    /// Counts a packet that arrives at `now_ns`.
    pub fn update_at(
        &mut self,
        packet_len: usize,
        tcp_flags: u8,
        seq: Option<u32>,
        ack: Option<u32>,
        now_ns: u64,
    )
        ensures
            *final(self) == flow_after(*old(self), packet_len, tcp_flags, seq, ack, now_ns),
    {
        self.packet_count = self.packet_count.wrapping_add(1);
        self.byte_count = self.byte_count.wrapping_add(packet_len as u64);
        self.last_seen_ns = now_ns;
        self.tcp_flags = self.tcp_flags | tcp_flags;
        if self.initial_seq.is_none() {
            self.initial_seq = seq;
        }
        self.last_ack = ack;
    }

    /// Whether the flow has been idle for more than `timeout_ns` by now. A flow is
    /// never idle by a timeout that no clock reading can exceed.
    pub fn is_idle(&self, timeout_ns: u64) -> (idle: bool)
        ensures
            idle ==> self.last_seen_ns + timeout_ns < u64::MAX,
    {
        self.is_idle_at(timeout_ns, unix_nanos())
    }

    /// Whether the flow has been idle for more than `timeout_ns` at `now_ns`.
    pub fn is_idle_at(&self, timeout_ns: u64, now_ns: u64) -> (idle: bool)
        ensures
            idle == idle_at(*self, timeout_ns, now_ns),
    {
        now_ns.saturating_sub(self.last_seen_ns) > timeout_ns
    }

    /// The time between the first and the last packet, in nanoseconds; 0 where the
    /// clock went back between them.
    pub fn duration_ns(&self) -> (duration: u64)
        ensures
            duration == if self.last_seen_ns > self.first_seen_ns {
                self.last_seen_ns - self.first_seen_ns
            } else {
                0
            },
    {
        self.last_seen_ns.saturating_sub(self.first_seen_ns)
    }

    /// Whether a whole TCP connection was seen: SYN, ACK, and FIN or RST.
    pub fn is_complete_tcp_connection(&self) -> (complete: bool)
        ensures
            complete == complete_connection(self.tcp_flags),
    {
        let has_syn = self.tcp_flags & 0x02 != 0;
        let has_ack = self.tcp_flags & 0x10 != 0;
        let has_fin = self.tcp_flags & 0x01 != 0;
        let has_rst = self.tcp_flags & 0x04 != 0;
        has_syn && has_ack && (has_fin || has_rst)
    }
}

/// A connection that was seen whole stays so, whatever packets follow.
pub proof fn complete_connection_stays_complete(
    state: FlowState,
    packet_len: usize,
    tcp_flags: u8,
    seq: Option<u32>,
    ack: Option<u32>,
    now_ns: u64,
)
    requires
        complete_connection(state.tcp_flags),
    ensures
        complete_connection(
            flow_after(state, packet_len, tcp_flags, seq, ack, now_ns).tcp_flags,
        ),
{
    let seen = state.tcp_flags;
    assert(seen & 0x02 != 0 ==> (seen | tcp_flags) & 0x02 != 0) by (bit_vector);
    assert(seen & 0x10 != 0 ==> (seen | tcp_flags) & 0x10 != 0) by (bit_vector);
    assert(seen & 0x01 != 0 ==> (seen | tcp_flags) & 0x01 != 0) by (bit_vector);
    assert(seen & 0x04 != 0 ==> (seen | tcp_flags) & 0x04 != 0) by (bit_vector);
}

/// A flow that has just had a packet is not idle, by any timeout.
pub proof fn updated_flow_is_not_idle(
    state: FlowState,
    packet_len: usize,
    tcp_flags: u8,
    seq: Option<u32>,
    ack: Option<u32>,
    now_ns: u64,
    timeout_ns: u64,
)
    ensures
        !idle_at(
            flow_after(state, packet_len, tcp_flags, seq, ack, now_ns),
            timeout_ns,
            now_ns,
        ),
{
}

/// Counters of a flow table.
#[derive(Debug, Clone, Copy, PartialEq, Eq, Structural)]
pub struct FlowTableStats {
    /// Number of flows in the table
    pub total_flows: u64,
    /// Flows that have not expired
    pub active_flows: u64,
    /// Flows expired so far
    pub expired_flows: u64,
    /// Packets counted in a flow
    pub total_packets: u64,
    /// Bytes counted in a flow
    pub total_bytes: u64,
    /// Flows that were turned away because the table was full
    pub collisions: u64,
}

impl Default for FlowTableStats {
    fn default() -> (stats: FlowTableStats)
        ensures
            stats == (FlowTableStats {
                total_flows: 0,
                active_flows: 0,
                expired_flows: 0,
                total_packets: 0,
                total_bytes: 0,
                collisions: 0,
            }),
    {
        FlowTableStats {
            total_flows: 0,
            active_flows: 0,
            expired_flows: 0,
            total_packets: 0,
            total_bytes: 0,
            collisions: 0,
        }
    }
}

/// A flow with its key and its hash.
#[derive(Debug, Clone, Copy)]
pub struct FlowEntry {
    /// Flow key
    pub key: FlowKey,
    /// Flow state
    pub state: FlowState,
    /// Hash of the key
    pub hash: u64,
}

impl FlowEntry {
    /// An entry for a flow that is opened now.
    pub fn new(key: FlowKey, hash: u64) -> (entry: FlowEntry)
        ensures
            entry.key == key,
            entry.hash == hash,
            entry.state == opened_flow(entry.state.first_seen_ns),
    {
        FlowEntry { key, state: FlowState::new(), hash }
    }
}

} // verus!
