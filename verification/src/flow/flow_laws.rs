//! What holds of flows over their packets: what each one adds, who expires, who ranks first.

use crate::flow::id::{decode_key, encode_key, flow_id_roundtrip, FlowId};
use crate::flow::table::{flow_key_bytes, FlowTable};
use crate::flow::{flow_after, FlowEntry, FlowState, FlowTableStats};
use crate::parser::header_laws::network_bytes;
use crate::parser::{FlowKey, IpAddr, Ipv4Addr, Protocol};
use vstd::prelude::*;

verus! {

/// A packet adds one to the packets of its flow and its whole length to the bytes, as far
/// as 64 bits show. It was the last one, and the first one stays the first. A flag has been
/// seen where it was before or the packet has it; the first sequence number stays, and the
/// acknowledgment number is the packet's.
pub proof fn packets_add_to_their_flow(
    state: &mut FlowState,
    packet_len: usize,
    tcp_flags: u8,
    seq: Option<u32>,
    ack: Option<u32>,
    now_ns: u64,
    mask: u8,
)
    requires
        call_ensures(FlowState::update_at, (state, packet_len, tcp_flags, seq, ack, now_ns), ()),
    ensures
        (final(state).packet_count - old(state).packet_count - 1) % 0x1_0000_0000_0000_0000 == 0,
        (final(state).byte_count - old(state).byte_count - packet_len) % 0x1_0000_0000_0000_0000
            == 0,
        old(state).packet_count < u64::MAX ==> final(state).packet_count == old(state).packet_count
            + 1,
        old(state).byte_count + packet_len <= u64::MAX ==> final(state).byte_count
            == old(state).byte_count + packet_len,
        final(state).first_seen_ns == old(state).first_seen_ns,
        final(state).last_seen_ns == now_ns,
        final(state).tcp_flags & mask != 0 <==> old(state).tcp_flags & mask != 0 || tcp_flags & mask
            != 0,
        old(state).initial_seq is Some ==> final(state).initial_seq == old(state).initial_seq,
        old(state).initial_seq is None ==> final(state).initial_seq == seq,
        final(state).last_ack == ack,
{
    let seen = old(state).tcp_flags;
    assert((seen | tcp_flags) & mask != 0 <==> seen & mask != 0 || tcp_flags & mask != 0)
        by (bit_vector);
}

/// A packet that arrives now adds what one that arrives at a given time does.
pub proof fn packets_that_arrive_now_add_alike(
    state: &mut FlowState,
    packet_len: usize,
    tcp_flags: u8,
    seq: Option<u32>,
    ack: Option<u32>,
)
    requires
        call_ensures(FlowState::update, (state, packet_len, tcp_flags, seq, ack), ()),
    ensures
        old(state).packet_count < u64::MAX ==> final(state).packet_count == old(state).packet_count
            + 1,
        old(state).byte_count + packet_len <= u64::MAX ==> final(state).byte_count
            == old(state).byte_count + packet_len,
        final(state).first_seen_ns == old(state).first_seen_ns,
        final(state).last_ack == ack,
        old(state).initial_seq is Some ==> final(state).initial_seq == old(state).initial_seq,
        old(state).initial_seq is None ==> final(state).initial_seq == seq,
{
}

/// A flow that was just opened has no packets, and was seen first and last at that time.
pub proof fn new_flows_are_empty(now_ns: u64, state: FlowState)
    requires
        call_ensures(FlowState::new_at, (now_ns,), state),
    ensures
        state.packet_count == 0,
        state.byte_count == 0,
        state.first_seen_ns == now_ns,
        state.last_seen_ns == now_ns,
        state.tcp_flags == 0,
        state.initial_seq is None,
        state.last_ack is None,
{
}

/// What a flow sees of a packet.
pub struct FlowPacket {
    pub len: usize,
    pub tcp_flags: u8,
    pub seq: Option<u32>,
    pub ack: Option<u32>,
    pub now_ns: u64,
}

/// `state` after `packets`, in order.
pub open spec fn flow_after_all(state: FlowState, packets: Seq<FlowPacket>) -> FlowState
    decreases packets.len(),
{
    if packets.len() == 0 {
        state
    } else {
        let last = packets.last();
        flow_after(
            flow_after_all(state, packets.drop_last()),
            last.len,
            last.tcp_flags,
            last.seq,
            last.ack,
            last.now_ns,
        )
    }
}

/// The bytes of all of `packets`.
pub open spec fn bytes_of(packets: Seq<FlowPacket>) -> nat
    decreases packets.len(),
{
    if packets.len() == 0 {
        0
    } else {
        bytes_of(packets.drop_last()) + packets.last().len as nat
    }
}

/// Over any packets, the packets of a flow are as many as there were, its bytes are the sum
/// of their lengths, it was last seen at the last of them, its first sequence number is the
/// first that any of them has, and it has seen a flag exactly where one of them has it.
pub proof fn flows_add_up(state: FlowState, packets: Seq<FlowPacket>, mask: u8)
    requires
        state.packet_count + packets.len() <= u64::MAX,
        state.byte_count + bytes_of(packets) <= u64::MAX,
    ensures
        ({
            let after = flow_after_all(state, packets);
            &&& after.packet_count == state.packet_count + packets.len()
            &&& after.byte_count == state.byte_count + bytes_of(packets)
            &&& after.first_seen_ns == state.first_seen_ns
            &&& packets.len() > 0 ==> after.last_seen_ns == packets.last().now_ns && after.last_ack
                == packets.last().ack
            &&& after.tcp_flags & mask != 0 <==> state.tcp_flags & mask != 0 || exists|i: int|
                0 <= i < packets.len() && (#[trigger] packets[i]).tcp_flags & mask != 0
            &&& state.initial_seq is Some ==> after.initial_seq == state.initial_seq
            &&& state.initial_seq is None && after.initial_seq is None ==> forall|i: int|
                0 <= i < packets.len() ==> (#[trigger] packets[i]).seq is None
            &&& state.initial_seq is None && after.initial_seq is Some ==> exists|i: int|
                {
                    &&& 0 <= i < packets.len()
                    &&& (#[trigger] packets[i]).seq == after.initial_seq
                    &&& forall|j: int| 0 <= j < i ==> (#[trigger] packets[j]).seq is None
                }
        }),
    decreases packets.len(),
{
    if packets.len() > 0 {
        let rest = packets.drop_last();
        let last = packets.last();
        flows_add_up(state, rest, mask);
        let before = flow_after_all(state, rest);
        let after = flow_after_all(state, packets);
        let seen = before.tcp_flags;
        let flags = last.tcp_flags;
        assert((seen | flags) & mask != 0 <==> seen & mask != 0 || flags & mask != 0)
            by (bit_vector);
        assert(packets[packets.len() - 1] == last);
        assert forall|i: int| 0 <= i < rest.len() implies #[trigger] rest[i] == packets[i] by {}
        if exists|i: int| 0 <= i < rest.len() && (#[trigger] rest[i]).tcp_flags & mask != 0 {
            let i = choose|i: int|
                0 <= i < rest.len() && (#[trigger] rest[i]).tcp_flags & mask != 0;
            assert(packets[i].tcp_flags & mask != 0);
        }
        if exists|i: int| 0 <= i < packets.len() && (#[trigger] packets[i]).tcp_flags & mask != 0 {
            let i = choose|i: int|
                0 <= i < packets.len() && (#[trigger] packets[i]).tcp_flags & mask != 0;
            if i < rest.len() {
                assert(rest[i].tcp_flags & mask != 0);
            }
        }
        if state.initial_seq is None && after.initial_seq is Some {
            if before.initial_seq is Some {
                let i = choose|i: int|
                    {
                        &&& 0 <= i < rest.len()
                        &&& (#[trigger] rest[i]).seq == before.initial_seq
                        &&& forall|j: int| 0 <= j < i ==> (#[trigger] rest[j]).seq is None
                    };
                assert(packets[i].seq == after.initial_seq);
                assert forall|j: int| 0 <= j < i implies (#[trigger] packets[j]).seq is None by {
                    assert(rest[j].seq is None);
                }
            } else {
                assert forall|j: int| 0 <= j < packets.len() - 1 implies (
                #[trigger] packets[j]).seq is None by {
                    assert(rest[j].seq is None);
                }
                assert(packets[packets.len() - 1].seq == after.initial_seq);
            }
        }
        if state.initial_seq is None && after.initial_seq is None {
            assert forall|i: int| 0 <= i < packets.len() implies (
            #[trigger] packets[i]).seq is None by {
                if i < rest.len() {
                    assert(rest[i].seq is None);
                }
            }
        }
    }
}

/// A flow is idle exactly where more than the timeout has passed since its last packet.
pub proof fn flows_are_idle_after_the_timeout(
    state: FlowState,
    timeout_ns: u64,
    now_ns: u64,
    idle: bool,
)
    requires
        call_ensures(FlowState::is_idle_at, (&state, timeout_ns, now_ns), idle),
    ensures
        idle <==> state.last_seen_ns + timeout_ns < now_ns,
{
}

/// From the first packet to the last it takes the duration.
pub proof fn durations_reach_the_last_packet(state: FlowState, duration: u64)
    requires
        call_ensures(FlowState::duration_ns, (&state,), duration),
    ensures
        state.first_seen_ns <= state.last_seen_ns ==> state.first_seen_ns + duration
            == state.last_seen_ns,
        state.first_seen_ns > state.last_seen_ns ==> duration == 0,
{
}

/// A connection is complete where SYN (2) and ACK (16) were seen, and FIN (1) or RST (4).
pub proof fn complete_connections_open_and_close(state: FlowState, complete: bool)
    requires
        call_ensures(FlowState::is_complete_tcp_connection, (&state,), complete),
    ensures
        complete <==> (state.tcp_flags / 2) % 2 == 1 && (state.tcp_flags / 16) % 2 == 1 && (
        state.tcp_flags % 2 == 1 || (state.tcp_flags / 4) % 2 == 1),
{
    let f = state.tcp_flags;
    assert((f & 0x02 != 0 <==> (f / 2) % 2 == 1) && (f & 0x10 != 0 <==> (f / 16) % 2 == 1) && (f
        & 0x01 != 0 <==> f % 2 == 1) && (f & 0x04 != 0 <==> (f / 4) % 2 == 1)) by (bit_vector);
}

/// A packet of a flow that the table holds is counted in it; one of a flow that it does not
/// hold opens the flow, as its first packet, where the table holds fewer flows than its
/// capacity, and leaves the flow unknown where not.
pub proof fn packets_are_counted_in_their_flow(
    table: &mut FlowTable,
    key: FlowKey,
    packet_len: usize,
    tcp_flags: u8,
    seq: Option<u32>,
    ack: Option<u32>,
    now_ns: u64,
    is_new: bool,
    len: usize,
    capacity: usize,
    before: Option<FlowState>,
    after: Option<FlowState>,
)
    requires
        call_ensures(FlowTable::get, (&*old(table), &key), before),
        call_ensures(FlowTable::len, (&*old(table),), len),
        call_ensures(FlowTable::capacity, (&*old(table),), capacity),
        call_ensures(
            FlowTable::insert_or_update_at,
            (table, key, packet_len, tcp_flags, seq, ack, now_ns),
            is_new,
        ),
        call_ensures(FlowTable::get, (&*final(table), &key), after),
    ensures
        is_new <==> before is None && len < capacity,
        match (before, after) {
            (Some(b), Some(a)) => {
                &&& b.packet_count < u64::MAX ==> a.packet_count == b.packet_count + 1
                &&& b.byte_count + packet_len <= u64::MAX ==> a.byte_count == b.byte_count
                    + packet_len
                &&& a.first_seen_ns == b.first_seen_ns
                &&& a.last_seen_ns == now_ns
                &&& a.tcp_flags == b.tcp_flags | tcp_flags
                &&& a.last_ack == ack
                &&& a.initial_seq == if b.initial_seq is Some {
                    b.initial_seq
                } else {
                    seq
                }
            },
            (None, Some(a)) => {
                &&& is_new
                &&& a.packet_count == 1
                &&& a.byte_count == packet_len
                &&& a.first_seen_ns == now_ns
                &&& a.last_seen_ns == now_ns
                &&& a.tcp_flags == tcp_flags
                &&& a.initial_seq == seq
                &&& a.last_ack == ack
            },
            (None, None) => !is_new,
            (Some(_), None) => false,
        },
{
    assert(0u8 | tcp_flags == tcp_flags) by (bit_vector);
}

/// A packet that arrives now is counted in its flow alike.
pub proof fn packets_that_arrive_now_are_counted(
    table: &mut FlowTable,
    key: FlowKey,
    packet_len: usize,
    tcp_flags: u8,
    seq: Option<u32>,
    ack: Option<u32>,
    is_new: bool,
    before: Option<FlowState>,
    after: Option<FlowState>,
)
    requires
        call_ensures(FlowTable::get, (&*old(table), &key), before),
        call_ensures(
            FlowTable::insert_or_update,
            (table, key, packet_len, tcp_flags, seq, ack),
            is_new,
        ),
        call_ensures(FlowTable::get, (&*final(table), &key), after),
    ensures
        match (before, after) {
            (Some(b), Some(a)) => {
                &&& !is_new
                &&& b.packet_count < u64::MAX ==> a.packet_count == b.packet_count + 1
                &&& b.byte_count + packet_len <= u64::MAX ==> a.byte_count == b.byte_count
                    + packet_len
                &&& a.first_seen_ns == b.first_seen_ns
                &&& a.tcp_flags == b.tcp_flags | tcp_flags
            },
            (None, Some(a)) => {
                &&& is_new
                &&& a.packet_count == 1
                &&& a.byte_count == packet_len
                &&& a.first_seen_ns == a.last_seen_ns
                &&& a.tcp_flags == tcp_flags
            },
            (None, None) => !is_new,
            (Some(_), None) => false,
        },
{
    assert(0u8 | tcp_flags == tcp_flags) by (bit_vector);
}

/// A packet leaves every other flow as it is.
pub proof fn packets_leave_other_flows(
    table: &mut FlowTable,
    key: FlowKey,
    packet_len: usize,
    tcp_flags: u8,
    seq: Option<u32>,
    ack: Option<u32>,
    now_ns: u64,
    is_new: bool,
    other: FlowKey,
    before: Option<FlowState>,
    after: Option<FlowState>,
)
    requires
        other != key,
        call_ensures(FlowTable::get, (&*old(table), &other), before),
        call_ensures(
            FlowTable::insert_or_update_at,
            (table, key, packet_len, tcp_flags, seq, ack, now_ns),
            is_new,
        ),
        call_ensures(FlowTable::get, (&*final(table), &other), after),
    ensures
        after == before,
{
}

/// The counters of a table follow its packets: one that is counted in a flow adds one
/// packet and its length, one that opens a flow adds a flow too, and one that is turned away
/// adds a collision and nothing else.
pub proof fn table_counters_follow_the_packets(
    table: &mut FlowTable,
    key: FlowKey,
    packet_len: usize,
    tcp_flags: u8,
    seq: Option<u32>,
    ack: Option<u32>,
    now_ns: u64,
    is_new: bool,
    known: Option<FlowState>,
    before: FlowTableStats,
    after: FlowTableStats,
    len: usize,
)
    requires
        call_ensures(FlowTable::get, (&*old(table), &key), known),
        call_ensures(FlowTable::len, (&*old(table),), len),
        call_ensures(FlowTable::stats, (&*old(table),), before),
        call_ensures(
            FlowTable::insert_or_update_at,
            (table, key, packet_len, tcp_flags, seq, ack, now_ns),
            is_new,
        ),
        call_ensures(FlowTable::stats, (&*final(table),), after),
        old(table)@.flows.dom().finite(),
        before.total_packets < u64::MAX,
        before.total_bytes + packet_len <= u64::MAX,
        before.collisions < u64::MAX,
        before.total_flows < u64::MAX,
    ensures
        before.total_flows == len,
        before.active_flows == len,
        after.expired_flows == before.expired_flows,
        after.active_flows == after.total_flows,
        known is Some || is_new ==> {
            &&& after.total_packets == before.total_packets + 1
            &&& after.total_bytes == before.total_bytes + packet_len
            &&& after.collisions == before.collisions
            &&& after.total_flows == before.total_flows + if is_new {
                1int
            } else {
                0
            }
        },
        known is None && !is_new ==> {
            &&& after.collisions == before.collisions + 1
            &&& after.total_packets == before.total_packets
            &&& after.total_bytes == before.total_bytes
            &&& after.total_flows == before.total_flows
        },
{
    let flows = old(table)@.flows;
    if known is Some {
        assert(flows.dom().insert(key) =~= flows.dom());
        assert(final(table)@.flows.dom() =~= flows.dom());
    } else if is_new {
        assert(final(table)@.flows.dom() =~= flows.dom().insert(key));
    }
}

/// Expiry takes out exactly the flows whose last packet is longer ago than the timeout, with
/// the state they had, each once; every other flow stays as it is. Each one taken out counts
/// as expired, and no other counter changes but that of the flows.
pub proof fn idle_flows_expire(
    table: &mut FlowTable,
    timeout_ns: u64,
    now_ns: u64,
    expired: Vec<(FlowKey, FlowState)>,
    key: FlowKey,
    before: Option<FlowState>,
    after: Option<FlowState>,
    stats_before: FlowTableStats,
    stats_after: FlowTableStats,
)
    requires
        call_ensures(FlowTable::get, (&*old(table), &key), before),
        call_ensures(FlowTable::stats, (&*old(table),), stats_before),
        call_ensures(FlowTable::remove_expired_at, (table, timeout_ns, now_ns), expired),
        call_ensures(FlowTable::get, (&*final(table), &key), after),
        call_ensures(FlowTable::stats, (&*final(table),), stats_after),
    ensures
        match before {
            Some(state) => if state.last_seen_ns + timeout_ns < now_ns {
                &&& after is None
                &&& exists|i: int|
                    0 <= i < expired@.len() && #[trigger] expired@[i] == (key, state)
            } else {
                &&& after == before
                &&& forall|i: int| 0 <= i < expired@.len() ==> (#[trigger] expired@[i]).0 != key
            },
            None => {
                &&& after is None
                &&& forall|i: int| 0 <= i < expired@.len() ==> (#[trigger] expired@[i]).0 != key
            },
        },
        forall|i: int, j: int|
            0 <= i < j < expired@.len() ==> (#[trigger] expired@[i]).0 != (
            #[trigger] expired@[j]).0,
        stats_before.expired_flows + expired@.len() <= u64::MAX ==> stats_after.expired_flows
            == stats_before.expired_flows + expired@.len(),
        stats_after.total_packets == stats_before.total_packets,
        stats_after.total_bytes == stats_before.total_bytes,
        stats_after.collisions == stats_before.collisions,
{
    if let Some(state) = before {
        if state.last_seen_ns + timeout_ns < now_ns {
            let idle = crate::flow::table::flows_by_idleness(
                old(table)@.flows,
                timeout_ns,
                now_ns,
                true,
            );
            assert(idle.contains_key(key));
            let i = choose|i: int| 0 <= i < expired@.len() && expired@[i].0 == key;
            assert(expired@[i] == (key, state));
        }
    }
}

/// A flow that is removed is gone, with the state it had handed out; every other flow and
/// every counter but that of the flows stays.
pub proof fn removed_flows_are_gone(
    table: &mut FlowTable,
    key: FlowKey,
    removed: Option<FlowState>,
    before: Option<FlowState>,
    after: Option<FlowState>,
    other: FlowKey,
    other_before: Option<FlowState>,
    other_after: Option<FlowState>,
)
    requires
        other != key,
        call_ensures(FlowTable::get, (&*old(table), &key), before),
        call_ensures(FlowTable::get, (&*old(table), &other), other_before),
        call_ensures(FlowTable::remove, (table, &key), removed),
        call_ensures(FlowTable::get, (&*final(table), &key), after),
        call_ensures(FlowTable::get, (&*final(table), &other), other_after),
    ensures
        removed == before,
        after is None,
        other_after == other_before,
        final(table)@.total_packets == old(table)@.total_packets,
        final(table)@.total_bytes == old(table)@.total_bytes,
        final(table)@.expired_count == old(table)@.expired_count,
        final(table)@.collisions == old(table)@.collisions,
{
}

/// A cleared table holds no flow and keeps its counters and its size.
pub proof fn cleared_tables_hold_nothing(
    table: &mut FlowTable,
    key: FlowKey,
    found: Option<FlowState>,
    empty: bool,
    before: FlowTableStats,
    after: FlowTableStats,
)
    requires
        call_ensures(FlowTable::stats, (&*old(table),), before),
        call_ensures(FlowTable::clear, (table,), ()),
        call_ensures(FlowTable::get, (&*final(table), &key), found),
        call_ensures(FlowTable::is_empty, (&*final(table),), empty),
        call_ensures(FlowTable::stats, (&*final(table),), after),
    ensures
        found is None,
        empty,
        after.total_flows == 0,
        after.total_packets == before.total_packets,
        after.total_bytes == before.total_bytes,
        after.expired_flows == before.expired_flows,
        after.collisions == before.collisions,
        final(table)@.capacity == old(table)@.capacity,
{
}

/// A table that is reset holds no flow and has counted nothing, with its size unchanged.
pub proof fn reset_tables_are_as_new(
    table: &mut FlowTable,
    key: FlowKey,
    found: Option<FlowState>,
    after: FlowTableStats,
)
    requires
        call_ensures(FlowTable::reset, (table,), ()),
        call_ensures(FlowTable::get, (&*final(table), &key), found),
        call_ensures(FlowTable::stats, (&*final(table),), after),
    ensures
        found is None,
        after.total_flows == 0,
        after.active_flows == 0,
        after.total_packets == 0,
        after.total_bytes == 0,
        after.expired_flows == 0,
        after.collisions == 0,
        final(table)@.capacity == old(table)@.capacity,
        final(table)@.load_percent == old(table)@.load_percent,
{
}

/// A new table holds no flow, takes as many as it was made for, and has its load factor
/// within bounds.
pub proof fn new_tables_are_empty(
    capacity: usize,
    load_percent: usize,
    table: FlowTable,
    key: FlowKey,
    found: Option<FlowState>,
    stats: FlowTableStats,
    percent: usize,
    asked: usize,
    full: bool,
)
    requires
        call_ensures(FlowTable::new, (capacity,), table) || call_ensures(
            FlowTable::with_load_factor,
            (capacity, load_percent),
            table,
        ),
        call_ensures(FlowTable::get, (&table, &key), found),
        call_ensures(FlowTable::stats, (&table,), stats),
        call_ensures(FlowTable::load_percent, (&table,), percent),
        call_ensures(FlowTable::capacity, (&table,), asked),
        call_ensures(FlowTable::is_full, (&table,), full),
    ensures
        found is None,
        stats.total_flows == 0 && stats.total_packets == 0 && stats.total_bytes == 0,
        stats.expired_flows == 0 && stats.collisions == 0,
        asked == capacity,
        10 <= percent <= 95,
        percent == 75 || percent == load_percent || (percent == 10 && load_percent < 10) || (percent
            == 95 && load_percent > 95),
        full <==> capacity == 0,
{
}

/// A table is full where it holds as many flows as it may.
pub proof fn tables_are_full_at_capacity(
    table: FlowTable,
    len: usize,
    capacity: usize,
    full: bool,
    empty: bool,
)
    requires
        call_ensures(FlowTable::len, (&table,), len),
        call_ensures(FlowTable::capacity, (&table,), capacity),
        call_ensures(FlowTable::is_full, (&table,), full),
        call_ensures(FlowTable::is_empty, (&table,), empty),
        table@.flows.dom().finite(),
    ensures
        len <= capacity,
        full <==> len == capacity,
        empty <==> len == 0,
{
    if len == 0 {
        table@.flows.dom().lemma_len0_is_empty();
        assert(table@.flows =~= Map::<FlowKey, FlowState>::empty());
    }
}

/// The flows with the most packets come first, in descending order of their packet count;
/// they are flows of the table, each once, `n` of them or all; and no flow that is left out
/// has more packets than any of them.
pub proof fn top_flows_have_the_most_packets(
    table: FlowTable,
    n: usize,
    top: Vec<(FlowKey, FlowState)>,
    len: usize,
    key: FlowKey,
    found: Option<FlowState>,
)
    requires
        call_ensures(FlowTable::top_n_by_packets, (&table, n), top),
        call_ensures(FlowTable::len, (&table,), len),
        call_ensures(FlowTable::get, (&table, &key), found),
    ensures
        top@.len() == if n < len {
            n
        } else {
            len
        },
        forall|i: int, j: int|
            0 <= i < j < top@.len() ==> (#[trigger] top@[i]).1.packet_count >= (
            #[trigger] top@[j]).1.packet_count && top@[i].0 != top@[j].0,
        forall|i: int|
            0 <= i < top@.len() && (#[trigger] top@[i]).0 == key ==> found == Some(top@[i].1),
        found matches Some(state) ==> (exists|i: int|
            0 <= i < top@.len() && (#[trigger] top@[i]).0 == key) || (forall|i: int|
            0 <= i < top@.len() ==> (#[trigger] top@[i]).1.packet_count >= state.packet_count),
        found is None ==> forall|i: int| 0 <= i < top@.len() ==> (#[trigger] top@[i]).0 != key,
{
    assert(forall|i: int, j: int|
        0 <= i < j < top@.len() ==> (#[trigger] top@[i]).1.packet_count >= (
        #[trigger] top@[j]).1.packet_count);
    if let Some(state) = found {
        if exists|i: int|
            0 <= i < top@.len() && (#[trigger] top@[i]).1.packet_count < state.packet_count {
            let i = choose|i: int|
                0 <= i < top@.len() && (#[trigger] top@[i]).1.packet_count < state.packet_count;
            let j = choose|j: int| 0 <= j < i && #[trigger] top@[j].0 == key;
            assert(top@[j].0 == key);
        }
    }
}

/// The flows with the most bytes come first, in descending order of their byte count; they
/// are flows of the table, each once, `n` of them or all; and no flow that is left out has
/// more bytes than any of them.
pub proof fn top_flows_have_the_most_bytes(
    table: FlowTable,
    n: usize,
    top: Vec<(FlowKey, FlowState)>,
    len: usize,
    key: FlowKey,
    found: Option<FlowState>,
)
    requires
        call_ensures(FlowTable::top_n_by_bytes, (&table, n), top),
        call_ensures(FlowTable::len, (&table,), len),
        call_ensures(FlowTable::get, (&table, &key), found),
    ensures
        top@.len() == if n < len {
            n
        } else {
            len
        },
        forall|i: int, j: int|
            0 <= i < j < top@.len() ==> (#[trigger] top@[i]).1.byte_count >= (
            #[trigger] top@[j]).1.byte_count && top@[i].0 != top@[j].0,
        forall|i: int|
            0 <= i < top@.len() && (#[trigger] top@[i]).0 == key ==> found == Some(top@[i].1),
        found matches Some(state) ==> (exists|i: int|
            0 <= i < top@.len() && (#[trigger] top@[i]).0 == key) || (forall|i: int|
            0 <= i < top@.len() ==> (#[trigger] top@[i]).1.byte_count >= state.byte_count),
        found is None ==> forall|i: int| 0 <= i < top@.len() ==> (#[trigger] top@[i]).0 != key,
{
    assert(forall|i: int, j: int|
        0 <= i < j < top@.len() ==> (#[trigger] top@[i]).1.byte_count >= (
        #[trigger] top@[j]).1.byte_count);
    if let Some(state) = found {
        if exists|i: int|
            0 <= i < top@.len() && (#[trigger] top@[i]).1.byte_count < state.byte_count {
            let i = choose|i: int|
                0 <= i < top@.len() && (#[trigger] top@[i]).1.byte_count < state.byte_count;
            let j = choose|j: int| 0 <= j < i && #[trigger] top@[j].0 == key;
            assert(top@[j].0 == key);
        }
    }
}

/// Listing a table gives each of its flows once, with its state.
pub proof fn listings_are_complete(
    table: FlowTable,
    flows: Vec<(FlowKey, FlowState)>,
    key: FlowKey,
    found: Option<FlowState>,
)
    requires
        call_ensures(FlowTable::iter, (&table,), flows),
        call_ensures(FlowTable::get, (&table, &key), found),
    ensures
        found matches Some(state) ==> exists|i: int|
            0 <= i < flows@.len() && #[trigger] flows@[i] == (key, state),
        forall|i: int|
            0 <= i < flows@.len() && (#[trigger] flows@[i]).0 == key ==> found == Some(flows@[i].1),
        forall|i: int, j: int|
            0 <= i < j < flows@.len() ==> (#[trigger] flows@[i]).0 != (#[trigger] flows@[j]).0,
{
    if let Some(state) = found {
        let i = choose|i: int| 0 <= i < flows@.len() && flows@[i].0 == key;
        assert(flows@[i] == (key, state));
    }
}

/// The bytes that stand for a key in its hash: the source address with its version in the
/// fifth byte, the destination address, and the two ports, the higher byte first.
pub proof fn key_bytes_are_addresses_and_ports(key: FlowKey, bytes: Vec<u8>)
    requires
        call_ensures(flow_key_bytes, (&key,), bytes),
    ensures
        bytes@.len() == 36,
        match key.src_ip {
            IpAddr::V4(v4) => bytes@.subrange(0, 4) == v4@ && bytes@[4] == 4 && forall|i: int|
                5 <= i < 16 ==> #[trigger] bytes@[i] == 0,
            IpAddr::V6(v6) => bytes@.subrange(0, 4) == v6@.subrange(0, 4) && bytes@[4] == 6
                && bytes@.subrange(5, 16) == v6@.subrange(5, 16),
        },
        match key.dst_ip {
            IpAddr::V4(v4) => bytes@.subrange(16, 20) == v4@ && forall|i: int|
                20 <= i < 32 ==> #[trigger] bytes@[i] == 0,
            IpAddr::V6(v6) => bytes@.subrange(16, 32) == v6@,
        },
        network_bytes(key.src_port as nat, 2) == bytes@.subrange(32, 34),
        network_bytes(key.dst_port as nat, 2) == bytes@.subrange(34, 36),
{
    broadcast use crate::parser::address::ipv4_addr_is_its_octets;

    reveal_with_fuel(network_bytes, 3);
    assert(network_bytes(key.src_port as nat, 2) =~= bytes@.subrange(32, 34));
    assert(network_bytes(key.dst_port as nat, 2) =~= bytes@.subrange(34, 36));
    match key.src_ip {
        IpAddr::V4(v4) => {
            assert(bytes@.subrange(0, 4) =~= v4@);
        },
        IpAddr::V6(v6) => {
            assert(bytes@.subrange(0, 4) =~= v6@.subrange(0, 4));
            assert(bytes@.subrange(5, 16) =~= v6@.subrange(5, 16));
        },
    }
    match key.dst_ip {
        IpAddr::V4(v4) => {
            assert(bytes@.subrange(16, 20) =~= v4@);
        },
        IpAddr::V6(v6) => {
            assert(bytes@.subrange(16, 32) =~= v6@);
        },
    }
}

/// An entry is for its key and its hash, with a flow that has no packet yet.
pub proof fn entries_start_empty(key: FlowKey, hash: u64, entry: FlowEntry)
    requires
        call_ensures(FlowEntry::new, (key, hash), entry),
    ensures
        entry.key == key,
        entry.hash == hash,
        entry.state.packet_count == 0,
        entry.state.byte_count == 0,
{
}

/// The key of the opposite direction has the ends exchanged, each address with its own
/// port, and the same protocol.
pub proof fn reverse_keys_exchange_the_ends(key: FlowKey, reverse: FlowKey)
    requires
        call_ensures(FlowKey::reverse, (&key,), reverse),
    ensures
        reverse.src_ip == key.dst_ip,
        reverse.src_port == key.dst_port,
        reverse.dst_ip == key.src_ip,
        reverse.dst_port == key.src_port,
        reverse.protocol == key.protocol,
{
}

/// A key is made of its parts, each in its own place, and an address of its octets.
pub proof fn keys_are_made_of_their_parts(
    src_ip: IpAddr,
    dst_ip: IpAddr,
    src_port: u16,
    dst_port: u16,
    protocol: Protocol,
    key: FlowKey,
    a: u8,
    b: u8,
    c: u8,
    d: u8,
    addr: Ipv4Addr,
    octets: [u8; 4],
    yes: bool,
)
    requires
        call_ensures(FlowKey::new, (src_ip, dst_ip, src_port, dst_port, protocol), key),
        call_ensures(Ipv4Addr::new, (a, b, c, d), addr),
        call_ensures(Ipv4Addr::octets, (&addr,), octets),
    ensures
        key.src_ip == src_ip && key.src_port == src_port,
        key.dst_ip == dst_ip && key.dst_port == dst_port,
        key.protocol == protocol,
        octets@ == seq![a, b, c, d],
        call_ensures(IpAddr::is_ipv4, (&src_ip,), yes) ==> (yes <==> src_ip is V4),
        call_ensures(IpAddr::is_ipv6, (&src_ip,), yes) ==> (yes <==> src_ip is V6),
{
}

/// A key that is encoded and decoded again is the same key, and two keys have the same code
/// only where they are the same.
pub proof fn keys_are_decoded_again(
    key: FlowKey,
    id: FlowId,
    decoded: FlowKey,
    other: FlowKey,
    other_id: FlowId,
)
    requires
        call_ensures(encode_key, (&key,), id),
        call_ensures(decode_key, (&id,), decoded),
        call_ensures(encode_key, (&other,), other_id),
    ensures
        decoded == key,
        id == other_id <==> key == other,
{
    broadcast use flow_id_roundtrip;

}

/// A table is made for 1048576 flows by default.
pub proof fn default_tables_hold_a_million_flows(table: FlowTable, capacity: usize)
    requires
        call_ensures(<FlowTable as Default>::default, (), table),
        call_ensures(FlowTable::capacity, (&table,), capacity),
    ensures
        capacity == 1024 * 1024,
        table@.flows.len() == 0,
{
}

/// Expiry that happens now takes out the flows that some moment finds idle, each with the
/// state it had, and counts them.
pub proof fn expiry_now_takes_idle_flows(
    table: &mut FlowTable,
    timeout_ns: u64,
    expired: Vec<(FlowKey, FlowState)>,
    key: FlowKey,
    before: Option<FlowState>,
    after: Option<FlowState>,
)
    requires
        call_ensures(FlowTable::get, (&*old(table), &key), before),
        call_ensures(FlowTable::remove_expired, (table, timeout_ns), expired),
        call_ensures(FlowTable::get, (&*final(table), &key), after),
    ensures
        after is Some ==> after == before,
        forall|i: int|
            0 <= i < expired@.len() && (#[trigger] expired@[i]).0 == key ==> before == Some(
                expired@[i].1,
            ) && after is None,
        before is Some && after is None ==> exists|i: int|
            0 <= i < expired@.len() && (#[trigger] expired@[i]).0 == key,
        old(table)@.expired_count + expired@.len() <= u64::MAX ==> final(table)@.expired_count
            == old(table)@.expired_count + expired@.len(),
{
    let now_ns = choose|now_ns: u64|
        {
            &&& final(table)@ == #[trigger] crate::flow::table::table_without_idle(
                old(table)@,
                timeout_ns,
                now_ns,
                expired@.len(),
            )
            &&& crate::flow::table::lists(
                expired@,
                crate::flow::table::flows_by_idleness(
                    old(table)@.flows,
                    timeout_ns,
                    now_ns,
                    true,
                ),
            )
        };
    let idle = crate::flow::table::flows_by_idleness(
        old(table)@.flows,
        timeout_ns,
        now_ns,
        true,
    );
    if before is Some && after is None {
        assert(idle.contains_key(key));
    }
}

/// A key is hashed by its bytes, so keys with the same bytes have the same hash, in every
/// table.
pub proof fn keys_are_hashed_by_their_bytes(
    table: FlowTable,
    other_table: FlowTable,
    key: FlowKey,
    other: FlowKey,
    bytes: Vec<u8>,
    other_bytes: Vec<u8>,
    hash: u64,
    other_hash: u64,
)
    requires
        call_ensures(flow_key_bytes, (&key,), bytes),
        call_ensures(flow_key_bytes, (&other,), other_bytes),
        call_ensures(FlowTable::hash_key, (&table, &key), hash),
        call_ensures(FlowTable::hash_key, (&other_table, &other), other_hash),
    ensures
        hash == crate::flow::table::xxh3(bytes@),
        bytes@ == other_bytes@ ==> hash == other_hash,
{
}

/// Making room changes no flow and no counter.
pub proof fn making_room_changes_nothing(
    table: &mut FlowTable,
    additional: usize,
    key: FlowKey,
    before: Option<FlowState>,
    after: Option<FlowState>,
)
    requires
        call_ensures(FlowTable::get, (&*old(table), &key), before),
        call_ensures(FlowTable::reserve, (table, additional), ()),
        call_ensures(FlowTable::get, (&*final(table), &key), after),
    ensures
        after == before,
        final(table)@.capacity == old(table)@.capacity,
        final(table)@.total_packets == old(table)@.total_packets,
        final(table)@.collisions == old(table)@.collisions,
{
}

} // verus!
