//! The table of flows.

use crate::clock::unix_nanos;
use crate::flow::id::{decode_key, encode_key, flow_id, flow_id_roundtrip, key_with, FlowId};
use crate::flow::ranking::{descending, rank_flows, Rank};
use crate::flow::{flow_after, idle_at, opened_flow, FlowState, FlowTableStats};
use crate::parser::FlowKey;
use vstd::prelude::*;

verus! {

/// The hash map of the `dashmap` crate.
#[verifier::external_type_specification]
#[verifier::external_body]
#[verifier::reject_recursive_types(K)]
#[verifier::reject_recursive_types(V)]
#[verifier::reject_recursive_types(S)]
pub struct ExDashMap<K, V, S>(dashmap::DashMap<K, V, S>);

/// The randomly keyed hasher of the `ahash` crate.
#[verifier::external_type_specification]
#[verifier::external_body]
pub struct ExRandomState(ahash::RandomState);

/// `ahash::RandomState::new` draws the keys of a hasher. Nothing is claimed of them.
pub assume_specification[ ahash::RandomState::new ]() -> (state: ahash::RandomState)
;

/// The hash map that holds the flows.
pub type FlowMap = dashmap::DashMap<FlowId, FlowState, ahash::RandomState>;

/// The entries of the hash map.
pub uninterp spec fn entries_of(
    map: dashmap::DashMap<FlowId, FlowState, ahash::RandomState>,
) -> Map<FlowId, FlowState>;

/// `dashmap::DashMap::with_capacity_and_hasher`: a map without entries. The capacity is
/// what it has room for at first; the bound keeps the size of that room, at under 512
/// bytes an entry, within what can be allocated.
#[verifier::external_body]
fn map_with_capacity(capacity: usize, hasher: ahash::RandomState) -> (map: FlowMap)
    requires
        capacity <= usize::MAX / 0x400,
    ensures
        entries_of(map) == (Map::<FlowId, FlowState>::empty()),
{
    dashmap::DashMap::with_capacity_and_hasher(capacity, hasher)
}

/// `dashmap::DashMap::insert`: sets the value of a key, whether or not it had one.
/// Where memory runs out the process aborts; it does not unwind.
#[verifier::external_body]
fn map_insert(map: &mut FlowMap, id: FlowId, state: FlowState)
    ensures
        entries_of(*final(map)) == entries_of(*old(map)).insert(id, state),
    no_unwind
{
    map.insert(id, state);
}

/// `dashmap::DashMap::get`: the value of a key, copied out of the guard.
#[verifier::external_body]
fn map_get(map: &FlowMap, id: &FlowId) -> (state: Option<FlowState>)
    ensures
        state == if entries_of(*map).contains_key(*id) {
            Some(entries_of(*map)[*id])
        } else {
            None
        },
{
    map.get(id).map(|entry| *entry.value())
}

/// `dashmap::DashMap::remove`: takes a key out and returns the value it had. It does not
/// unwind.
#[verifier::external_body]
fn map_remove(map: &mut FlowMap, id: &FlowId) -> (state: Option<FlowState>)
    ensures
        entries_of(*final(map)) == entries_of(*old(map)).remove(*id),
        state == if entries_of(*old(map)).contains_key(*id) {
            Some(entries_of(*old(map))[*id])
        } else {
            None
        },
    no_unwind
{
    map.remove(id).map(|entry| entry.1)
}

/// `dashmap::DashMap::len`: the number of entries.
#[verifier::external_body]
fn map_len(map: &FlowMap) -> (len: usize)
    ensures
        len == entries_of(*map).dom().len(),
{
    map.len()
}

/// `dashmap::DashMap::clear`: takes every entry out. It does not unwind.
#[verifier::external_body]
fn map_clear(map: &mut FlowMap)
    ensures
        entries_of(*final(map)) == (Map::<FlowId, FlowState>::empty()),
    no_unwind
{
    map.clear()
}

/// `dashmap::DashMap::iter`: each entry once, in an order that is not fixed.
#[verifier::external_body]
fn map_entries(map: &FlowMap) -> (entries: Vec<(FlowId, FlowState)>)
    ensures
        lists(entries@, entries_of(*map)),
{
    map.iter().map(|entry| (*entry.key(), *entry.value())).collect()
}

/// `dashmap::DashMap::try_reserve`: makes room, and keeps the entries whether or not it
/// could. It does not unwind.
#[verifier::external_body]
fn map_reserve(map: &mut FlowMap, additional: usize) -> (reserved: Result<
    (),
    dashmap::TryReserveError,
>)
    ensures
        entries_of(*final(map)) == entries_of(*old(map)),
    no_unwind
{
    map.try_reserve(additional)
}

/// The error of `dashmap::DashMap::try_reserve`.
#[verifier::external_type_specification]
#[verifier::external_body]
pub struct ExTryReserveError(dashmap::TryReserveError);

/// The 64-bit xxHash3 of some bytes.
pub uninterp spec fn xxh3(data: Seq<u8>) -> u64;

/// `xxhash_rust::xxh3::xxh3_64`: a hash that depends on the bytes alone.
#[verifier::external_body]
fn hash_bytes(data: &[u8]) -> (hash: u64)
    ensures
        hash == xxh3(data@),
{
    xxhash_rust::xxh3::xxh3_64(data)
}

/// Whether `entries` names each entry of `map` exactly once.
pub open spec fn lists<K, V>(entries: Seq<(K, V)>, map: Map<K, V>) -> bool {
    &&& forall|i: int|
        0 <= i < entries.len() ==> map.contains_key((#[trigger] entries[i]).0)
            && map[entries[i].0] == entries[i].1
    &&& forall|i: int, j: int| 0 <= i < j < entries.len() ==> entries[i].0 != entries[j].0
    &&& forall|key: K| #[trigger]
        map.contains_key(key) ==> exists|i: int| 0 <= i < entries.len() && entries[i].0 == key
}

/// A list of the entries of a map is as long as the map.
proof fn lists_len<K, V>(entries: Seq<(K, V)>, map: Map<K, V>)
    requires
        lists(entries, map),
    ensures
        map.dom().finite(),
        entries.len() == map.dom().len(),
{
    let keys = entries.map_values(|entry: (K, V)| entry.0);
    assert(keys.no_duplicates());
    keys.unique_seq_to_set();
    assert forall|key: K| map.dom().contains(key) implies keys.to_set().contains(key) by {
        let i = choose|i: int| 0 <= i < entries.len() && entries[i].0 == key;
        assert(keys[i] == key);
    }
    assert forall|key: K| keys.to_set().contains(key) implies map.dom().contains(key) by {
        let i = choose|i: int| 0 <= i < keys.len() && keys[i] == key;
        assert(map.contains_key(entries[i].0));
    }
    assert(keys.to_set() =~= map.dom());
}

/// A list of the entries of a map stays one when it is put into another order.
proof fn lists_reordered<K, V>(entries: Seq<(K, V)>, other: Seq<(K, V)>, map: Map<K, V>)
    requires
        lists(entries, map),
        other.to_multiset() == entries.to_multiset(),
    ensures
        lists(other, map),
{
    broadcast use vstd::seq_lib::group_to_multiset_ensures;

    assert(entries.no_duplicates());
    entries.lemma_multiset_has_no_duplicates();
    other.lemma_multiset_has_no_duplicates_conv();
    assert forall|i: int| 0 <= i < other.len() implies map.contains_key(
        (#[trigger] other[i]).0,
    ) && map[other[i].0] == other[i].1 && entries.contains(other[i]) by {
        assert(other.contains(other[i]));
        assert(other.to_multiset().count(other[i]) > 0);
        assert(entries.contains(other[i]));
    }
    assert forall|i: int, j: int| 0 <= i < j < other.len() implies other[i].0 != other[j].0 by {
        assert(entries.contains(other[i]) && entries.contains(other[j]));
        assert(other[i] != other[j]);
    }
    assert forall|key: K| #[trigger] map.contains_key(key) implies exists|i: int|
        0 <= i < other.len() && other[i].0 == key by {
        let i = choose|i: int| 0 <= i < entries.len() && entries[i].0 == key;
        assert(entries.contains(entries[i]));
        assert(other.to_multiset().count(entries[i]) > 0);
        assert(other.contains(entries[i]));
    }
}

/// The flows that the hash map holds, by their keys.
spec fn flows_in(entries: Map<FlowId, FlowState>) -> Map<FlowKey, FlowState> {
    Map::new(
        |key: FlowKey| entries.contains_key(flow_id(key)),
        |key: FlowKey| entries[flow_id(key)],
    )
}

/// Whether each entry of the hash map stands for a flow.
spec fn all_flows(entries: Map<FlowId, FlowState>) -> bool {
    forall|id: FlowId| #[trigger] entries.contains_key(id) ==> flow_id(key_with(id)) == id
}

proof fn flows_in_insert(entries: Map<FlowId, FlowState>, key: FlowKey, state: FlowState)
    ensures
        flows_in(entries.insert(flow_id(key), state)) == flows_in(entries).insert(key, state),
{
    broadcast use flow_id_roundtrip;

    assert(flows_in(entries.insert(flow_id(key), state)) =~= flows_in(entries).insert(key, state));
}

proof fn flows_in_remove(entries: Map<FlowId, FlowState>, key: FlowKey)
    ensures
        flows_in(entries.remove(flow_id(key))) == flows_in(entries).remove(key),
{
    broadcast use flow_id_roundtrip;

    assert(flows_in(entries.remove(flow_id(key))) =~= flows_in(entries).remove(key));
}

proof fn flows_in_len(entries: Map<FlowId, FlowState>)
    requires
        all_flows(entries),
        entries.dom().finite(),
    ensures
        flows_in(entries).dom().finite(),
        flows_in(entries).dom().len() == entries.dom().len(),
{
    broadcast use flow_id_roundtrip;

    let ids = entries.dom();
    let keys = flows_in(entries).dom();
    let decode = |id: FlowId| key_with(id);
    assert forall|key: FlowKey| keys.contains(key) implies ids.map(decode).contains(key) by {
        assert(ids.contains(flow_id(key)));
        assert(decode(flow_id(key)) == key);
    }
    assert forall|key: FlowKey| ids.map(decode).contains(key) implies keys.contains(key) by {
        let id = choose|id: FlowId| ids.contains(id) && key == decode(id);
        assert(entries.contains_key(id));
    }
    assert(ids.map(decode) =~= keys);
    assert forall|a: FlowId, b: FlowId|
        ids.contains(a) && ids.contains(b) && decode(a) == decode(b) implies a == b by {
        assert(entries.contains_key(a) && entries.contains_key(b));
    }
    vstd::set_lib::lemma_map_size(ids, keys, decode);
    ids.lemma_map_finite(decode);
}

/// What a flow table holds.
#[verifier::ext_equal]
pub struct FlowTableModel {
    /// The flows
    pub flows: Map<FlowKey, FlowState>,
    /// How many flows there may be
    pub capacity: usize,
    /// The share of the capacity, in percent, that the table is made to be filled to
    pub load_percent: usize,
    /// Packets counted in a flow
    pub total_packets: u64,
    /// Bytes counted in a flow
    pub total_bytes: u64,
    /// Flows expired so far
    pub expired_count: u64,
    /// Flows turned away
    pub collisions: u64,
}

/// A table without flows.
pub open spec fn empty_table(capacity: usize, load_percent: usize) -> FlowTableModel {
    FlowTableModel {
        flows: Map::empty(),
        capacity,
        load_percent,
        total_packets: 0,
        total_bytes: 0,
        expired_count: 0,
        collisions: 0,
    }
}

/// Whether a packet of the flow `key` would open a new flow in `table`.
pub open spec fn opens_flow(table: FlowTableModel, key: FlowKey) -> bool {
    !table.flows.contains_key(key) && table.flows.len() < table.capacity
}

/// `table` after a packet of the flow `key`. A flow that the table does not hold is
/// opened where there is room, and turned away where there is none.
pub open spec fn table_after(
    table: FlowTableModel,
    key: FlowKey,
    packet_len: usize,
    tcp_flags: u8,
    seq: Option<u32>,
    ack: Option<u32>,
    now_ns: u64,
) -> FlowTableModel {
    if table.flows.contains_key(key) || opens_flow(table, key) {
        let before = if table.flows.contains_key(key) {
            table.flows[key]
        } else {
            opened_flow(now_ns)
        };
        FlowTableModel {
            flows: table.flows.insert(
                key,
                flow_after(before, packet_len, tcp_flags, seq, ack, now_ns),
            ),
            total_packets: table.total_packets.wrapping_add(1),
            total_bytes: table.total_bytes.wrapping_add(packet_len as u64),
            ..table
        }
    } else {
        FlowTableModel { collisions: table.collisions.wrapping_add(1), ..table }
    }
}

/// The flows that are idle, or with `idle` false those that are not.
pub open spec fn flows_by_idleness(
    flows: Map<FlowKey, FlowState>,
    timeout_ns: u64,
    now_ns: u64,
    idle: bool,
) -> Map<FlowKey, FlowState> {
    Map::new(
        |key: FlowKey|
            flows.contains_key(key) && idle_at(flows[key], timeout_ns, now_ns) == idle,
        |key: FlowKey| flows[key],
    )
}

/// `table` once its idle flows, `expired` in number, are gone.
pub open spec fn table_without_idle(
    table: FlowTableModel,
    timeout_ns: u64,
    now_ns: u64,
    expired: nat,
) -> FlowTableModel {
    FlowTableModel {
        flows: flows_by_idleness(table.flows, timeout_ns, now_ns, false),
        expired_count: table.expired_count.wrapping_add(expired as u64),
        ..table
    }
}

/// The counters of `table`.
pub open spec fn table_stats(table: FlowTableModel) -> FlowTableStats {
    FlowTableStats {
        total_flows: table.flows.len() as u64,
        active_flows: table.flows.len() as u64,
        expired_flows: table.expired_count,
        total_packets: table.total_packets,
        total_bytes: table.total_bytes,
        collisions: table.collisions,
    }
}

/// Whether `top` is `n` flows with the highest rank, in descending order, or all of
/// them where there are no more than `n`.
pub open spec fn is_top(
    top: Seq<(FlowKey, FlowState)>,
    flows: Map<FlowKey, FlowState>,
    n: usize,
    by: Rank,
) -> bool {
    &&& top.len() == if n < flows.len() {
        n as nat
    } else {
        flows.len()
    }
    &&& forall|i: int|
        0 <= i < top.len() ==> flows.contains_key((#[trigger] top[i]).0) && flows[top[i].0]
            == top[i].1
    &&& forall|i: int, j: int| 0 <= i < j < top.len() ==> top[i].0 != top[j].0
    &&& descending(top, by)
    &&& forall|key: FlowKey, i: int|
        flows.contains_key(key) && 0 <= i < top.len() && by.of(flows[key]) > by.of(top[i].1)
            ==> exists|j: int| 0 <= j < i && #[trigger] top[j].0 == key
}

/// `flows` without those that `gone` names.
spec fn flows_without(
    flows: Map<FlowKey, FlowState>,
    gone: Seq<(FlowKey, FlowState)>,
) -> Map<FlowKey, FlowState> {
    Map::new(
        |key: FlowKey|
            flows.contains_key(key) && !names(gone, key),
        |key: FlowKey| flows[key],
    )
}

/// Whether `key` is among `entries`.
spec fn names(entries: Seq<(FlowKey, FlowState)>, key: FlowKey) -> bool {
    exists|i: int| 0 <= i < entries.len() && entries[i].0 == key
}

/// The entries of `flows` that are idle.
#[verifier::rlimit(40)]
fn idle_flows(
    flows: &Vec<(FlowKey, FlowState)>,
    timeout_ns: u64,
    now_ns: u64,
    Ghost(map): Ghost<Map<FlowKey, FlowState>>,
) -> (idle: Vec<(FlowKey, FlowState)>)
    requires
        lists(flows@, map),
    ensures
        lists(idle@, flows_by_idleness(map, timeout_ns, now_ns, true)),
{
    let mut idle: Vec<(FlowKey, FlowState)> = Vec::new();
    let ghost mut from: Seq<int> = Seq::empty();
    let mut i: usize = 0;
    while i < flows.len()
        invariant
            i <= flows@.len(),
            from.len() == idle@.len(),
            forall|j: int|
                0 <= j < idle@.len() ==> 0 <= (#[trigger] from[j]) < i && idle@[j]
                    == flows@[from[j]] && idle_at(idle@[j].1, timeout_ns, now_ns),
            forall|j: int, k: int| 0 <= j < k < from.len() ==> from[j] < from[k],
            forall|s: int|
                0 <= s < i && idle_at((#[trigger] flows@[s]).1, timeout_ns, now_ns)
                    ==> from.contains(s),
        decreases flows@.len() - i,
    {
        if flows[i].1.is_idle_at(timeout_ns, now_ns) {
            let ghost before = from;
            idle.push(flows[i]);
            proof {
                from = from.push(i as int);
                assert forall|j: int| 0 <= j < idle@.len() implies 0 <= (#[trigger] from[j]) < i + 1
                    && idle@[j] == flows@[from[j]] && idle_at(
                    idle@[j].1,
                    timeout_ns,
                    now_ns,
                ) by {
                    if j < before.len() {
                        assert(from[j] == before[j]);
                    }
                }
                assert forall|s: int|
                    0 <= s < i + 1 && idle_at((#[trigger] flows@[s]).1, timeout_ns, now_ns) implies
                    from.contains(s) by {
                    if s < i {
                        let j = choose|j: int| 0 <= j < before.len() && before[j] == s;
                        assert(from[j] == s);
                    } else {
                        assert(from[from.len() - 1] == s);
                    }
                }
            }
        }
        i = i + 1;
    }
    proof {
        let wanted = flows_by_idleness(map, timeout_ns, now_ns, true);
        assert forall|j: int| 0 <= j < idle@.len() implies wanted.contains_key(
            (#[trigger] idle@[j]).0,
        ) && wanted[idle@[j].0] == idle@[j].1 by {
            assert(map.contains_key(flows@[from[j]].0));
        }
        assert forall|j: int, k: int| 0 <= j < k < idle@.len() implies idle@[j].0
            != idle@[k].0 by {
            assert(from[j] < from[k]);
        }
        assert forall|key: FlowKey| #[trigger] wanted.contains_key(key) implies exists|j: int|
            0 <= j < idle@.len() && idle@[j].0 == key by {
            assert(map.contains_key(key));
            let s = choose|s: int| 0 <= s < flows@.len() && flows@[s].0 == key;
            assert(map.contains_key(flows@[s].0));
            assert(from.contains(s));
            let j = choose|j: int| 0 <= j < from.len() && from[j] == s;
            assert(idle@[j].0 == key);
        }
    }
    idle
}

/// The bytes that stand for `key` in its hash: the source address, its fifth byte
/// replaced by its version, the destination address, and the two ports.
pub open spec fn key_bytes(key: FlowKey) -> Seq<u8> {
    let version: u8 = if key.src_ip is V6 {
        6
    } else {
        4
    };
    crate::flow::id::addr_octets(key.src_ip)@.update(4, version)
        + crate::flow::id::addr_octets(key.dst_ip)@ + seq![
        (key.src_port / 0x100) as u8,
        (key.src_port % 0x100) as u8,
        (key.dst_port / 0x100) as u8,
        (key.dst_port % 0x100) as u8,
    ]
}

/// The bytes that stand for `key` in its hash.
pub fn flow_key_bytes(key: &FlowKey) -> (bytes: Vec<u8>)
    ensures
        bytes@ == key_bytes(*key),
{
    let id = encode_key(key);
    let mut bytes: Vec<u8> = Vec::with_capacity(36);
    let mut i: usize = 0;
    while i < 16
        invariant
            i <= 16,
            bytes@ == id.1@.take(i as int),
        decreases 16 - i,
    {
        bytes.push(id.1[i]);
        i = i + 1;
        assert(bytes@ =~= id.1@.take(i as int));
    }
    assert(id.1@.take(16) =~= id.1@);
    bytes.set(
        4,
        if id.0 {
            6
        } else {
            4
        },
    );
    let ghost source = bytes@;
    i = 0;
    while i < 16
        invariant
            i <= 16,
            bytes@ == source + id.3@.take(i as int),
        decreases 16 - i,
    {
        bytes.push(id.3[i]);
        i = i + 1;
        assert(bytes@ =~= source + id.3@.take(i as int));
    }
    bytes.push((id.4 / 0x100) as u8);
    bytes.push((id.4 % 0x100) as u8);
    bytes.push((id.5 / 0x100) as u8);
    bytes.push((id.5 % 0x100) as u8);
    assert(bytes@ =~= key_bytes(*key));
    bytes
}

/// A table of flows of bounded size.
pub struct FlowTable {
    map: FlowMap,
    capacity: usize,
    load_percent: usize,
    total_packets: u64,
    total_bytes: u64,
    expired_count: u64,
    collisions: u64,
}

impl View for FlowTable {
    type V = FlowTableModel;

    closed spec fn view(&self) -> FlowTableModel {
        FlowTableModel {
            flows: flows_in(entries_of(self.map)),
            capacity: self.capacity,
            load_percent: self.load_percent,
            total_packets: self.total_packets,
            total_bytes: self.total_bytes,
            expired_count: self.expired_count,
            collisions: self.collisions,
        }
    }
}

/// The share of its capacity, in percent, that a table is made to be filled to by
/// default.
pub const DEFAULT_LOAD_PERCENT: usize = 75;

impl FlowTable {
    #[verifier::type_invariant]
    closed spec fn well_formed(self) -> bool {
        &&& all_flows(entries_of(self.map))
        &&& entries_of(self.map).dom().finite()
        &&& entries_of(self.map).dom().len() <= self.capacity
    }

    /// A table for up to `capacity` flows.
    pub fn new(capacity: usize) -> (table: FlowTable)
        ensures
            table@ == empty_table(capacity, DEFAULT_LOAD_PERCENT),
    {
        let table = FlowTable {
            map: map_with_capacity(0, ahash::RandomState::new()),
            capacity,
            load_percent: DEFAULT_LOAD_PERCENT,
            total_packets: 0,
            total_bytes: 0,
            expired_count: 0,
            collisions: 0,
        };
        assert(table@ =~= empty_table(capacity, DEFAULT_LOAD_PERCENT));
        table
    }

    /// A table for up to `capacity` flows, with room from the start for `load_percent`
    /// percent of them, at least 10 and at most 95.
    pub fn with_load_factor(capacity: usize, load_percent: usize) -> (table: FlowTable)
        ensures
            table@ == empty_table(
                capacity,
                if load_percent < 10 {
                    10
                } else if load_percent > 95 {
                    95
                } else {
                    load_percent
                },
            ),
    {
        let load_percent: usize = if load_percent < 10 {
            10
        } else if load_percent > 95 {
            95
        } else {
            load_percent
        };
        assert(capacity * load_percent <= usize::MAX * 95) by (nonlinear_arith)
            requires
                0 <= capacity <= usize::MAX,
                0 <= load_percent <= 95,
        ;
        let wanted: u128 = capacity as u128 * load_percent as u128 / 100;
        let room: usize = if wanted < (usize::MAX / 0x400) as u128 {
            wanted as usize
        } else {
            usize::MAX / 0x400
        };
        let table = FlowTable {
            map: map_with_capacity(room, ahash::RandomState::new()),
            capacity,
            load_percent,
            total_packets: 0,
            total_bytes: 0,
            expired_count: 0,
            collisions: 0,
        };
        assert(table@ =~= empty_table(capacity, load_percent));
        table
    }

    /// The hash of a flow key.
    pub fn hash_key(&self, key: &FlowKey) -> (hash: u64)
        ensures
            hash == xxh3(key_bytes(*key)),
    {
        hash_bytes(flow_key_bytes(key).as_slice())
    }

    /// Counts a packet that arrives now. Returns whether it opened a new flow.
    pub fn insert_or_update(
        &mut self,
        key: FlowKey,
        packet_len: usize,
        tcp_flags: u8,
        seq: Option<u32>,
        ack: Option<u32>,
    ) -> (is_new: bool)
        ensures
            is_new == opens_flow(old(self)@, key),
            exists|now_ns: u64|
                final(self)@ == table_after(
                    old(self)@,
                    key,
                    packet_len,
                    tcp_flags,
                    seq,
                    ack,
                    now_ns,
                ),
    {
        self.insert_or_update_at(key, packet_len, tcp_flags, seq, ack, unix_nanos())
    }

    /// Counts a packet that arrives at `now_ns`. Returns whether it opened a new flow.
    pub fn insert_or_update_at(
        &mut self,
        key: FlowKey,
        packet_len: usize,
        tcp_flags: u8,
        seq: Option<u32>,
        ack: Option<u32>,
        now_ns: u64,
    ) -> (is_new: bool)
        ensures
            is_new == opens_flow(old(self)@, key),
            final(self)@ == table_after(
                old(self)@,
                key,
                packet_len,
                tcp_flags,
                seq,
                ack,
                now_ns,
            ),
    {
        broadcast use flow_id_roundtrip;

        proof {
            use_type_invariant(&*self);
            flows_in_len(entries_of(self.map));
        }
        let id = encode_key(&key);
        let (mut state, is_new) = match map_get(&self.map, &id) {
            Some(state) => (state, false),
            None => {
                if map_len(&self.map) >= self.capacity {
                    self.collisions = self.collisions.wrapping_add(1);
                    return false;
                }
                (FlowState::new_at(now_ns), true)
            },
        };
        state.update_at(packet_len, tcp_flags, seq, ack, now_ns);
        proof {
            flows_in_insert(entries_of(self.map), key, state);
        }
        map_insert(&mut self.map, id, state);
        self.total_packets = self.total_packets.wrapping_add(1);
        self.total_bytes = self.total_bytes.wrapping_add(packet_len as u64);
        is_new
    }

    /// The state of a flow, if the table holds it.
    pub fn get(&self, key: &FlowKey) -> (state: Option<FlowState>)
        ensures
            state == if self@.flows.contains_key(*key) {
                Some(self@.flows[*key])
            } else {
                None
            },
    {
        map_get(&self.map, &encode_key(key))
    }

    /// Takes a flow out of the table. Returns its state, if the table held it.
    pub fn remove(&mut self, key: &FlowKey) -> (state: Option<FlowState>)
        ensures
            final(self)@ == (FlowTableModel {
                flows: old(self)@.flows.remove(*key),
                ..old(self)@
            }),
            state == if old(self)@.flows.contains_key(*key) {
                Some(old(self)@.flows[*key])
            } else {
                None
            },
    {
        proof {
            use_type_invariant(&*self);
            flows_in_remove(entries_of(self.map), *key);
        }
        map_remove(&mut self.map, &encode_key(key))
    }

    /// The flows, each once, in an order that is not fixed.
    pub fn iter(&self) -> (flows: Vec<(FlowKey, FlowState)>)
        ensures
            lists(flows@, self@.flows),
    {
        broadcast use flow_id_roundtrip;

        proof {
            use_type_invariant(self);
        }
        let entries = map_entries(&self.map);
        let mut flows: Vec<(FlowKey, FlowState)> = Vec::with_capacity(entries.len());
        let mut i: usize = 0;
        while i < entries.len()
            invariant
                i <= entries@.len(),
                flows@.len() == i,
                forall|j: int|
                    0 <= j < i ==> (#[trigger] flows@[j]).0 == key_with(entries@[j].0)
                        && flows@[j].1 == entries@[j].1,
            decreases entries@.len() - i,
        {
            flows.push((decode_key(&entries[i].0), entries[i].1));
            i = i + 1;
        }
        proof {
            let map = entries_of(self.map);
            assert forall|j: int| 0 <= j < flows@.len() implies self@.flows.contains_key(
                (#[trigger] flows@[j]).0,
            ) && self@.flows[flows@[j].0] == flows@[j].1 && flow_id(flows@[j].0)
                == entries@[j].0 by {
                assert(map.contains_key(entries@[j].0));
            }
            assert forall|key: FlowKey| #[trigger] self@.flows.contains_key(key) implies exists|
                j: int,
            |
                0 <= j < flows@.len() && flows@[j].0 == key by {
                assert(map.contains_key(flow_id(key)));
                let j = choose|j: int| 0 <= j < entries@.len() && entries@[j].0 == flow_id(key);
                assert(flows@[j].0 == key);
            }
        }
        flows
    }

    /// Takes out the flows that have been idle for more than `timeout_ns` by now, and
    /// returns them.
    pub fn remove_expired(&mut self, timeout_ns: u64) -> (expired: Vec<(FlowKey, FlowState)>)
        ensures
            exists|now_ns: u64|
                {
                    &&& final(self)@ == #[trigger] table_without_idle(
                        old(self)@,
                        timeout_ns,
                        now_ns,
                        expired@.len(),
                    )
                    &&& lists(
                        expired@,
                        flows_by_idleness(old(self)@.flows, timeout_ns, now_ns, true),
                    )
                },
    {
        self.remove_expired_at(timeout_ns, unix_nanos())
    }

    /// Takes out the flows that have been idle for more than `timeout_ns` at `now_ns`,
    /// and returns them.
    #[verifier::rlimit(40)]
    pub fn remove_expired_at(&mut self, timeout_ns: u64, now_ns: u64) -> (expired: Vec<
        (FlowKey, FlowState),
    >)
        ensures
            final(self)@ == table_without_idle(old(self)@, timeout_ns, now_ns, expired@.len()),
            lists(expired@, flows_by_idleness(old(self)@.flows, timeout_ns, now_ns, true)),
    {
        let flows = self.iter();
        let expired = idle_flows(&flows, timeout_ns, now_ns, Ghost(self@.flows));
        let ghost before = self@;
        let mut i: usize = 0;
        while i < expired.len()
            invariant
                i <= expired@.len(),
                self@ == (FlowTableModel {
                    flows: flows_without(before.flows, expired@.take(i as int)),
                    expired_count: before.expired_count.wrapping_add(i as u64),
                    ..before
                }),
                lists(
                    expired@,
                    flows_by_idleness(before.flows, timeout_ns, now_ns, true),
                ),
            decreases expired@.len() - i,
        {
            let ghost held = self@.flows;
            let _ = self.remove(&expired[i].0);
            proof {
                use_type_invariant(&*self);
                let gone = expired@.take(i as int);
                let more = expired@.take(i + 1);
                assert forall|key: FlowKey| #[trigger]
                    names(more, key) == (key == expired@[i as int].0 || names(gone, key)) by {
                    if names(gone, key) {
                        let j = choose|j: int| 0 <= j < gone.len() && gone[j].0 == key;
                        assert(more[j].0 == key);
                    }
                    if key == expired@[i as int].0 {
                        assert(more[i as int].0 == key);
                    }
                    if names(more, key) {
                        let j = choose|j: int| 0 <= j < more.len() && more[j].0 == key;
                        assert(j < i ==> gone[j].0 == key);
                    }
                }
                assert(held.remove(expired@[i as int].0) =~= flows_without(before.flows, more));
            }
            self.expired_count = self.expired_count.wrapping_add(1);
            i = i + 1;
        }
        proof {
            let idle = flows_by_idleness(before.flows, timeout_ns, now_ns, true);
            assert(expired@.take(i as int) =~= expired@);
            assert forall|key: FlowKey| #[trigger] before.flows.contains_key(key) implies idle_at(
                before.flows[key],
                timeout_ns,
                now_ns,
            ) == names(expired@, key) by {
                assert(idle.contains_key(key) == idle_at(before.flows[key], timeout_ns, now_ns));
                if names(expired@, key) {
                    let j = choose|j: int| 0 <= j < expired@.len() && expired@[j].0 == key;
                    assert(idle.contains_key(expired@[j].0));
                }
            }
            assert(flows_without(before.flows, expired@) =~= flows_by_idleness(
                before.flows,
                timeout_ns,
                now_ns,
                false,
            ));
        }
        expired
    }

    /// How many flows there may be.
    pub fn capacity(&self) -> (capacity: usize)
        ensures
            capacity == self@.capacity,
    {
        self.capacity
    }

    /// The number of flows, which never exceeds the capacity.
    pub fn len(&self) -> (len: usize)
        ensures
            len == self@.flows.len(),
            len <= self@.capacity,
    {
        proof {
            use_type_invariant(self);
            flows_in_len(entries_of(self.map));
        }
        map_len(&self.map)
    }

    /// Whether there is no flow.
    pub fn is_empty(&self) -> (empty: bool)
        ensures
            empty == (self@.flows == Map::<FlowKey, FlowState>::empty()),
    {
        proof {
            use_type_invariant(self);
            flows_in_len(entries_of(self.map));
            if self@.flows.len() == 0 {
                self@.flows.dom().lemma_len0_is_empty();
                assert(self@.flows =~= Map::<FlowKey, FlowState>::empty());
            }
        }
        map_len(&self.map) == 0
    }

    /// Whether the table is at capacity, so that it turns new flows away.
    pub fn is_full(&self) -> (full: bool)
        ensures
            full == (self@.flows.len() >= self@.capacity),
    {
        self.len() >= self.capacity
    }

    /// The share of the capacity, in percent, that the table was made to be filled to.
    pub fn load_percent(&self) -> (percent: usize)
        ensures
            percent == self@.load_percent,
    {
        self.load_percent
    }

    /// The counters of the table.
    pub fn stats(&self) -> (stats: FlowTableStats)
        ensures
            stats == table_stats(self@),
    {
        let len: u64 = self.len() as u64;
        FlowTableStats {
            total_flows: len,
            active_flows: len,
            expired_flows: self.expired_count,
            total_packets: self.total_packets,
            total_bytes: self.total_bytes,
            collisions: self.collisions,
        }
    }

    /// The first `n` flows in descending order of `by`.
    fn top_n(&self, n: usize, by: Rank) -> (top: Vec<(FlowKey, FlowState)>)
        ensures
            is_top(top@, self@.flows, n, by),
    {
        let flows = self.iter();
        let mut ranked = rank_flows(flows, by);
        let ghost all = ranked@;
        proof {
            lists_reordered(flows@, all, self@.flows);
            lists_len(all, self@.flows);
        }
        if n < ranked.len() {
            ranked.truncate(n);
        }
        proof {
            let top = ranked@;
            assert forall|i: int| 0 <= i < top.len() implies self@.flows.contains_key(
                (#[trigger] top[i]).0,
            ) && self@.flows[top[i].0] == top[i].1 by {
                assert(self@.flows.contains_key(all[i].0));
            }
            assert forall|key: FlowKey, i: int|
                self@.flows.contains_key(key) && 0 <= i < top.len() && by.of(self@.flows[key])
                    > by.of(top[i].1) implies exists|j: int|
                0 <= j < i && #[trigger] top[j].0 == key by {
                let j = choose|j: int| 0 <= j < all.len() && all[j].0 == key;
                assert(self@.flows.contains_key(all[j].0));
                assert(top[j].0 == key);
            }
        }
        ranked
    }

    /// The `n` flows with the most bytes, in descending order.
    pub fn top_n_by_bytes(&self, n: usize) -> (top: Vec<(FlowKey, FlowState)>)
        ensures
            is_top(top@, self@.flows, n, Rank::Bytes),
    {
        self.top_n(n, Rank::Bytes)
    }

    /// The `n` flows with the most packets, in descending order.
    pub fn top_n_by_packets(&self, n: usize) -> (top: Vec<(FlowKey, FlowState)>)
        ensures
            is_top(top@, self@.flows, n, Rank::Packets),
    {
        self.top_n(n, Rank::Packets)
    }

    /// Takes every flow out of the table. The counters stay.
    pub fn clear(&mut self)
        ensures
            final(self)@ == (FlowTableModel { flows: Map::empty(), ..old(self)@ }),
    {
        proof {
            use_type_invariant(&*self);
        }
        map_clear(&mut self.map);
        assert(flows_in(entries_of(self.map)) =~= Map::empty());
    }

    /// Takes every flow out of the table and sets its counters to zero.
    pub fn reset(&mut self)
        ensures
            final(self)@ == empty_table(old(self)@.capacity, old(self)@.load_percent),
    {
        self.clear();
        proof {
            use_type_invariant(&*self);
        }
        self.total_packets = 0;
        self.total_bytes = 0;
        self.expired_count = 0;
        self.collisions = 0;
    }

    /// Makes room for `additional` more flows, as far as memory allows.
    pub fn reserve(&mut self, additional: usize)
        ensures
            final(self)@ == old(self)@,
    {
        proof {
            use_type_invariant(&*self);
        }
        let _ = map_reserve(&mut self.map, additional);
    }
}

impl Default for FlowTable {
    fn default() -> (table: FlowTable)
        ensures
            table@ == empty_table(1_048_576, DEFAULT_LOAD_PERCENT),
    {
        FlowTable::new(1_048_576)
    }
}

/// A packet of one flow leaves every other flow as it is.
pub proof fn other_flows_unchanged(
    table: FlowTableModel,
    key: FlowKey,
    other: FlowKey,
    packet_len: usize,
    tcp_flags: u8,
    seq: Option<u32>,
    ack: Option<u32>,
    now_ns: u64,
)
    requires
        other != key,
    ensures
        ({
            let after = table_after(table, key, packet_len, tcp_flags, seq, ack, now_ns);
            &&& after.flows.contains_key(other) == table.flows.contains_key(other)
            &&& table.flows.contains_key(other) ==> after.flows[other] == table.flows[other]
        }),
{
}

/// The packet that opens a flow is counted in it, and the next packet of the flow does
/// not open it again.
pub proof fn opened_flow_is_found(
    table: FlowTableModel,
    key: FlowKey,
    packet_len: usize,
    tcp_flags: u8,
    seq: Option<u32>,
    ack: Option<u32>,
    now_ns: u64,
)
    requires
        opens_flow(table, key),
    ensures
        ({
            let after = table_after(table, key, packet_len, tcp_flags, seq, ack, now_ns);
            &&& !opens_flow(after, key)
            &&& after.flows.contains_key(key)
            &&& after.flows[key].packet_count == 1
            &&& after.flows[key].byte_count == packet_len
            &&& after.flows[key].first_seen_ns == now_ns
            &&& after.flows[key].tcp_flags == tcp_flags
            &&& after.flows[key].initial_seq == seq
        }),
{
    assert(0u8 | tcp_flags == tcp_flags) by (bit_vector);
}

/// A table at capacity opens no flow, and one that is not opens each flow it does not
/// hold.
pub proof fn full_tables_open_no_flow(table: FlowTableModel, key: FlowKey)
    ensures
        table.flows.len() >= table.capacity ==> !opens_flow(table, key),
        table.flows.len() < table.capacity && !table.flows.contains_key(key) ==> opens_flow(
            table,
            key,
        ),
{
}

/// No packet makes a table hold more flows than its capacity.
pub proof fn capacity_is_kept(
    table: FlowTableModel,
    key: FlowKey,
    packet_len: usize,
    tcp_flags: u8,
    seq: Option<u32>,
    ack: Option<u32>,
    now_ns: u64,
)
    requires
        table.flows.dom().finite(),
        table.flows.len() <= table.capacity,
    ensures
        table_after(table, key, packet_len, tcp_flags, seq, ack, now_ns).flows.len()
            <= table.capacity,
{
}

/// A flow that was opened and removed again leaves the flows as they were.
pub proof fn remove_undoes_open(
    table: FlowTableModel,
    key: FlowKey,
    packet_len: usize,
    tcp_flags: u8,
    seq: Option<u32>,
    ack: Option<u32>,
    now_ns: u64,
)
    requires
        opens_flow(table, key),
    ensures
        table_after(table, key, packet_len, tcp_flags, seq, ack, now_ns).flows.remove(key)
            == table.flows,
{
    assert(table_after(table, key, packet_len, tcp_flags, seq, ack, now_ns).flows.remove(key)
        =~= table.flows);
}

/// Expiry splits the flows: each one is either expired or kept, with its state, and
/// none is both.
pub proof fn expiry_splits_the_flows(
    flows: Map<FlowKey, FlowState>,
    timeout_ns: u64,
    now_ns: u64,
)
    ensures
        flows_by_idleness(flows, timeout_ns, now_ns, true).union_prefer_right(
            flows_by_idleness(flows, timeout_ns, now_ns, false),
        ) == flows,
        flows_by_idleness(flows, timeout_ns, now_ns, true).dom().disjoint(
            flows_by_idleness(flows, timeout_ns, now_ns, false).dom(),
        ),
{
    assert(flows_by_idleness(flows, timeout_ns, now_ns, true).union_prefer_right(
        flows_by_idleness(flows, timeout_ns, now_ns, false),
    ) =~= flows);
}

/// Once the idle flows are gone, expiring again at the same time finds none.
pub proof fn expiry_is_complete(table: FlowTableModel, timeout_ns: u64, now_ns: u64, expired: nat)
    ensures
        flows_by_idleness(
            table_without_idle(table, timeout_ns, now_ns, expired).flows,
            timeout_ns,
            now_ns,
            true,
        ) == Map::<FlowKey, FlowState>::empty(),
{
    assert(flows_by_idleness(
        table_without_idle(table, timeout_ns, now_ns, expired).flows,
        timeout_ns,
        now_ns,
        true,
    ) =~= Map::<FlowKey, FlowState>::empty());
}

/// The bytes that a key is hashed by are always 36.
pub proof fn key_bytes_len(key: FlowKey)
    ensures
        key_bytes(key).len() == 36,
{
}

} // verus!
