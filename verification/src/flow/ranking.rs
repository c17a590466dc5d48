//! Flows in descending order of a counter.

use crate::flow::FlowState;
use crate::parser::FlowKey;
use vstd::prelude::*;

verus! {

/// The counter by which flows are ranked.
#[derive(Debug, Clone, Copy, PartialEq, Eq, Structural)]
pub enum Rank {
    /// Total bytes
    Bytes,
    /// Number of packets
    Packets,
}

impl Rank {
    /// The counter of `state`.
    pub open spec fn of(self, state: FlowState) -> u64 {
        match self {
            Rank::Bytes => state.byte_count,
            Rank::Packets => state.packet_count,
        }
    }

    fn value(self, state: &FlowState) -> (value: u64)
        ensures
            value == self.of(*state),
    {
        match self {
            Rank::Bytes => state.byte_count,
            Rank::Packets => state.packet_count,
        }
    }
}

/// Whether `entries` stand in descending order of `by`.
pub open spec fn descending(entries: Seq<(FlowKey, FlowState)>, by: Rank) -> bool {
    forall|i: int, j: int|
        0 <= i < j < entries.len() ==> by.of(entries[i].1) >= by.of(entries[j].1)
}

/// Merges two descending lists into one.
fn merge(left: Vec<(FlowKey, FlowState)>, right: Vec<(FlowKey, FlowState)>, by: Rank) -> (merged:
    Vec<(FlowKey, FlowState)>)
    requires
        descending(left@, by),
        descending(right@, by),
    ensures
        descending(merged@, by),
        merged@.to_multiset() == left@.to_multiset().add(right@.to_multiset()),
{
    broadcast use vstd::seq_lib::group_to_multiset_ensures;

    let mut merged: Vec<(FlowKey, FlowState)> = Vec::new();
    let mut i: usize = 0;
    let mut j: usize = 0;
    assert(left@.take(0) =~= Seq::empty());
    assert(right@.take(0) =~= Seq::empty());
    assert(merged@.to_multiset() =~= left@.take(0).to_multiset().add(right@.take(0).to_multiset()));
    while i < left.len() || j < right.len()
        invariant
            i <= left@.len(),
            j <= right@.len(),
            descending(left@, by),
            descending(right@, by),
            descending(merged@, by),
            merged@.to_multiset() == left@.take(i as int).to_multiset().add(
                right@.take(j as int).to_multiset(),
            ),
            forall|a: int, b: int|
                0 <= a < merged@.len() && i <= b < left@.len() ==> by.of(
                    (#[trigger] merged@[a]).1,
                ) >= by.of((#[trigger] left@[b]).1),
            forall|a: int, b: int|
                0 <= a < merged@.len() && j <= b < right@.len() ==> by.of(
                    (#[trigger] merged@[a]).1,
                ) >= by.of((#[trigger] right@[b]).1),
        decreases left@.len() - i + right@.len() - j,
    {
        let from_left = j >= right.len() || (i < left.len() && by.value(&left[i].1) >= by.value(
            &right[j].1,
        ));
        if from_left {
            let entry = left[i];
            assert(left@.take(i + 1) =~= left@.take(i as int).push(entry));
            proof {
                merged@.to_multiset_ensures();
                left@.take(i as int).to_multiset_ensures();
            }
            assert(merged@.push(entry).to_multiset() =~= left@.take(i + 1).to_multiset().add(
                right@.take(j as int).to_multiset(),
            ));
            merged.push(entry);
            i = i + 1;
        } else {
            let entry = right[j];
            assert(right@.take(j + 1) =~= right@.take(j as int).push(entry));
            proof {
                merged@.to_multiset_ensures();
                right@.take(j as int).to_multiset_ensures();
            }
            assert(merged@.push(entry).to_multiset() =~= left@.take(i as int).to_multiset().add(
                right@.take(j + 1).to_multiset(),
            ));
            merged.push(entry);
            j = j + 1;
        }
    }
    assert(left@.take(i as int) =~= left@);
    assert(right@.take(j as int) =~= right@);
    merged
}

/// Sorts `entries` in descending order of `by`.
pub(crate) fn rank_flows(mut entries: Vec<(FlowKey, FlowState)>, by: Rank) -> (ranked: Vec<
    (FlowKey, FlowState),
>)
    ensures
        descending(ranked@, by),
        ranked@.to_multiset() == entries@.to_multiset(),
    decreases entries@.len(),
{
    if entries.len() < 2 {
        return entries;
    }
    let middle: usize = entries.len() / 2;
    let ghost whole = entries@;
    let upper = entries.split_off(middle);
    assert(whole =~= entries@ + upper@);
    proof {
        vstd::seq_lib::lemma_multiset_commutative(entries@, upper@);
    }
    let left = rank_flows(entries, by);
    let right = rank_flows(upper, by);
    merge(left, right, by)
}

} // verus!
