//! A hierarchical timing wheel.
//!
//! Level 0 has 100 slots of 10 ms, level 1 has 60 slots of a second, and level 2 has 60
//! slots of a minute: about an hour in all. When a minute or a second starts, the timers of
//! its slot move to the levels below; a timer that lies more than an hour ahead moves to the
//! last slot within reach again. Each one expires at the tick it was scheduled for.

use crate::bytes::clamp_usize;
use crate::clock::elapsed_nanos;
use crate::flow::timer_laws::{placing_keeps_time, removing_keeps_time, running_keeps_time};
use crate::parser::FlowKey;
use vstd::prelude::*;

verus! {

/// Slots in level 0 (10 ms each)
pub const WHEEL_L0_SLOTS: usize = 100;

/// Slots in level 1 (1 s each)
pub const WHEEL_L1_SLOTS: usize = 60;

/// Slots in level 2 (1 min each)
pub const WHEEL_L2_SLOTS: usize = 60;

/// Flow keys in the small vector of the `smallvec` crate, the first four in place.
#[verifier::external_body]
#[derive(Debug)]
pub struct KeyList {
    keys: smallvec::SmallVec<[FlowKey; 4]>,
}

/// The keys of a list, in order.
pub uninterp spec fn keys_of(list: KeyList) -> Seq<FlowKey>;

impl KeyList {
    /// `smallvec::SmallVec::new`: an empty list.
    #[verifier::external_body]
    fn new() -> (list: KeyList)
        ensures
            keys_of(list) == Seq::<FlowKey>::empty(),
    {
        KeyList { keys: smallvec::SmallVec::new() }
    }

    /// `smallvec::SmallVec::push`: puts a key at the end.
    #[verifier::external_body]
    fn push(&mut self, key: FlowKey)
        ensures
            keys_of(*final(self)) == keys_of(*old(self)).push(key),
    {
        self.keys.push(key)
    }

    /// `smallvec::SmallVec::drain` over the whole range: takes out all keys and hands
    /// them over in order.
    #[verifier::external_body]
    fn drain(&mut self) -> (keys: Vec<FlowKey>)
        ensures
            keys@ == keys_of(*old(self)),
            keys_of(*final(self)) == Seq::<FlowKey>::empty(),
    {
        self.keys.drain(..).collect()
    }

    /// `smallvec::SmallVec::as_slice`: the keys in order.
    #[verifier::external_body]
    fn as_slice(&self) -> (keys: &[FlowKey])
        ensures
            keys@ == keys_of(*self),
    {
        self.keys.as_slice()
    }

    /// `smallvec::SmallVec::remove`: takes out the key at `index`, the later ones
    /// moving up.
    #[verifier::external_body]
    fn remove(&mut self, index: usize) -> (key: FlowKey)
        requires
            index < keys_of(*old(self)).len(),
        ensures
            key == keys_of(*old(self))[index as int],
            keys_of(*final(self)) == keys_of(*old(self)).remove(index as int),
    {
        self.keys.remove(index)
    }

    /// `smallvec::SmallVec::clear`: drops all keys.
    #[verifier::external_body]
    fn clear(&mut self)
        ensures
            keys_of(*final(self)) == Seq::<FlowKey>::empty(),
    {
        self.keys.clear()
    }
}

/// A slot of the wheel.
#[derive(Debug)]
pub struct WheelSlot {
    /// Flow keys scheduled for this slot
    pub keys: KeyList,
}

impl View for WheelSlot {
    type V = Seq<FlowKey>;

    open spec fn view(&self) -> Seq<FlowKey> {
        keys_of(self.keys)
    }
}

impl Default for WheelSlot {
    fn default() -> (slot: WheelSlot)
        ensures
            slot@ == Seq::<FlowKey>::empty(),
    {
        WheelSlot::new()
    }
}

impl WheelSlot {
    /// An empty slot.
    pub fn new() -> (slot: WheelSlot)
        ensures
            slot@ == Seq::<FlowKey>::empty(),
    {
        WheelSlot { keys: KeyList::new() }
    }

    /// Adds a key.
    pub fn push(&mut self, key: FlowKey)
        ensures
            final(self)@ == old(self)@.push(key),
    {
        self.keys.push(key);
    }

    /// Takes out all keys and returns them in order.
    pub fn drain(&mut self) -> (keys: Vec<FlowKey>)
        ensures
            keys@ == old(self)@,
            final(self)@ == Seq::<FlowKey>::empty(),
    {
        self.keys.drain()
    }

    /// Whether there is no key.
    pub fn is_empty(&self) -> (empty: bool)
        ensures
            empty == (self@.len() == 0),
    {
        self.keys.as_slice().len() == 0
    }

    /// The number of keys.
    pub fn len(&self) -> (len: usize)
        ensures
            len == self@.len(),
    {
        self.keys.as_slice().len()
    }

    /// The place of the first occurrence of `key`.
    fn position(&self, key: &FlowKey) -> (place: Option<usize>)
        ensures
            match place {
                Some(i) => i < self@.len() && self@.contains(*key) && self@.index_of_first(*key)
                    == Some(i as int),
                None => !self@.contains(*key),
            },
    {
        let keys = self.keys.as_slice();
        let mut i: usize = 0;
        while i < keys.len()
            invariant
                i <= keys@.len(),
                keys@ == self@,
                forall|j: int| 0 <= j < i ==> self@[j] != *key,
            decreases keys@.len() - i,
        {
            if keys[i] == *key {
                proof {
                    self@.index_of_first_ensures(*key);
                    assert(self@.contains(self@[i as int]));
                }
                return Some(i);
            }
            i = i + 1;
        }
        None
    }
}

/// A timer: the key it is for, and the tick at which it expires.
pub type Timer = (FlowKey, u64);

/// The keys of some timers.
pub open spec fn keys_in(timers: Seq<Timer>) -> Seq<FlowKey> {
    timers.map_values(|timer: Timer| timer.0)
}

/// The timers in a slot: their keys, and for each the tick at which it expires.
#[derive(Debug)]
struct TimerSlot {
    slot: WheelSlot,
    due: Vec<u64>,
}

impl View for TimerSlot {
    type V = Seq<Timer>;

    closed spec fn view(&self) -> Seq<Timer> {
        Seq::new(self.slot@.len(), |i: int| (self.slot@[i], self.due@[i]))
    }
}

impl TimerSlot {
    /// Whether each key has its tick.
    spec fn paired(self) -> bool {
        self.due@.len() == self.slot@.len()
    }

    fn new() -> (timers: TimerSlot)
        ensures
            timers.paired(),
            timers@ == Seq::<Timer>::empty(),
    {
        let timers = TimerSlot { slot: WheelSlot::new(), due: Vec::new() };
        assert(timers@ =~= Seq::empty());
        timers
    }

    fn push(&mut self, key: FlowKey, due: u64)
        requires
            old(self).paired(),
        ensures
            final(self).paired(),
            final(self)@ == old(self)@.push((key, due)),
    {
        self.slot.push(key);
        self.due.push(due);
        assert(self@ =~= old(self)@.push((key, due)));
    }

    fn drain(&mut self) -> (timers: Vec<Timer>)
        requires
            old(self).paired(),
        ensures
            final(self).paired(),
            timers@ == old(self)@,
            final(self)@ == Seq::<Timer>::empty(),
    {
        let keys = self.slot.drain();
        let mut timers: Vec<Timer> = Vec::with_capacity(keys.len());
        let mut i: usize = 0;
        while i < keys.len()
            invariant
                i <= keys@.len(),
                keys@ == old(self).slot@,
                self.due@ == old(self).due@,
                self.due@.len() == keys@.len(),
                timers@ == old(self)@.take(i as int),
            decreases keys@.len() - i,
        {
            timers.push((keys[i], self.due[i]));
            i = i + 1;
            assert(timers@ =~= old(self)@.take(i as int));
        }
        self.due.clear();
        assert(timers@ =~= old(self)@);
        timers
    }

    fn remove(&mut self, i: usize)
        requires
            old(self).paired(),
            i < old(self)@.len(),
        ensures
            final(self).paired(),
            final(self)@ == old(self)@.remove(i as int),
    {
        let _ = self.slot.keys.remove(i);
        let _ = self.due.remove(i);
        assert(self@ =~= old(self)@.remove(i as int));
    }

    fn clear(&mut self)
        ensures
            final(self).paired(),
            final(self)@ == Seq::<Timer>::empty(),
    {
        self.slot.keys.clear();
        self.due.clear();
        assert(self@ =~= Seq::empty());
    }
}

/// The timers in the slots of a level.
closed spec fn level_timers(level: Seq<TimerSlot>) -> Seq<Seq<Timer>> {
    level.map_values(|slot: TimerSlot| slot@)
}

/// Whether each key in the slots of a level has its tick.
closed spec fn level_paired(level: Seq<TimerSlot>) -> bool {
    forall|i: int| 0 <= i < level.len() ==> (#[trigger] level[i]).paired()
}

/// The timers of a wheel: for each level, those in each of its slots.
#[verifier::ext_equal]
pub struct Levels {
    pub l0: Seq<Seq<Timer>>,
    pub l1: Seq<Seq<Timer>>,
    pub l2: Seq<Seq<Timer>>,
}

impl Levels {
    /// Whether each level has its number of slots.
    pub open spec fn well_formed(self) -> bool {
        &&& self.l0.len() == WHEEL_L0_SLOTS
        &&& self.l1.len() == WHEEL_L1_SLOTS
        &&& self.l2.len() == WHEEL_L2_SLOTS
    }
}

/// What a wheel holds.
#[verifier::ext_equal]
pub struct WheelModel {
    /// The timers
    pub levels: Levels,
    /// The next tick to process
    pub current_tick: u64,
    /// Timers ever scheduled
    pub scheduled_count: u64,
    /// Timers ever expired
    pub expired_count: u64,
}

impl WheelModel {
    /// Whether each level has its number of slots, and each timer lies where the wheel
    /// comes by in time.
    pub open spec fn well_formed(self) -> bool {
        self.levels.well_formed() && on_time(self.levels, self.current_tick as int)
    }
}

/// A level of `slots` empty slots.
pub open spec fn empty_level(slots: nat) -> Seq<Seq<Timer>> {
    Seq::new(slots, |i: int| Seq::empty())
}

/// Levels without a timer.
pub open spec fn empty_levels() -> Levels {
    Levels { l0: empty_level(100), l1: empty_level(60), l2: empty_level(60) }
}

/// The number of ticks of 10 ms that cover `ms` milliseconds.
pub open spec fn ticks_in(ms: u64) -> u64 {
    (ms / 10 + if ms % 10 == 0 {
        0int
    } else {
        1
    }) as u64
}

/// The tick that lies `delay` ticks after `tick`, or the last one that can be counted.
pub open spec fn tick_after(tick: u64, delay: u64) -> u64 {
    if tick + delay > u64::MAX {
        u64::MAX
    } else {
        (tick + delay) as u64
    }
}

/// `level` with `timer` added to the slot `slot`.
pub open spec fn push_timer(level: Seq<Seq<Timer>>, slot: int, timer: Timer) -> Seq<Seq<Timer>> {
    level.update(slot, level[slot].push(timer))
}

/// The minute in which a timer in level 2 is looked at again: its own, or as late as the
/// level reaches.
pub open spec fn minute_for(tick: u64, due: u64) -> int {
    if due as int / 6000 < tick as int / 6000 + 59 {
        due as int / 6000
    } else {
        tick as int / 6000 + 59
    }
}

/// `levels` with `timer` put in its place when `tick` is the next to process: into level 0
/// within a second, into level 1 within a minute, else into level 2.
pub open spec fn placed(levels: Levels, tick: u64, timer: Timer) -> Levels {
    let due = timer.1 as int;
    if due - tick < 100 {
        Levels { l0: push_timer(levels.l0, due % 100, timer), ..levels }
    } else if due - tick < 6000 {
        Levels { l1: push_timer(levels.l1, (due / 100) % 60, timer), ..levels }
    } else {
        Levels {
            l2: push_timer(levels.l2, minute_for(tick, timer.1) % 60, timer),
            ..levels
        }
    }
}

/// `levels` with all of `timers` put in their places, in order.
pub open spec fn all_placed(levels: Levels, tick: u64, timers: Seq<Timer>) -> Levels
    decreases timers.len(),
{
    if timers.len() == 0 {
        levels
    } else {
        placed(all_placed(levels, tick, timers.drop_last()), tick, timers.last())
    }
}

/// `levels` once the slot of level 2 whose minute starts at `tick` is spread over the
/// levels.
pub open spec fn minute_spread(levels: Levels, tick: u64) -> Levels {
    let slot = (tick as int / 6000) % 60;
    if tick % 6000 == 0 {
        all_placed(
            Levels { l2: levels.l2.update(slot, Seq::empty()), ..levels },
            tick,
            levels.l2[slot],
        )
    } else {
        levels
    }
}

/// `levels` once the slot of level 1 whose second starts at `tick` is spread over the
/// levels.
pub open spec fn second_spread(levels: Levels, tick: u64) -> Levels {
    let slot = (tick as int / 100) % 60;
    if tick % 100 == 0 {
        all_placed(
            Levels { l1: levels.l1.update(slot, Seq::empty()), ..levels },
            tick,
            levels.l1[slot],
        )
    } else {
        levels
    }
}

/// What processing `tick` does: the levels after it and the timers that expire, in order.
/// A minute or second that starts is spread over the levels below; then the tick's own slot
/// of level 0 expires.
pub open spec fn step(levels: Levels, tick: u64) -> (Levels, Seq<Timer>) {
    let spread = second_spread(minute_spread(levels, tick), tick);
    let slot = tick as int % 100;
    (Levels { l0: spread.l0.update(slot, Seq::empty()), ..spread }, spread.l0[slot])
}

/// What processing `n` ticks from `tick` on does.
pub open spec fn run(levels: Levels, tick: u64, n: nat) -> (Levels, Seq<Timer>)
    decreases n,
{
    if n == 0 {
        (levels, Seq::empty())
    } else {
        let before = run(levels, tick, (n - 1) as nat);
        let after = step(before.0, (tick + n - 1) as u64);
        (after.0, before.1 + after.1)
    }
}

/// The first number from `from` on that leaves the remainder `slot` by 60.
pub open spec fn next_in_slot(from: int, slot: int) -> int {
    from + (slot - from % 60) % 60
}

/// Whether each timer of level 0 expires when its slot comes by next, from `tick` on.
pub open spec fn on_time_l0(l0: Seq<Seq<Timer>>, tick: int) -> bool {
    forall|s: int, i: int|
        0 <= s < l0.len() && 0 <= i < l0[s].len() ==> tick <= (#[trigger] l0[s][i]).1 < tick + 100
            && l0[s][i].1 % 100 == s
}

/// Whether each timer of level 1 is spread in the second in which it expires.
pub open spec fn on_time_l1(l1: Seq<Seq<Timer>>, tick: int) -> bool {
    forall|s: int, i: int|
        0 <= s < l1.len() && 0 <= i < l1[s].len() ==> {
            let second = (#[trigger] l1[s][i]).1 as int / 100;
            second % 60 == s && tick <= 100 * second < tick + 6000
        }
}

/// Whether each timer of level 2 is looked at again before it expires.
pub open spec fn on_time_l2(l2: Seq<Seq<Timer>>, tick: int) -> bool {
    forall|s: int, i: int|
        0 <= s < l2.len() && 0 <= i < l2[s].len() ==> 6000 * next_in_slot(
            (tick + 5999) / 6000,
            s,
        ) <= (#[trigger] l2[s][i]).1
}

/// Whether each timer lies where the wheel comes by in time, `tick` being the next to
/// process.
pub open spec fn on_time(levels: Levels, tick: int) -> bool {
    &&& on_time_l0(levels.l0, tick)
    &&& on_time_l1(levels.l1, tick)
    &&& on_time_l2(levels.l2, tick)
}

/// Whether some slot of `level` holds a timer for `key`.
pub open spec fn level_has(level: Seq<Seq<Timer>>, key: FlowKey) -> bool {
    exists|i: int| 0 <= i < level.len() && keys_in(#[trigger] level[i]).contains(key)
}

/// Whether the wheel holds a timer for `key`.
pub open spec fn is_pending(levels: Levels, key: FlowKey) -> bool {
    level_has(levels.l0, key) || level_has(levels.l1, key) || level_has(levels.l2, key)
}

/// The timers of a slot without the first one for `key`.
pub open spec fn slot_without(timers: Seq<Timer>, key: FlowKey) -> Seq<Timer> {
    match keys_in(timers).index_of_first(key) {
        Some(i) => timers.remove(i),
        None => timers,
    }
}

/// `level` without the first timer for `key` from slot `from` on.
pub open spec fn level_without(level: Seq<Seq<Timer>>, from: int, key: FlowKey) -> Seq<Seq<Timer>>
    decreases level.len() - from,
{
    if from < 0 || from >= level.len() {
        level
    } else if keys_in(level[from]).contains(key) {
        level.update(from, slot_without(level[from], key))
    } else {
        level_without(level, from + 1, key)
    }
}

/// `levels` without the first timer for `key`.
pub open spec fn without_timer(levels: Levels, key: FlowKey) -> Levels {
    if level_has(levels.l0, key) {
        Levels { l0: level_without(levels.l0, 0, key), ..levels }
    } else if level_has(levels.l1, key) {
        Levels { l1: level_without(levels.l1, 0, key), ..levels }
    } else {
        Levels { l2: level_without(levels.l2, 0, key), ..levels }
    }
}

/// The number of timers in a level.
pub open spec fn level_count(level: Seq<Seq<Timer>>) -> int
    decreases level.len(),
{
    if level.len() == 0 {
        0
    } else {
        level_count(level.drop_last()) + level.last().len()
    }
}

/// The number of timers.
pub open spec fn pending(levels: Levels) -> int {
    level_count(levels.l0) + level_count(levels.l1) + level_count(levels.l2)
}

/// A level of `slots` empty slots.
fn new_level(slots: usize) -> (level: Vec<TimerSlot>)
    ensures
        level_paired(level@),
        level@.len() == slots,
        level_timers(level@) == empty_level(slots as nat),
{
    let mut level: Vec<TimerSlot> = Vec::with_capacity(slots);
    let mut i: usize = 0;
    while i < slots
        invariant
            i <= slots,
            level@.len() == i,
            level_paired(level@),
            forall|j: int| 0 <= j < i ==> (#[trigger] level@[j])@ == Seq::<Timer>::empty(),
        decreases slots - i,
    {
        level.push(TimerSlot::new());
        i = i + 1;
    }
    assert(level_timers(level@) =~= empty_level(slots as nat));
    level
}

/// Adds a timer to the slot `slot` of `level`.
fn push_at(level: &mut Vec<TimerSlot>, slot: usize, key: FlowKey, due: u64)
    requires
        slot < old(level)@.len(),
        level_paired(old(level)@),
    ensures
        level_paired(final(level)@),
        final(level)@.len() == old(level)@.len(),
        level_timers(final(level)@) == push_timer(
            level_timers(old(level)@),
            slot as int,
            (key, due),
        ),
{
    level[slot].push(key, due);
    assert(level_timers(level@) =~= push_timer(
        level_timers(old(level)@),
        slot as int,
        (key, due),
    ));
}

/// Takes out the timers of the slot `slot` of `level`.
fn drain_at(level: &mut Vec<TimerSlot>, slot: usize) -> (timers: Vec<Timer>)
    requires
        slot < old(level)@.len(),
        level_paired(old(level)@),
    ensures
        level_paired(final(level)@),
        final(level)@.len() == old(level)@.len(),
        timers@ == level_timers(old(level)@)[slot as int],
        level_timers(final(level)@) == level_timers(old(level)@).update(slot as int, Seq::empty()),
{
    let timers = level[slot].drain();
    assert(level_timers(level@) =~= level_timers(old(level)@).update(slot as int, Seq::empty()));
    timers
}

/// The slot and the place in it of the first timer for `key` in `level`.
fn find_in(level: &Vec<TimerSlot>, key: &FlowKey) -> (place: Option<(usize, usize)>)
    ensures
        match place {
            Some((slot, i)) => {
                &&& slot < level@.len()
                &&& i < level@[slot as int]@.len()
                &&& level_has(level_timers(level@), *key)
                &&& level_without(level_timers(level@), 0, *key) == level_timers(level@).update(
                    slot as int,
                    level_timers(level@)[slot as int].remove(i as int),
                )
            },
            None => !level_has(level_timers(level@), *key),
        },
{
    let ghost timers = level_timers(level@);
    let mut slot: usize = 0;
    while slot < level.len()
        invariant
            slot <= level@.len(),
            timers == level_timers(level@),
            forall|j: int| 0 <= j < slot ==> !keys_in(#[trigger] timers[j]).contains(*key),
            level_without(timers, 0, *key) == level_without(timers, slot as int, *key),
        decreases level@.len() - slot,
    {
        assert(timers[slot as int] == level@[slot as int]@);
        assert(keys_in(timers[slot as int]) =~= level@[slot as int].slot@);
        if let Some(i) = level[slot].slot.position(key) {
            return Some((slot, i));
        }
        slot = slot + 1;
    }
    None
}

/// Removes the timer at the place `i` of the slot `slot` of `level`.
fn remove_at(level: &mut Vec<TimerSlot>, slot: usize, i: usize)
    requires
        slot < old(level)@.len(),
        i < old(level)@[slot as int]@.len(),
        level_paired(old(level)@),
    ensures
        level_paired(final(level)@),
        final(level)@.len() == old(level)@.len(),
        level_timers(final(level)@) == level_timers(old(level)@).update(
            slot as int,
            level_timers(old(level)@)[slot as int].remove(i as int),
        ),
{
    level[slot].remove(i);
    assert(level_timers(level@) =~= level_timers(old(level)@).update(
        slot as int,
        level_timers(old(level)@)[slot as int].remove(i as int),
    ));
}

/// The number of timers in `level`, or the largest number where there are more.
fn count_timers(level: &Vec<TimerSlot>) -> (count: usize)
    ensures
        count == clamp_usize(level_count(level_timers(level@))),
{
    let mut count: usize = 0;
    let mut i: usize = 0;
    let ghost timers = level_timers(level@);
    while i < level.len()
        invariant
            i <= level@.len(),
            timers == level_timers(level@),
            count == clamp_usize(level_count(timers.take(i as int))),
            level_count(timers.take(i as int)) >= 0,
        decreases level@.len() - i,
    {
        count = count.saturating_add(level[i].slot.len());
        i = i + 1;
        assert(timers.take(i as int).drop_last() =~= timers.take(i - 1));
    }
    assert(timers.take(i as int) =~= timers);
    count
}

/// Drops all timers of `level`.
fn clear_level(level: &mut Vec<TimerSlot>)
    ensures
        level_paired(final(level)@),
        final(level)@.len() == old(level)@.len(),
        level_timers(final(level)@) == empty_level(old(level)@.len()),
{
    let mut i: usize = 0;
    while i < level.len()
        invariant
            i <= level@.len(),
            level@.len() == old(level)@.len(),
            forall|j: int|
                0 <= j < i ==> (#[trigger] level@[j]).paired() && level@[j]@ == Seq::<
                    Timer,
                >::empty(),
        decreases level@.len() - i,
    {
        level[i].clear();
        i = i + 1;
    }
    assert(level_timers(level@) =~= empty_level(old(level)@.len()));
}

/// The number of ticks of 10 ms that cover `ms` milliseconds.
fn ticks_of(ms: u64) -> (ticks: u64)
    ensures
        ticks == ticks_in(ms),
{
    if ms % 10 == 0 {
        ms / 10
    } else {
        ms / 10 + 1
    }
}

/// A timing wheel.
pub struct TimingWheel {
    l0: Vec<TimerSlot>,
    l1: Vec<TimerSlot>,
    l2: Vec<TimerSlot>,
    current_tick: u64,
    start_time: std::time::Instant,
    scheduled_count: u64,
    expired_count: u64,
}

impl View for TimingWheel {
    type V = WheelModel;

    closed spec fn view(&self) -> WheelModel {
        WheelModel {
            levels: Levels {
                l0: level_timers(self.l0@),
                l1: level_timers(self.l1@),
                l2: level_timers(self.l2@),
            },
            current_tick: self.current_tick,
            scheduled_count: self.scheduled_count,
            expired_count: self.expired_count,
        }
    }
}

/// A wheel without timers, at tick 0.
pub open spec fn new_wheel() -> WheelModel {
    WheelModel {
        levels: empty_levels(),
        current_tick: 0,
        scheduled_count: 0,
        expired_count: 0,
    }
}

impl Default for TimingWheel {
    fn default() -> (wheel: TimingWheel)
        ensures
            wheel.well_formed(),
            wheel@ == new_wheel(),
    {
        TimingWheel::new()
    }
}

impl TimingWheel {
    /// Whether each level has its number of slots, and each key in them its tick.
    pub closed spec fn slots_paired(&self) -> bool {
        &&& self.l0@.len() == WHEEL_L0_SLOTS
        &&& self.l1@.len() == WHEEL_L1_SLOTS
        &&& self.l2@.len() == WHEEL_L2_SLOTS
        &&& level_paired(self.l0@)
        &&& level_paired(self.l1@)
        &&& level_paired(self.l2@)
    }

    /// Whether the wheel is in order. Every wheel is: no function leaves it otherwise.
    pub open spec fn well_formed(&self) -> bool {
        self.slots_paired() && self@.well_formed()
    }

    /// A wheel without timers, at tick 0.
    pub fn new() -> (wheel: TimingWheel)
        ensures
            wheel.well_formed(),
            wheel@ == new_wheel(),
    {
        TimingWheel {
            l0: new_level(WHEEL_L0_SLOTS),
            l1: new_level(WHEEL_L1_SLOTS),
            l2: new_level(WHEEL_L2_SLOTS),
            current_tick: 0,
            start_time: std::time::Instant::now(),
            scheduled_count: 0,
            expired_count: 0,
        }
    }

    /// The next tick to process.
    pub fn current_tick(&self) -> (tick: u64)
        ensures
            tick == self@.current_tick,
    {
        self.current_tick
    }

    /// Puts a timer in its place when `tick` is the next to process.
    fn place(&mut self, tick: u64, key: FlowKey, due: u64)
        requires
            old(self).slots_paired(),
        ensures
            final(self).slots_paired(),
            final(self)@ == (WheelModel {
                levels: placed(old(self)@.levels, tick, (key, due)),
                ..old(self)@
            }),
    {
        if due < tick || due - tick < 100 {
            push_at(&mut self.l0, (due % 100) as usize, key, due);
        } else if due - tick < 6000 {
            push_at(&mut self.l1, ((due / 100) % 60) as usize, key, due);
        } else {
            let minute: u64 = if due / 6000 < tick / 6000 + 59 {
                due / 6000
            } else {
                tick / 6000 + 59
            };
            push_at(&mut self.l2, (minute % 60) as usize, key, due);
        }
    }

    /// Puts all of `timers` in their places, in order.
    fn place_all(&mut self, tick: u64, timers: &Vec<Timer>)
        requires
            old(self).slots_paired(),
        ensures
            final(self).slots_paired(),
            final(self)@ == (WheelModel {
                levels: all_placed(old(self)@.levels, tick, timers@),
                ..old(self)@
            }),
    {
        let mut i: usize = 0;
        assert(timers@.take(0) =~= Seq::empty());
        while i < timers.len()
            invariant
                i <= timers@.len(),
                self.slots_paired(),
                self@ == (WheelModel {
                    levels: all_placed(old(self)@.levels, tick, timers@.take(i as int)),
                    ..old(self)@
                }),
            decreases timers@.len() - i,
        {
            self.place(tick, timers[i].0, timers[i].1);
            i = i + 1;
            assert(timers@.take(i as int).drop_last() =~= timers@.take(i - 1));
        }
        assert(timers@.take(i as int) =~= timers@);
    }

    /// Schedules `key` to expire after `delay_ms` milliseconds. Returns true.
    pub fn schedule(&mut self, key: FlowKey, delay_ms: u64) -> (scheduled: bool)
        requires
            old(self).well_formed(),
        ensures
            scheduled,
            final(self).well_formed(),
            final(self)@ == (WheelModel {
                levels: placed(
                    old(self)@.levels,
                    old(self)@.current_tick,
                    (key, tick_after(old(self)@.current_tick, ticks_in(delay_ms))),
                ),
                scheduled_count: old(self)@.scheduled_count.wrapping_add(1),
                ..old(self)@
            }),
    {
        let tick: u64 = self.current_tick;
        let due: u64 = tick.saturating_add(ticks_of(delay_ms));
        proof {
            placing_keeps_time(self@.levels, tick, (key, due));
        }
        self.place(tick, key, due);
        self.scheduled_count = self.scheduled_count.wrapping_add(1);
        true
    }

    /// Processes `tick`, adding the keys that expire to `expired`.
    fn process_tick(&mut self, tick: u64, expired: &mut Vec<FlowKey>)
        requires
            old(self).slots_paired(),
        ensures
            final(self).slots_paired(),
            final(self)@ == (WheelModel {
                levels: step(old(self)@.levels, tick).0,
                ..old(self)@
            }),
            final(expired)@ == old(expired)@ + keys_in(step(old(self)@.levels, tick).1),
    {
        if tick % 6000 == 0 {
            let timers = drain_at(&mut self.l2, ((tick / 6000) % 60) as usize);
            self.place_all(tick, &timers);
        }
        assert(self@.levels == minute_spread(old(self)@.levels, tick));
        if tick % 100 == 0 {
            let timers = drain_at(&mut self.l1, ((tick / 100) % 60) as usize);
            self.place_all(tick, &timers);
        }
        assert(self@.levels == second_spread(minute_spread(old(self)@.levels, tick), tick));
        let due = drain_at(&mut self.l0, (tick % 100) as usize);
        assert(due@ == step(old(self)@.levels, tick).1);
        let mut i: usize = 0;
        let ghost keys = keys_in(due@);
        assert(expired@ =~= old(expired)@ + keys.take(0));
        while i < due.len()
            invariant
                i <= due@.len(),
                keys == keys_in(due@),
                expired@ == old(expired)@ + keys.take(i as int),
            decreases due@.len() - i,
        {
            expired.push(due[i].0);
            i = i + 1;
            assert(expired@ =~= old(expired)@ + keys.take(i as int));
        }
        assert(keys.take(i as int) =~= keys);
    }

    /// Advances the wheel by `elapsed_ms` milliseconds. Returns the keys of the timers that
    /// expire, in order.
    pub fn tick(&mut self, elapsed_ms: u64) -> (expired: Vec<FlowKey>)
        requires
            old(self).well_formed(),
        ensures
            final(self).well_formed(),
            ({
                let end = tick_after(old(self)@.current_tick, ticks_in(elapsed_ms));
                let done = run(
                    old(self)@.levels,
                    old(self)@.current_tick,
                    (end - old(self)@.current_tick) as nat,
                );
                &&& expired@ == keys_in(done.1)
                &&& final(self)@ == (WheelModel {
                    levels: done.0,
                    current_tick: end,
                    expired_count: old(self)@.expired_count.wrapping_add(done.1.len() as u64),
                    ..old(self)@
                })
            }),
    {
        let mut expired: Vec<FlowKey> = Vec::new();
        let start: u64 = self.current_tick;
        let ticks: u64 = start.saturating_add(ticks_of(elapsed_ms)) - start;
        let ghost levels = self@.levels;
        let mut i: u64 = 0;
        assert(keys_in(Seq::empty()) =~= Seq::empty());
        while i < ticks
            invariant
                i <= ticks,
                start + ticks <= u64::MAX,
                self.slots_paired(),
                self@ == (WheelModel { levels: run(levels, start, i as nat).0, ..old(self)@ }),
                expired@ == keys_in(run(levels, start, i as nat).1),
            decreases ticks - i,
        {
            self.process_tick(start + i, &mut expired);
            proof {
                let before = run(levels, start, i as nat);
                let now = step(before.0, (start + i) as u64).1;
                assert(keys_in(before.1) + keys_in(now) =~= keys_in(before.1 + now));
            }
            i = i + 1;
        }
        proof {
            running_keeps_time(levels, start, ticks as nat);
        }
        self.current_tick = start + ticks;
        self.expired_count = self.expired_count.wrapping_add(expired.len() as u64);
        expired
    }

    /// Removes the first timer for `key`. Returns whether there was one.
    pub fn cancel(&mut self, key: &FlowKey) -> (found: bool)
        requires
            old(self).well_formed(),
        ensures
            final(self).well_formed(),
            found == is_pending(old(self)@.levels, *key),
            final(self)@ == (WheelModel {
                levels: without_timer(old(self)@.levels, *key),
                ..old(self)@
            }),
    {
        proof {
            level_without_absent(self@.levels.l2, 0, *key);
            removing_keeps_time(self@.levels, self.current_tick as int, *key);
        }
        if let Some((slot, i)) = find_in(&self.l0, key) {
            remove_at(&mut self.l0, slot, i);
            return true;
        }
        if let Some((slot, i)) = find_in(&self.l1, key) {
            remove_at(&mut self.l1, slot, i);
            return true;
        }
        if let Some((slot, i)) = find_in(&self.l2, key) {
            remove_at(&mut self.l2, slot, i);
            return true;
        }
        false
    }

    /// The counters of the wheel.
    pub fn stats(&self) -> (stats: TimingWheelStats)
        ensures
            stats == wheel_stats(self@, stats.uptime_ms),
    {
        self.stats_at(elapsed_nanos(&self.start_time) / 1_000_000)
    }

    /// The counters of the wheel after `uptime_ms` milliseconds.
    pub fn stats_at(&self, uptime_ms: u64) -> (stats: TimingWheelStats)
        ensures
            stats == wheel_stats(self@, uptime_ms),
    {
        TimingWheelStats {
            level0_count: count_timers(&self.l0) as u64,
            level1_count: count_timers(&self.l1) as u64,
            level2_count: count_timers(&self.l2) as u64,
            total_scheduled: self.scheduled_count,
            total_expired: self.expired_count,
            current_tick: self.current_tick,
            uptime_ms,
        }
    }

    /// The number of timers, or the largest number where there are more.
    pub fn pending_count(&self) -> (count: usize)
        ensures
            count == clamp_usize(pending(self@.levels)),
    {
        proof {
            level_count_nonnegative(self@.levels.l0);
            level_count_nonnegative(self@.levels.l1);
            level_count_nonnegative(self@.levels.l2);
        }
        count_timers(&self.l0).saturating_add(count_timers(&self.l1)).saturating_add(
            count_timers(&self.l2),
        )
    }

    /// Drops all timers. The counters stay.
    pub fn clear(&mut self)
        requires
            old(self).well_formed(),
        ensures
            final(self).well_formed(),
            final(self)@ == (WheelModel { levels: empty_levels(), ..old(self)@ }),
    {
        clear_level(&mut self.l0);
        clear_level(&mut self.l1);
        clear_level(&mut self.l2);
    }
}

pub(crate) proof fn level_without_absent(level: Seq<Seq<Timer>>, from: int, key: FlowKey)
    requires
        0 <= from,
    ensures
        !level_has(level, key) ==> level_without(level, from, key) == level,
    decreases level.len() - from,
{
    if from < level.len() {
        if keys_in(level[from]).contains(key) {
            assert(level_has(level, key));
        }
        level_without_absent(level, from + 1, key);
    }
}

pub(crate) proof fn level_count_nonnegative(level: Seq<Seq<Timer>>)
    ensures
        level_count(level) >= 0,
    decreases level.len(),
{
    if level.len() > 0 {
        level_count_nonnegative(level.drop_last());
    }
}

/// Counters of a timing wheel.
#[derive(Debug, Clone, Copy, PartialEq, Eq, Structural)]
pub struct TimingWheelStats {
    /// Timers in level 0
    pub level0_count: u64,
    /// Timers in level 1
    pub level1_count: u64,
    /// Timers in level 2
    pub level2_count: u64,
    /// Timers ever scheduled
    pub total_scheduled: u64,
    /// Timers ever expired
    pub total_expired: u64,
    /// Current tick
    pub current_tick: u64,
    /// Uptime in milliseconds
    pub uptime_ms: u64,
}

/// The counters of `wheel`.
pub open spec fn wheel_stats(wheel: WheelModel, uptime_ms: u64) -> TimingWheelStats {
    TimingWheelStats {
        level0_count: clamp_usize(level_count(wheel.levels.l0)) as u64,
        level1_count: clamp_usize(level_count(wheel.levels.l1)) as u64,
        level2_count: clamp_usize(level_count(wheel.levels.l2)) as u64,
        total_scheduled: wheel.scheduled_count,
        total_expired: wheel.expired_count,
        current_tick: wheel.current_tick,
        uptime_ms,
    }
}

impl Default for TimingWheelStats {
    fn default() -> (stats: TimingWheelStats)
        ensures
            stats == (TimingWheelStats {
                level0_count: 0,
                level1_count: 0,
                level2_count: 0,
                total_scheduled: 0,
                total_expired: 0,
                current_tick: 0,
                uptime_ms: 0,
            }),
    {
        TimingWheelStats {
            level0_count: 0,
            level1_count: 0,
            level2_count: 0,
            total_scheduled: 0,
            total_expired: 0,
            current_tick: 0,
            uptime_ms: 0,
        }
    }
}

impl TimingWheelStats {
    /// The timers of all levels. The sum wraps around at 64 bits.
    pub fn total_pending(&self) -> (total: u64)
        ensures
            total == self.level0_count.wrapping_add(self.level1_count).wrapping_add(
                self.level2_count,
            ),
    {
        self.level0_count.wrapping_add(self.level1_count).wrapping_add(self.level2_count)
    }
}

} // verus!
