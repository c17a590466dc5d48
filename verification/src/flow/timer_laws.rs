//! What holds of a timing wheel over any sequence of operations: no timer is lost or
//! doubled, and each one expires at its own tick.

use crate::flow::timer_wheel::{
    all_placed, is_pending, keys_in, level_count, level_has, level_without, minute_for,
    minute_spread, next_in_slot, on_time, on_time_l0, on_time_l1, on_time_l2, pending, placed,
    push_timer, run, second_spread, slot_without, step, tick_after, ticks_in, without_timer,
    Levels, Timer, TimingWheel, TimingWheelStats, WheelSlot,
};
use crate::parser::FlowKey;
use vstd::multiset::Multiset;
use vstd::prelude::*;

verus! {

/// The timers of a level, each as often as it is scheduled.
pub open spec fn level_bag(level: Seq<Seq<Timer>>) -> Multiset<Timer>
    decreases level.len(),
{
    if level.len() == 0 {
        Multiset::empty()
    } else {
        level_bag(level.drop_last()).add(level.last().to_multiset())
    }
}

/// The timers of a wheel, each as often as it is scheduled.
pub open spec fn bag(levels: Levels) -> Multiset<Timer> {
    level_bag(levels.l0).add(level_bag(levels.l1)).add(level_bag(levels.l2))
}

/// Exchanging the timers of one slot exchanges them in the level.
proof fn level_bag_update(level: Seq<Seq<Timer>>, slot: int, timers: Seq<Timer>)
    requires
        0 <= slot < level.len(),
    ensures
        level_bag(level.update(slot, timers)).add(level[slot].to_multiset()) == level_bag(
            level,
        ).add(timers.to_multiset()),
    decreases level.len(),
{
    let updated = level.update(slot, timers);
    if slot == level.len() - 1 {
        assert(updated.drop_last() =~= level.drop_last());
    } else {
        let rest = level.drop_last();
        assert(updated.drop_last() =~= rest.update(slot, timers));
        assert(updated.last() == level.last());
        level_bag_update(rest, slot, timers);
        assert forall|t: Timer|
            level_bag(updated).add(level[slot].to_multiset()).count(t) == level_bag(level).add(
                timers.to_multiset(),
            ).count(t) by {
            assert(level_bag(rest.update(slot, timers)).add(rest[slot].to_multiset()).count(t)
                == level_bag(rest).add(timers.to_multiset()).count(t));
        }
    }
    assert(level_bag(updated).add(level[slot].to_multiset()) =~= level_bag(level).add(
        timers.to_multiset(),
    ));
}

proof fn level_bag_push(level: Seq<Seq<Timer>>, slot: int, timer: Timer)
    requires
        0 <= slot < level.len(),
    ensures
        level_bag(push_timer(level, slot, timer)) == level_bag(level).insert(timer),
{
    let timers = level[slot].push(timer);
    level_bag_update(level, slot, timers);
    level[slot].to_multiset_ensures();
    assert(timers.to_multiset() == level[slot].to_multiset().insert(timer));
    assert forall|t: Timer|
        level_bag(push_timer(level, slot, timer)).count(t) == level_bag(level).insert(timer).count(
            t,
        ) by {
        assert(level_bag(push_timer(level, slot, timer)).add(level[slot].to_multiset()).count(t)
            == level_bag(level).add(timers.to_multiset()).count(t));
    }
    assert(level_bag(push_timer(level, slot, timer)) =~= level_bag(level).insert(timer));
}

/// Draining a slot takes its timers out of the level.
proof fn level_bag_drain(level: Seq<Seq<Timer>>, slot: int)
    requires
        0 <= slot < level.len(),
    ensures
        level_bag(level.update(slot, Seq::empty())).add(level[slot].to_multiset()) == level_bag(
            level,
        ),
{
    level_bag_update(level, slot, Seq::empty());
    Seq::<Timer>::empty().to_multiset_ensures();
    assert(Seq::<Timer>::empty().to_multiset() =~= Multiset::empty());
    assert(level_bag(level).add(Multiset::empty()) =~= level_bag(level));
}

/// Scheduling adds one timer and leaves the others.
pub proof fn placing_adds_one(levels: Levels, tick: u64, timer: Timer)
    requires
        levels.well_formed(),
    ensures
        bag(placed(levels, tick, timer)) == bag(levels).insert(timer),
        placed(levels, tick, timer).well_formed(),
{
    let due = timer.1 as int;
    if due - tick < 100 {
        level_bag_push(levels.l0, due % 100, timer);
    } else if due - tick < 6000 {
        level_bag_push(levels.l1, (due / 100) % 60, timer);
    } else {
        level_bag_push(levels.l2, minute_for(tick, timer.1) % 60, timer);
    }
    assert(bag(placed(levels, tick, timer)) =~= bag(levels).insert(timer));
}

proof fn all_placed_adds(levels: Levels, tick: u64, timers: Seq<Timer>)
    requires
        levels.well_formed(),
    ensures
        bag(all_placed(levels, tick, timers)) == bag(levels).add(timers.to_multiset()),
        all_placed(levels, tick, timers).well_formed(),
    decreases timers.len(),
{
    timers.to_multiset_ensures();
    if timers.len() == 0 {
        assert(bag(levels).add(timers.to_multiset()) =~= bag(levels));
    } else {
        let rest = timers.drop_last();
        all_placed_adds(levels, tick, rest);
        placing_adds_one(all_placed(levels, tick, rest), tick, timers.last());
        rest.to_multiset_ensures();
        assert(rest.push(timers.last()) =~= timers);
        assert(bag(all_placed(levels, tick, timers)) =~= bag(levels).add(timers.to_multiset()));
    }
}

proof fn spreading_conserves(levels: Levels, tick: u64)
    requires
        levels.well_formed(),
    ensures
        bag(minute_spread(levels, tick)) == bag(levels),
        minute_spread(levels, tick).well_formed(),
        bag(second_spread(levels, tick)) == bag(levels),
        second_spread(levels, tick).well_formed(),
{
    let minute = (tick as int / 6000) % 60;
    let no_minute = Levels { l2: levels.l2.update(minute, Seq::empty()), ..levels };
    level_bag_drain(levels.l2, minute);
    all_placed_adds(no_minute, tick, levels.l2[minute]);
    assert(bag(no_minute).add(levels.l2[minute].to_multiset()) =~= bag(levels));
    let second = (tick as int / 100) % 60;
    let no_second = Levels { l1: levels.l1.update(second, Seq::empty()), ..levels };
    level_bag_drain(levels.l1, second);
    all_placed_adds(no_second, tick, levels.l1[second]);
    assert(bag(no_second).add(levels.l1[second].to_multiset()) =~= bag(levels));
}

/// A tick loses and doubles no timer: each one is afterwards either still in the wheel
/// or among the expired.
pub proof fn step_conserves_timers(levels: Levels, tick: u64)
    requires
        levels.well_formed(),
    ensures
        bag(levels) == bag(step(levels, tick).0).add(step(levels, tick).1.to_multiset()),
        step(levels, tick).0.well_formed(),
{
    spreading_conserves(levels, tick);
    spreading_conserves(minute_spread(levels, tick), tick);
    let spread = second_spread(minute_spread(levels, tick), tick);
    level_bag_drain(spread.l0, tick as int % 100);
    assert(bag(levels) =~= bag(step(levels, tick).0).add(step(levels, tick).1.to_multiset()));
}

/// Any number of ticks loses and doubles no timer.
pub proof fn run_conserves_timers(levels: Levels, tick: u64, n: nat)
    requires
        levels.well_formed(),
    ensures
        bag(levels) == bag(run(levels, tick, n).0).add(run(levels, tick, n).1.to_multiset()),
        run(levels, tick, n).0.well_formed(),
    decreases n,
{
    if n == 0 {
        Seq::<Timer>::empty().to_multiset_ensures();
        assert(bag(levels) =~= bag(levels).add(Seq::<Timer>::empty().to_multiset()));
    } else {
        let before = run(levels, tick, (n - 1) as nat);
        let now = (tick + n - 1) as u64;
        run_conserves_timers(levels, tick, (n - 1) as nat);
        step_conserves_timers(before.0, now);
        vstd::seq_lib::lemma_multiset_commutative(before.1, step(before.0, now).1);
        assert(bag(levels) =~= bag(run(levels, tick, n).0).add(
            run(levels, tick, n).1.to_multiset(),
        ));
    }
}

/// The remainder by 60 of a number within a turn of 0.
proof fn within_a_turn(behind: int)
    requires
        -60 < behind < 60,
    ensures
        behind % 60 == if behind >= 0 {
            behind
        } else {
            behind + 60
        },
{
}

/// The remainder by 60 of the next number.
proof fn next_remainder(from: int)
    requires
        0 <= from,
    ensures
        (from + 1) % 60 == if from % 60 == 59 {
            0
        } else {
            from % 60 + 1
        },
{
}

/// The remainder by 60 of whole turns and `rest`.
proof fn whole_turns(turns: int, rest: int)
    requires
        0 <= rest < 60,
    ensures
        (60 * turns + rest) % 60 == rest,
{
}

/// The next number with a remainder lies less than a turn ahead, and is the same from the
/// number behind on, unless it is the number itself.
proof fn next_in_slot_step(from: int, slot: int)
    requires
        0 <= from,
        0 <= slot < 60,
    ensures
        from <= next_in_slot(from, slot) < from + 60,
        next_in_slot(from, slot) % 60 == slot,
        next_in_slot(from, slot) == from <==> from % 60 == slot,
        from % 60 != slot ==> next_in_slot(from + 1, slot) == next_in_slot(from, slot),
{
    let rest = from % 60;
    let turns = from / 60;
    let behind = slot - rest;
    assert(from == 60 * turns + rest);
    within_a_turn(behind);
    if behind >= 0 {
        assert(next_in_slot(from, slot) == 60 * turns + slot);
        whole_turns(turns, slot);
    } else {
        assert(next_in_slot(from, slot) == 60 * (turns + 1) + slot);
        whole_turns(turns + 1, slot);
    }
    next_remainder(from);
    within_a_turn(slot - (from + 1) % 60);
}

/// The minute that a slot of level 2 is looked at again stays the same over a tick, unless
/// it starts with that tick.
proof fn minute_step(tick: int, slot: int)
    requires
        0 <= tick,
        0 <= slot < 60,
    ensures
        ({
            let now = 6000 * next_in_slot((tick + 5999) / 6000, slot);
            let next = 6000 * next_in_slot((tick + 1 + 5999) / 6000, slot);
            &&& now >= tick
            &&& next >= tick + 1
            &&& !(tick % 6000 == 0 && (tick / 6000) % 60 == slot) ==> next == now
        }),
{
    let minute = (tick + 5999) / 6000;
    next_in_slot_step(minute, slot);
    next_in_slot_step(minute + 1, slot);
    if tick % 6000 == 0 {
        assert(minute == tick / 6000);
        assert((tick + 1 + 5999) / 6000 == minute + 1);
    } else {
        assert((tick + 1 + 5999) / 6000 == minute);
    }
}

/// A slot is looked at again in a minute of its number within the next hour.
proof fn minute_of_slot(tick: int, minute: int)
    requires
        0 <= tick,
        tick <= 6000 * minute,
        minute <= tick / 6000 + 59,
    ensures
        6000 * next_in_slot((tick + 5999) / 6000, minute % 60) == 6000 * minute,
{
    let first = (tick + 5999) / 6000;
    assert(first <= minute < first + 60);
    next_in_slot_step(first, minute % 60);
}

proof fn push_on_time_l0(l0: Seq<Seq<Timer>>, tick: int, slot: int, timer: Timer)
    requires
        0 <= slot < l0.len(),
        on_time_l0(l0, tick),
        tick <= timer.1 < tick + 100,
        timer.1 % 100 == slot,
    ensures
        on_time_l0(push_timer(l0, slot, timer), tick),
{
    let after = push_timer(l0, slot, timer);
    assert forall|s: int, i: int| 0 <= s < after.len() && 0 <= i < after[s].len() implies tick <= (
    #[trigger] after[s][i]).1 < tick + 100 && after[s][i].1 % 100 == s by {
        if !(s == slot && i == l0[slot].len()) {
            assert(after[s][i] == l0[s][i]);
        }
    }
}

proof fn push_on_time_l1(l1: Seq<Seq<Timer>>, tick: int, slot: int, timer: Timer)
    requires
        0 <= slot < l1.len(),
        on_time_l1(l1, tick),
        (timer.1 as int / 100) % 60 == slot,
        tick <= 100 * (timer.1 as int / 100) < tick + 6000,
    ensures
        on_time_l1(push_timer(l1, slot, timer), tick),
{
    let after = push_timer(l1, slot, timer);
    assert forall|s: int, i: int| 0 <= s < after.len() && 0 <= i < after[s].len() implies ({
        let second = (#[trigger] after[s][i]).1 as int / 100;
        second % 60 == s && tick <= 100 * second < tick + 6000
    }) by {
        if !(s == slot && i == l1[slot].len()) {
            assert(after[s][i] == l1[s][i]);
        }
    }
}

proof fn push_on_time_l2(l2: Seq<Seq<Timer>>, tick: int, slot: int, timer: Timer)
    requires
        0 <= slot < l2.len(),
        on_time_l2(l2, tick),
        6000 * next_in_slot((tick + 5999) / 6000, slot) <= timer.1,
    ensures
        on_time_l2(push_timer(l2, slot, timer), tick),
{
    let after = push_timer(l2, slot, timer);
    assert forall|s: int, i: int| 0 <= s < after.len() && 0 <= i < after[s].len() implies 6000
        * next_in_slot((tick + 5999) / 6000, s) <= (#[trigger] after[s][i]).1 by {
        if !(s == slot && i == l2[slot].len()) {
            assert(after[s][i] == l2[s][i]);
        }
    }
}

/// A timer that is put in its place lies where the wheel comes by in time, and the others
/// still do: as of the tick it was placed at, and as of the next.
proof fn placing_keeps_levels(levels: Levels, tick: u64, timer: Timer)
    requires
        levels.well_formed(),
        tick <= timer.1,
    ensures
        ({
            let t = tick as int;
            let after = placed(levels, tick, timer);
            &&& on_time_l0(levels.l0, t) ==> on_time_l0(after.l0, t)
            &&& on_time_l1(levels.l1, t) ==> on_time_l1(after.l1, t)
            &&& on_time_l1(levels.l1, t + 1) ==> on_time_l1(after.l1, t + 1)
            &&& on_time_l2(levels.l2, t) ==> on_time_l2(after.l2, t)
            &&& on_time_l2(levels.l2, t + 1) ==> on_time_l2(after.l2, t + 1)
        }),
{
    let t = tick as int;
    let due = timer.1 as int;
    if due - t < 100 {
        if on_time_l0(levels.l0, t) {
            push_on_time_l0(levels.l0, t, due % 100, timer);
        }
    } else if due - t < 6000 {
        let slot = (due / 100) % 60;
        if on_time_l1(levels.l1, t) {
            push_on_time_l1(levels.l1, t, slot, timer);
        }
        if on_time_l1(levels.l1, t + 1) {
            push_on_time_l1(levels.l1, t + 1, slot, timer);
        }
    } else {
        let minute = minute_for(tick, timer.1);
        assert(6000 * minute <= due);
        assert(6000 * minute >= t + 1);
        minute_of_slot(t, minute);
        minute_of_slot(t + 1, minute);
        if on_time_l2(levels.l2, t) {
            push_on_time_l2(levels.l2, t, minute % 60, timer);
        }
        if on_time_l2(levels.l2, t + 1) {
            push_on_time_l2(levels.l2, t + 1, minute % 60, timer);
        }
    }
}

/// Scheduling a timer that is not overdue keeps every timer where the wheel comes by in
/// time.
pub proof fn placing_keeps_time(levels: Levels, tick: u64, timer: Timer)
    requires
        levels.well_formed(),
        on_time(levels, tick as int),
        tick <= timer.1,
    ensures
        placed(levels, tick, timer).well_formed(),
        on_time(placed(levels, tick, timer), tick as int),
{
    placing_keeps_levels(levels, tick, timer);
}

proof fn all_placed_keeps_levels(levels: Levels, tick: u64, timers: Seq<Timer>)
    requires
        levels.well_formed(),
        forall|i: int| 0 <= i < timers.len() ==> tick <= (#[trigger] timers[i]).1,
    ensures
        ({
            let t = tick as int;
            let after = all_placed(levels, tick, timers);
            &&& after.well_formed()
            &&& on_time_l0(levels.l0, t) ==> on_time_l0(after.l0, t)
            &&& on_time_l1(levels.l1, t) ==> on_time_l1(after.l1, t)
            &&& on_time_l1(levels.l1, t + 1) ==> on_time_l1(after.l1, t + 1)
            &&& on_time_l2(levels.l2, t) ==> on_time_l2(after.l2, t)
            &&& on_time_l2(levels.l2, t + 1) ==> on_time_l2(after.l2, t + 1)
        }),
    decreases timers.len(),
{
    if timers.len() > 0 {
        let rest = timers.drop_last();
        assert forall|i: int| 0 <= i < rest.len() implies tick <= (#[trigger] rest[i]).1 by {
            assert(rest[i] == timers[i]);
        }
        all_placed_keeps_levels(levels, tick, rest);
        placing_keeps_levels(all_placed(levels, tick, rest), tick, timers.last());
    }
}

/// Once a minute was spread, level 2 is on time for the next tick too.
proof fn minute_spread_keeps_time(levels: Levels, tick: u64)
    requires
        levels.well_formed(),
        on_time(levels, tick as int),
    ensures
        ({
            let t = tick as int;
            let after = minute_spread(levels, tick);
            &&& after.well_formed()
            &&& on_time_l0(after.l0, t)
            &&& on_time_l1(after.l1, t)
            &&& on_time_l2(after.l2, t + 1)
        }),
{
    let t = tick as int;
    let slot = (t / 6000) % 60;
    let emptied = if t % 6000 == 0 {
        levels.l2.update(slot, Seq::empty())
    } else {
        levels.l2
    };
    assert forall|s: int, i: int|
        0 <= s < emptied.len() && 0 <= i < emptied[s].len() implies 6000 * next_in_slot(
        (t + 1 + 5999) / 6000,
        s,
    ) <= (#[trigger] emptied[s][i]).1 by {
        minute_step(t, s);
        assert(emptied[s][i] == levels.l2[s][i]);
    }
    if t % 6000 == 0 {
        let timers = levels.l2[slot];
        assert forall|i: int| 0 <= i < timers.len() implies tick <= (#[trigger] timers[i]).1 by {
            minute_step(t, slot);
            assert(timers[i] == levels.l2[slot][i]);
        }
        all_placed_keeps_levels(Levels { l2: emptied, ..levels }, tick, timers);
    }
}

/// Once a second was spread, level 1 is on time for the next tick too.
proof fn second_spread_keeps_time(levels: Levels, tick: u64)
    requires
        levels.well_formed(),
        on_time_l0(levels.l0, tick as int),
        on_time_l1(levels.l1, tick as int),
        on_time_l2(levels.l2, tick + 1),
    ensures
        ({
            let t = tick as int;
            let after = second_spread(levels, tick);
            &&& after.well_formed()
            &&& on_time_l0(after.l0, t)
            &&& on_time_l1(after.l1, t + 1)
            &&& on_time_l2(after.l2, t + 1)
        }),
{
    let t = tick as int;
    let slot = (t / 100) % 60;
    let emptied = if t % 100 == 0 {
        levels.l1.update(slot, Seq::empty())
    } else {
        levels.l1
    };
    assert forall|s: int, i: int| 0 <= s < emptied.len() && 0 <= i < emptied[s].len() implies ({
        let second = (#[trigger] emptied[s][i]).1 as int / 100;
        second % 60 == s && t + 1 <= 100 * second < t + 1 + 6000
    }) by {
        assert(emptied[s][i] == levels.l1[s][i]);
    }
    if t % 100 == 0 {
        let timers = levels.l1[slot];
        assert forall|i: int| 0 <= i < timers.len() implies tick <= (#[trigger] timers[i]).1 by {
            assert(timers[i] == levels.l1[slot][i]);
        }
        all_placed_keeps_levels(Levels { l1: emptied, ..levels }, tick, timers);
    }
}

/// The slot of a tick holds only timers due at it, and without them level 0 is on time for
/// the next tick.
proof fn emptied_slot_keeps_time(l0: Seq<Seq<Timer>>, tick: int)
    requires
        l0.len() == 100,
        0 <= tick,
        on_time_l0(l0, tick),
    ensures
        on_time_l0(l0.update(tick % 100, Seq::empty()), tick + 1),
        forall|i: int| 0 <= i < l0[tick % 100].len() ==> (#[trigger] l0[tick % 100][i]).1 == tick,
{
    let slot = tick % 100;
    let after = l0.update(slot, Seq::empty());
    assert forall|i: int| 0 <= i < l0[slot].len() implies (#[trigger] l0[slot][i]).1 == tick by {
        let due = l0[slot][i].1 as int;
        assert(tick <= due < tick + 100 && due % 100 == slot);
    }
    assert forall|s: int, i: int| 0 <= s < after.len() && 0 <= i < after[s].len() implies tick + 1
        <= (#[trigger] after[s][i]).1 < tick + 1 + 100 && after[s][i].1 % 100 == s by {
        assert(s != slot);
        assert(after[s][i] == l0[s][i]);
        let due = l0[s][i].1 as int;
        assert(tick <= due < tick + 100 && due % 100 == s);
    }
}

/// Processing a tick expires only timers that are due at it, and keeps every other timer
/// where the wheel comes by in time.
pub proof fn step_keeps_time(levels: Levels, tick: u64)
    requires
        levels.well_formed(),
        on_time(levels, tick as int),
    ensures
        step(levels, tick).0.well_formed(),
        on_time(step(levels, tick).0, tick + 1),
        forall|i: int|
            0 <= i < step(levels, tick).1.len() ==> (#[trigger] step(levels, tick).1[i]).1 == tick,
{
    minute_spread_keeps_time(levels, tick);
    second_spread_keeps_time(minute_spread(levels, tick), tick);
    emptied_slot_keeps_time(
        second_spread(minute_spread(levels, tick), tick).l0,
        tick as int,
    );
}

/// Over any number of ticks, every timer that is left lies where the wheel comes by in
/// time.
pub proof fn running_keeps_time(levels: Levels, tick: u64, n: nat)
    requires
        levels.well_formed(),
        on_time(levels, tick as int),
        tick + n <= u64::MAX,
    ensures
        run(levels, tick, n).0.well_formed(),
        on_time(run(levels, tick, n).0, tick + n),
    decreases n,
{
    if n > 0 {
        running_keeps_time(levels, tick, (n - 1) as nat);
        step_keeps_time(run(levels, tick, (n - 1) as nat).0, (tick + n - 1) as u64);
    }
}

/// What expires over any number of ticks is due within them, and expires in the order in
/// which it is due.
pub proof fn run_expires_what_is_due(levels: Levels, tick: u64, n: nat)
    requires
        levels.well_formed(),
        on_time(levels, tick as int),
        tick + n <= u64::MAX,
    ensures
        forall|i: int|
            0 <= i < run(levels, tick, n).1.len() ==> tick <= (#[trigger] run(
                levels,
                tick,
                n,
            ).1[i]).1 < tick + n,
        forall|i: int, j: int|
            0 <= i < j < run(levels, tick, n).1.len() ==> (#[trigger] run(levels, tick, n).1[i]).1
                <= (#[trigger] run(levels, tick, n).1[j]).1,
    decreases n,
{
    if n > 0 {
        let before = run(levels, tick, (n - 1) as nat);
        let now = (tick + n - 1) as u64;
        run_expires_what_is_due(levels, tick, (n - 1) as nat);
        running_keeps_time(levels, tick, (n - 1) as nat);
        step_keeps_time(before.0, now);
        let last = step(before.0, now).1;
        let all = run(levels, tick, n).1;
        assert forall|i: int| 0 <= i < all.len() implies tick <= (#[trigger] all[i]).1 < tick + n
            && (i < before.1.len() ==> all[i] == before.1[i] && all[i].1 < now) && (i
            >= before.1.len() ==> all[i].1 == now) by {
            if i < before.1.len() {
                assert(all[i] == before.1[i]);
            } else {
                assert(all[i] == last[i - before.1.len()]);
            }
        }
        assert forall|i: int, j: int| 0 <= i < j < all.len() implies (#[trigger] all[i]).1 <= (
        #[trigger] all[j]).1 by {
            if j < before.1.len() {
                assert(all[i] == before.1[i] && all[j] == before.1[j]);
            }
        }
    }
}

/// Every timer that is left in a wheel is due at the next tick to process or later.
pub proof fn nothing_is_overdue(levels: Levels, tick: int, timer: Timer)
    requires
        levels.well_formed(),
        0 <= tick,
        on_time(levels, tick),
        bag(levels).count(timer) > 0,
    ensures
        timer.1 >= tick,
{
    if level_bag(levels.l0).count(timer) > 0 {
        let (s, i) = level_bag_holds(levels.l0, timer);
        assert(levels.l0[s][i].1 >= tick);
    } else if level_bag(levels.l1).count(timer) > 0 {
        let (s, i) = level_bag_holds(levels.l1, timer);
        assert(100 * (levels.l1[s][i].1 as int / 100) >= tick);
    } else {
        let (s, i) = level_bag_holds(levels.l2, timer);
        minute_step(tick, s);
        assert(6000 * next_in_slot((tick + 5999) / 6000, s) <= levels.l2[s][i].1);
    }
}

/// Where a timer of a level lies.
proof fn level_bag_holds(level: Seq<Seq<Timer>>, timer: Timer) -> (place: (int, int))
    requires
        level_bag(level).count(timer) > 0,
    ensures
        0 <= place.0 < level.len(),
        0 <= place.1 < level[place.0].len(),
        level[place.0][place.1] == timer,
    decreases level.len(),
{
    let last = level.last();
    last.to_multiset_ensures();
    if last.to_multiset().count(timer) > 0 {
        assert(last.contains(timer));
        let i = choose|i: int| 0 <= i < last.len() && last[i] == timer;
        (level.len() - 1, i)
    } else {
        let place = level_bag_holds(level.drop_last(), timer);
        assert(level[place.0] == level.drop_last()[place.0]);
        place
    }
}

/// Each timer expires exactly at its tick: over `n` ticks from `tick` on, a timer that is
/// due within them is among the expired as often as it was scheduled and no longer in the
/// wheel, and one that is due later is still in the wheel as often and not among the
/// expired.
pub proof fn timers_expire_at_their_tick(levels: Levels, tick: u64, n: nat, timer: Timer)
    requires
        levels.well_formed(),
        on_time(levels, tick as int),
        tick + n <= u64::MAX,
    ensures
        ({
            let scheduled = bag(levels).count(timer);
            let left = bag(run(levels, tick, n).0).count(timer);
            let expired = run(levels, tick, n).1.to_multiset().count(timer);
            &&& timer.1 < tick + n ==> expired == scheduled && left == 0
            &&& timer.1 >= tick + n ==> left == scheduled && expired == 0
        }),
{
    let done = run(levels, tick, n);
    run_conserves_timers(levels, tick, n);
    run_expires_what_is_due(levels, tick, n);
    running_keeps_time(levels, tick, n);
    done.1.to_multiset_ensures();
    if bag(done.0).count(timer) > 0 {
        nothing_is_overdue(done.0, tick + n, timer);
    }
    if done.1.to_multiset().count(timer) > 0 {
        assert(done.1.contains(timer));
        let i = choose|i: int| 0 <= i < done.1.len() && done.1[i] == timer;
        assert(done.1[i].1 < tick + n);
    }
    assert(bag(levels).count(timer) == bag(done.0).count(timer) + done.1.to_multiset().count(
        timer,
    ));
}

/// A timer expires after its delay, rounded up to 10 ms, and never before: of the ticks
/// from the one at which it was scheduled, it takes all that the delay covers to pass, and
/// it is among the expired with the next.
pub proof fn timers_expire_after_their_delay(
    levels: Levels,
    tick: u64,
    key: FlowKey,
    delay_ms: u64,
    n: nat,
)
    requires
        levels.well_formed(),
        on_time(levels, tick as int),
        tick + n <= u64::MAX,
        tick + ticks_in(delay_ms) <= u64::MAX,
    ensures
        delay_ms <= 10 * ticks_in(delay_ms) < delay_ms + 10,
        ({
            let timer = (key, tick_after(tick, ticks_in(delay_ms)));
            let expired = run(placed(levels, tick, timer), tick, n).1.to_multiset().count(timer);
            expired == if n > ticks_in(delay_ms) {
                bag(levels).count(timer) + 1
            } else {
                0
            }
        }),
{
    let timer = (key, tick_after(tick, ticks_in(delay_ms)));
    placing_adds_one(levels, tick, timer);
    placing_keeps_time(levels, tick, timer);
    timers_expire_at_their_tick(placed(levels, tick, timer), tick, n, timer);
}

/// Every timer of a level from which one was taken was in the same slot before.
proof fn level_without_is_part(level: Seq<Seq<Timer>>, from: int, key: FlowKey)
    requires
        0 <= from,
    ensures
        level_without(level, from, key).len() == level.len(),
        forall|s: int, i: int|
            0 <= s < level.len() && 0 <= i < level_without(level, from, key)[s].len()
                ==> level[s].contains(#[trigger] level_without(level, from, key)[s][i]),
    decreases level.len() - from,
{
    let after = level_without(level, from, key);
    if from < level.len() && !keys_in(level[from]).contains(key) {
        level_without_is_part(level, from + 1, key);
    } else {
        assert forall|s: int, i: int| 0 <= s < level.len() && 0 <= i < after[s].len() implies level[s].contains(
        #[trigger] after[s][i]) by {
            if s == from && from < level.len() {
                assert(after[s] == slot_without(level[from], key));
                keys_in(level[from]).index_of_first_ensures(key);
                let at = keys_in(level[from]).index_of_first(key)->Some_0;
                let j = if i < at {
                    i
                } else {
                    i + 1
                };
                assert(level[s][j] == after[s][i]);
            } else {
                assert(level[s][i] == after[s][i]);
            }
        }
    }
}

/// Cancelling keeps every timer where the wheel comes by in time.
pub proof fn removing_keeps_time(levels: Levels, tick: int, key: FlowKey)
    requires
        levels.well_formed(),
        on_time(levels, tick),
    ensures
        without_timer(levels, key).well_formed(),
        on_time(without_timer(levels, key), tick),
{
    level_without_is_part(levels.l0, 0, key);
    level_without_is_part(levels.l1, 0, key);
    level_without_is_part(levels.l2, 0, key);
    let l0 = level_without(levels.l0, 0, key);
    let l1 = level_without(levels.l1, 0, key);
    let l2 = level_without(levels.l2, 0, key);
    assert forall|s: int, i: int| 0 <= s < l0.len() && 0 <= i < l0[s].len() implies tick <= (
    #[trigger] l0[s][i]).1 < tick + 100 && l0[s][i].1 % 100 == s by {
        assert(levels.l0[s].contains(l0[s][i]));
        let j = choose|j: int| 0 <= j < levels.l0[s].len() && levels.l0[s][j] == l0[s][i];
        assert(levels.l0[s][j].1 >= tick);
    }
    assert forall|s: int, i: int| 0 <= s < l1.len() && 0 <= i < l1[s].len() implies ({
        let second = (#[trigger] l1[s][i]).1 as int / 100;
        second % 60 == s && tick <= 100 * second < tick + 6000
    }) by {
        assert(levels.l1[s].contains(l1[s][i]));
        let j = choose|j: int| 0 <= j < levels.l1[s].len() && levels.l1[s][j] == l1[s][i];
        assert(levels.l1[s][j].1 as int / 100 % 60 == s);
    }
    assert forall|s: int, i: int| 0 <= s < l2.len() && 0 <= i < l2[s].len() implies 6000
        * next_in_slot((tick + 5999) / 6000, s) <= (#[trigger] l2[s][i]).1 by {
        assert(levels.l2[s].contains(l2[s][i]));
        let j = choose|j: int| 0 <= j < levels.l2[s].len() && levels.l2[s][j] == l2[s][i];
        assert(6000 * next_in_slot((tick + 5999) / 6000, s) <= levels.l2[s][j].1);
    }
}

proof fn level_bag_without(level: Seq<Seq<Timer>>, from: int, key: FlowKey) -> (removed: Timer)
    requires
        0 <= from,
        exists|i: int| from <= i < level.len() && keys_in(#[trigger] level[i]).contains(key),
    ensures
        removed.0 == key,
        level_bag(level_without(level, from, key)).insert(removed) == level_bag(level),
    decreases level.len() - from,
{
    if keys_in(level[from]).contains(key) {
        let timers = level[from];
        let fewer = slot_without(timers, key);
        keys_in(timers).index_of_first_ensures(key);
        let at = keys_in(timers).index_of_first(key)->Some_0;
        let removed = timers[at];
        level_bag_update(level, from, fewer);
        timers.to_multiset_ensures();
        assert(timers.contains(removed));
        assert forall|t: Timer|
            level_bag(level_without(level, from, key)).insert(removed).count(t) == level_bag(
                level,
            ).count(t) by {
            assert(level_bag(level.update(from, fewer)).add(timers.to_multiset()).count(t)
                == level_bag(level).add(fewer.to_multiset()).count(t));
        }
        assert(level_bag(level_without(level, from, key)).insert(removed) =~= level_bag(level));
        removed
    } else {
        level_bag_without(level, from + 1, key)
    }
}

/// Cancelling a key that is scheduled takes out one timer for it and leaves the others.
pub proof fn cancel_removes_one(levels: Levels, key: FlowKey)
    requires
        is_pending(levels, key),
    ensures
        exists|due: u64|
            bag(levels) == #[trigger] bag(without_timer(levels, key)).insert((key, due)),
{
    let removed = if level_has(levels.l0, key) {
        level_bag_without(levels.l0, 0, key)
    } else if level_has(levels.l1, key) {
        level_bag_without(levels.l1, 0, key)
    } else {
        level_bag_without(levels.l2, 0, key)
    };
    assert(removed == (key, removed.1));
    assert(bag(levels) =~= bag(without_timer(levels, key)).insert((key, removed.1)));
}

proof fn level_without_undoes_push(
    level: Seq<Seq<Timer>>,
    from: int,
    slot: int,
    timer: Timer,
)
    requires
        0 <= from <= slot < level.len(),
        !level_has(level, timer.0),
    ensures
        level_has(push_timer(level, slot, timer), timer.0),
        level_without(push_timer(level, slot, timer), from, timer.0) == level,
    decreases slot - from,
{
    let pushed = push_timer(level, slot, timer);
    let key = timer.0;
    let keys = keys_in(pushed[slot]);
    assert(keys[keys.len() - 1] == key);
    assert(keys_in(pushed[slot]).contains(key));
    assert(!keys_in(level[from]).contains(key));
    if from == slot {
        keys.index_of_first_ensures(key);
        let at = keys.index_of_first(key)->Some_0;
        if at < level[slot].len() {
            assert(keys_in(level[slot])[at] == key);
        }
        assert(slot_without(pushed[slot], key) =~= level[slot]);
        assert(pushed.update(slot, level[slot]) =~= level);
    } else {
        assert(pushed[from] == level[from]);
        level_without_undoes_push(level, from + 1, slot, timer);
    }
}

/// Cancelling a timer right after it was scheduled leaves the wheel as it was, where
/// the key was not scheduled before.
pub proof fn cancel_undoes_schedule(levels: Levels, tick: u64, timer: Timer)
    requires
        levels.well_formed(),
        !is_pending(levels, timer.0),
    ensures
        is_pending(placed(levels, tick, timer), timer.0),
        without_timer(placed(levels, tick, timer), timer.0) == levels,
{
    let due = timer.1 as int;
    if due - tick < 100 {
        level_without_undoes_push(levels.l0, 0, due % 100, timer);
    } else if due - tick < 6000 {
        level_without_undoes_push(levels.l1, 0, (due / 100) % 60, timer);
    } else {
        level_without_undoes_push(levels.l2, 0, minute_for(tick, timer.1) % 60, timer);
    }
}

proof fn level_count_is_bag_len(level: Seq<Seq<Timer>>)
    ensures
        level_count(level) == level_bag(level).len(),
    decreases level.len(),
{
    if level.len() > 0 {
        level_count_is_bag_len(level.drop_last());
        level.last().to_multiset_ensures();
    }
}

/// The number of pending timers counts each one as often as it is scheduled.
pub proof fn pending_counts_the_bag(levels: Levels)
    ensures
        pending(levels) == bag(levels).len(),
{
    level_count_is_bag_len(levels.l0);
    level_count_is_bag_len(levels.l1);
    level_count_is_bag_len(levels.l2);
}

/// Scheduling adds one timer, for its key and due after its delay, rounded up to 10 ms;
/// the others stay, and it is counted.
pub proof fn scheduling_adds_the_timer(
    wheel: &mut TimingWheel,
    key: FlowKey,
    delay_ms: u64,
    scheduled: bool,
)
    requires
        old(wheel).well_formed(),
        call_ensures(TimingWheel::schedule, (wheel, key, delay_ms), scheduled),
        old(wheel)@.current_tick + delay_ms <= u64::MAX,
        old(wheel)@.scheduled_count < u64::MAX,
    ensures
        scheduled,
        final(wheel).well_formed(),
        exists|due: u64|
            {
                &&& delay_ms <= 10 * (due - old(wheel)@.current_tick) < delay_ms + 10
                &&& bag(final(wheel)@.levels) == #[trigger] bag(old(wheel)@.levels).insert(
                    (key, due),
                )
            },
        final(wheel)@.current_tick == old(wheel)@.current_tick,
        final(wheel)@.scheduled_count == old(wheel)@.scheduled_count + 1,
        final(wheel)@.expired_count == old(wheel)@.expired_count,
{
    let due = tick_after(old(wheel)@.current_tick, ticks_in(delay_ms));
    placing_adds_one(old(wheel)@.levels, old(wheel)@.current_tick, (key, due));
    assert(delay_ms <= 10 * (due - old(wheel)@.current_tick) < delay_ms + 10);
}

/// Time that passes moves the wheel on by as many ticks of 10 ms, rounded up. The keys that
/// come out are those of the timers due before the tick reached, each as often as it was
/// scheduled, in the order in which they are due; the timers that stay are the others.
pub proof fn ticking_expires_what_is_due(
    wheel: &mut TimingWheel,
    elapsed_ms: u64,
    expired: Vec<FlowKey>,
    timer: Timer,
)
    requires
        old(wheel).well_formed(),
        call_ensures(TimingWheel::tick, (wheel, elapsed_ms), expired),
        old(wheel)@.current_tick + elapsed_ms <= u64::MAX,
    ensures
        final(wheel).well_formed(),
        elapsed_ms <= 10 * (final(wheel)@.current_tick - old(wheel)@.current_tick) < elapsed_ms
            + 10,
        bag(final(wheel)@.levels).count(timer) == if timer.1 < final(wheel)@.current_tick {
            0
        } else {
            bag(old(wheel)@.levels).count(timer)
        },
        exists|timers: Seq<Timer>|
            {
                &&& expired@ == #[trigger] keys_in(timers)
                &&& bag(old(wheel)@.levels) == bag(final(wheel)@.levels).add(
                    timers.to_multiset(),
                )
                &&& forall|i: int|
                    0 <= i < timers.len() ==> old(wheel)@.current_tick <= (
                    #[trigger] timers[i]).1 < final(wheel)@.current_tick
                &&& forall|i: int, j: int|
                    0 <= i < j < timers.len() ==> (#[trigger] timers[i]).1 <= (
                    #[trigger] timers[j]).1
            },
        final(wheel)@.scheduled_count == old(wheel)@.scheduled_count,
        old(wheel)@.expired_count + expired@.len() <= u64::MAX ==> final(wheel)@.expired_count
            == old(wheel)@.expired_count + expired@.len(),
{
    let levels = old(wheel)@.levels;
    let tick = old(wheel)@.current_tick;
    let n = (final(wheel)@.current_tick - tick) as nat;
    let timers = run(levels, tick, n).1;
    timers_expire_at_their_tick(levels, tick, n, timer);
    run_conserves_timers(levels, tick, n);
    run_expires_what_is_due(levels, tick, n);
    assert(expired@ == keys_in(timers));
}

/// Cancelling takes out one timer for the key, where there is one, and says whether there
/// was; the other timers stay, and nothing else changes.
pub proof fn cancelling_takes_one_timer(
    wheel: &mut TimingWheel,
    key: FlowKey,
    found: bool,
    due: u64,
)
    requires
        old(wheel).well_formed(),
        call_ensures(TimingWheel::cancel, (wheel, &key), found),
    ensures
        final(wheel).well_formed(),
        found ==> exists|due: u64|
            bag(old(wheel)@.levels) == #[trigger] bag(final(wheel)@.levels).insert((key, due)),
        !found ==> bag(final(wheel)@.levels) == bag(old(wheel)@.levels) && bag(
            old(wheel)@.levels,
        ).count((key, due)) == 0,
        final(wheel)@.current_tick == old(wheel)@.current_tick,
        final(wheel)@.scheduled_count == old(wheel)@.scheduled_count,
        final(wheel)@.expired_count == old(wheel)@.expired_count,
{
    let levels = old(wheel)@.levels;
    if found {
        cancel_removes_one(levels, key);
    } else {
        crate::flow::timer_wheel::level_without_absent(levels.l2, 0, key);
        if bag(levels).count((key, due)) > 0 {
            let timer = (key, due);
            if level_bag(levels.l0).count(timer) > 0 {
                holding_is_having(levels.l0, timer);
            } else if level_bag(levels.l1).count(timer) > 0 {
                holding_is_having(levels.l1, timer);
            } else {
                holding_is_having(levels.l2, timer);
            }
        }
    }
}

proof fn holding_is_having(level: Seq<Seq<Timer>>, timer: Timer)
    requires
        level_bag(level).count(timer) > 0,
    ensures
        level_has(level, timer.0),
{
    let (s, i) = level_bag_holds(level, timer);
    assert(keys_in(level[s])[i] == timer.0);
    assert(keys_in(level[s]).contains(timer.0));
}

/// A new wheel, and one that was cleared, has no timers. What a wheel counts as pending is
/// the number of its timers, over all levels, and its counters are those it keeps.
pub proof fn wheels_count_their_timers(
    made: TimingWheel,
    cleared: &mut TimingWheel,
    wheel: TimingWheel,
    uptime_ms: u64,
    count: usize,
    stats: TimingWheelStats,
    total: u64,
)
    requires
        call_ensures(TimingWheel::new, (), made),
        old(cleared).well_formed(),
        call_ensures(TimingWheel::clear, (cleared,), ()),
        call_ensures(TimingWheel::pending_count, (&wheel,), count),
        call_ensures(TimingWheel::stats_at, (&wheel, uptime_ms), stats),
        call_ensures(TimingWheelStats::total_pending, (&stats,), total),
        bag(wheel@.levels).len() <= usize::MAX,
    ensures
        bag(made@.levels).len() == 0,
        bag(final(cleared)@.levels).len() == 0,
        final(cleared)@.current_tick == old(cleared)@.current_tick,
        final(cleared)@.scheduled_count == old(cleared)@.scheduled_count,
        made@.current_tick == 0 && made@.scheduled_count == 0 && made@.expired_count == 0,
        count == bag(wheel@.levels).len(),
        total == bag(wheel@.levels).len(),
        stats.total_scheduled == wheel@.scheduled_count,
        stats.total_expired == wheel@.expired_count,
        stats.current_tick == wheel@.current_tick,
        stats.uptime_ms == uptime_ms,
{
    pending_counts_the_bag(wheel@.levels);
    pending_counts_the_bag(made@.levels);
    pending_counts_the_bag(final(cleared)@.levels);
    empty_levels_count_nothing(100);
    empty_levels_count_nothing(60);
    crate::flow::timer_wheel::level_count_nonnegative(wheel@.levels.l0);
    crate::flow::timer_wheel::level_count_nonnegative(wheel@.levels.l1);
    crate::flow::timer_wheel::level_count_nonnegative(wheel@.levels.l2);
}

proof fn empty_levels_count_nothing(slots: nat)
    ensures
        level_count(crate::flow::timer_wheel::empty_level(slots)) == 0,
    decreases slots,
{
    if slots > 0 {
        empty_levels_count_nothing((slots - 1) as nat);
        assert(crate::flow::timer_wheel::empty_level(slots).drop_last()
            =~= crate::flow::timer_wheel::empty_level((slots - 1) as nat));
    }
}

/// A timer is counted in the level of its delay: within a second in level 0, within a
/// minute in level 1, else in level 2.
pub proof fn timers_are_counted_in_their_level(
    wheel: &mut TimingWheel,
    key: FlowKey,
    delay_ms: u64,
    scheduled: bool,
    before: TimingWheelStats,
    after: TimingWheelStats,
)
    requires
        old(wheel).well_formed(),
        call_ensures(TimingWheel::stats_at, (&*old(wheel), 0), before),
        call_ensures(TimingWheel::schedule, (wheel, key, delay_ms), scheduled),
        call_ensures(TimingWheel::stats_at, (&*final(wheel), 0), after),
        old(wheel)@.current_tick + delay_ms <= u64::MAX,
        bag(old(wheel)@.levels).len() < usize::MAX,
    ensures
        after.level0_count == before.level0_count + if delay_ms <= 990 {
            1int
        } else {
            0
        },
        after.level1_count == before.level1_count + if 990 < delay_ms <= 59_990 {
            1int
        } else {
            0
        },
        after.level2_count == before.level2_count + if delay_ms > 59_990 {
            1int
        } else {
            0
        },
{
    let levels = old(wheel)@.levels;
    let tick = old(wheel)@.current_tick;
    let due = tick_after(tick, ticks_in(delay_ms));
    let timer = (key, due);
    let after_levels = placed(levels, tick, timer);
    level_count_is_bag_len(levels.l0);
    level_count_is_bag_len(levels.l1);
    level_count_is_bag_len(levels.l2);
    level_count_is_bag_len(after_levels.l0);
    level_count_is_bag_len(after_levels.l1);
    level_count_is_bag_len(after_levels.l2);
    if due - tick < 100 {
        level_bag_push(levels.l0, due as int % 100, timer);
    } else if due - tick < 6000 {
        level_bag_push(levels.l1, (due as int / 100) % 60, timer);
    } else {
        level_bag_push(levels.l2, minute_for(tick, timer.1) % 60, timer);
    }
}

/// A slot gives back the keys that were put in, in order, and is empty then.
pub proof fn slots_give_back_their_keys(
    pushed: &mut WheelSlot,
    drained: &mut WheelSlot,
    key: FlowKey,
    keys: Vec<FlowKey>,
    len: usize,
    empty: bool,
)
    requires
        call_ensures(WheelSlot::push, (pushed, key), ()),
        *final(pushed) == *old(drained),
        call_ensures(WheelSlot::len, (&*old(drained),), len),
        call_ensures(WheelSlot::drain, (drained,), keys),
        call_ensures(WheelSlot::is_empty, (&*final(drained),), empty),
    ensures
        keys@ == old(pushed)@.push(key),
        len == old(pushed)@.len() + 1,
        empty,
{
}

/// The counters of a wheel that are asked for now are those of a given uptime.
pub proof fn wheel_counters_are_of_their_moment(
    wheel: TimingWheel,
    stats: TimingWheelStats,
    stats_at: TimingWheelStats,
    tick: u64,
)
    requires
        call_ensures(TimingWheel::stats, (&wheel,), stats),
        call_ensures(TimingWheel::stats_at, (&wheel, stats.uptime_ms), stats_at),
        call_ensures(TimingWheel::current_tick, (&wheel,), tick),
    ensures
        stats == stats_at,
        stats.current_tick == tick,
{
}

} // verus!
