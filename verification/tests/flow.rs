use zero_copy_analyzer::flow::table::flow_key_bytes;
use zero_copy_analyzer::flow::timer_wheel::{TimingWheelStats, WheelSlot};
use zero_copy_analyzer::flow::{FlowEntry, FlowState, FlowTable, FlowTableStats, TimingWheel};
use zero_copy_analyzer::parser::{FlowKey, IpAddr, Ipv4Addr, Protocol};

fn flow_key(host: u8, src_port: u16) -> FlowKey {
    FlowKey::new(
        IpAddr::V4(Ipv4Addr::new(192, 168, 1, host)),
        IpAddr::V4(Ipv4Addr::new(10, 0, 0, 1)),
        src_port,
        80,
        Protocol::Tcp,
    )
}

#[test]
fn test_flow_table_insert() {
    let mut table = FlowTable::new(1000);

    let key = FlowKey::new(
        IpAddr::V4(Ipv4Addr::new(192, 168, 1, 1)),
        IpAddr::V4(Ipv4Addr::new(10, 0, 0, 1)),
        12345,
        80,
        Protocol::Tcp,
    );

    let is_new = table.insert_or_update(key, 1500, 0x02, None, None);
    assert!(is_new);

    let is_new = table.insert_or_update(key, 100, 0x10, None, None);
    assert!(!is_new);

    assert_eq!(table.len(), 1);
}

#[test]
fn test_flow_table_get() {
    let mut table = FlowTable::new(1000);

    let key = FlowKey::new(
        IpAddr::V4(Ipv4Addr::new(192, 168, 1, 1)),
        IpAddr::V4(Ipv4Addr::new(10, 0, 0, 1)),
        12345,
        80,
        Protocol::Tcp,
    );

    table.insert_or_update(key, 1500, 0x02, None, None);

    let state = table.get(&key).unwrap();
    assert_eq!(state.packet_count, 1);
    assert_eq!(state.byte_count, 1500);
}

#[test]
fn test_flow_table_top_n() {
    let mut table = FlowTable::new(1000);

    for i in 0..10u8 {
        let key = FlowKey::new(
            IpAddr::V4(Ipv4Addr::new(192, 168, 1, i)),
            IpAddr::V4(Ipv4Addr::new(10, 0, 0, 1)),
            12345,
            80,
            Protocol::Tcp,
        );
        table.insert_or_update(key, (i as usize + 1) * 1000, 0, None, None);
    }

    let top = table.top_n_by_bytes(3);
    assert_eq!(top.len(), 3);
    assert!(top[0].1.byte_count >= top[1].1.byte_count);
    assert_eq!(top[0].1.byte_count, 10000);
    assert_eq!(top[2].1.byte_count, 8000);
}

#[test]
fn test_schedule_and_expire() {
    let mut wheel = TimingWheel::new();

    let key = FlowKey::new(
        IpAddr::V4(Ipv4Addr::new(192, 168, 1, 1)),
        IpAddr::V4(Ipv4Addr::new(10, 0, 0, 1)),
        12345,
        80,
        Protocol::Tcp,
    );

    wheel.schedule(key, 50);
    assert_eq!(wheel.pending_count(), 1);

    let expired = wheel.tick(70);

    assert!(!expired.is_empty());
    assert_eq!(wheel.pending_count(), 0);
}

#[test]
fn test_cancel_timer() {
    let mut wheel = TimingWheel::new();

    let key = FlowKey::new(
        IpAddr::V4(Ipv4Addr::new(192, 168, 1, 1)),
        IpAddr::V4(Ipv4Addr::new(10, 0, 0, 1)),
        12345,
        80,
        Protocol::Tcp,
    );

    wheel.schedule(key, 10_000);
    assert_eq!(wheel.pending_count(), 1);

    let cancelled = wheel.cancel(&key);
    assert!(cancelled);
    assert_eq!(wheel.pending_count(), 0);
}

#[test]
fn test_stats() {
    let mut wheel = TimingWheel::new();

    for i in 0..10u8 {
        let key = FlowKey::new(
            IpAddr::V4(Ipv4Addr::new(192, 168, 1, i)),
            IpAddr::V4(Ipv4Addr::new(10, 0, 0, 1)),
            12345 + i as u16,
            80,
            Protocol::Tcp,
        );
        wheel.schedule(key, 100);
    }

    let stats = wheel.stats();
    assert_eq!(stats.total_scheduled, 10);
    assert_eq!(stats.total_pending(), 10);
}

#[test]
fn test_flow_table_insert_and_update() {
    let mut table = FlowTable::new(1000);

    let key = FlowKey::new(
        IpAddr::V4(Ipv4Addr::new(192, 168, 1, 1)),
        IpAddr::V4(Ipv4Addr::new(10, 0, 0, 1)),
        12345,
        80,
        Protocol::Tcp,
    );

    let is_new = table.insert_or_update(key, 1500, 0x02, None, None);
    assert!(is_new);
    assert_eq!(table.len(), 1);

    let is_new = table.insert_or_update(key, 100, 0x10, None, None);
    assert!(!is_new);
    assert_eq!(table.len(), 1);

    let state = table.get(&key).unwrap();
    assert_eq!(state.packet_count, 2);
    assert_eq!(state.byte_count, 1600);
}

#[test]
fn test_flow_table_multiple_flows() {
    let mut table = FlowTable::new(1000);

    for i in 0..100 {
        let key = FlowKey::new(
            IpAddr::V4(Ipv4Addr::new(192, 168, 1, (i % 256) as u8)),
            IpAddr::V4(Ipv4Addr::new(10, 0, 0, 1)),
            10000 + i as u16,
            80,
            Protocol::Tcp,
        );
        table.insert_or_update(key, 1500, 0x02, None, None);
    }

    assert_eq!(table.len(), 100);

    let top = table.top_n_by_bytes(10);
    assert_eq!(top.len(), 10);
}

#[test]
fn test_timing_wheel_schedule_expire() {
    let mut wheel = TimingWheel::new();

    let key = FlowKey::new(
        IpAddr::V4(Ipv4Addr::new(192, 168, 1, 1)),
        IpAddr::V4(Ipv4Addr::new(10, 0, 0, 1)),
        12345,
        80,
        Protocol::Tcp,
    );

    wheel.schedule(key, 5);
    assert_eq!(wheel.pending_count(), 1);

    let expired = wheel.tick(20);

    assert!(!expired.is_empty());
    assert_eq!(wheel.pending_count(), 0);
}

#[test]
fn flow_state_follows_its_packets() {
    let mut state = FlowState::new_at(1000);
    state.update_at(100, 0x02, Some(7), None, 2000);
    state.update_at(50, 0x10, Some(8), Some(9), 5000);
    assert_eq!(state.packet_count, 2);
    assert_eq!(state.byte_count, 150);
    assert_eq!(state.first_seen_ns, 1000);
    assert_eq!(state.last_seen_ns, 5000);
    assert_eq!(state.tcp_flags, 0x12);
    assert_eq!(state.initial_seq, Some(7));
    assert_eq!(state.last_ack, Some(9));
    assert_eq!(state.duration_ns(), 4000);
    assert!(!state.is_complete_tcp_connection());
    state.update_at(0, 0x01, None, None, 400);
    assert!(state.is_complete_tcp_connection());
    assert_eq!(state.duration_ns(), 0);
    assert_eq!(state.last_ack, None);
}

#[test]
fn flow_state_by_the_clock() {
    let mut state = FlowState::new();
    // After the year 2020, before the year 2500.
    assert!(state.first_seen_ns > 1_577_836_800_000_000_000);
    assert!(state.first_seen_ns < 16_725_225_600_000_000_000);
    assert_eq!(state.packet_count, 0);
    state.update(10, 0, None, None);
    assert_eq!(state.packet_count, 1);
    assert!(!state.is_idle(1_000_000_000_000));
    state.last_seen_ns = 0;
    assert!(state.is_idle(1_000_000_000_000));
    assert_eq!(FlowState::default().byte_count, 0);
}

#[test]
fn idle_means_longer_than_the_timeout() {
    let state = FlowState::new_at(1000);
    assert!(!state.is_idle_at(500, 1500));
    assert!(state.is_idle_at(500, 1501));
    assert!(!state.is_idle_at(0, 0));
}

#[test]
fn a_full_table_turns_new_flows_away() {
    let mut table = FlowTable::new(2);
    assert!(table.insert_or_update_at(flow_key(1, 1), 10, 0, None, None, 1));
    assert!(table.insert_or_update_at(flow_key(2, 1), 20, 0, None, None, 2));
    assert!(!table.insert_or_update_at(flow_key(3, 1), 30, 0, None, None, 3));
    assert!(!table.insert_or_update_at(flow_key(1, 1), 40, 0, None, None, 4));
    assert_eq!(table.len(), 2);
    assert!(table.get(&flow_key(3, 1)).is_none());
    let stats = table.stats();
    assert_eq!(stats.total_flows, 2);
    assert_eq!(stats.active_flows, 2);
    assert_eq!(stats.collisions, 1);
    assert_eq!(stats.total_packets, 3);
    assert_eq!(stats.total_bytes, 70);
    assert_eq!(stats.expired_flows, 0);
}

#[test]
fn keys_that_differ_anywhere_are_different_flows() {
    let base = flow_key(1, 1);
    let keys = [
        base,
        FlowKey { src_port: 2, ..base },
        FlowKey { dst_port: 2, ..base },
        FlowKey { protocol: Protocol::Udp, ..base },
        FlowKey { protocol: Protocol::Mptcp, ..base },
        FlowKey { src_ip: IpAddr::V4(Ipv4Addr::new(192, 168, 1, 2)), ..base },
        FlowKey { src_ip: IpAddr::V6([192, 168, 1, 1, 0, 0, 0, 0, 0, 0, 0, 0, 0, 0, 0, 0]), ..base },
        FlowKey { dst_ip: IpAddr::V6([10, 0, 0, 1, 0, 0, 0, 0, 0, 0, 0, 0, 0, 0, 0, 0]), ..base },
    ];
    let mut table = FlowTable::default();
    for (i, key) in keys.iter().enumerate() {
        assert!(table.insert_or_update_at(*key, i, 0, None, None, 0));
    }
    assert_eq!(table.len(), keys.len());
    let mut listed = table.iter();
    assert_eq!(listed.len(), keys.len());
    listed.sort_by_key(|(_, state)| state.byte_count);
    for (i, (key, state)) in listed.iter().enumerate() {
        assert_eq!(*key, keys[i]);
        assert_eq!(state.byte_count, i as u64);
    }
}

#[test]
fn removing_a_flow() {
    let mut table = FlowTable::new(10);
    table.insert_or_update_at(flow_key(1, 1), 10, 0, None, None, 1);
    table.insert_or_update_at(flow_key(2, 1), 20, 0, None, None, 1);
    assert_eq!(table.remove(&flow_key(1, 1)).unwrap().byte_count, 10);
    assert!(table.remove(&flow_key(1, 1)).is_none());
    assert_eq!(table.len(), 1);
    assert_eq!(table.get(&flow_key(2, 1)).unwrap().byte_count, 20);
}

#[test]
fn idle_flows_expire() {
    let mut table = FlowTable::new(10);
    table.insert_or_update_at(flow_key(1, 1), 10, 0, None, None, 100);
    table.insert_or_update_at(flow_key(2, 1), 20, 0, None, None, 200);
    table.insert_or_update_at(flow_key(3, 1), 30, 0, None, None, 300);
    let mut expired = table.remove_expired_at(100, 301);
    expired.sort_by_key(|(_, state)| state.byte_count);
    assert_eq!(expired.len(), 2);
    assert_eq!(expired[0].0, flow_key(1, 1));
    assert_eq!(expired[1].0, flow_key(2, 1));
    assert_eq!(table.len(), 1);
    assert_eq!(table.stats().expired_flows, 2);
    assert!(table.remove_expired_at(100, 301).is_empty());
    // The flow was last seen at the epoch, long ago by the clock.
    assert_eq!(table.remove_expired(1_000_000_000).len(), 1);
    assert!(table.is_empty());
}

#[test]
fn clearing_keeps_the_counters() {
    let mut table = FlowTable::new(10);
    table.insert_or_update_at(flow_key(1, 1), 10, 0, None, None, 1);
    assert!(!table.is_empty());
    table.clear();
    assert!(table.is_empty());
    assert_eq!(table.len(), 0);
    assert_eq!(table.stats().total_packets, 1);
    table.reserve(100);
    table.reserve(usize::MAX);
    assert_eq!(table.len(), 0);
    assert_eq!(table.capacity(), 10);
}

#[test]
fn full_at_capacity() {
    let mut table = FlowTable::new(4);
    for host in 1..=4 {
        assert!(!table.is_full());
        assert!(table.insert_or_update_at(flow_key(host, 1), 1, 0, None, None, 1));
    }
    assert!(table.is_full());
    assert!(!table.insert_or_update_at(flow_key(5, 1), 1, 0, None, None, 1));
    assert!(table.get(&flow_key(5, 1)).is_none());
    table.remove(&flow_key(1, 1));
    assert!(!table.is_full());
    assert!(FlowTable::new(0).is_full());
}

#[test]
fn load_factors_lie_between_10_and_95_percent() {
    assert_eq!(FlowTable::new(4).load_percent(), 75);
    assert_eq!(FlowTable::with_load_factor(10, 0).load_percent(), 10);
    assert_eq!(FlowTable::with_load_factor(10, 50).load_percent(), 50);
    assert_eq!(FlowTable::with_load_factor(10, 100).load_percent(), 95);
    assert!(!FlowTable::with_load_factor(10, 0).is_full());
}

#[test]
fn ranking_by_packets() {
    let mut table = FlowTable::new(10);
    for host in 1..=5u8 {
        for _ in 0..host {
            table.insert_or_update_at(flow_key(host, 1), 100 - host as usize, 0, None, None, 1);
        }
    }
    let top = table.top_n_by_packets(2);
    assert_eq!(top[0].0, flow_key(5, 1));
    assert_eq!(top[1].0, flow_key(4, 1));
    assert_eq!(table.top_n_by_packets(0).len(), 0);
    let all = table.top_n_by_packets(usize::MAX);
    assert_eq!(all.len(), 5);
    assert_eq!(all[4].1.packet_count, 1);
}

#[test]
fn bytes_and_hash_of_a_key() {
    let bytes = flow_key_bytes(&flow_key(7, 0x1234));
    assert_eq!(bytes.len(), 36);
    assert_eq!(&bytes[0..5], &[192, 168, 1, 7, 4]);
    assert_eq!(&bytes[5..16], &[0; 11]);
    assert_eq!(&bytes[16..20], &[10, 0, 0, 1]);
    assert_eq!(&bytes[32..36], &[0x12, 0x34, 0, 80]);

    let v6 = FlowKey { src_ip: IpAddr::V6([9; 16]), dst_ip: IpAddr::V6([8; 16]), ..flow_key(7, 1) };
    let bytes = flow_key_bytes(&v6);
    assert_eq!(&bytes[0..6], &[9, 9, 9, 9, 6, 9]);
    assert_eq!(&bytes[16..32], &[8; 16]);

    let table = FlowTable::new(1);
    assert_eq!(table.hash_key(&v6), xxhash_rust::xxh3::xxh3_64(&bytes));
    assert!(table.hash_key(&v6) != table.hash_key(&flow_key(7, 1)));
}

#[test]
fn entries_hold_their_hash() {
    let entry = FlowEntry::new(flow_key(1, 1), 99);
    assert_eq!(entry.key, flow_key(1, 1));
    assert_eq!(entry.hash, 99);
    assert_eq!(entry.state.packet_count, 0);
    assert_eq!(FlowTableStats::default().total_flows, 0);
}

#[test]
fn slots_keep_their_keys_in_order() {
    let mut slot = WheelSlot::new();
    assert!(slot.is_empty());
    for port in 0..6 {
        slot.push(flow_key(1, port));
    }
    assert_eq!(slot.len(), 6);
    let keys = slot.drain();
    assert_eq!(keys.len(), 6);
    for port in 0..6 {
        assert_eq!(keys[port as usize], flow_key(1, port));
    }
    assert!(slot.is_empty());
    assert!(WheelSlot::default().is_empty());
}

#[test]
fn short_timers_expire_at_their_tick() {
    let mut wheel = TimingWheel::new();
    wheel.schedule(flow_key(1, 1), 0);
    wheel.schedule(flow_key(2, 1), 41);
    wheel.schedule(flow_key(3, 1), 990);
    assert_eq!(wheel.tick(0), vec![]);
    assert_eq!(wheel.tick(10), vec![flow_key(1, 1)]);
    // 41 ms are 5 ticks, the sixth of which is number 5.
    assert_eq!(wheel.tick(40), vec![]);
    assert_eq!(wheel.tick(1), vec![flow_key(2, 1)]);
    assert_eq!(wheel.current_tick(), 6);
    assert_eq!(wheel.tick(930), vec![]);
    assert_eq!(wheel.tick(10), vec![flow_key(3, 1)]);
}

#[test]
fn timers_within_a_minute_expire_at_their_tick() {
    let mut wheel = TimingWheel::new();
    wheel.tick(550);
    // Tick 55 and 250 ticks: due at tick 305.
    wheel.schedule(flow_key(1, 1), 2500);
    assert_eq!(wheel.stats_at(0).level1_count, 1);
    assert_eq!(wheel.tick(2450), vec![]);
    assert_eq!(wheel.current_tick(), 300);
    assert_eq!(wheel.tick(10), vec![]);
    assert_eq!(wheel.stats_at(0).level0_count, 1);
    assert_eq!(wheel.tick(40), vec![]);
    assert_eq!(wheel.tick(10), vec![flow_key(1, 1)]);
}

#[test]
fn timers_of_minutes_expire_at_their_tick() {
    let mut wheel = TimingWheel::new();
    wheel.schedule(flow_key(1, 1), 120_000);
    assert_eq!(wheel.stats_at(0).level2_count, 1);
    assert_eq!(wheel.tick(120_000), vec![]);
    assert_eq!(wheel.stats_at(0).level2_count, 1);
    assert_eq!(wheel.tick(10), vec![flow_key(1, 1)]);

    // From tick 12001 on: 90.5 seconds are due at tick 21051.
    wheel.schedule(flow_key(2, 1), 90_500);
    assert_eq!(wheel.tick(60_000), vec![]);
    assert_eq!(wheel.stats_at(0).level1_count, 1);
    assert_eq!(wheel.tick(30_500), vec![]);
    assert_eq!(wheel.tick(10), vec![flow_key(2, 1)]);
}

#[test]
fn timers_a_minute_off_do_not_expire_early() {
    let mut wheel = TimingWheel::new();
    wheel.tick(59_990);
    wheel.schedule(flow_key(1, 1), 60_000);
    assert_eq!(wheel.tick(60_000), vec![]);
    assert_eq!(wheel.tick(10), vec![flow_key(1, 1)]);
}

#[test]
fn timers_beyond_an_hour_wait_for_their_tick() {
    let mut wheel = TimingWheel::new();
    wheel.tick(1230);
    wheel.schedule(flow_key(1, 1), 3 * 3_600_000);
    wheel.schedule(flow_key(2, 1), u64::MAX);
    assert_eq!(wheel.tick(3 * 3_600_000), vec![]);
    assert_eq!(wheel.tick(10), vec![flow_key(1, 1)]);
    assert_eq!(wheel.pending_count(), 1);
}

#[test]
fn timers_expire_in_the_order_in_which_they_are_due() {
    let mut wheel = TimingWheel::new();
    let delays = [61_000u64, 2000, 10, 130_000, 1990, 60_000];
    for (i, delay) in delays.iter().enumerate() {
        wheel.schedule(flow_key(i as u8, 1), *delay);
    }
    let order: Vec<FlowKey> = [2u8, 4, 1, 5, 0, 3].iter().map(|i| flow_key(*i, 1)).collect();
    assert_eq!(wheel.tick(140_000), order);
}

#[test]
fn no_timer_is_lost_or_doubled() {
    let mut wheel = TimingWheel::new();
    let delays = [0u64, 10, 999, 1000, 5000, 59_999, 60_000, 600_000, 3_000_000];
    for (i, delay) in delays.iter().enumerate() {
        wheel.schedule(flow_key(i as u8, 1), *delay);
    }
    let mut seen: Vec<FlowKey> = Vec::new();
    for _ in 0..4000 {
        seen.extend(wheel.tick(1000));
    }
    assert_eq!(seen.len(), delays.len());
    for i in 0..delays.len() {
        assert_eq!(seen.iter().filter(|k| **k == flow_key(i as u8, 1)).count(), 1);
    }
    assert_eq!(wheel.pending_count(), 0);
    let stats = wheel.stats_at(5);
    assert_eq!(stats.total_scheduled, 9);
    assert_eq!(stats.total_expired, 9);
    assert_eq!(stats.uptime_ms, 5);
    assert_eq!(stats.current_tick, 400_000);
}

#[test]
fn cancelling_takes_one_timer_from_any_level() {
    let mut wheel = TimingWheel::default();
    for delay in [100, 2000, 120_000] {
        wheel.schedule(flow_key(1, 1), delay);
        wheel.schedule(flow_key(2, 1), delay);
    }
    for left in [5, 4, 3] {
        assert!(wheel.cancel(&flow_key(1, 1)));
        assert_eq!(wheel.pending_count(), left);
    }
    assert!(!wheel.cancel(&flow_key(1, 1)));
    assert_eq!(wheel.pending_count(), 3);
    wheel.clear();
    assert_eq!(wheel.pending_count(), 0);
    assert_eq!(wheel.stats_at(0).total_scheduled, 6);
    assert!(!wheel.cancel(&flow_key(2, 1)));
    assert_eq!(TimingWheelStats::default().total_pending(), 0);
}

#[test]
fn a_flow_that_was_just_updated_is_not_idle() {
    let mut state = FlowState::new_at(0);
    assert!(state.is_idle_at(0, 9));
    state.update_at(1, 0, None, None, 9);
    assert!(!state.is_idle_at(0, 9));
}

#[test]
fn opening_and_removing_a_flow_leaves_the_others() {
    let mut table = FlowTable::new(3);
    table.insert_or_update_at(flow_key(1, 1), 10, 0, None, None, 1);
    let before = table.get(&flow_key(1, 1));
    table.insert_or_update_at(flow_key(2, 1), 20, 0, None, None, 2);
    table.remove(&flow_key(2, 1));
    assert_eq!(table.get(&flow_key(1, 1)), before);
    assert_eq!(table.len(), 1);
}

#[test]
fn cancelling_a_new_timer_undoes_it() {
    let mut wheel = TimingWheel::new();
    wheel.schedule(flow_key(1, 1), 30);
    for delay in [30, 5000, 300_000] {
        wheel.schedule(flow_key(2, 1), delay);
        assert!(wheel.cancel(&flow_key(2, 1)));
    }
    assert_eq!(wheel.pending_count(), 1);
    assert_eq!(wheel.tick(400_000), vec![flow_key(1, 1)]);
}
