use livekit_portal::metrics::MetricsRegistry;
use livekit_portal::name_map::NameMap;
use livekit_portal::types::{Role, TimeSyncSource};
use livekit_portal::clock::{
    handle_clock_packet, next_ping, ping_interval_us, shift_time, ClockAction, ClockPacket,
    EstimatorEvent, Exchange, MonotonicClock, OffsetEstimator, Sample, SyncedClock,
    MIN_SAMPLES_TO_SYNC, PING_KIND, PING_LEN, PONG_KIND, PONG_LEN, RESYNC_RUN,
    SYNCED_PING_INTERVAL_US, UNSYNCED_PING_INTERVAL_US,
};

const MS: u64 = 1_000;
const S: u64 = 1_000_000;

/// An exchange with a robot `offset` ahead, `up`/`down` one-way delays, and
/// `hold` spent on the robot, starting at local time `t1`.
fn exchange(t1: u64, offset: i64, up: u64, down: u64, hold: u64) -> Sample {
    let t2 = (t1 + up).saturating_add_signed(offset);
    let t3 = t2 + hold;
    let t4 = t1 + up + hold + down;
    Sample::try_from(Exchange { t1, t2, t3, t4 }).expect("consistent exchange")
}

fn synced_estimator(offset: i64) -> (OffsetEstimator, u64) {
    let mut est = OffsetEstimator::default();
    let mut t = 100 * S;
    for _ in 0..MIN_SAMPLES_TO_SYNC {
        est.push(exchange(t, offset, 5 * MS, 5 * MS, 0));
        t += 250 * MS;
    }
    assert!(est.is_synced());
    (est, t)
}

#[test]
fn packet_roundtrip() {
    let ping = ClockPacket::Ping { seq: 7, t1: 123_456 };
    let pong = ClockPacket::Pong { seq: u32::MAX, t1: 1, t2: u64::MAX, t3: 3 };
    assert_eq!(ClockPacket::decode(&ping.encode()), Some(ping));
    assert_eq!(ClockPacket::decode(&pong.encode()), Some(pong));
}

#[test]
fn malformed_packets_are_ignored() {
    assert_eq!(ClockPacket::decode(&[]), None);
    assert_eq!(ClockPacket::decode(&[PING_KIND; PONG_LEN]), None);
    assert_eq!(ClockPacket::decode(&[PONG_KIND; PING_LEN]), None);
    assert_eq!(ClockPacket::decode(&[9; PING_LEN]), None);

    // Fixed-seed xorshift over random lengths and bytes: decode must never panic.
    let mut x: u64 = 0x9E37_79B9_7F4A_7C15;
    for _ in 0..10_000 {
        x ^= x << 13;
        x ^= x >> 7;
        x ^= x << 17;
        let len = (x % 40) as usize;
        let bytes: Vec<u8> = (0..len).map(|i| (x >> (i % 8 * 8)) as u8).collect();
        let _ = ClockPacket::decode(&bytes);
    }
}

#[test]
fn symmetric_delay_gives_exact_offset() {
    let s = exchange(10 * S, 5 * S as i64, 20 * MS, 20 * MS, MS);
    assert_eq!(s.offset_us, 5 * S as i64);
    assert_eq!(s.rtt_us, 40 * MS);

    let s = exchange(10 * S, -3 * S as i64, 7 * MS, 7 * MS, 0);
    assert_eq!(s.offset_us, -3 * S as i64);
}

#[test]
fn asymmetric_delay_stays_within_uncertainty() {
    let mut est = OffsetEstimator::default();
    let offset = 2 * S as i64;
    for i in 0..MIN_SAMPLES_TO_SYNC as u64 {
        est.push(exchange(10 * S + i * 250 * MS, offset, 30 * MS, 2 * MS, 0));
    }
    let error = est.offset_us().expect("synced").abs_diff(offset);
    assert!(error <= est.uncertainty_us().expect("synced"));
}

#[test]
fn inconsistent_exchange_is_rejected() {
    // Robot claims it held the ping longer than the round trip lasted.
    let e = Exchange { t1: 100, t2: 1_000, t3: 5_000, t4: 200 };
    assert!(Sample::try_from(e).is_none());
    let e = Exchange { t1: 200, t2: 0, t3: 0, t4: 100 };
    assert!(Sample::try_from(e).is_none());
}

#[test]
fn syncs_after_min_samples() {
    let mut est = OffsetEstimator::default();
    for i in 0..MIN_SAMPLES_TO_SYNC as u64 - 1 {
        assert_eq!(est.push(exchange(i * 250 * MS, 0, MS, MS, 0)), EstimatorEvent::Pending);
        assert_eq!(est.offset_us(), None);
    }
    assert_eq!(est.push(exchange(S, 0, MS, MS, 0)), EstimatorEvent::Synced);
    assert_eq!(est.push(exchange(2 * S, 0, MS, MS, 0)), EstimatorEvent::Updated);
}

#[test]
fn uses_smallest_rtt_sample_in_window() {
    let mut est = OffsetEstimator::default();
    est.push(exchange(0, 1_000, 40 * MS, 10 * MS, 0));
    est.push(exchange(S, 2_000, 2 * MS, 2 * MS, 0));
    est.push(exchange(2 * S, 3_000, 30 * MS, 30 * MS, 0));
    est.push(exchange(3 * S, 4_000, 20 * MS, 20 * MS, 0));
    assert_eq!(est.offset_us(), Some(2_000));
    assert_eq!(est.uncertainty_us(), Some(2 * MS));
}

#[test]
fn old_samples_leave_the_window() {
    let mut est = OffsetEstimator::default();
    est.push(exchange(0, 1_000, MS, MS, 0));
    for i in 1..=4 {
        est.push(exchange(i * 3 * S, 9_000, 10 * MS, 10 * MS, 0));
    }
    // The best sample (t=0) is now more than 10 s older than the newest.
    assert_eq!(est.offset_us(), Some(9_000));
}

#[test]
fn single_jump_is_rejected() {
    let (mut est, t) = synced_estimator(0);
    assert_eq!(est.push(exchange(t, 5 * S as i64, MS, MS, 0)), EstimatorEvent::Rejected);
    assert_eq!(est.samples_rejected(), 1);
    assert_eq!(est.offset_us(), Some(0));
}

#[test]
fn agreeing_jumps_resync() {
    let (mut est, mut t) = synced_estimator(0);
    let jumped = 5 * S as i64;
    for i in 0..RESYNC_RUN - 1 {
        let jitter = (i as i64 % 3) * 10 * MS as i64;
        assert_eq!(est.push(exchange(t, jumped + jitter, MS, MS, 0)), EstimatorEvent::Rejected);
        t += S;
    }
    assert_eq!(est.push(exchange(t, jumped, MS, MS, 0)), EstimatorEvent::Resynced);
    assert_eq!(est.resyncs(), 1);
    assert_eq!(est.offset_us().map(|o| o.abs_diff(jumped) <= 20 * MS), Some(true));
}

#[test]
fn a_normal_sample_breaks_the_jump_run() {
    let (mut est, mut t) = synced_estimator(0);
    for _ in 0..RESYNC_RUN - 1 {
        est.push(exchange(t, 5 * S as i64, MS, MS, 0));
        t += S;
    }
    assert_eq!(est.push(exchange(t, 0, MS, MS, 0)), EstimatorEvent::Updated);
    t += S;
    assert_eq!(est.push(exchange(t, 5 * S as i64, MS, MS, 0)), EstimatorEvent::Rejected);
    assert_eq!(est.resyncs(), 0);
}

#[test]
fn disagreeing_jumps_do_not_resync() {
    let (mut est, mut t) = synced_estimator(0);
    for i in 0..RESYNC_RUN * 2 {
        let offset = if i % 2 == 0 { 5 * S as i64 } else { -5 * S as i64 };
        assert_eq!(est.push(exchange(t, offset, MS, MS, 0)), EstimatorEvent::Rejected);
        t += S;
    }
    assert_eq!(est.resyncs(), 0);
}

#[test]
fn clock_never_repeats() {
    let mut clock = MonotonicClock::default();
    let a = clock.now(1_000);
    let b = clock.now(1_000);
    let c = clock.now(999);
    assert!(a < b && b < c);
}

#[test]
fn forward_correction_applies_immediately() {
    let mut clock = MonotonicClock::default();
    clock.now(1_000);
    clock.set_target(5 * S as i64);
    assert_eq!(clock.now(1_001), 1_001 + 5 * S);
}

#[test]
fn backward_correction_is_absorbed_gradually() {
    let mut clock = MonotonicClock::default();
    clock.set_target(S as i64);
    let mut raw = 10 * S;
    let mut last = clock.now(raw);
    clock.set_target(0);

    let step = 10 * MS;
    let mut elapsed = 0;
    while clock.applied_offset_us() > 0 {
        raw += step;
        elapsed += step;
        let out = clock.now(raw);
        assert!(out - last >= step * 19 / 20, "clock ran slower than 95%");
        last = out;
        assert!(elapsed <= 21 * S, "took too long to absorb");
    }
    assert!(elapsed >= 19 * S, "absorbed faster than the slew rate allows");
    raw += step;
    assert_eq!(clock.now(raw), raw);
}

#[test]
fn reference_clock_starts_synced() {
    let robot = SyncedClock::new(true, 0);
    assert!(robot.metrics().synced);
    assert_eq!(robot.metrics().uncertainty_us, Some(0));
    let operator = SyncedClock::new(false, 0);
    assert!(!operator.metrics().synced);
    assert_eq!(operator.metrics().uncertainty_us, None);
}

#[test]
fn new_robot_restarts_estimate() {
    let mut clock = SyncedClock::new(false, 0);
    for i in 0..MIN_SAMPLES_TO_SYNC as u64 {
        clock.record("robot-a", exchange(i * 250 * MS, 2 * S as i64, MS, MS, 0));
    }
    assert!(clock.is_synced());
    let event = clock.record("robot-b", exchange(2 * S, 7 * S as i64, MS, MS, 0));
    assert_eq!(event, EstimatorEvent::Pending);
    assert!(!clock.is_synced());
}

#[test]
fn a_clock_that_trusts_the_host_only_measures() {
    let mut clock = SyncedClock::new(false, 0);
    assert_eq!(clock.metrics().source, TimeSyncSource::Portal);
    assert_eq!(clock.metrics().measured_offset_us, None);
    clock.set_source(TimeSyncSource::System);
    for i in 0..MIN_SAMPLES_TO_SYNC as u64 {
        clock.record("robot-a", exchange(i * 250 * MS, 2 * S as i64, MS, MS, 0));
    }
    let m = clock.metrics();
    assert_eq!(m.source, TimeSyncSource::System);
    assert_eq!(m.measured_offset_us, Some(2 * S as i64));
    assert_eq!(m.offset_us, 0);
    clock.set_source(TimeSyncSource::Portal);
    clock.record("robot-a", exchange(5 * S, 2 * S as i64, MS, MS, 0));
    assert_eq!(clock.metrics().offset_us, 2 * S as i64);
}

#[test]
fn clock_packets_have_fixed_layouts() {
    let ping = ClockPacket::Ping { seq: 0x0102_0304, t1: 5 }.encode();
    assert_eq!(ping, vec![PING_KIND, 4, 3, 2, 1, 5, 0, 0, 0, 0, 0, 0, 0]);
    let pong = ClockPacket::Pong { seq: 1, t1: 2, t2: 3, t3: 4 }.encode();
    assert_eq!(pong.len(), PONG_LEN);
    assert_eq!(pong[0], PONG_KIND);
    assert_eq!(&pong[21..29], &[4, 0, 0, 0, 0, 0, 0, 0]);
}

#[test]
fn shifting_time_stays_in_range() {
    assert_eq!(shift_time(100, 50), 150);
    assert_eq!(shift_time(100, -50), 50);
    assert_eq!(shift_time(100, -500), 0);
    assert_eq!(shift_time(u64::MAX, 1), u64::MAX);
}

#[test]
fn ping_interval_depends_on_sync() {
    assert_eq!(ping_interval_us(false), UNSYNCED_PING_INTERVAL_US);
    assert_eq!(ping_interval_us(true), SYNCED_PING_INTERVAL_US);
}

#[test]
fn counters_reset_but_sync_stays() {
    let (mut est, t) = synced_estimator(0);
    est.push(exchange(t, 5 * S as i64, MS, MS, 0));
    assert_eq!(est.samples_rejected(), 1);
    est.reset_counters();
    assert_eq!(est.samples_rejected(), 0);
    assert!(est.is_synced());
}

#[test]
fn robot_answers_and_operator_samples() {
    let mut metrics = MetricsRegistry::new(&[]);
    let mut clock = SyncedClock::new(true, 0);
    let robot = Some("robot".to_string());
    let action = handle_clock_packet(
        Role::Robot,
        ClockPacket::Ping { seq: 9, t1: 100 },
        "op",
        &None,
        500,
        510,
        &mut clock,
        &mut metrics,
    );
    assert!(matches!(
        action,
        ClockAction::Answer(ClockPacket::Pong { seq: 9, t1: 100, t2: 500, t3: 510 })
    ));

    let mut clock = SyncedClock::new(false, 0);
    let mut announced = 0;
    for i in 0..MIN_SAMPLES_TO_SYNC as u64 {
        let t1 = i * 250 * MS;
        let pong = ClockPacket::Pong { seq: i as u32, t1, t2: t1 + S, t3: t1 + S };
        let action = handle_clock_packet(
            Role::Operator,
            pong,
            "robot",
            &robot,
            t1 + 2 * MS,
            0,
            &mut clock,
            &mut metrics,
        );
        assert!(matches!(action, ClockAction::Sampled(_)));
        if action.announces_sync() {
            announced += 1;
        }
    }
    assert_eq!(announced, 1);
    assert!(clock.is_synced());
    assert_eq!(clock.metrics().offset_us, (S - MS) as i64);
    let snap = metrics.snapshot(NameMap::new(), 0);
    assert_eq!(snap.rtt.pongs_received, 4);
    assert_eq!(snap.rtt.rtt_us_last, Some(2 * MS));

    // Pongs of anyone else are ignored.
    let pong = ClockPacket::Pong { seq: 0, t1: 0, t2: 0, t3: 0 };
    let action = handle_clock_packet(
        Role::Operator,
        pong,
        "someone",
        &robot,
        10,
        0,
        &mut clock,
        &mut metrics,
    );
    assert!(matches!(action, ClockAction::Ignore));
}

#[test]
fn pings_wait_for_a_robot() {
    let mut metrics = MetricsRegistry::new(&[]);
    assert!(next_ping(&None, 1, 5, &mut metrics).is_none());
    let (packet, to) = next_ping(&Some("r".to_string()), 1, 5, &mut metrics).unwrap();
    assert_eq!(packet, ClockPacket::Ping { seq: 1, t1: 5 });
    assert_eq!(to, "r");
    assert_eq!(metrics.snapshot(NameMap::new(), 0).rtt.pings_sent, 1);
}

#[test]
fn synced_clock_shifts_by_the_skew() {
    let mut clock = SyncedClock::new(true, 500);
    assert_eq!(clock.raw_us(1_000), 1_500);
    assert_eq!(clock.now_us(1_000), 1_500);
    assert_eq!(clock.now_us(1_000), 1_501);
}
