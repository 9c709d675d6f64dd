use livekit_portal::metrics::{
    DataStream, JitterState, MetricsRegistry, PortalMetrics, SampleRing,
};
use livekit_portal::name_map::NameMap;

#[test]
fn ring_percentile_and_mean() {
    let mut r = SampleRing::new(4);
    assert_eq!(r.percentile(50), None);
    assert_eq!(r.mean(), None);
    for v in [10u64, 20, 30, 40] {
        r.push(v);
    }
    assert_eq!(r.mean(), Some(25));
    assert_eq!(r.percentile(0), Some(10));
    assert_eq!(r.percentile(100), Some(40));

    // Overwrite wraps and bumps len stays at cap.
    r.push(100);
    assert_eq!(r.len(), 4);
    assert_eq!(r.mean(), Some((20 + 30 + 40 + 100) / 4));
}

#[test]
fn jitter_converges_toward_deviation() {
    let mut j = JitterState::default();
    // Perfect alignment: zero jitter forever.
    for i in 0..20u64 {
        j.sample(i * 1_000, i * 1_000);
    }
    assert_eq!(j.jitter_us, 0);

    // 1ms of variation on every other arrival.
    for i in 0..50u64 {
        let send = i * 1_000;
        let recv = send + if i % 2 == 0 { 0 } else { 1_000 };
        j.sample(send, recv);
    }
    // After many samples EWMA should be well below |D|=1000.
    assert!(j.jitter_us > 0 && j.jitter_us < 1_500);
}

#[test]
fn registry_snapshot_picks_up_track_counters() {
    let tracks = vec!["cam1".to_string(), "cam2".to_string()];
    let mut reg = MetricsRegistry::new(&tracks);
    let mut cam1 = reg.track("cam1").unwrap();
    cam1.record_sent();
    cam1.record_sent();
    reg.set_track("cam1", cam1);
    let mut cam2 = reg.track("cam2").unwrap();
    cam2.record_received(0, 100);
    reg.set_track("cam2", cam2);

    let snap = reg.snapshot(NameMap::new(), 0);
    assert_eq!(snap.transport.frames_sent.get("cam1"), Some(&2));
    assert_eq!(snap.transport.frames_sent.get("cam2"), Some(&0));
    assert_eq!(snap.transport.frames_received.get("cam2"), Some(&1));
}

#[test]
fn registry_reset_clears_everything() {
    let tracks = vec!["cam1".to_string()];
    let mut reg = MetricsRegistry::new(&tracks);
    let mut cam1 = reg.track("cam1").unwrap();
    cam1.record_sent();
    reg.set_track("cam1", cam1);
    reg.record_observation(500);
    reg.record_rtt(1000);
    reg.record_blocker(0);

    reg.reset();
    let snap = reg.snapshot(NameMap::new(), 0);
    assert_eq!(snap.transport.frames_sent.get("cam1"), Some(&0));
    assert_eq!(snap.sync.observations_emitted, 0);
    assert!(snap.rtt.rtt_us_last.is_none());
    assert!(snap.sync.last_blocker_track.is_none());
}

#[test]
fn percentiles_are_ranks_of_the_sorted_samples() {
    let mut r = SampleRing::new(256);
    for v in (1..=100u64).rev() {
        r.push(v);
    }
    // Rank (99 * p) rounded to the nearest.
    assert_eq!(r.percentile(50), Some(51));
    assert_eq!(r.percentile(95), Some(95));
    r.clear();
    assert_eq!(r.len(), 0);
    assert_eq!(r.percentile(95), None);
}

#[test]
fn percentiles_agree_with_rounded_float_ranks() {
    for len in 1..=256usize {
        let mut r = SampleRing::new(256);
        for v in 0..len as u64 {
            r.push(v);
        }
        for (percent, p) in [(0u32, 0.0f64), (50, 0.5), (95, 0.95), (100, 1.0)] {
            let rank = ((p * (len - 1) as f64).round() as usize).min(len - 1);
            assert_eq!(r.percentile(percent), Some(rank as u64), "len {len} p {p}");
        }
    }
}

#[test]
fn snapshots_start_out_blank() {
    let m = PortalMetrics::default();
    assert_eq!((m.sync.observations_emitted, m.sync.states_dropped), (0, 0));
    assert!(m.sync.last_blocker_track.is_none() && m.sync.match_delta_us_p95.is_none());
    assert!(m.transport.frames_sent.is_empty() && m.buffers.video_fill.is_empty());
    assert_eq!((m.rtt.pings_sent, m.policy.correlated_received), (0, 0));
    assert!(NameMap::<u64>::default().is_empty());
}

#[test]
fn the_last_blocker_is_named() {
    let tracks = vec!["a".to_string(), "b".to_string()];
    let mut reg = MetricsRegistry::new(&tracks);
    reg.record_blocker(1);
    let snap = reg.snapshot(NameMap::new(), 0);
    assert_eq!(snap.sync.last_blocker_track, Some("b".to_string()));
}

#[test]
fn latency_is_recorded_for_answers_only() {
    let mut reg = MetricsRegistry::new(&[]);
    reg.record_e2e(None, 100);
    reg.record_e2e(Some(200), 100);
    assert_eq!(reg.snapshot(NameMap::new(), 0).policy.correlated_received, 0);
    reg.record_e2e(Some(40), 100);
    let snap = reg.snapshot(NameMap::new(), 0);
    assert_eq!(snap.policy.correlated_received, 1);
    assert_eq!(snap.policy.e2e_us_p50, Some(60));
}

#[test]
fn streams_are_counted_apart() {
    let mut reg = MetricsRegistry::new(&[]);
    reg.bump_sent(DataStream::State);
    reg.bump_sent(DataStream::Action);
    reg.bump_sent(DataStream::Action);
    reg.record_received(DataStream::Chunk, 0, 0);
    let mut fill = NameMap::new();
    fill.insert("cam".to_string(), 3usize);
    let snap = reg.snapshot(fill, 7);
    assert_eq!(snap.transport.states_sent, 1);
    assert_eq!(snap.transport.actions_sent, 2);
    assert_eq!(snap.transport.action_chunks_received, 1);
    assert_eq!(snap.buffers.state_fill, 7);
    assert_eq!(snap.buffers.video_fill.get("cam"), Some(&3));
}
