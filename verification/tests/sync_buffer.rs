use std::sync::Arc;

use bytes::Bytes;
use livekit_portal::config::FieldSpec;
use livekit_portal::dtype::DType;
use livekit_portal::metrics::MetricsRegistry;
use livekit_portal::name_map::NameMap;
use livekit_portal::sync_buffer::{DropWarn, SyncBuffer, SyncOutput, DROP_WARN_INTERVAL_US};
use livekit_portal::types::{FrameSource, SyncConfig, TypedValue, VideoFrameData};

fn make_frame(ts: u64) -> Arc<VideoFrameData> {
    Arc::new(VideoFrameData {
        width: 2,
        height: 2,
        data: Bytes::from(vec![0u8; 12]),
        timestamp_us: ts,
        source: FrameSource::Live,
    })
}

fn f64v(v: f64) -> TypedValue {
    TypedValue::F64(v.to_bits())
}

/// A buffer and the registry that it records in.
struct Rig {
    buf: SyncBuffer,
    metrics: MetricsRegistry,
}

impl Rig {
    fn push_f(&mut self, track: &str, ts: u64) -> SyncOutput {
        self.buf.push_frame(track, make_frame(ts), &mut self.metrics)
    }

    fn push_state(&mut self, ts: u64, values: Vec<f64>) -> SyncOutput {
        let bits = values.iter().map(|v| v.to_bits()).collect();
        self.buf.push_state(ts, bits, &mut self.metrics)
    }
}

fn mk(names: &[String], fields: Vec<String>, config: SyncConfig) -> Rig {
    let schema: Vec<FieldSpec> =
        fields.into_iter().map(|n| FieldSpec::new(n, DType::F64)).collect();
    Rig { buf: SyncBuffer::new(names, schema, config), metrics: MetricsRegistry::new(names) }
}

#[test]
fn sync_single_track() {
    let tracks = vec!["cam1".to_string()];
    let fields = vec!["j1".to_string(), "j2".to_string()];
    let mut buf = mk(&tracks, fields, SyncConfig::default());

    assert!(buf.push_f("cam1", 1000).observations.is_empty());

    let out = buf.push_state(1010, vec![1.0, 2.0]);
    assert_eq!(out.observations.len(), 1);
    let obs = &out.observations[0];
    assert_eq!(*obs.state.get("j1").unwrap(), f64v(1.0));
    assert_eq!(*obs.state.get("j2").unwrap(), f64v(2.0));
    assert_eq!(obs.timestamp_us, 1010);
}

#[test]
fn sync_multi_track() {
    let tracks = vec!["cam1".to_string(), "cam2".to_string()];
    let fields = vec!["j1".to_string()];
    let mut buf = mk(&tracks, fields, SyncConfig::default());

    assert!(buf.push_f("cam1", 1000).observations.is_empty());
    assert!(buf.push_state(1005, vec![5.0]).observations.is_empty());

    let out = buf.push_f("cam2", 1002);
    assert_eq!(out.observations.len(), 1);
    assert!(out.observations[0].frames.contains_key("cam1"));
    assert!(out.observations[0].frames.contains_key("cam2"));
}

#[test]
fn drop_unsyncable_state() {
    let tracks = vec!["cam1".to_string()];
    let fields = vec!["j1".to_string()];
    let mut buf = mk(&tracks, fields, SyncConfig::default());

    assert!(buf.push_state(100, vec![1.0]).is_empty());
    let out = buf.push_f("cam1", 200_000);
    assert!(out.observations.is_empty());
    assert_eq!(out.drops.len(), 1);
    assert_eq!(*out.drops[0].get("j1").unwrap(), f64v(1.0));
}

#[test]
fn out_of_range_waits() {
    let tracks = vec!["cam1".to_string()];
    let fields = vec!["j1".to_string()];
    let mut buf = mk(&tracks, fields, SyncConfig::default());

    assert!(buf.push_state(50_000, vec![1.0]).is_empty());
    let out = buf.push_f("cam1", 50_010);
    assert_eq!(out.observations.len(), 1);
}

#[test]
fn buffer_overflow_evicts_oldest() {
    let tracks = vec!["cam1".to_string()];
    let fields = vec!["j1".to_string()];
    let config =
        SyncConfig { video_buffer_size: 2, state_buffer_size: 2, ..Default::default() };
    let mut buf = mk(&tracks, fields, config);

    for ts in [100, 200, 300] {
        let _ = buf.push_f("cam1", ts);
    }

    let cam_buf = buf.buf.buffered_timestamps(0);
    assert_eq!(cam_buf.len(), 2);
    assert_eq!(cam_buf[0], 200);
    assert_eq!(cam_buf[1], 300);
}

#[test]
fn clear_flushes_all() {
    let tracks = vec!["cam1".to_string()];
    let fields = vec!["j1".to_string()];
    let mut buf = mk(&tracks, fields, SyncConfig::default());

    let _ = buf.push_f("cam1", 1000);
    let _ = buf.push_state(1000, vec![1.0]);
    buf.buf.clear();

    assert!(buf.buf.buffered_timestamps(0).is_empty());
    assert!(buf.buf.state_fill() == 0);
    assert!(buf.buf.cursors().iter().all(|&c| c == 0));
    assert!(buf.buf.blocker().is_none());
}

/// Cursor should advance monotonically across many sequential syncs.
#[test]
fn cursor_advances_across_sequential_matches() {
    let tracks = vec!["cam1".to_string()];
    let fields = vec!["j1".to_string()];
    let config = SyncConfig { video_buffer_size: 100, ..Default::default() };
    let mut buf = mk(&tracks, fields, config);

    // Push 10 frames at 1000us intervals.
    for i in 0..10 {
        let _ = buf.push_f("cam1", 1_000 + i * 1_000);
    }
    // Match each with a state, each state should consume one frame.
    let mut matched_ts = Vec::new();
    for i in 0..10 {
        let out = buf.push_state(1_010 + i * 1_000, vec![i as f64]);
        assert_eq!(out.observations.len(), 1, "state #{} should produce 1 obs", i);
        matched_ts.push(out.observations[0].frames.get("cam1").unwrap().timestamp_us);
    }
    assert_eq!(matched_ts, (0..10).map(|i| 1_000 + i * 1_000).collect::<Vec<_>>());
}

/// Non-blocker push should defer try_sync, but a subsequent push to the
/// blocker must still produce the observation (no lost state).
#[test]
fn non_blocker_push_defers_but_converges() {
    let tracks = vec!["cam1".to_string(), "cam2".to_string()];
    let fields = vec!["j1".to_string()];
    let mut buf = mk(&tracks, fields, SyncConfig::default());

    // State + cam2 present; cam1 empty → cam1 is the blocker.
    assert!(buf.push_state(1_000, vec![1.0]).is_empty());
    assert!(buf.push_f("cam2", 1_005).is_empty());
    assert_eq!(buf.buf.blocker(), Some(0));

    // Push another cam2 frame — not the blocker, try_sync should skip.
    // The observation count stays at 0 either way, so we just check no
    // spurious work: buffer accepted the push.
    assert!(buf.push_f("cam2", 1_006).is_empty());
    assert_eq!(buf.buf.buffered_timestamps(1).len(), 2);

    // Now push to the blocker — observation must fire.
    let out = buf.push_f("cam1", 1_008);
    assert_eq!(out.observations.len(), 1);
    assert!(buf.buf.blocker().is_none());
}

/// If eviction on a non-blocker track removes the only in-range frame,
/// the state must drop (not silently stall).
#[test]
fn eviction_on_non_blocker_can_trigger_drop() {
    let tracks = vec!["cam1".to_string(), "cam2".to_string()];
    let fields = vec!["j1".to_string()];
    let config = SyncConfig {
        video_buffer_size: 1,
        state_buffer_size: 10,
        search_range_us: 30_000,
        ..Default::default()
    };
    let mut buf = mk(&tracks, fields, config);

    // State at 1_000; cam1 empty (blocker); cam2 has a frame in range.
    assert!(buf.push_state(1_000, vec![1.0]).is_empty());
    assert!(buf.push_f("cam2", 1_005).is_empty());
    assert_eq!(buf.buf.blocker(), Some(0));

    // Push new cam2 frame far in the future; cap=1 means the in-range
    // frame is evicted. Eager drop path must fire even though cam2 is not
    // the blocker.
    let out = buf.push_f("cam2", 500_000);
    assert!(out.observations.is_empty());
    assert_eq!(out.drops.len(), 1, "state should be dropped once its cam2 match is evicted");
}

/// Out-of-order state timestamps must still find the correct match via
/// cursor rewind.
#[test]
fn out_of_order_state_rewinds_cursor() {
    let tracks = vec!["cam1".to_string()];
    let fields = vec!["j1".to_string()];
    let mut buf = mk(&tracks, fields, SyncConfig::default());

    // Pre-populate frames spanning a wide range.
    for ts in [1_000u64, 5_000, 10_000, 50_000, 100_000] {
        let _ = buf.push_f("cam1", ts);
    }

    // First match at high ts advances cursor forward.
    let out = buf.push_state(100_005, vec![0.0]);
    assert_eq!(out.observations.len(), 1);
    assert_eq!(out.observations[0].frames.get("cam1").unwrap().timestamp_us, 100_000);

    // Re-populate so there's a frame near an earlier ts, then push an
    // earlier state — cursor rewind must find it.
    let _ = buf.push_f("cam1", 200_000);
    let _ = buf.push_f("cam1", 200_005);
    let out = buf.push_state(200_002, vec![0.0]);
    assert_eq!(out.observations.len(), 1);
    assert_eq!(out.observations[0].frames.get("cam1").unwrap().timestamp_us, 200_000);
}

/// State eviction pushing a new head state clears the blocker so the new
/// head gets re-evaluated immediately.
#[test]
fn state_eviction_updates_head_and_clears_blocker() {
    let tracks = vec!["cam1".to_string()];
    let fields = vec!["j1".to_string()];
    let config = SyncConfig { state_buffer_size: 1, ..Default::default() };
    let mut buf = mk(&tracks, fields, config);

    // No frames yet: both push_state calls see an empty cam1 → wait.
    // cap_state=1 means the second state evicts the first.
    assert!(buf.push_state(1_000, vec![1.0]).is_empty());
    assert_eq!(buf.buf.blocker(), Some(0));
    // Second push evicts state@1000; overflow surfaces as a drop.
    let out = buf.push_state(2_000, vec![2.0]);
    assert!(out.observations.is_empty());
    assert_eq!(out.drops.len(), 1);
    assert_eq!(*out.drops[0].get("j1").unwrap(), f64v(1.0));

    // Only the second state remains. A frame matching it fires the obs.
    let out = buf.push_f("cam1", 2_005);
    assert_eq!(out.observations.len(), 1);
    assert_eq!(
        *out.observations[0].state.get("j1").unwrap(),
        f64v(2.0),
        "evicted state should not leak through"
    );
    assert_eq!(out.observations[0].timestamp_us, 2_000);
}

/// Drop must fire when the *newest* frame is past the horizon, even if an
/// older frame is still buffered below the match window.
#[test]
fn drop_triggers_on_back_past_horizon() {
    let tracks = vec!["cam1".to_string()];
    let fields = vec!["j1".to_string()];
    let config = SyncConfig {
        video_buffer_size: 10,
        state_buffer_size: 10,
        search_range_us: 500,
        ..Default::default()
    };
    let mut buf = mk(&tracks, fields, config);

    let _ = buf.push_f("cam1", 1_000); // far below state - range (2_500)
    assert!(buf.push_state(3_000, vec![1.0]).is_empty());

    // Newest frame lands past state + range (3_500). Even though the old
    // 1_000 frame is still in the buffer, no future frame can be < 5_000,
    // so the state is permanently unmatchable.
    let out = buf.push_f("cam1", 5_000);
    assert!(out.observations.is_empty());
    assert_eq!(out.drops.len(), 1, "state should drop as soon as back passes horizon");
}

/// Boundary: a frame landing exactly at `state_ts + range` is not a match
/// (strict `<`), and all future frames are ≥ that ts, so the state drops.
#[test]
fn drop_fires_at_exact_range_boundary() {
    let tracks = vec!["cam1".to_string()];
    let fields = vec!["j1".to_string()];
    let config = SyncConfig {
        video_buffer_size: 10,
        state_buffer_size: 10,
        search_range_us: 500,
        ..Default::default()
    };
    let mut buf = mk(&tracks, fields, config);

    assert!(buf.push_state(1_000, vec![1.0]).is_empty());
    let out = buf.push_f("cam1", 1_500); // delta == range, not a match
    assert!(out.observations.is_empty());
    assert_eq!(out.drops.len(), 1);
}

/// State-buffer overflow must surface evicted states via `output.drops`
/// so that they can be reported.
#[test]
fn state_overflow_with_tracks_reports_drops() {
    let tracks = vec!["cam1".to_string()];
    let fields = vec!["j1".to_string()];
    let config = SyncConfig { state_buffer_size: 2, ..Default::default() };
    let mut buf = mk(&tracks, fields, config);

    // No frames: each push_state blocks (no sync), fills the state buffer.
    assert!(buf.push_state(100, vec![1.0]).drops.is_empty());
    assert!(buf.push_state(200, vec![2.0]).drops.is_empty());
    // Third push triggers overflow; state@100 must appear in drops.
    let out = buf.push_state(300, vec![3.0]);
    assert_eq!(out.drops.len(), 1);
    assert_eq!(*out.drops[0].get("j1").unwrap(), f64v(1.0));
}

/// With a widened range (>1 tick), a state whose exact frame was lost
/// falls back to an adjacent frame if no later state has a closer claim.
#[test]
fn wide_range_matches_neighbor_when_native_lost() {
    let tracks = vec!["cam1".to_string()];
    let fields = vec!["j1".to_string()];
    // 30fps ticks = 33_333us; tolerance 1.5 → range = 50_000us.
    let config = SyncConfig {
        video_buffer_size: 5,
        state_buffer_size: 5,
        search_range_us: 50_000,
        ..Default::default()
    };
    let mut buf = mk(&tracks, fields, config);

    // Frame at tick 0 stands in for "T−1"; frame at T was lost; only
    // frame@0 is available for state@33_333.
    let _ = buf.push_f("cam1", 0);
    let out = buf.push_state(33_333, vec![1.0]);
    assert_eq!(out.observations.len(), 1);
    assert_eq!(out.observations[0].frames.get("cam1").unwrap().timestamp_us, 0);
}

/// Fair-share: if an earlier state and a later state are both in the
/// buffer and a single frame sits closer to the later state, the earlier
/// state must NOT steal it. It may drop, but the later state gets to use
/// its own frame.
#[test]
fn fair_share_prevents_stealing() {
    let tracks = vec!["cam1".to_string()];
    let fields = vec!["j1".to_string()];
    let config = SyncConfig {
        video_buffer_size: 5,
        state_buffer_size: 5,
        search_range_us: 50_000, // tolerance 1.5 at 30fps
        ..Default::default()
    };
    let mut buf = mk(&tracks, fields, config);

    // Both states buffered before any frames arrive.
    assert!(buf.push_state(0, vec![1.0]).is_empty());
    assert!(buf.push_state(33_333, vec![2.0]).is_empty());

    // frame@33_333 is closer to state@33_333 than to state@0;
    // fair-share must keep state@0 from grabbing it.
    let out = buf.push_f("cam1", 33_333);
    assert!(
        out.observations.is_empty(),
        "state@0 must not steal frame@33_333 from state@33_333"
    );

    // Push a later frame past state@0's horizon to force the drop;
    // state@33_333 then matches its own frame.
    let out = buf.push_f("cam1", 100_000);
    assert_eq!(out.drops.len(), 1, "state@0 drops once its horizon is crossed");
    assert_eq!(*out.drops[0].get("j1").unwrap(), f64v(1.0));
    assert_eq!(out.observations.len(), 1);
    assert_eq!(*out.observations[0].state.get("j1").unwrap(), f64v(2.0));
    assert_eq!(out.observations[0].frames.get("cam1").unwrap().timestamp_us, 33_333);
}

/// Tight range (<1 tick) drops on loss:
/// a state can't reach an adjacent frame, so it drops as soon as a
/// later frame crosses the horizon.
#[test]
fn tight_range_still_drops_on_loss() {
    let tracks = vec!["cam1".to_string()];
    let fields = vec!["j1".to_string()];
    // tolerance 0.5 at 30fps → range = 16_666us, adjacent frames unreachable.
    let config = SyncConfig {
        video_buffer_size: 5,
        state_buffer_size: 5,
        search_range_us: 16_666,
        ..Default::default()
    };
    let mut buf = mk(&tracks, fields, config);

    let _ = buf.push_f("cam1", 0);
    assert!(buf.push_state(33_333, vec![1.0]).is_empty()); // blocks: no match in range
    let out = buf.push_f("cam1", 100_000); // crosses horizon, fires drop
    assert!(out.observations.is_empty());
    assert_eq!(out.drops.len(), 1, "tight range must drop when native frame is missing");
}

// With frame reuse no state is lost to missing frames once every track has
// contributed: the video freezes on the last good frame instead. Overflow of the
// state queue and the time before the first observation still drop states.

fn reuse_config() -> SyncConfig {
    SyncConfig {
        video_buffer_size: 5,
        state_buffer_size: 5,
        search_range_us: 500,
        reuse_stale_frames: true,
        ..Default::default()
    }
}

/// After one successful emission, a subsequent state pushed with an
/// empty video buffer reuses the last-emitted frame and emits
/// immediately.
#[test]
fn reuse_empty_buffer_emits_with_last_frame() {
    let tracks = vec!["cam1".to_string()];
    let fields = vec!["j1".to_string()];
    let mut buf = mk(&tracks, fields, reuse_config());

    // First emission establishes a last-emitted frame.
    let _ = buf.push_f("cam1", 1_000);
    let out = buf.push_state(1_100, vec![1.0]);
    assert_eq!(out.observations.len(), 1);
    assert_eq!(out.observations[0].frames.get("cam1").unwrap().timestamp_us, 1_000);

    // Next state: no new frames arrived. Strict policy would wait;
    // reuse emits with the last good frame.
    let out = buf.push_state(2_000, vec![2.0]);
    assert_eq!(out.drops.len(), 0);
    assert_eq!(out.observations.len(), 1);
    assert_eq!(*out.observations[0].state.get("j1").unwrap(), f64v(2.0));
    assert_eq!(
        out.observations[0].frames.get("cam1").unwrap().timestamp_us, 1_000,
        "stale reuse uses the last emitted frame"
    );
}

/// When a frame arrives past the head state's horizon (no in-range match
/// possible), reuse emits with the last-emitted frame instead of dropping.
/// The newly arrived frame is left in the buffer for a later state.
#[test]
fn reuse_past_horizon_emits_with_last_frame() {
    let tracks = vec!["cam1".to_string()];
    let fields = vec!["j1".to_string()];
    let mut buf = mk(&tracks, fields, reuse_config());

    // First emission sets last-emitted to frame@0.
    let _ = buf.push_f("cam1", 0);
    let out = buf.push_state(10, vec![0.0]);
    assert_eq!(out.observations.len(), 1);

    // Load the buffer with a frame past state@100's horizon (d = 900,
    // range = 500, so no match and newest >= state + range).
    let _ = buf.push_f("cam1", 900);
    let out = buf.push_state(100, vec![1.0]);
    assert_eq!(out.drops.len(), 0, "reuse replaces the horizon drop");
    assert_eq!(out.observations.len(), 1);
    assert_eq!(
        out.observations[0].frames.get("cam1").unwrap().timestamp_us, 0,
        "stale reuse, not the unmatched buffered frame"
    );
    // The buffered frame must still be available for a later state.
    let out = buf.push_state(800, vec![2.0]);
    assert_eq!(out.observations.len(), 1);
    assert_eq!(out.observations[0].frames.get("cam1").unwrap().timestamp_us, 900);
}

/// Before any frame has ever been emitted on a track, reuse has no
/// fallback. A frame arriving past the horizon still drops the state
/// (matching the strict policy), so the buffer stays bounded during a
/// broken-video startup.
#[test]
fn reuse_startup_no_fallback_still_drops() {
    let tracks = vec!["cam1".to_string()];
    let fields = vec!["j1".to_string()];
    let mut buf = mk(&tracks, fields, reuse_config());

    assert!(buf.push_state(1_000, vec![1.0]).is_empty());
    let out = buf.push_f("cam1", 100_000);
    assert_eq!(out.drops.len(), 1, "no last-emitted frame yet — reuse can't save the state");
    assert_eq!(out.observations.len(), 0);
}

/// Startup with a totally dead track: state-buffer overflow drops
/// accumulated states so memory stays bounded.
#[test]
fn reuse_startup_overflow_still_drops() {
    let tracks = vec!["cam1".to_string()];
    let fields = vec!["j1".to_string()];
    let config = SyncConfig { state_buffer_size: 2, ..reuse_config() };
    let mut buf = mk(&tracks, fields, config);

    assert!(buf.push_state(100, vec![1.0]).is_empty());
    assert!(buf.push_state(200, vec![2.0]).is_empty());
    let out = buf.push_state(300, vec![3.0]);
    assert_eq!(out.drops.len(), 1, "overflow drops during total video loss");
    assert_eq!(*out.drops[0].get("j1").unwrap(), f64v(1.0));
}

/// Multi-track: one track freezes while the other keeps delivering fresh
/// frames. Observations keep flowing, mixing stale and fresh frames.
#[test]
fn reuse_multi_track_freeze_one_keeps_other_fresh() {
    let tracks = vec!["cam1".to_string(), "cam2".to_string()];
    let fields = vec!["j1".to_string()];
    let mut buf = mk(&tracks, fields, reuse_config());

    // First emission on both tracks.
    let _ = buf.push_f("cam1", 1_000);
    let _ = buf.push_f("cam2", 1_000);
    let out = buf.push_state(1_050, vec![1.0]);
    assert_eq!(out.observations.len(), 1);

    // cam1 freezes; cam2 keeps delivering. State still emits, with stale
    // cam1 and fresh cam2.
    let _ = buf.push_f("cam2", 2_000);
    let out = buf.push_state(2_050, vec![2.0]);
    assert_eq!(out.observations.len(), 1);
    assert_eq!(out.observations[0].frames.get("cam1").unwrap().timestamp_us, 1_000);
    assert_eq!(out.observations[0].frames.get("cam2").unwrap().timestamp_us, 2_000);
}

/// Fresh match still wins over stale reuse: if an in-range frame exists,
/// it's used, the buffer drains, and `last_emitted` advances.
#[test]
fn reuse_prefers_fresh_match_when_available() {
    let tracks = vec!["cam1".to_string()];
    let fields = vec!["j1".to_string()];
    let mut buf = mk(&tracks, fields, reuse_config());

    let _ = buf.push_f("cam1", 1_000);
    let _ = buf.push_state(1_050, vec![1.0]);

    // Push a fresh in-range frame; state should match it, not reuse f@1000.
    let _ = buf.push_f("cam1", 2_000);
    let out = buf.push_state(2_100, vec![2.0]);
    assert_eq!(out.observations.len(), 1);
    assert_eq!(out.observations[0].frames.get("cam1").unwrap().timestamp_us, 2_000);
    assert!(buf.buf.last_emitted_timestamp(0) == Some(2_000));
}

/// clear() resets last-emitted frames so reuse after clear behaves like
/// a fresh start.
#[test]
fn reuse_clear_resets_last_emitted() {
    let tracks = vec!["cam1".to_string()];
    let fields = vec!["j1".to_string()];
    let mut buf = mk(&tracks, fields, reuse_config());

    let _ = buf.push_f("cam1", 1_000);
    let out = buf.push_state(1_050, vec![1.0]);
    assert_eq!(out.observations.len(), 1);
    assert!(buf.buf.last_emitted_timestamp(0).is_some());

    buf.buf.clear();
    assert!(buf.buf.last_emitted_timestamp(0).is_none());

    // After clear we're back in startup: no fallback, past-horizon drops.
    assert!(buf.push_state(2_000, vec![2.0]).is_empty());
    let out = buf.push_f("cam1", 100_000);
    assert_eq!(out.drops.len(), 1);
}

/// Below-horizon case: buffer holds only frames too old to fresh-match.
/// Under reuse, the state emits immediately with the newest below-horizon
/// frame (not the first-ever-emitted one), the buffer drains those old
/// frames, and `last_emitted_frames` advances so match_delta stays
/// bounded. No future state can fresh-match a frame with ts ≤ state_ts −
/// range (state_ts is monotonic), so consuming it is safe.
#[test]
fn reuse_below_horizon_advances_to_best_buffered() {
    let tracks = vec!["cam1".to_string()];
    let fields = vec!["j1".to_string()];
    let mut buf = mk(&tracks, fields, reuse_config());

    // First emission sets last_emitted = f@0.
    let _ = buf.push_f("cam1", 0);
    let out = buf.push_state(10, vec![0.0]);
    assert_eq!(out.observations.len(), 1);

    // f@200 is below state@5_000's horizon (Δ = 4_800 ≫ range=500) but
    // newer than the stored last-emitted f@0. Reuse must prefer it and
    // drain it — otherwise match_delta keeps growing against f@0 forever.
    let _ = buf.push_f("cam1", 200);
    let out = buf.push_state(5_000, vec![1.0]);
    assert_eq!(out.drops.len(), 0);
    assert_eq!(out.observations.len(), 1);
    assert_eq!(
        out.observations[0].frames.get("cam1").unwrap().timestamp_us, 200,
        "stale reuse should advance to the newest below-horizon frame"
    );
    // Buffer drained; last-emitted advanced.
    assert_eq!(buf.buf.buffered_timestamps(0).len(), 0);
    assert_eq!(buf.buf.last_emitted_timestamp(0), Some(200));
}

/// Under steady-state stale reuse, `last_emitted_frames` must
/// keep advancing with state_ts as long as frames keep arriving below
/// horizon.
#[test]
fn reuse_steady_state_advances_last_emitted_below_horizon() {
    let tracks = vec!["cam1".to_string()];
    let fields = vec!["j1".to_string()];
    // Narrow range so incoming frames are never a fresh match.
    let config = SyncConfig {
        video_buffer_size: 5,
        state_buffer_size: 5,
        search_range_us: 100,
        reuse_stale_frames: true,
        ..Default::default()
    };
    let mut buf = mk(&tracks, fields, config);

    // First emission establishes last_emitted = f@0.
    let _ = buf.push_f("cam1", 0);
    let out = buf.push_state(50, vec![0.0]);
    assert_eq!(out.observations.len(), 1);
    assert_eq!(buf.buf.last_emitted_timestamp(0), Some(0));

    // Simulate a track that arrives consistently behind state_ts by more
    // than `range` — every state stale-reuses. The pointer must still
    // advance to the newest below-horizon frame each round.
    for i in 1..=10u64 {
        let frame_ts = i * 1_000; // behind state_ts by 500us, d=500 >= range
        let state_ts = frame_ts + 500;
        let _ = buf.push_f("cam1", frame_ts);
        let out = buf.push_state(state_ts, vec![i as f64]);
        assert_eq!(out.observations.len(), 1);
        assert_eq!(out.drops.len(), 0);
        assert_eq!(
            out.observations[0].frames.get("cam1").unwrap().timestamp_us, frame_ts,
            "round #{i}: stale match should be the newest below-horizon frame"
        );
        // Buffer drains so it never pins at cap.
        assert_eq!(buf.buf.buffered_timestamps(0).len(), 0);
        assert_eq!(buf.buf.last_emitted_timestamp(0), Some(frame_ts));
    }
}

/// `stale_observations_emitted` counts only observations that used a
/// reused frame. Fresh emissions leave the counter alone.
#[test]
fn reuse_stale_metric_counts_only_stale_emissions() {
    let tracks = vec!["cam1".to_string()];
    let fields = vec!["j1".to_string()];
    let mut buf = mk(&tracks, fields, reuse_config());

    // Fresh emission #1.
    let _ = buf.push_f("cam1", 1_000);
    let _ = buf.push_state(1_050, vec![1.0]);

    // Fresh emission #2.
    let _ = buf.push_f("cam1", 2_000);
    let _ = buf.push_state(2_050, vec![2.0]);

    let snap = buf.metrics.snapshot(NameMap::new(), 0);
    assert_eq!(snap.sync.observations_emitted, 2);
    assert_eq!(snap.sync.stale_observations_emitted, 0);

    // Stale emission: no new frame, state reuses f@2_000.
    let _ = buf.push_state(3_000, vec![3.0]);
    let snap = buf.metrics.snapshot(NameMap::new(), 0);
    assert_eq!(snap.sync.observations_emitted, 3);
    assert_eq!(snap.sync.stale_observations_emitted, 1);
}

/// Under reuse, once every track has emitted at least once, any
/// push_state emits immediately (fresh match or stale reuse) — states
/// never linger in the buffer for the eviction-escape hatch to save.
/// Verified here: a long run of pushes with one track fully frozen
/// produces an observation per state and zero drops, and the state
/// buffer stays empty.
#[test]
fn reuse_steady_state_keeps_state_buffer_empty() {
    let tracks = vec!["cam1".to_string(), "cam2".to_string()];
    let fields = vec!["j1".to_string()];
    let mut buf = mk(&tracks, fields, reuse_config());

    // First emission on both tracks.
    let _ = buf.push_f("cam1", 1_000);
    let _ = buf.push_f("cam2", 1_000);
    let out = buf.push_state(1_050, vec![0.0]);
    assert_eq!(out.observations.len(), 1);

    // cam1 freezes; cam2 keeps delivering. Each state must emit with a
    // fresh cam2 frame and a stale cam1 frame, leaving the state buffer
    // empty after every push.
    let mut emitted = 0;
    for i in 1..10u64 {
        let ts = 1_000 + i * 1_000;
        let _ = buf.push_f("cam2", ts);
        let out = buf.push_state(ts + 50, vec![i as f64]);
        emitted += out.observations.len();
        assert_eq!(out.drops.len(), 0);
        assert_eq!(buf.buf.state_fill(), 0, "state buffer should not accumulate under reuse");
    }
    assert_eq!(emitted, 9);
}

/// Default config (reuse off) preserves strict drop-on-horizon behavior
/// even when a last-emitted frame exists.
#[test]
fn reuse_off_by_default_preserves_strict_drop() {
    let tracks = vec!["cam1".to_string()];
    let fields = vec!["j1".to_string()];
    let config = SyncConfig {
        video_buffer_size: 5,
        state_buffer_size: 5,
        search_range_us: 500,
        // reuse_stale_frames default: false
        ..Default::default()
    };
    let mut buf = mk(&tracks, fields, config);

    let _ = buf.push_f("cam1", 1_000);
    let _ = buf.push_state(1_050, vec![1.0]);

    // Past-horizon frame must drop the state under strict policy.
    let _ = buf.push_f("cam1", 2_000);
    let out = buf.push_state(100, vec![2.0]);
    assert_eq!(out.observations.len(), 0);
    assert_eq!(out.drops.len(), 1);
}

/// Sanity: inputs that stress the binary/cursor path with many empty and
/// partial iterations should never panic or produce spurious observations.
#[test]
fn stress_no_spurious_observations() {
    let tracks = vec!["cam1".to_string(), "cam2".to_string()];
    let fields = vec!["j1".to_string()];
    let mut buf = mk(&tracks, fields, SyncConfig::default());

    let mut total_obs = 0;
    // Push 100 interleaved events; each state needs frames on BOTH tracks
    // within 30ms.
    for i in 0..100u64 {
        let ts = 1_000 + i * 1_000;
        let out1 = buf.push_f("cam1", ts);
        let out2 = buf.push_f("cam2", ts + 100);
        let out3 = buf.push_state(ts + 50, vec![i as f64]);
        total_obs += out1.observations.len();
        total_obs += out2.observations.len();
        total_obs += out3.observations.len();
    }
    assert_eq!(total_obs, 100);
}

/// Every state leaves exactly once, as an observation or as a drop.
#[test]
fn states_are_conserved() {
    let tracks = vec!["cam1".to_string()];
    for reuse in [false, true] {
        let config = SyncConfig {
            video_buffer_size: 3,
            state_buffer_size: 4,
            search_range_us: 400,
            reuse_stale_frames: reuse,
            ..Default::default()
        };
        let mut buf = mk(&tracks, vec!["j1".to_string()], config);
        let mut x: u64 = 88172645463325252;
        let mut pushed = 0;
        let mut left = 0;
        for i in 0..500u64 {
            x ^= x << 13;
            x ^= x >> 7;
            x ^= x << 17;
            let ts = i * 100 + x % 300;
            let out = if x % 3 == 0 {
                pushed += 1;
                buf.push_state(ts, vec![i as f64])
            } else {
                buf.push_f("cam1", ts)
            };
            left += out.observations.len() + out.drops.len();
            assert_eq!(pushed, left + buf.buf.state_fill());
            assert!(buf.buf.state_fill() <= 4);
            assert!(buf.buf.buffered_timestamps(0).len() <= 3);
        }
    }
}

/// A track that is past matching the head state drops it, though another one
/// blocks it.
#[test]
fn a_track_past_the_head_drops_it_while_another_blocks() {
    let tracks = vec!["cam1".to_string(), "cam2".to_string()];
    let mut buf = mk(&tracks, vec!["j1".to_string()], SyncConfig::default());
    assert!(buf.push_state(1_000, vec![1.0]).is_empty());
    let out = buf.push_f("cam2", 500_000);
    assert!(out.observations.is_empty());
    assert_eq!(out.drops.len(), 1);
    assert_eq!(out.drops[0].get("j1"), Some(&f64v(1.0)));
    assert_eq!(buf.buf.state_fill(), 0);
}

/// States leave in the order in which they came, and no frame is shown twice.
#[test]
fn histories_keep_their_order() {
    let tracks = vec!["cam1".to_string(), "cam2".to_string()];
    let config = SyncConfig {
        video_buffer_size: 4,
        state_buffer_size: 5,
        search_range_us: 400,
        ..Default::default()
    };
    let mut buf = mk(&tracks, vec!["j1".to_string()], config);
    let mut x: u64 = 88172645463325252;
    let mut pushed = Vec::new();
    let mut observed = Vec::new();
    let mut shown = vec![Vec::new(), Vec::new()];
    for i in 0..600u64 {
        x ^= x << 13;
        x ^= x >> 7;
        x ^= x << 17;
        let ts = 1_000 + i * 100;
        let out = match x % 3 {
            0 => {
                pushed.push(ts);
                buf.push_state(ts, vec![i as f64])
            }
            1 => buf.push_f("cam1", ts),
            _ => buf.push_f("cam2", ts),
        };
        for o in &out.observations {
            assert_eq!(o.frames.len(), 2);
            observed.push(o.timestamp_us);
            for (t, name) in ["cam1", "cam2"].iter().enumerate() {
                let frame = o.frames.get(name).unwrap();
                assert!(frame.timestamp_us.abs_diff(o.timestamp_us) < 400);
                shown[t].push(frame.timestamp_us);
            }
        }
    }
    assert!(observed.len() > 50);
    assert!(observed.windows(2).all(|w| w[0] < w[1]));
    assert!(observed.iter().all(|ts| pushed.contains(ts)));
    for frames in &shown {
        assert!(frames.windows(2).all(|w| w[0] < w[1]));
    }
}

/// Of two tracks of one name the earlier one never gets a frame, so nothing
/// comes out.
#[test]
fn a_repeated_name_hides_the_earlier_track() {
    let tracks = vec!["cam".to_string(), "cam".to_string()];
    let mut buf = mk(&tracks, vec!["j1".to_string()], SyncConfig::default());
    for ts in [1_000, 2_000, 3_000] {
        assert!(buf.push_f("cam", ts).observations.is_empty());
        assert!(buf.push_state(ts, vec![0.0]).observations.is_empty());
    }
    assert!(buf.buf.buffered_timestamps(0).is_empty());
    assert_eq!(buf.buf.buffered_timestamps(1), vec![1_000, 2_000, 3_000]);
}

/// With frame reuse every state is answered at once from the first
/// observation on.
#[test]
fn reuse_answers_every_state_from_the_first_observation_on() {
    let tracks = vec!["cam1".to_string(), "cam2".to_string()];
    let mut buf = mk(&tracks, vec!["j1".to_string()], reuse_config());
    buf.push_f("cam1", 1_000);
    buf.push_f("cam2", 1_000);
    assert_eq!(buf.push_state(1_000, vec![0.0]).observations.len(), 1);
    for i in 1..50u64 {
        let ts = 1_000 + i * 70_000;
        if i % 3 == 0 {
            assert!(buf.push_f("cam1", ts).is_empty());
        }
        let out = buf.push_state(ts, vec![i as f64]);
        assert_eq!(out.observations.len(), 1);
        assert_eq!(out.observations[0].timestamp_us, ts);
        assert_eq!(out.observations[0].frames.len(), 2);
        assert!(out.drops.is_empty());
        assert_eq!(buf.buf.state_fill(), 0);
    }
}

#[test]
fn the_nearest_frame_wins() {
    let tracks = vec!["cam1".to_string()];
    let mut buf = mk(&tracks, vec!["j1".to_string()], SyncConfig::default());
    for ts in [1_000, 2_000, 3_000] {
        buf.push_f("cam1", ts);
    }
    let out = buf.push_state(2_100, vec![0.0]);
    assert_eq!(out.observations[0].frames.get("cam1").unwrap().timestamp_us, 2_000);
    assert_eq!(buf.buf.buffered_timestamps(0), vec![3_000]);
}

#[test]
fn frames_of_undeclared_tracks_are_ignored() {
    let tracks = vec!["cam1".to_string()];
    let mut buf = mk(&tracks, vec!["j1".to_string()], SyncConfig::default());
    assert!(buf.push_f("other", 5).is_empty());
    assert!(buf.buf.buffered_timestamps(0).is_empty());
}

#[test]
fn fill_levels_are_shown() {
    let tracks = vec!["cam1".to_string(), "cam2".to_string()];
    let mut buf = mk(&tracks, vec!["j1".to_string()], SyncConfig::default());
    buf.push_f("cam1", 5);
    buf.push_f("cam1", 6);
    let fill = buf.buf.video_fill_snapshot();
    assert_eq!(fill.get("cam1"), Some(&2));
    assert_eq!(fill.get("cam2"), Some(&0));
}

#[test]
fn drop_reports_keep_their_distance() {
    let mut w = DropWarn::default();
    let r = w.note_unsyncable_drop(7, 1_000).unwrap();
    assert_eq!((r.elapsed_us, r.count, r.worst_ahead_us), (None, 1, 7));
    assert!(w.note_unsyncable_drop(30, 2_000).is_none());
    assert!(w.note_unsyncable_drop(20, 3_000).is_none());
    let r = w.note_unsyncable_drop(5, 1_000 + DROP_WARN_INTERVAL_US).unwrap();
    assert_eq!(r.elapsed_us, Some(DROP_WARN_INTERVAL_US));
    assert_eq!((r.count, r.worst_ahead_us), (3, 30));
}
