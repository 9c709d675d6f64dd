use livekit_portal::codec::Codec;
use livekit_portal::config::{
    FieldSpec, PortalConfig, DEFAULT_H264_MAX_BITRATE_KBPS, DEFAULT_TOLERANCE,
};
use livekit_portal::dtype::DType;
use livekit_portal::ticks::search_range_us;
use livekit_portal::types::{Role, StallBehavior, TimeSyncSource};

fn cfg() -> PortalConfig {
    PortalConfig::new("demo".to_string(), Role::Robot)
}

#[test]
fn default_stall_is_drop_at_slack_over_fps() {
    let c = cfg(); // slack 5, fps 30
    let s = c.stall_for("cam1");
    assert_eq!(s.behavior, StallBehavior::Drop);
    assert_eq!(s.max_lag_us, Some(5 * 1_000_000 / 30));
}

#[test]
fn default_budget_tracks_slack_and_fps() {
    let mut c = cfg();
    c.set_slack(10);
    c.set_fps(50);
    assert_eq!(c.stall_for("cam1").max_lag_us, Some(200_000));
}

#[test]
fn reuse_stale_frames_aliases_to_freeze_with_zero_budget() {
    let mut c = cfg();
    c.set_reuse_stale_frames(true);
    let s = c.stall_for("cam1");
    assert_eq!(s.behavior, StallBehavior::Freeze);
    assert_eq!(s.max_lag_us, Some(0));
}

#[test]
fn explicit_knobs_win_over_the_alias() {
    let mut c = cfg();
    c.set_reuse_stale_frames(true);
    c.set_stall_behavior(StallBehavior::Omit);
    c.set_max_lag_ms(200);
    let s = c.stall_for("cam1");
    assert_eq!(s.behavior, StallBehavior::Omit);
    assert_eq!(s.max_lag_us, Some(200_000));
}

#[test]
fn an_explicit_drop_wins_too() {
    let mut c = cfg();
    c.set_reuse_stale_frames(true);
    c.set_stall_behavior(StallBehavior::Drop);
    assert_eq!(c.stall_for("cam1").behavior, StallBehavior::Drop);
}

#[test]
fn the_time_source_is_kept() {
    let mut c = cfg();
    assert_eq!(c.time_sync_source(), TimeSyncSource::Portal);
    assert_eq!(c.clock_skew_us(), 0);
    c.set_time_sync_source(TimeSyncSource::System);
    c.set_clock_skew_us(-40);
    assert_eq!(c.time_sync_source(), TimeSyncSource::System);
    assert_eq!(c.clock_skew_us(), -40);
}

#[test]
fn bitrates_are_of_no_account_on_byte_streams() {
    let mut c = cfg();
    c.add_video("d".to_string(), Codec::Png, 0, Some(0), None, None);
    assert_eq!(c.frame_video_tracks()[0].name, "d");
    assert_eq!(c.frame_video_tracks()[0].codec, Codec::Png);
    assert!(c.video_tracks().is_empty());
}

#[test]
fn max_lag_ms_converts_to_micros() {
    let mut c = cfg();
    c.set_max_lag_ms(200);
    assert_eq!(c.stall_for("cam1").max_lag_us, Some(200_000));
    c.set_max_lag_ms(0);
    assert_eq!(c.stall_for("cam1").max_lag_us, Some(0), "0 resolves immediately");
}

#[test]
fn per_track_overrides_apply_independently() {
    let mut c = cfg();
    c.set_stall_behavior(StallBehavior::Drop);
    c.set_max_lag_ms(100);
    c.set_track_stall_behavior("scene".to_string(), StallBehavior::Omit);
    c.set_track_max_lag_ms("wrist".to_string(), 20);

    let scene = c.stall_for("scene");
    assert_eq!(scene.behavior, StallBehavior::Omit, "behavior overridden");
    assert_eq!(scene.max_lag_us, Some(100_000), "budget inherited");

    let wrist = c.stall_for("wrist");
    assert_eq!(wrist.behavior, StallBehavior::Drop, "behavior inherited");
    assert_eq!(wrist.max_lag_us, Some(20_000), "budget overridden");

    let other = c.stall_for("other");
    assert_eq!(other.behavior, StallBehavior::Drop);
    assert_eq!(other.max_lag_us, Some(100_000));
}

#[test]
fn empty_track_name_is_not_the_fallback() {
    let mut c = cfg();
    c.set_stall_behavior(StallBehavior::Drop);
    c.set_track_stall_behavior("".to_string(), StallBehavior::Omit);
    assert_eq!(c.stall_for("").behavior, StallBehavior::Omit);
    assert_eq!(c.stall_for("cam1").behavior, StallBehavior::Drop, "fallback unaffected");
    assert_eq!(c.sync_config().default_stall.behavior, StallBehavior::Drop);
}

#[test]
fn stall_configs_follow_track_order() {
    let mut c = cfg();
    c.set_track_stall_behavior("b".to_string(), StallBehavior::Freeze);
    let names = vec!["a".to_string(), "b".to_string()];
    let got = c.stall_configs(&names);
    assert_eq!(got.len(), 2);
    assert_eq!(got[0].behavior, StallBehavior::Drop);
    assert_eq!(got[1].behavior, StallBehavior::Freeze);
}

#[test]
fn sync_settings_follow_the_session() {
    let mut c = cfg();
    let s = c.sync_config();
    assert_eq!(s.video_buffer_size, 5);
    assert_eq!(s.state_buffer_size, 5);
    assert_eq!(s.search_range_us, 50_000, "1.5 ticks at 30 per second");
    assert!(!s.reuse_stale_frames);
    c.set_reuse_stale_frames(true);
    c.set_fps(60);
    c.set_tolerance(0.5f32.to_bits());
    let s = c.sync_config();
    assert!(s.reuse_stale_frames);
    assert_eq!(s.search_range_us, 8_333);
}

#[test]
fn search_range_agrees_with_float_arithmetic() {
    let ticks = [
        f32::MIN_POSITIVE, f32::from_bits(1), 1e-20, 0.1, 0.5, 1.0, 1.5, 3.7, 1e6, 1.0e13, 3.3e20,
        f32::MAX, f32::INFINITY,
    ];
    let rates = [1u32, 2, 3, 7, 24, 25, 30, 59, 60, 144, 1000, 16_777_217, 123_456_789, u32::MAX];
    for t in ticks {
        for fps in rates {
            let expected = (t * 1_000_000.0 / fps as f32) as u64;
            assert_eq!(search_range_us(t.to_bits(), fps), expected, "{t} ticks at {fps}");
        }
    }
    // Pseudo-random patterns.
    let mut x: u64 = 0x9E37_79B9_7F4A_7C15;
    for _ in 0..20_000 {
        x ^= x << 13;
        x ^= x >> 7;
        x ^= x << 17;
        let bits = (x as u32) % 0x7f80_0000 + 1;
        let fps = ((x >> 32) as u32) % 100_000 + 1;
        let t = f32::from_bits(bits);
        let expected = (t * 1_000_000.0 / fps as f32) as u64;
        assert_eq!(search_range_us(bits, fps), expected, "{t} ticks at {fps}");
    }
}

#[test]
fn defaults_are_those_of_a_new_session() {
    let c = cfg();
    assert_eq!(c.session(), "demo");
    assert_eq!(c.role(), Role::Robot);
    assert_eq!(c.fps(), 30);
    assert_eq!(c.slack(), 5);
    assert_eq!(c.tolerance(), DEFAULT_TOLERANCE);
    assert_eq!(f32::from_bits(DEFAULT_TOLERANCE), 1.5);
    assert_eq!(c.ping_ms(), 1000);
    assert!(c.state_reliable() && c.action_reliable());
    assert!(!c.reuse_stale_frames() && !c.action_subscription() && !c.has_e2ee_key());
    assert_eq!(DEFAULT_H264_MAX_BITRATE_KBPS, 10_000);
}

#[test]
fn tracks_go_to_the_path_of_their_codec() {
    let mut c = cfg();
    c.add_video("front".to_string(), Codec::H264, 0, Some(2_000), Some(true), None);
    c.add_video("wrist".to_string(), Codec::Mjpeg, 80, None, None, None);
    assert_eq!(c.video_track_names(), vec!["front".to_string()]);
    assert_eq!(c.frame_video_track_names(), vec!["wrist".to_string()]);
    assert_eq!(c.video_tracks()[0].max_bitrate_kbps, Some(2_000));
    assert!(c.video_tracks()[0].simulcast);
    assert!(!c.video_tracks()[0].screencast);
    assert_eq!(c.frame_video_tracks()[0].quality, 80);
    assert!(c.has_track("front") && c.has_track("wrist") && !c.has_track("other"));
}

#[test]
fn schemas_keep_their_order() {
    let mut c = cfg();
    c.add_state_typed(vec![
        FieldSpec::new("b".to_string(), DType::F32),
        FieldSpec::new("a".to_string(), DType::Bool),
    ]);
    assert_eq!(c.state_fields(), vec!["b".to_string(), "a".to_string()]);
    c.add_action_chunk(
        "vla".to_string(),
        4,
        vec![FieldSpec::from(("x".to_string(), DType::I8))],
    );
    assert!(c.has_chunk("vla"));
    assert_eq!(c.action_chunks()[0].horizon, 4);
    c.set_e2ee_key(vec![1, 2, 3]);
    assert!(c.has_e2ee_key());
}
