use bytes::Bytes;
use livekit_portal::bindings::{
    action_from_core, add_video, dropped_from_core, error_from_core, f64_to_typed, frame_from_core,
    framevideospec_from_core, metrics_from_core, observation_from_core, role_to_core,
    schema_from_core, state_from_core, subscription_from_core, subscription_to_core,
    videotrackspec_from_core, ActionSubscription, ConfigFileError, DType, FrameSource, PortalError,
    Role, RpcError, StallBehavior, VideoCodec,
};
use livekit_portal::codec::Codec;
use livekit_portal::config::{FieldSpec, FrameVideoSpec, PortalConfig, VideoTrackSpec};
use livekit_portal::data::{build_action, build_state, check_dtypes};
use livekit_portal::metrics::{MetricsRegistry, TimeSyncMetrics};
use livekit_portal::name_map::NameMap;
use livekit_portal::types::{Observation, TimeSyncSource, TypedValue, VideoFrameData};
use livekit_portal::{config_file, dtype, error, rpc, types};

fn field(name: &str, d: dtype::DType) -> FieldSpec {
    FieldSpec::new(name.to_string(), d)
}

#[test]
fn enums_cross_unchanged() {
    for c in [Codec::H264, Codec::Raw, Codec::Png, Codec::Mjpeg] {
        assert_eq!(Codec::from(VideoCodec::from(c)), c);
    }
    for d in [
        dtype::DType::F64,
        dtype::DType::F32,
        dtype::DType::I32,
        dtype::DType::I16,
        dtype::DType::I8,
        dtype::DType::U32,
        dtype::DType::U16,
        dtype::DType::U8,
        dtype::DType::Bool,
    ] {
        assert_eq!(dtype::DType::from(DType::from(d)), d);
    }
    for r in [types::Role::Robot, types::Role::Operator, types::Role::Observer] {
        assert_eq!(role_to_core(Role::from(r)), r);
    }
    assert_eq!(role_to_core(Role::Observer), types::Role::Observer);
    assert_eq!(types::StallBehavior::from(StallBehavior::Omit), types::StallBehavior::Omit);
    assert_eq!(FrameSource::from(types::FrameSource::Stale), FrameSource::Stale);
}

#[test]
fn numbers_become_what_the_schema_declares() {
    let schema = [field("a", dtype::DType::I8), field("b", dtype::DType::Bool)];
    let mut numbers = NameMap::new();
    numbers.insert("a".to_string(), 300.0f64.to_bits());
    numbers.insert("b".to_string(), 2.0f64.to_bits());
    numbers.insert("x".to_string(), 1.5f64.to_bits());
    let typed = f64_to_typed(&numbers, &schema);
    assert_eq!(typed.get("a"), Some(&TypedValue::I8(127)));
    assert_eq!(typed.get("b"), Some(&TypedValue::Bool(true)));
    assert_eq!(typed.get("x"), Some(&TypedValue::F64(1.5f64.to_bits())));
    assert!(check_dtypes(&schema, &typed).is_ok());
    assert_eq!(dropped_from_core(&typed).get("a"), Some(&127.0f64.to_bits()));
}

#[test]
fn records_cross_with_their_numbers() {
    let schema = [field("a", dtype::DType::F64)];
    let v = [2.5f64.to_bits()];
    let a = action_from_core(&build_action(7, Some(3), &schema, &v, "op".to_string(), true));
    assert_eq!((a.timestamp_us, a.in_reply_to_ts_us, a.sender.as_str()), (7, Some(3), "op"));
    assert_eq!(a.values.get("a"), Some(&v[0]));
    assert!(a.active);
    let s = state_from_core(&build_state(8, &schema, &v));
    assert_eq!(s.timestamp_us, 8);
    assert_eq!(s.values.get("a"), Some(&v[0]));

    let frame = VideoFrameData {
        width: 1,
        height: 2,
        data: Bytes::from(vec![1, 2, 3, 4, 5, 6]),
        timestamp_us: 9,
        source: types::FrameSource::Live,
    };
    let f = frame_from_core(&frame);
    assert_eq!((f.width, f.height, f.timestamp_us), (1, 2, 9));
    assert_eq!(f.data, vec![1, 2, 3, 4, 5, 6]);
    assert_eq!(f.source, FrameSource::Live);

    let mut frames = NameMap::new();
    frames.insert("cam".to_string(), frame);
    let mut raw_state = NameMap::new();
    raw_state.insert("a".to_string(), v[0]);
    let o = observation_from_core(&Observation {
        state: NameMap::new(),
        raw_state,
        frames,
        timestamp_us: 10,
    });
    assert_eq!(o.timestamp_us, 10);
    assert_eq!(o.state.get("a"), Some(&v[0]));
    assert_eq!(o.frames.get("cam").unwrap().data.len(), 6);
}

#[test]
fn declarations_cross() {
    let v = schema_from_core(&[field("a", dtype::DType::U16)]);
    assert_eq!((v[0].name.as_str(), v[0].dtype), ("a", DType::U16));
    let t = framevideospec_from_core(&FrameVideoSpec::new("w".to_string(), Codec::Mjpeg, 80));
    assert_eq!((t.name.as_str(), t.codec, t.quality), ("w", VideoCodec::Mjpeg, 80));
    assert_eq!(t.max_bitrate_kbps, None);
    let t = videotrackspec_from_core(&VideoTrackSpec {
        name: "f".to_string(),
        codec: Codec::H264,
        max_bitrate_kbps: Some(5),
        simulcast: true,
        screencast: false,
    });
    assert_eq!((t.codec, t.max_bitrate_kbps), (VideoCodec::H264, Some(5)));
    assert!(t.simulcast && !t.screencast);
}

#[test]
fn snapshots_cross() {
    let names = vec!["cam".to_string()];
    let mut m = MetricsRegistry::new(&names);
    m.record_rtt(40);
    let mut fill = NameMap::new();
    fill.insert("cam".to_string(), 3usize);
    let time_sync = TimeSyncMetrics {
        source: TimeSyncSource::System,
        synced: true,
        offset_us: -5,
        uncertainty_us: Some(2),
        measured_offset_us: Some(-7),
        resyncs: 1,
        samples_rejected: 4,
    };
    let b = metrics_from_core(m.snapshot(fill, 2), time_sync);
    assert_eq!(b.rtt.rtt_us_last, Some(40));
    assert_eq!(b.buffers.video_fill.get("cam"), Some(&3));
    assert_eq!(b.buffers.state_fill, 2);
    assert_eq!(b.time_sync, time_sync);
    assert_eq!(b.time_sync.source, TimeSyncSource::System);
    assert_eq!(b.time_sync.measured_offset_us, Some(-7));
}

#[test]
fn subscriptions_cross() {
    for s in [ActionSubscription::Off, ActionSubscription::Active, ActionSubscription::All] {
        assert_eq!(subscription_from_core(subscription_to_core(s)), s);
    }
    assert_eq!(subscription_to_core(ActionSubscription::Off), types::ActionSubscription::Off);
    assert_eq!(subscription_to_core(ActionSubscription::All), types::ActionSubscription::All);
}

#[test]
fn failures_cross() {
    assert!(matches!(
        error_from_core(error::PortalError::WrongRole(types::Role::Operator)),
        PortalError::WrongRole(Role::Operator)
    ));
    assert!(matches!(
        error_from_core(error::PortalError::WrongFrameSize { expected: 1, got: 2 }),
        PortalError::WrongFrameSize { expected: 1, got: 2 }
    ));
    let e = rpc::RpcError::new(7, "m".to_string(), Some("d".to_string()));
    let back = rpc::RpcError::from(RpcError::from(e));
    assert_eq!((back.code, back.message.as_str()), (7, "m"));
    assert_eq!(back.data.as_deref(), Some("d"));
}

#[test]
fn failures_are_told_in_words() {
    let cases = [
        (PortalError::AmbiguousPeer, "room has multiple remote participants; pass destination explicitly"),
        (
            PortalError::InvalidFrameDimensions { width: 3, height: 4 },
            "invalid frame dimensions: 3x4 (must both be even)",
        ),
        (PortalError::WrongRole(Role::Observer), "operation not available for role Observer"),
        (
            PortalError::DtypeMismatch {
                field: "f".to_string(),
                expected: DType::Bool,
                got: "F32".to_string(),
            },
            "field 'f' declared as Bool but sent as F32",
        ),
        (
            PortalError::Rpc { code: 3, message: "m".to_string(), data: None },
            "rpc error 3: m",
        ),
        (PortalError::Room("x".to_string()), "room error: x"),
        (PortalError::UnknownVideoTrack("t".to_string()), "unknown video track: t"),
        (
            PortalError::WrongFrameSize { expected: 10, got: 2 },
            "wrong frame size: expected 10 bytes, got 2",
        ),
    ];
    for (e, text) in cases {
        assert_eq!(e.describe(), text);
    }
    let e = RpcError::Error { code: 9, message: "n".to_string(), data: None };
    assert_eq!(e.describe(), "rpc error 9: n");
    assert!(matches!(
        ConfigFileError::from(config_file::ConfigFileError::UnsupportedVersion {
            got: 2,
            supported: 1
        }),
        ConfigFileError::UnsupportedVersion { got: 2, supported: 1 }
    ));
}

#[test]
fn tracks_are_declared_with_their_stall_settings() {
    let mut cfg = PortalConfig::new("demo".to_string(), types::Role::Operator);
    add_video(
        &mut cfg,
        "scene".to_string(),
        VideoCodec::H264,
        0,
        None,
        Some(true),
        None,
        Some(StallBehavior::Omit),
        Some(40),
    );
    add_video(&mut cfg, "wrist".to_string(), VideoCodec::Png, 0, None, None, None, None, None);
    assert_eq!(cfg.stall_for("scene").behavior, types::StallBehavior::Omit);
    assert_eq!(cfg.stall_for("scene").max_lag_us, Some(40_000));
    assert_eq!(cfg.stall_for("wrist").behavior, types::StallBehavior::Drop);
    assert!(cfg.video_tracks()[0].simulcast);
    assert_eq!(cfg.frame_video_tracks()[0].codec, Codec::Png);
}
