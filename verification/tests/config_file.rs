use livekit_portal::codec::Codec;
use livekit_portal::config::{PortalConfig, DEFAULT_MJPEG_QUALITY};
use livekit_portal::config_file::{
    codec_from_name, dtype_from_name, validate, ChunkEntry, ConfigFileError, ConfigFileV1,
    FieldEntry, VideoEntry,
};
use livekit_portal::dtype::DType;
use livekit_portal::types::Role;

fn video(name: &str, codec: &str, quality: Option<u8>) -> VideoEntry {
    VideoEntry {
        name: name.to_string(),
        codec: codec_from_name(codec).expect("known codec"),
        quality,
    }
}

fn field(name: &str, dtype: &str) -> FieldEntry {
    FieldEntry { name: name.to_string(), dtype: dtype_from_name(dtype).expect("known dtype") }
}

fn chunk(name: &str, horizon: u32, fields: Vec<FieldEntry>) -> ChunkEntry {
    ChunkEntry { name: name.to_string(), horizon, fields }
}

fn bare(version: u32) -> ConfigFileV1 {
    ConfigFileV1 {
        version,
        fps: None,
        slack: None,
        tolerance: None,
        state_reliable: None,
        action_reliable: None,
        reuse_stale_frames: None,
        ping_ms: None,
        action_subscription: None,
        videos: Vec::new(),
        state: Vec::new(),
        action: Vec::new(),
        action_chunks: Vec::new(),
    }
}

fn full() -> ConfigFileV1 {
    ConfigFileV1 {
        version: 1,
        fps: Some(60),
        slack: Some(8),
        tolerance: Some(1.0f32.to_bits()),
        state_reliable: Some(false),
        action_reliable: Some(false),
        reuse_stale_frames: Some(true),
        ping_ms: Some(500),
        action_subscription: Some(true),
        videos: vec![
            video("front", "h264", None),
            video("wrist", "mjpeg", Some(80)),
            video("depth", "png", None),
        ],
        state: vec![field("joint_pos", "f32"), field("gripper", "bool")],
        action: vec![field("joint_pos", "f32")],
        action_chunks: vec![chunk("vla", 16, vec![field("joint_pos", "f32")])],
    }
}

fn load(file: &ConfigFileV1, role: Role) -> Result<PortalConfig, ConfigFileError> {
    PortalConfig::from_file(file, "demo".to_string(), role)
}

#[test]
fn full_config_round_trip() {
    let cfg = load(&full(), Role::Robot).unwrap();
    assert_eq!(cfg.video_track_names(), vec!["front".to_string()]);
    assert_eq!(cfg.frame_video_tracks().len(), 2);
    assert_eq!(cfg.frame_video_tracks()[0].name, "wrist");
    assert_eq!(cfg.frame_video_tracks()[0].codec, Codec::Mjpeg);
    assert_eq!(cfg.frame_video_tracks()[0].quality, 80);
    assert_eq!(cfg.frame_video_tracks()[1].codec, Codec::Png);

    assert_eq!(cfg.state_fields(), vec!["joint_pos".to_string(), "gripper".to_string()]);
    assert_eq!(cfg.state_schema()[1].dtype, DType::Bool);
    assert_eq!(cfg.action_fields(), vec!["joint_pos".to_string()]);

    assert_eq!(cfg.action_chunks().len(), 1);
    assert_eq!(cfg.action_chunks()[0].horizon, 16);

    assert!(cfg.action_subscription());
}

#[test]
fn every_setting_of_a_file_applies() {
    let cfg = load(&full(), Role::Robot).unwrap();
    assert_eq!(cfg.session(), "demo");
    assert_eq!(cfg.fps(), 60);
    assert_eq!(cfg.slack(), 8);
    assert_eq!(cfg.tolerance(), 1.0f32.to_bits());
    assert!(!cfg.state_reliable() && !cfg.action_reliable());
    assert!(cfg.reuse_stale_frames());
    assert_eq!(cfg.ping_ms(), 500);
}

#[test]
fn defaults_apply_when_fields_omitted() {
    let cfg = load(&bare(1), Role::Robot).unwrap();
    // Same defaults as a new session.
    assert_eq!(cfg.video_tracks().len(), 0);
    assert_eq!(cfg.frame_video_tracks().len(), 0);
    assert_eq!(cfg.state_schema().len(), 0);
    assert_eq!(cfg.action_schema().len(), 0);
    assert_eq!(cfg.action_chunks().len(), 0);
    assert!(!cfg.action_subscription());
}

#[test]
fn mjpeg_quality_defaults_to_90() {
    let file = ConfigFileV1 { videos: vec![video("cam", "mjpeg", None)], ..bare(1) };
    let cfg = load(&file, Role::Robot).unwrap();
    assert_eq!(cfg.frame_video_tracks()[0].quality, DEFAULT_MJPEG_QUALITY);
    assert_eq!(DEFAULT_MJPEG_QUALITY, 90);
}

#[test]
fn unknown_version_rejected() {
    let err = load(&bare(2), Role::Robot).unwrap_err();
    assert!(matches!(err, ConfigFileError::UnsupportedVersion { got: 2, supported: 1 }));
    assert_eq!(
        err.describe(),
        "unsupported config-file version 2; this build supports version 1"
    );
}

#[test]
fn duplicate_video_rejected() {
    let file = ConfigFileV1 {
        videos: vec![video("cam", "h264", None), video("cam", "mjpeg", Some(80))],
        ..bare(1)
    };
    match load(&file, Role::Robot).unwrap_err() {
        ConfigFileError::Invalid(msg) => assert!(msg.contains("duplicate video")),
        other => panic!("expected Invalid, got {other:?}"),
    }
}

#[test]
fn duplicate_chunk_rejected() {
    let file = ConfigFileV1 {
        action_chunks: vec![
            chunk("vla", 4, vec![field("x", "f32")]),
            chunk("vla", 4, vec![field("x", "f32")]),
        ],
        ..bare(1)
    };
    let err = load(&file, Role::Robot).unwrap_err();
    assert!(matches!(err, ConfigFileError::Invalid(_)));
}

#[test]
fn zero_horizon_rejected() {
    let file = ConfigFileV1 {
        action_chunks: vec![chunk("vla", 0, vec![field("x", "f32")])],
        ..bare(1)
    };
    let err = load(&file, Role::Robot).unwrap_err();
    assert!(matches!(err, ConfigFileError::Invalid(_)));
}

#[test]
fn bad_dtype_rejected() {
    assert!(dtype_from_name("float64").is_none());
}

#[test]
fn bad_codec_rejected() {
    assert!(codec_from_name("vp8").is_none());
}

#[test]
fn out_of_range_mjpeg_quality_rejected() {
    let file = ConfigFileV1 { videos: vec![video("cam", "mjpeg", Some(0))], ..bare(1) };
    let err = load(&file, Role::Robot).unwrap_err();
    assert!(matches!(err, ConfigFileError::Invalid(_)));
}

#[test]
fn dtype_and_codec_strings_are_case_insensitive() {
    let file = ConfigFileV1 {
        videos: vec![video("cam", "H264", None)],
        state: vec![field("x", "F32")],
        ..bare(1)
    };
    let cfg = load(&file, Role::Robot).unwrap();
    assert_eq!(cfg.video_track_names(), vec!["cam".to_string()]);
    assert_eq!(cfg.state_schema()[0].dtype, DType::F32);
}

#[test]
fn fps_zero_rejected() {
    let file = ConfigFileV1 { fps: Some(0), ..bare(1) };
    let err = load(&file, Role::Robot).unwrap_err();
    assert!(matches!(err, ConfigFileError::Invalid(_)));
}

#[test]
fn role_is_supplied_at_load_time() {
    let robot = load(&full(), Role::Robot).unwrap();
    let operator = load(&full(), Role::Operator).unwrap();
    assert_eq!(robot.state_schema(), operator.state_schema());
    assert_eq!(robot.action_schema(), operator.action_schema());
    assert_eq!(robot.role(), Role::Robot);
    assert_eq!(operator.role(), Role::Operator);
}

#[test]
fn slack_and_tolerance_must_be_positive() {
    let file = ConfigFileV1 { slack: Some(0), ..bare(1) };
    assert!(matches!(validate(&file), Err(ConfigFileError::Invalid(_))));
    for bad in [0.0f32, -1.0, f32::NAN] {
        let file = ConfigFileV1 { tolerance: Some(bad.to_bits()), ..bare(1) };
        assert!(matches!(validate(&file), Err(ConfigFileError::Invalid(_))), "{bad}");
    }
    assert!(validate(&full()).is_ok());
}

#[test]
fn names_of_types_and_codecs() {
    assert_eq!(dtype_from_name("u16"), Some(DType::U16));
    assert_eq!(codec_from_name("RAW"), Some(Codec::Raw));
    assert_eq!(codec_from_name(""), None);
    assert_eq!(
        ConfigFileError::Parse("x".to_string()).describe(),
        "yaml parse error: x"
    );
    assert_eq!(ConfigFileError::Io("y".to_string()).describe(), "io error: y");
    assert_eq!(ConfigFileError::Invalid("z".to_string()).describe(), "invalid config: z");
}
