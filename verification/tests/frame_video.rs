use bytes::Bytes;
use livekit_portal::codec::Codec;
use livekit_portal::config::FrameVideoSpec;
use livekit_portal::data::SendOutcome;
use livekit_portal::error::PortalError;
use livekit_portal::frame_video::{
    build_frame_payload, codec_from_id, codec_id, deserialize_frame, dispatch_frame_payload,
    record_send, FrameFault, HEADER_FIXED_LEN, TRACK_NAME_MAX, WIRE_VERSION,
};
use livekit_portal::metrics::MetricsRegistry;
use livekit_portal::name_map::NameMap;
use livekit_portal::types::FrameSource;

/// 8x8 RGB24 = 192 bytes.
fn rgb8x8() -> Vec<u8> {
    vec![0u8; 8 * 8 * 3]
}

#[test]
fn header_roundtrip_with_raw_codec() {
    let rgb = rgb8x8();
    let bytes = build_frame_payload("cam_left", Codec::Raw, 8, 8, 12_345, &rgb, 0).unwrap();
    let h = deserialize_frame(&bytes).unwrap();
    assert_eq!(h.codec, Codec::Raw);
    assert_eq!((h.width, h.height), (8, 8));
    assert_eq!(h.timestamp_us, 12_345);
    assert_eq!(h.track_name, "cam_left");
    assert_eq!(&bytes[h.payload_offset..], rgb.as_slice());
}

#[test]
fn rejects_oversize_dims() {
    let err = build_frame_payload("cam", Codec::Raw, 100_000, 240, 0, &[], 0).unwrap_err();
    assert!(matches!(err, PortalError::Codec(msg) if msg.contains("u16 max")));
}

#[test]
fn rejects_oversize_track_name() {
    let big_name = "x".repeat(TRACK_NAME_MAX + 1);
    let rgb = rgb8x8();
    let err = build_frame_payload(&big_name, Codec::Raw, 8, 8, 0, &rgb, 0).unwrap_err();
    assert!(matches!(err, PortalError::Codec(msg) if msg.contains("track name too long")));
}

#[test]
fn rejects_bad_version() {
    let rgb = rgb8x8();
    let mut bytes = build_frame_payload("cam", Codec::Raw, 8, 8, 0, &rgb, 0).unwrap();
    bytes[0] = 99;
    assert!(deserialize_frame(&bytes).is_err());
}

#[test]
fn rejects_unknown_codec_id() {
    let rgb = rgb8x8();
    let mut bytes = build_frame_payload("cam", Codec::Raw, 8, 8, 0, &rgb, 0).unwrap();
    bytes[1] = 99;
    assert!(deserialize_frame(&bytes).is_err());
}

#[test]
fn rejects_truncated_header() {
    let rgb = rgb8x8();
    let bytes = build_frame_payload("cam_left_long_name", Codec::Png, 8, 8, 0, &rgb, 0).unwrap();
    // Strip past mid-name to simulate truncation.
    let truncated = &bytes[..HEADER_FIXED_LEN + 4];
    assert!(deserialize_frame(truncated).is_err());
}

#[test]
fn rejects_oversize_track_name_on_deserialize() {
    let mut bytes = vec![WIRE_VERSION, codec_id(Codec::Raw)];
    bytes.extend_from_slice(&8u16.to_le_bytes()); // width
    bytes.extend_from_slice(&8u16.to_le_bytes()); // height
    bytes.extend_from_slice(&0u64.to_le_bytes()); // ts
    bytes.extend_from_slice(&((TRACK_NAME_MAX + 1) as u16).to_le_bytes());
    // No name body: the length alone is refused.
    assert!(deserialize_frame(&bytes).is_err());
}

#[test]
fn header_faults_are_told_apart() {
    assert_eq!(
        deserialize_frame(&[1, 2, 3]).unwrap_err(),
        "frame_video payload shorter than fixed header"
    );
    let good = build_frame_payload("cam", Codec::Raw, 8, 8, 0, &rgb8x8(), 0).unwrap();
    let mut bad = good.clone();
    bad[0] = 2;
    assert_eq!(deserialize_frame(&bad).unwrap_err(), "frame_video payload has unknown version");
    let mut bad = good.clone();
    bad[1] = 3;
    assert_eq!(deserialize_frame(&bad).unwrap_err(), "unknown codec id");
    let mut bad = good.clone();
    bad[16] = 0xff;
    assert_eq!(deserialize_frame(&bad).unwrap_err(), "track name not valid utf-8");
    assert_eq!(
        deserialize_frame(&good[..18]).unwrap_err(),
        "frame_video payload truncated mid-header"
    );
}

#[test]
fn names_beyond_ascii_survive() {
    let bytes = build_frame_payload("caméra-🧊", Codec::Raw, 8, 8, 1, &rgb8x8(), 0).unwrap();
    assert_eq!(deserialize_frame(&bytes).unwrap().track_name, "caméra-🧊");
}

#[test]
fn errors_of_the_encoder_are_passed_on() {
    match build_frame_payload("cam", Codec::Raw, 8, 8, 0, &[1, 2], 0).unwrap_err() {
        PortalError::Codec(m) => {
            assert_eq!(m, "wrong RGB buffer size for 8x8: expected 192 bytes, got 2");
        }
        other => panic!("expected Codec, got {other:?}"),
    }
}

fn track(name: &str, codec: Codec) -> FrameVideoSpec {
    FrameVideoSpec::new(name.to_string(), codec, 80)
}

fn picture() -> Vec<u8> {
    (0..8 * 6 * 3).map(|i| (i * 7 % 256) as u8).collect()
}

#[test]
fn lossless_frames_arrive_unchanged() {
    for codec in [Codec::Raw, Codec::Png] {
        let tracks = [track("other", Codec::Raw), track("cam", codec)];
        let names = vec!["cam".to_string()];
        let mut metrics = MetricsRegistry::new(&names);
        let rgb = picture();
        let payload = build_frame_payload("cam", codec, 8, 6, 777, &rgb, 0).unwrap();
        let len = payload.len() as u64;
        let (t, frame) =
            dispatch_frame_payload(Bytes::from(payload), &tracks, 1_000, &mut metrics).unwrap();
        assert_eq!(t, 1);
        assert_eq!((frame.width, frame.height, frame.timestamp_us), (8, 6, 777));
        assert_eq!(frame.data.as_ref(), rgb.as_slice());
        assert_eq!(frame.source, FrameSource::Live);
        let snap = metrics.snapshot(NameMap::new(), 0);
        assert_eq!(snap.transport.frames_received.get("cam"), Some(&1));
        assert_eq!(snap.transport.bytes_received.get("cam"), Some(&len));
    }
}

#[test]
fn jpeg_frames_arrive_with_their_dimensions() {
    let tracks = [track("cam", Codec::Mjpeg)];
    let mut metrics = MetricsRegistry::new(&[]);
    let payload = build_frame_payload("cam", Codec::Mjpeg, 8, 6, 777, &picture(), 80).unwrap();
    let (t, frame) =
        dispatch_frame_payload(Bytes::from(payload), &tracks, 0, &mut metrics).unwrap();
    assert_eq!(t, 0);
    assert_eq!((frame.width, frame.height, frame.timestamp_us), (8, 6, 777));
    assert_eq!(frame.data.len(), 8 * 6 * 3);
}

#[test]
fn raw_frames_share_the_payload() {
    let tracks = [track("cam", Codec::Raw)];
    let mut metrics = MetricsRegistry::new(&[]);
    let payload = Bytes::from(
        build_frame_payload("cam", Codec::Raw, 8, 6, 0, &picture(), 0).unwrap(),
    );
    let start = payload.as_ptr() as usize;
    let (_, frame) = dispatch_frame_payload(payload, &tracks, 0, &mut metrics).unwrap();
    assert_eq!(frame.data.as_ptr() as usize, start + HEADER_FIXED_LEN + 3);
}

#[test]
fn payloads_that_do_not_fit_are_dropped() {
    let tracks = [track("cam", Codec::Raw), track("small", Codec::Png)];
    let names = vec!["cam".to_string(), "small".to_string()];
    let mut metrics = MetricsRegistry::new(&names);
    let rgb = picture();
    let raw = build_frame_payload("cam", Codec::Raw, 8, 6, 0, &rgb, 0).unwrap();

    let r = dispatch_frame_payload(Bytes::from(vec![0u8; 3]), &tracks, 0, &mut metrics);
    assert!(matches!(r, Err(FrameFault::BadHeader(_))));

    let ghost = build_frame_payload("ghost", Codec::Raw, 8, 6, 0, &rgb, 0).unwrap();
    let r = dispatch_frame_payload(Bytes::from(ghost), &tracks, 0, &mut metrics);
    assert!(matches!(r, Err(FrameFault::UndeclaredTrack)));

    let png = build_frame_payload("cam", Codec::Png, 8, 6, 0, &rgb, 0).unwrap();
    let r = dispatch_frame_payload(Bytes::from(png), &tracks, 0, &mut metrics);
    assert!(matches!(
        r,
        Err(FrameFault::CodecMismatch { declared: Codec::Raw, got: Codec::Png })
    ));

    let mut cut = raw.clone();
    cut.pop();
    let r = dispatch_frame_payload(Bytes::from(cut), &tracks, 0, &mut metrics);
    assert!(matches!(r, Err(FrameFault::Undecodable(_))));

    let mut broken = build_frame_payload("small", Codec::Png, 8, 6, 0, &rgb, 0).unwrap();
    broken.truncate(40);
    let r = dispatch_frame_payload(Bytes::from(broken), &tracks, 0, &mut metrics);
    assert!(matches!(r, Err(FrameFault::Undecodable(_))));

    let snap = metrics.snapshot(NameMap::new(), 0);
    assert_eq!(snap.transport.frames_received.get("cam"), Some(&0));
}

#[test]
fn send_outcomes_are_counted() {
    let names = vec!["cam".to_string()];
    let mut metrics = MetricsRegistry::new(&names);
    record_send("cam", SendOutcome::Queued, 100, &mut metrics);
    record_send("cam", SendOutcome::Full, 50, &mut metrics);
    record_send("cam", SendOutcome::Closed, 50, &mut metrics);
    record_send("ghost", SendOutcome::Queued, 50, &mut metrics);
    let t = metrics.snapshot(NameMap::new(), 0).transport;
    assert_eq!(t.frames_sent.get("cam"), Some(&1));
    assert_eq!(t.bytes_sent.get("cam"), Some(&100));
    assert_eq!(t.frames_dropped_publisher_full.get("cam"), Some(&1));
    assert!(t.frames_sent.get("ghost").is_none());
}

#[test]
fn codec_numbers_are_stable() {
    for (c, id) in [(Codec::Raw, 0), (Codec::Png, 1), (Codec::Mjpeg, 2)] {
        assert_eq!(codec_id(c), id);
        assert_eq!(codec_from_id(id), Some(c));
    }
    assert_eq!(codec_from_id(3), None);
}
