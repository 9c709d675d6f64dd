use std::sync::Arc;

use bytes::Bytes;
use livekit_portal::codec::Codec;
use livekit_portal::config::{FieldSpec, PortalConfig};
use livekit_portal::data::STATE_TOPIC;
use livekit_portal::dtype::DType;
use livekit_portal::metrics::MetricsRegistry;
use livekit_portal::name_map::NameMap;
use livekit_portal::placeholder::{is_drawable, render};
use livekit_portal::portal::{Portal, RoomEvent};
use livekit_portal::sync_buffer::{SyncBuffer, SyncOutput};
use livekit_portal::types::{
    FrameSource, Role, StallBehavior, StallConfig, SyncConfig, TypedValue, VideoFrameData,
};

fn frame(width: u32, height: u32, ts: u64) -> Arc<VideoFrameData> {
    Arc::new(VideoFrameData {
        width,
        height,
        data: Bytes::from(vec![7u8; (width * height * 3) as usize]),
        timestamp_us: ts,
        source: FrameSource::Live,
    })
}

fn stall(behavior: StallBehavior, max_lag_us: Option<u64>) -> StallConfig {
    StallConfig { max_lag_us, behavior }
}

/// Two tracks, `a` and `b`, with a search range of 500 us.
struct Pair {
    buf: SyncBuffer,
    metrics: MetricsRegistry,
}

impl Pair {
    fn new(a: StallConfig, b: StallConfig) -> Self {
        let names = vec!["a".to_string(), "b".to_string()];
        let schema = vec![FieldSpec::new("j".to_string(), DType::F64)];
        let config = SyncConfig {
            video_buffer_size: 10,
            state_buffer_size: 10,
            search_range_us: 500,
            ..Default::default()
        };
        Pair {
            buf: SyncBuffer::with_stalls(&names, schema, config, vec![a, b]),
            metrics: MetricsRegistry::new(&names),
        }
    }

    fn frame(&mut self, track: &str, ts: u64) -> SyncOutput {
        self.buf.push_frame(track, frame(4, 2, ts), &mut self.metrics)
    }

    fn state(&mut self, ts: u64) -> SyncOutput {
        self.buf.push_state(ts, vec![1.0f64.to_bits()], &mut self.metrics)
    }

    fn omitted(&self, track: &str) -> u64 {
        *self.metrics.snapshot(NameMap::new(), 0).sync.frames_omitted.get(track).unwrap()
    }

    /// Brings both tracks and the states to 1000.
    fn started(a: StallConfig, b: StallConfig) -> Self {
        let mut p = Pair::new(a, b);
        p.frame("a", 1_000);
        p.frame("b", 1_000);
        assert_eq!(p.state(1_000).observations.len(), 1);
        p
    }
}

#[test]
fn a_placeholder_stands_in_for_a_silent_track() {
    let mut p = Pair::started(
        stall(StallBehavior::Drop, None),
        stall(StallBehavior::Omit, Some(10_000)),
    );
    // The healthy track goes on, the other falls silent.
    p.frame("a", 5_000);
    assert!(p.state(5_000).is_empty(), "within the budget");
    assert!(p.frame("a", 14_999).is_empty(), "one short of the budget");
    let out = p.frame("a", 15_000);
    assert_eq!(out.observations.len(), 1);
    assert!(out.drops.is_empty());
    let shown = out.observations[0].frames.get("b").unwrap();
    assert_eq!(shown.source, FrameSource::Omitted);
    assert_eq!((shown.width, shown.height), (4, 2));
    assert_eq!(shown.timestamp_us, 5_000);
    assert_eq!(shown.data, render(4, 2, "b"));
    let live = out.observations[0].frames.get("a").unwrap();
    assert_eq!((live.source, live.timestamp_us), (FrameSource::Live, 5_000));
    assert_eq!(p.omitted("b"), 1);
    assert_eq!(p.omitted("a"), 0);
}

#[test]
fn without_a_first_frame_there_is_no_placeholder() {
    let mut p = Pair::new(
        stall(StallBehavior::Drop, None),
        stall(StallBehavior::Omit, Some(0)),
    );
    p.frame("a", 1_000);
    assert!(p.state(1_000).is_empty(), "the size of the frames is not known yet");
    // A frame makes the size known; it is out of range, so a placeholder
    // takes its place.
    let out = p.frame("b", 200);
    assert_eq!(out.observations.len(), 1);
    let shown = out.observations[0].frames.get("b").unwrap();
    assert_eq!(shown.source, FrameSource::Omitted);
}

#[test]
fn before_the_first_frame_the_budget_drops() {
    for behavior in [StallBehavior::Freeze, StallBehavior::Omit] {
        let mut p =
            Pair::new(stall(StallBehavior::Drop, None), stall(behavior, Some(1_000)));
        p.frame("a", 1_000);
        assert!(p.state(1_000).is_empty());
        assert!(p.frame("a", 1_999).is_empty(), "one short of the budget");
        let out = p.frame("a", 2_000);
        assert!(out.observations.is_empty());
        assert_eq!(out.drops.len(), 1);
        assert_eq!(out.ahead_us, vec![1_000]);
        assert_eq!(p.buf.state_fill(), 0);
    }
}

#[test]
fn placeholders_follow_the_size_of_the_frames() {
    let mut p = Pair::started(
        stall(StallBehavior::Freeze, Some(0)),
        stall(StallBehavior::Omit, Some(0)),
    );
    let small = p.state(9_000);
    let shown = small.observations[0].frames.get("b").unwrap();
    assert_eq!(shown.data, render(4, 2, "b"));
    p.buf.push_frame("b", frame(2, 6, 9_600), &mut p.metrics);
    let other = p.state(20_000);
    let shown = other.observations[0].frames.get("b").unwrap();
    assert_eq!((shown.width, shown.height), (2, 6));
    assert_eq!(shown.data, render(2, 6, "b"));
    assert_eq!(p.omitted("b"), 2);
}

#[test]
fn freezing_waits_for_its_budget() {
    let mut p = Pair::started(
        stall(StallBehavior::Drop, None),
        stall(StallBehavior::Freeze, Some(2_000)),
    );
    p.frame("a", 3_000);
    assert!(p.state(3_000).is_empty());
    assert_eq!(p.buf.blocker(), Some(1));
    assert!(p.frame("a", 4_000).is_empty());
    let out = p.frame("a", 5_000);
    assert_eq!(out.observations.len(), 1);
    let shown = out.observations[0].frames.get("b").unwrap();
    assert_eq!((shown.source, shown.timestamp_us), (FrameSource::Stale, 1_000));
}

#[test]
fn a_frame_in_time_ends_the_wait() {
    let mut p = Pair::started(
        stall(StallBehavior::Drop, None),
        stall(StallBehavior::Freeze, Some(2_000)),
    );
    p.frame("a", 3_000);
    assert!(p.state(3_000).is_empty());
    let out = p.frame("b", 3_100);
    let shown = out.observations[0].frames.get("b").unwrap();
    assert_eq!((shown.source, shown.timestamp_us), (FrameSource::Live, 3_100));
}

#[test]
fn dropping_happens_at_the_budget() {
    let mut p = Pair::started(
        stall(StallBehavior::Drop, None),
        stall(StallBehavior::Drop, Some(2_000)),
    );
    p.frame("a", 3_000);
    assert!(p.state(3_000).is_empty());
    assert!(p.state(4_999).is_empty());
    let out = p.state(5_000);
    assert!(out.observations.is_empty());
    assert_eq!(out.drops.len(), 1, "only the oldest state is that far behind");
    assert_eq!(out.ahead_us, vec![2_000]);
    assert_eq!(p.buf.state_fill(), 2);
}

#[test]
fn without_a_budget_a_silent_track_is_waited_for() {
    let mut p = Pair::started(
        stall(StallBehavior::Drop, None),
        stall(StallBehavior::Drop, None),
    );
    p.frame("a", 3_000);
    assert!(p.state(3_000).is_empty());
    assert!(p.frame("a", 9_000_000).is_empty());
    assert_eq!(p.frame("b", 3_000).observations.len(), 1);
}

#[test]
fn a_gap_is_bridged_before_the_budget_is_used_up() {
    let mut p = Pair::started(
        stall(StallBehavior::Drop, None),
        stall(StallBehavior::Omit, Some(1_000_000)),
    );
    p.frame("a", 3_000);
    assert!(p.state(3_000).is_empty());
    // The frame is past the window: no later one can match.
    let out = p.frame("b", 3_500);
    assert_eq!(out.observations.len(), 1);
    assert_eq!(out.observations[0].frames.get("b").unwrap().source, FrameSource::Omitted);
    // It is still there for the state that it belongs to.
    p.frame("a", 3_500);
    let out = p.state(3_500);
    assert_eq!(out.observations[0].frames.get("b").unwrap().source, FrameSource::Live);
}

#[test]
fn huge_pictures_cannot_be_drawn() {
    assert!(is_drawable(1920, 1080));
    assert!(is_drawable(0, 0));
    assert!(!is_drawable(u32::MAX, u32::MAX));
}

#[test]
fn the_settings_of_a_track_reach_the_buffer() {
    let mut c = PortalConfig::new("demo".to_string(), Role::Operator);
    c.add_video("front".to_string(), Codec::H264, 0, None, None, None);
    c.add_video("wrist".to_string(), Codec::H264, 0, None, None, None);
    c.add_state_typed(vec![FieldSpec::new("j".to_string(), DType::F32)]);
    c.set_max_lag_ms(100);
    c.set_track_stall_behavior("wrist".to_string(), StallBehavior::Omit);
    c.set_track_max_lag_ms("wrist".to_string(), 0);

    let mut robot_config = PortalConfig::new("demo".to_string(), Role::Robot);
    robot_config.add_state_typed(vec![FieldSpec::new("j".to_string(), DType::F32)]);
    let mut robot = Portal::new(robot_config, &[]);
    robot.connect("robot".to_string(), &NameMap::new(), &[]);
    robot.commit_connect();

    let mut operator = Portal::new(c, &[]);
    operator.connect("op".to_string(), &NameMap::new(), &[]);
    operator.commit_connect();

    let mut values = NameMap::new();
    values.insert("j".to_string(), TypedValue::F32(0.5f32.to_bits()));
    for ts in [1_000_000u64, 2_000_000] {
        operator.process_frame("front", frame(4, 2, ts));
        if ts == 1_000_000 {
            operator.process_frame("wrist", frame(4, 2, ts));
        }
        let packet = robot.send_state(&values, Some(ts), ts).unwrap();
        operator.handle_room_event(
            RoomEvent::DataReceived {
                payload: packet.payload,
                topic: Some(STATE_TOPIC.to_string()),
                sender: Some("robot".to_string()),
            },
            ts,
        );
    }
    let fills = operator.metrics();
    assert_eq!(fills.sync.observations_emitted, 2);
    assert_eq!(*fills.sync.frames_omitted.get("wrist").unwrap(), 1);
    assert_eq!(*fills.sync.frames_omitted.get("front").unwrap(), 0);
}
