use std::sync::Arc;
use std::time::Duration;

use bytes::Bytes;
use livekit_portal::chunks::ChunkRoute;
use livekit_portal::codec::Codec;
use livekit_portal::config::{FieldSpec, PortalConfig};
use livekit_portal::controller::{
    Notice, Participant, ACTIVE_OPERATOR_ATTR_KEY, ROLE_ATTR_KEY, SET_ACTIVE_OPERATOR_RPC,
};
use livekit_portal::data::{DataOutcome, ACTION_CHUNK_TOPIC, ACTION_TOPIC, STATE_TOPIC};
use livekit_portal::dtype::DType;
use livekit_portal::error::PortalError;
use livekit_portal::frame_video::FRAME_VIDEO_TOPIC;
use livekit_portal::name_map::NameMap;
use livekit_portal::portal::{
    Portal, RoomEvent, RoomReaction, SetActive, VideoRoute, VideoSend,
};
use livekit_portal::types::{
    ActionSubscription, ChunkColumn, FrameSource, Role, TypedValue, VideoFrameData,
};

fn config(role: Role) -> PortalConfig {
    let mut c = PortalConfig::new("demo".to_string(), role);
    c.add_video("front".to_string(), Codec::H264, 0, None, None, None);
    c.add_video("wrist".to_string(), Codec::Raw, 0, None, None, None);
    c.add_state_typed(vec![FieldSpec::new("j".to_string(), DType::F32)]);
    c.add_action_typed(vec![FieldSpec::new("j".to_string(), DType::F32)]);
    c.add_action_chunk(
        "vla".to_string(),
        2,
        vec![FieldSpec::new("j".to_string(), DType::F32)],
    );
    c
}

fn attrs(pairs: &[(&str, &str)]) -> NameMap<String> {
    let mut m = NameMap::new();
    for (k, v) in pairs {
        m.insert(k.to_string(), v.to_string());
    }
    m
}

fn robot_in_room(active: &str) -> Participant {
    Participant {
        identity: "robot".to_string(),
        attributes: attrs(&[(ROLE_ATTR_KEY, "robot"), (ACTIVE_OPERATOR_ATTR_KEY, active)]),
    }
}

fn operator_in_room(identity: &str) -> Participant {
    Participant {
        identity: identity.to_string(),
        attributes: attrs(&[(ROLE_ATTR_KEY, "operator")]),
    }
}

fn connected(config: PortalConfig, identity: &str, room: &[Participant]) -> Portal {
    let mut p = Portal::new(config, &[77]);
    assert!(p.check_connect().is_ok());
    p.connect(identity.to_string(), &attrs(&[]), room);
    p.commit_connect();
    p
}

fn robot() -> Portal {
    connected(config(Role::Robot), "robot", &[operator_in_room("op")])
}

fn operator(active: &str) -> Portal {
    connected(config(Role::Operator), "op", &[robot_in_room(active)])
}

fn values(v: f32) -> NameMap<TypedValue> {
    let mut m = NameMap::new();
    m.insert("j".to_string(), TypedValue::F32(v.to_bits()));
    m
}

fn packet(payload: Vec<u8>, topic: &str, sender: &str) -> RoomEvent {
    RoomEvent::DataReceived {
        payload,
        topic: Some(topic.to_string()),
        sender: Some(sender.to_string()),
    }
}

fn frame(ts: u64) -> VideoFrameData {
    VideoFrameData {
        width: 2,
        height: 2,
        data: Bytes::from(vec![5u8; 12]),
        timestamp_us: ts,
        source: FrameSource::Live,
    }
}

#[test]
fn connecting_twice_is_refused() {
    let p = robot();
    assert!(matches!(p.check_connect(), Err(PortalError::AlreadyConnected)));
    assert_eq!(p.local_identity(), Some("robot"));
    assert_eq!(p.operators(), vec!["op".to_string()]);
    assert_eq!(p.role_attribute(), (ROLE_ATTR_KEY, "robot"));
}

#[test]
fn connecting_tells_who_is_there() {
    let mut p = Portal::new(config(Role::Operator), &[77]);
    let notices = p.connect(
        "op".to_string(),
        &attrs(&[]),
        &[robot_in_room("op"), operator_in_room("other")],
    );
    assert_eq!(notices.len(), 2);
    assert!(matches!(&notices[0], Notice::ActiveOperatorChanged(Some(id)) if id == "op"));
    assert!(matches!(&notices[1], Notice::OperatorJoined(id) if id == "other"));
    assert_eq!(p.robot_identity(), Some("robot".to_string()));
    assert!(p.is_self_active());
}

#[test]
fn a_failed_connect_leaves_nothing() {
    let mut p = Portal::new(config(Role::Robot), &[77]);
    p.connect("robot".to_string(), &attrs(&[]), &[operator_in_room("op")]);
    p.rollback_partial_connect();
    assert!(p.local_identity().is_none());
    assert!(p.operators().is_empty());
    assert!(matches!(p.send_state(&values(1.0), None, 1), Err(PortalError::WrongRole(_))));
    assert!(p.check_connect().is_ok());
}

#[test]
fn a_state_becomes_an_observation_with_its_frames() {
    let mut r = robot();
    let mut o = operator("op");

    // A frame of the byte-stream track.
    let rgb = vec![9u8; 12];
    let payload = match r.send_video_frame("wrist", &rgb, 2, 2, Some(1_000), 0).unwrap() {
        VideoSend::Stream { index: 0, payload } => payload,
        other => panic!("unexpected {other:?}"),
    };
    assert!(matches!(
        o.handle_room_event(
            RoomEvent::ByteStreamOpened { topic: FRAME_VIDEO_TOPIC.to_string() },
            0
        ),
        RoomReaction::ReadFrame
    ));
    let (track, wrist) = o.receive_frame_payload(Bytes::from(payload), 1_100).unwrap();
    assert_eq!(track, 0);
    o.keep_frame("wrist", &wrist);
    assert!(o.process_frame("wrist", Arc::new(wrist)).is_empty());

    // A frame of the media track.
    assert!(matches!(
        r.send_video_frame("front", &rgb, 2, 2, None, 1_010).unwrap(),
        VideoSend::Media { index: 0, timestamp_us: 1_010 }
    ));
    assert!(matches!(
        o.handle_room_event(
            RoomEvent::TrackSubscribed { track_name: "front".to_string(), is_video: true },
            0
        ),
        RoomReaction::ReceiveTrack
    ));
    o.video_frame_received("front", &frame(1_010), 1_200);
    assert!(o.process_frame("front", Arc::new(frame(1_010))).is_empty());

    // The state completes them.
    let out = r.send_state(&values(0.5), Some(1_005), 0).unwrap();
    match o.handle_room_event(packet(out.payload, STATE_TOPIC, "robot"), 1_300) {
        RoomReaction::Data(DataOutcome::State(out)) => {
            assert_eq!(out.observations.len(), 1);
            o.dispatch(out.observations);
        }
        other => panic!("unexpected {other:?}"),
    }
    let obs = o.get_observation().unwrap();
    assert_eq!(obs.timestamp_us, 1_005);
    assert_eq!(obs.state.get("j"), Some(&TypedValue::F32(0.5f32.to_bits())));
    assert_eq!(obs.frames.get("wrist").unwrap().data.as_ref(), rgb.as_slice());
    assert_eq!(obs.frames.get("front").unwrap().timestamp_us, 1_010);
    assert_eq!(o.get_video_frame("wrist").unwrap().timestamp_us, 1_000);
    assert_eq!(o.get_state().unwrap().timestamp_us, 1_005);
    let m = o.metrics();
    assert_eq!(m.sync.observations_emitted, 1);
    assert_eq!(m.transport.frames_received.get("front"), Some(&1));
    assert_eq!(m.transport.states_received, 1);
    assert_eq!(r.metrics().transport.frames_sent.get("front"), Some(&1));

    o.reset_metrics();
    assert_eq!(o.metrics().sync.observations_emitted, 0);
    o.disconnect();
    assert!(o.get_observation().is_none() && o.get_state().is_none());
    assert!(o.get_video_frame("wrist").is_none());
}

#[test]
fn only_the_active_operator_moves_the_robot() {
    let mut r = robot();
    let mut o = operator("op");
    let payload = o.send_action(&values(0.5), Some(10), 0, None).unwrap().packet.payload;

    let event = packet(payload.clone(), ACTION_TOPIC, "op");
    assert!(matches!(r.handle_room_event(event, 20), RoomReaction::Nothing));
    assert!(r.get_action().is_none());

    assert!(r.finish_set_active_operator(Some("op".to_string()), Ok(())).unwrap().is_some());
    let event = packet(payload.clone(), ACTION_TOPIC, "intruder");
    assert!(matches!(r.handle_room_event(event, 20), RoomReaction::Nothing));
    assert!(r.get_action().is_none());

    let event = packet(payload, ACTION_TOPIC, "op");
    assert!(matches!(
        r.handle_room_event(event, 20),
        RoomReaction::Data(DataOutcome::Action)
    ));
    let a = r.get_action().unwrap();
    assert_eq!(a.sender, "op");
    assert_eq!(a.values.get("j"), Some(&TypedValue::F32(0.5f32.to_bits())));
}

#[test]
fn subscribed_operators_see_their_own_actions() {
    let mut c = config(Role::Operator);
    c.set_action_subscription(true);
    let mut o = connected(c, "op", &[robot_in_room("op")]);
    let send = o.send_action(&values(0.1), None, 55, Some(44)).unwrap();
    assert!(send.echoed);
    let a = o.get_action().unwrap();
    assert_eq!((a.timestamp_us, a.in_reply_to_ts_us), (55, Some(44)));
    assert_eq!(a.raw_values.get("j"), Some(&(0.1f32 as f64).to_bits()));
    assert_eq!(a.sender, "op");

    let mut other = operator("someone");
    assert!(!other.send_action(&values(0.1), None, 55, None).unwrap().echoed);
    assert!(other.get_action().is_none());
}

#[test]
fn shadow_actions_are_seen_where_all_are_subscribed_to() {
    let payload =
        operator("op").send_action(&values(0.5), Some(10), 0, None).unwrap().packet.payload;
    for role in [Role::Operator, Role::Observer] {
        let mut c = config(role);
        c.set_action_subscription_mode(ActionSubscription::All);
        let mut p = connected(c, "me", &[robot_in_room("op")]);
        for (sender, active) in [("op", true), ("someone", false)] {
            assert!(matches!(
                p.handle_room_event(packet(payload.clone(), ACTION_TOPIC, sender), 20),
                RoomReaction::Data(DataOutcome::Action)
            ));
            let a = p.get_action().unwrap();
            assert_eq!((a.sender.as_str(), a.active), (sender, active));
        }
    }
}

#[test]
fn observers_receive_and_do_not_send() {
    let c = config(Role::Observer);
    assert_eq!(c.action_subscription_mode(), ActionSubscription::Active);
    assert!(!c.observation_sync());
    let mut w = connected(c, "watcher", &[robot_in_room("op"), operator_in_room("op")]);
    assert_eq!(w.role_attribute(), (ROLE_ATTR_KEY, "observer"));
    assert_eq!(w.active_operator(), Some("op".to_string()));
    assert!(w.send_state(&values(1.0), None, 1).is_err());
    assert!(w.send_action(&values(1.0), None, 1, None).is_err());
    assert!(matches!(
        w.send_video_frame("front", &[0; 12], 2, 2, None, 1),
        Err(PortalError::WrongRole(Role::Observer))
    ));
    assert!(matches!(
        w.set_active_operator(&Some("other".to_string())),
        Ok(SetActive::Ask { method: SET_ACTIVE_OPERATOR_RPC, payload }) if payload == "other"
    ));
    let track = RoomEvent::TrackSubscribed { track_name: "front".to_string(), is_video: true };
    assert!(matches!(w.handle_room_event(track, 0), RoomReaction::ReceiveTrack));

    let state = robot().send_state(&values(0.5), Some(1_000), 0).unwrap().payload;
    assert!(matches!(
        w.handle_room_event(packet(state, STATE_TOPIC, "robot"), 20),
        RoomReaction::Data(DataOutcome::State(_))
    ));
    assert_eq!(w.get_state().unwrap().timestamp_us, 1_000);
    assert!(matches!(w.latest_observation(), Err(PortalError::ObservationSyncDisabled)));
    assert!(w.process_frame("front", Arc::new(frame(1_000))).is_empty());

    let action =
        operator("op").send_action(&values(0.5), Some(10), 0, None).unwrap().packet.payload;
    w.handle_room_event(packet(action, ACTION_TOPIC, "op"), 20);
    assert!(w.get_action().unwrap().active);
}

#[test]
fn observation_sync_can_be_switched() {
    let mut c = config(Role::Observer);
    c.set_observation_sync(true);
    let mut w = connected(c, "watcher", &[robot_in_room("op")]);
    assert!(matches!(w.latest_observation(), Ok(None)));
    let mut r = robot();
    let state = r.send_state(&values(0.5), Some(1_000), 0).unwrap().payload;
    w.handle_room_event(packet(state, STATE_TOPIC, "robot"), 20);
    w.process_frame("front", Arc::new(frame(1_000)));
    let out = w.process_frame("wrist", Arc::new(frame(1_000)));
    assert_eq!(out.observations.len(), 1);
    w.dispatch(out.observations);
    assert_eq!(w.latest_observation().unwrap().unwrap().timestamp_us, 1_000);

    let mut c = config(Role::Operator);
    c.set_observation_sync(false);
    let o = connected(c, "op", &[robot_in_room("op")]);
    assert!(matches!(o.latest_observation(), Err(PortalError::ObservationSyncDisabled)));
    assert!(r.observers().is_empty());
}

#[test]
fn chunks_reach_the_robot() {
    let mut o = operator("op");
    let mut data = NameMap::new();
    data.insert("j".to_string(), vec![1u64, 2, 3]);
    let send = o.send_action_chunk("vla", &data, None, 9, None).unwrap();
    assert_eq!((send.index, send.timestamp_us, send.echoed), (0, 9, false));
    assert!(send.unknown_fields.is_empty());
    assert_eq!(o.chunk_saturated(0, &[1]).len(), 1);
    assert!(o.chunk_saturated(0, &[1]).is_empty());
    assert!(matches!(
        o.send_action_chunk("nope", &data, None, 9, None),
        Err(PortalError::UnknownChunk { name }) if name == "nope"
    ));

    let mut r = robot();
    assert!(matches!(
        r.send_action_chunk("vla", &data, None, 9, None),
        Err(PortalError::WrongRole(Role::Robot))
    ));
    assert!(matches!(
        r.handle_room_event(
            RoomEvent::ByteStreamOpened { topic: ACTION_CHUNK_TOPIC.to_string() },
            0
        ),
        RoomReaction::ReadChunk
    ));
    let payload = 77u32.to_le_bytes();
    assert!(r.route_chunk_payload(&payload, "op").is_none(), "nobody is in control");
    r.finish_set_active_operator(Some("op".to_string()), Ok(())).unwrap();
    assert_eq!(r.route_chunk_payload(&payload, "op"), Some(ChunkRoute::Slot(0)));
    r.accept_chunk_payload(0, Ok((5, None, vec![vec![1, 2]])), 10, "op".to_string());
    assert_eq!(r.get_action_chunk("vla").unwrap().data.get("j"), Some(&vec![1, 2]));
    assert!(r.get_action_chunk("nope").is_none());
}

#[test]
fn columns_may_claim_their_type() {
    let mut o = operator("op");
    let mut data = NameMap::new();
    data.insert("j".to_string(), ChunkColumn::typed(DType::F32, vec![1, 2]));
    data.insert("k".to_string(), ChunkColumn::typed(DType::Bool, vec![1]));
    let send = o.send_action_columns("vla", &data, Some(4), 9, None).unwrap();
    assert_eq!((send.index, send.timestamp_us), (0, 4));
    assert_eq!(send.unknown_fields, vec!["k".to_string()]);

    let mut wrong = NameMap::new();
    wrong.insert("j".to_string(), ChunkColumn::typed(DType::I16, vec![1, 2]));
    assert!(matches!(
        o.send_action_columns("vla", &wrong, None, 9, None),
        Err(PortalError::DtypeMismatch { field, expected: DType::F32, got: "I16" })
            if field == "j"
    ));

    let mut bare = NameMap::new();
    bare.insert("j".to_string(), ChunkColumn::from(vec![1, 2]));
    assert!(o.send_action_columns("vla", &bare, None, 9, None).is_ok());
    assert_eq!(ChunkColumn::untyped(vec![1, 2]), ChunkColumn::from(vec![1, 2]));
    assert!(matches!(
        o.send_action_columns("nope", &wrong, None, 9, None),
        Err(PortalError::UnknownChunk { name }) if name == "nope"
    ));
}

#[test]
fn unconnected_operators_send_nothing() {
    let mut o = Portal::new(config(Role::Operator), &[77]);
    let data: NameMap<Vec<u64>> = NameMap::new();
    assert!(matches!(
        o.send_action_chunk("vla", &data, None, 9, None),
        Err(PortalError::NotConnected)
    ));
    assert!(matches!(
        o.send_action(&values(1.0), None, 0, None),
        Err(PortalError::WrongRole(Role::Robot))
    ));
    assert!(matches!(o.resolve_peer(&None), Err(PortalError::NotConnected)));
}

#[test]
fn tracks_have_one_way_out() {
    let r = robot();
    assert_eq!(r.video_route("front").unwrap(), VideoRoute::Media(0));
    assert_eq!(r.video_route("wrist").unwrap(), VideoRoute::Stream(0));
    assert!(matches!(
        r.video_route("nope"),
        Err(PortalError::UnknownVideoTrack { name }) if name == "nope"
    ));
    let o = operator("op");
    assert!(matches!(o.video_route("front"), Err(PortalError::WrongRole(Role::Operator))));
}

#[test]
fn bad_media_frames_are_not_counted() {
    let mut r = robot();
    assert!(matches!(
        r.send_video_frame("front", &[0; 12], 3, 2, None, 0),
        Err(PortalError::InvalidFrameDimensions { width: 3, height: 2 })
    ));
    assert!(matches!(
        r.send_video_frame("front", &[0; 11], 2, 2, None, 0),
        Err(PortalError::WrongFrameSize { expected: 12, got: 11 })
    ));
    assert_eq!(r.metrics().transport.frames_sent.get("front"), Some(&0));
}

#[test]
fn control_is_handed_over_by_role() {
    let r = robot();
    match r.set_active_operator(&Some("op".to_string())).unwrap() {
        SetActive::Publish { key, value } => {
            assert_eq!((key, value.as_str()), (ACTIVE_OPERATOR_ATTR_KEY, "op"));
        }
        other => panic!("unexpected {other:?}"),
    }
    let o = operator("");
    match o.set_active_operator(&None).unwrap() {
        SetActive::Ask { method, payload } => {
            assert_eq!((method, payload.as_str()), (SET_ACTIVE_OPERATOR_RPC, ""));
        }
        other => panic!("unexpected {other:?}"),
    }
    let idle = Portal::new(config(Role::Robot), &[77]);
    assert!(matches!(idle.set_active_operator(&None), Err(PortalError::NotConnected)));

    let mut r = robot();
    assert!(matches!(
        r.finish_set_active_operator(Some("op".to_string()), Err("x".to_string())),
        Err(PortalError::Room(m)) if m == "x"
    ));
    assert_eq!(r.active_operator(), None);
}

#[test]
fn a_reconnect_keeps_control() {
    let mut r = robot();
    r.finish_set_active_operator(Some("op".to_string()), Ok(())).unwrap();
    assert!(matches!(
        r.handle_room_event(
            RoomEvent::ParticipantDisconnected { identity: "op".to_string() },
            0
        ),
        RoomReaction::Tell(Notice::OperatorLeft(_))
    ));
    assert_eq!(r.active_operator(), Some("op".to_string()));
    assert!(matches!(r.handle_room_event(RoomEvent::Reconnected, 0), RoomReaction::Nothing));
    assert_eq!(r.active_operator(), Some("op".to_string()));
    assert!(matches!(
        r.handle_room_event(RoomEvent::ParticipantConnected(operator_in_room("op")), 0),
        RoomReaction::Tell(Notice::OperatorJoined(_))
    ));
    assert_eq!(r.resolve_peer(&None).unwrap(), "op");
}

#[test]
fn declarations_can_be_read_back() {
    let r = robot();
    assert_eq!(r.state_schema().len(), 1);
    assert_eq!(r.action_schema()[0].name, "j");
    assert_eq!(r.action_chunks()[0].name, "vla");
}

#[test]
fn procedure_calls_find_their_way() {
    let r = robot();
    let remotes = Some(vec!["op".to_string(), "x".to_string()]);
    let call = r
        .perform_rpc(
            Some("x".to_string()),
            "home".to_string(),
            "p".to_string(),
            Some(Duration::from_millis(7)),
            &remotes,
        )
        .unwrap();
    assert_eq!(call.destination_identity, "x");
    assert_eq!((call.method.as_str(), call.payload.as_str()), ("home", "p"));
    assert_eq!(call.response_timeout, Some(Duration::from_millis(7)));
    assert!(matches!(
        r.perform_rpc(None, "home".to_string(), String::new(), None, &remotes),
        Err(PortalError::AmbiguousPeer)
    ));
    let o = operator("");
    let call = o.perform_rpc(None, "home".to_string(), String::new(), None, &remotes).unwrap();
    assert_eq!(call.destination_identity, "robot");
    let idle = Portal::new(config(Role::Robot), &[77]);
    assert!(matches!(
        idle.perform_rpc(Some("x".to_string()), "home".to_string(), String::new(), None, &None),
        Err(PortalError::NotConnected)
    ));
}
