use livekit_portal::config::FieldSpec;
use livekit_portal::data::{
    apply_carry_forward, build_action, check_dtypes, handle_data_received, record_send,
    DataOutcome, DataPublisher, DataSlot, SendOutcome, ACTION_TOPIC, STATE_TOPIC,
};
use livekit_portal::dtype::DType;
use livekit_portal::error::PortalError;
use livekit_portal::metrics::{DataStream, MetricsRegistry};
use livekit_portal::name_map::NameMap;
use livekit_portal::rtt::{build_ping, RTT_TOPIC};
use livekit_portal::serialization::{
    action_fingerprint, deserialize_action, schema_fingerprint, serialize_action, serialize_values,
};
use livekit_portal::sync_buffer::SyncBuffer;
use livekit_portal::types::{Action, Role, State, SyncConfig, TypedValue};

fn f64v(v: f64) -> TypedValue {
    TypedValue::F64(v.to_bits())
}

fn f32v(v: f32) -> TypedValue {
    TypedValue::F32(v.to_bits())
}

fn schema(pairs: &[(&str, DType)]) -> Vec<FieldSpec> {
    pairs.iter().map(|(n, d)| FieldSpec::new(n.to_string(), *d)).collect()
}

fn map(pairs: &[(&str, TypedValue)]) -> NameMap<TypedValue> {
    let mut m = NameMap::new();
    for (n, v) in pairs {
        m.insert(n.to_string(), *v);
    }
    m
}

fn floats(values: &[u64]) -> Vec<f64> {
    values.iter().map(|v| f64::from_bits(*v)).collect()
}

#[test]
fn carry_forward_fills_missing_fields() {
    let schema = schema(&[("j1", DType::F64), ("j2", DType::F64), ("j3", DType::F64)]);
    let mut last = vec![0u64; 3];

    apply_carry_forward(&schema, &mut last, &map(&[("j1", f64v(1.0))]));
    assert_eq!(floats(&last), vec![1.0, 0.0, 0.0], "unsent fields start at seed (0.0)");

    apply_carry_forward(&schema, &mut last, &map(&[("j2", f64v(2.5))]));
    assert_eq!(
        floats(&last),
        vec![1.0, 2.5, 0.0],
        "j1 carries forward; j2 updates; j3 still at seed"
    );

    apply_carry_forward(&schema, &mut last, &map(&[("j1", f64v(-1.0)), ("j3", f64v(7.0))]));
    assert_eq!(
        floats(&last),
        vec![-1.0, 2.5, 7.0],
        "j2 carries forward when omitted; others update"
    );
}

#[test]
fn check_dtypes_rejects_variant_mismatch() {
    let schema = schema(&[("gripper", DType::Bool), ("mode", DType::I8)]);

    // Correct variants pass.
    let m = map(&[("gripper", TypedValue::Bool(true)), ("mode", TypedValue::I8(3))]);
    assert!(check_dtypes(&schema, &m).is_ok());

    // Wrong variant for gripper.
    let m = map(&[("gripper", f32v(1.0))]);
    match check_dtypes(&schema, &m).unwrap_err() {
        PortalError::DtypeMismatch { field, expected, got } => {
            assert_eq!(field, "gripper");
            assert_eq!(expected, DType::Bool);
            assert_eq!(got, "F32");
        }
        other => panic!("expected DtypeMismatch, got {other:?}"),
    }
}

#[test]
fn typed_inputs_widen_to_f64_losslessly() {
    let schema = schema(&[("joint", DType::F32), ("gripper", DType::Bool), ("mode", DType::I8)]);
    let mut last = vec![0u64; 3];
    let m = map(&[("joint", f32v(0.5)), ("gripper", true.into()), ("mode", 3i8.into())]);
    apply_carry_forward(&schema, &mut last, &m);
    assert_eq!(floats(&last), vec![0.5, 1.0, 3.0]);
}

#[test]
fn what_is_reported_as_sent_is_what_arrives() {
    let s = schema(&[("a", DType::I8), ("b", DType::F32), ("c", DType::F64)]);
    let mut p = DataPublisher::new(&s, DataStream::Action);
    let out = p
        .send_map(&map(&[("a", TypedValue::I8(-5)), ("b", f32v(0.1))]), None, 77, Some(9))
        .unwrap();
    assert_eq!(out.timestamp_us, 77);
    assert_eq!(floats(&out.wire_values), vec![-5.0, 0.1f32 as f64, 0.0]);
    let (ts, reply, values) =
        deserialize_action(&out.payload, action_fingerprint(&s), &s).unwrap();
    assert_eq!((ts, reply), (77, Some(9)));
    assert_eq!(values, out.wire_values);

    // The next update carries the others forward.
    let out = p.send_map(&map(&[("c", f64v(2.0))]), Some(5), 99, None).unwrap();
    assert_eq!(out.timestamp_us, 5);
    assert_eq!(floats(&out.wire_values), vec![-5.0, 0.1f32 as f64, 2.0]);
}

#[test]
fn a_refused_update_changes_nothing() {
    let s = schema(&[("a", DType::I8), ("b", DType::Bool)]);
    let mut p = DataPublisher::new(&s, DataStream::State);
    p.send_map(&map(&[("a", TypedValue::I8(4))]), None, 1, None).unwrap();
    let bad = map(&[("a", TypedValue::I8(9)), ("b", TypedValue::U8(1))]);
    assert!(matches!(
        p.send_map(&bad, None, 2, None),
        Err(PortalError::DtypeMismatch { .. })
    ));
    let out = p.send_map(&NameMap::new(), None, 3, None).unwrap();
    assert_eq!(floats(&out.wire_values), vec![4.0, 0.0]);
}

#[test]
fn unknown_names_are_told_once() {
    let s = schema(&[("a", DType::I8)]);
    let mut p = DataPublisher::new(&s, DataStream::State);
    let m = map(&[("x", TypedValue::I8(1)), ("a", TypedValue::I8(1)), ("y", TypedValue::I8(1))]);
    let mut told = p.send_map(&m, None, 1, None).unwrap().unknown_fields;
    told.sort();
    assert_eq!(told, vec!["x".to_string(), "y".to_string()]);
    assert!(p.send_map(&m, None, 2, None).unwrap().unknown_fields.is_empty());
}

#[test]
fn saturation_of_a_binary32_field_is_told_once() {
    let s = schema(&[("a", DType::F64), ("b", DType::F32)]);
    let mut p = DataPublisher::new(&s, DataStream::State);
    let fine = p.send_map(&map(&[("a", f64v(1e300))]), None, 1, None).unwrap();
    assert!(fine.saturated_fields.is_empty());
}

#[test]
fn only_queued_packets_count_as_sent() {
    let mut m = MetricsRegistry::new(&[]);
    record_send(DataStream::State, SendOutcome::Queued, &mut m);
    record_send(DataStream::State, SendOutcome::Full, &mut m);
    record_send(DataStream::State, SendOutcome::Closed, &mut m);
    assert_eq!(m.snapshot(NameMap::new(), 0).transport.states_sent, 1);
}

#[test]
fn slots_keep_the_latest_and_warn_once() {
    let mut slot: DataSlot<u32> = DataSlot::new();
    assert!(slot.get().is_none());
    slot.deliver(1);
    slot.deliver(2);
    assert_eq!(slot.get(), Some(&2));
    assert!(slot.warn_mismatch(7));
    assert!(!slot.warn_mismatch(7));
    slot.clear();
    assert!(slot.get().is_none());
    assert!(!slot.warn_mismatch(7), "clearing forgets the record only");
}

struct Side {
    action_schema: Vec<FieldSpec>,
    state_schema: Vec<FieldSpec>,
    action: DataSlot<Action>,
    state: DataSlot<State>,
    sync: Option<SyncBuffer>,
    metrics: MetricsRegistry,
}

impl Side {
    fn new() -> Side {
        let state_schema = schema(&[("s", DType::F64)]);
        Side {
            action_schema: schema(&[("a", DType::I8)]),
            sync: Some(SyncBuffer::new(&[], schema(&[("s", DType::F64)]), SyncConfig::default())),
            state_schema,
            action: DataSlot::new(),
            state: DataSlot::new(),
            metrics: MetricsRegistry::new(&[]),
        }
    }

    fn receive(&mut self, payload: &[u8], topic: &str, role: Role) -> DataOutcome {
        handle_data_received(
            payload,
            topic,
            role,
            &self.action_schema,
            action_fingerprint(&self.action_schema),
            &self.state_schema,
            schema_fingerprint(&self.state_schema),
            &mut self.action,
            &mut self.state,
            &mut self.sync,
            &mut self.metrics,
            1_000,
            "op".to_string(),
            true,
        )
    }
}

#[test]
fn actions_are_delivered_with_their_sender() {
    let mut side = Side::new();
    let fp = action_fingerprint(&side.action_schema);
    let p = serialize_action(fp, 10, Some(400), &[(-3.0f64).to_bits()], &side.action_schema);
    assert!(matches!(side.receive(&p.payload, ACTION_TOPIC, Role::Robot), DataOutcome::Action));
    let a = side.action.get().unwrap();
    assert_eq!(a.sender, "op");
    assert_eq!(a.timestamp_us, 10);
    assert_eq!(a.in_reply_to_ts_us, Some(400));
    assert_eq!(a.values.get("a"), Some(&TypedValue::I8(-3)));
    assert_eq!(a.raw_values.get("a"), Some(&(-3.0f64).to_bits()));
    let snap = side.metrics.snapshot(NameMap::new(), 0);
    assert_eq!(snap.transport.actions_received, 1);
    assert_eq!(snap.policy.e2e_us_p50, Some(600));
}

#[test]
fn states_reach_the_sync_buffer_of_an_operator_only() {
    let mut side = Side::new();
    let fp = schema_fingerprint(&side.state_schema);
    let p = serialize_values(fp, 10, &[1.5f64.to_bits()], &side.state_schema).payload;
    assert!(matches!(side.receive(&p, STATE_TOPIC, Role::Robot), DataOutcome::Ignored));
    assert!(side.state.get().is_none());
    match side.receive(&p, STATE_TOPIC, Role::Operator) {
        // Without video tracks every state is an observation at once.
        DataOutcome::State(out) => assert_eq!(out.observations.len(), 1),
        other => panic!("expected State, got {other:?}"),
    }
    assert_eq!(side.state.get().unwrap().timestamp_us, 10);
    side.sync = None;
    match side.receive(&p, STATE_TOPIC, Role::Operator) {
        DataOutcome::State(out) => assert!(out.is_empty()),
        other => panic!("expected State, got {other:?}"),
    }
}

#[test]
fn foreign_and_damaged_packets_are_dropped() {
    let mut side = Side::new();
    let fp = schema_fingerprint(&side.state_schema);
    let mut p = serialize_values(fp ^ 5, 10, &[0], &side.state_schema).payload;
    match side.receive(&p, STATE_TOPIC, Role::Operator) {
        DataOutcome::Mismatch { expected, got, first } => {
            assert_eq!((expected, got, first), (fp, fp ^ 5, true));
        }
        other => panic!("expected Mismatch, got {other:?}"),
    }
    assert!(matches!(
        side.receive(&p, STATE_TOPIC, Role::Operator),
        DataOutcome::Mismatch { first: false, .. }
    ));
    p.truncate(6);
    assert!(matches!(
        side.receive(&p, STATE_TOPIC, Role::Operator),
        DataOutcome::Malformed(PortalError::Deserialization(_))
    ));
    assert!(matches!(side.receive(&p, "other", Role::Operator), DataOutcome::Ignored));
}

#[test]
fn pings_are_answered_on_either_side() {
    let mut side = Side::new();
    match side.receive(&build_ping(3), RTT_TOPIC, Role::Robot) {
        DataOutcome::Rtt(Some(pong)) => assert_eq!(pong, vec![1, 3, 0, 0, 0, 0, 0, 0, 0]),
        other => panic!("expected an echo, got {other:?}"),
    }
}

#[test]
fn built_actions_pair_fields_and_values() {
    let s = schema(&[("a", DType::U8), ("b", DType::Bool)]);
    let a = build_action(1, None, &s, &[300.0f64.to_bits()], "x".to_string(), false);
    assert!(!a.active);
    assert_eq!(a.values.get("a"), Some(&TypedValue::U8(255)));
    assert!(a.values.get("b").is_none());
}
