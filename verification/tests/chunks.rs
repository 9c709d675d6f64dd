use std::collections::HashSet;

use livekit_portal::chunks::{
    accept_chunk, fit_column, fit_columns, route_chunk, ChunkOutcome, ChunkPosition,
    ChunkPublisher, ChunkRoute, ChunkSlot, UNKNOWN_FP_WARN_CAP,
};
use livekit_portal::config::{ChunkSpec, FieldSpec};
use livekit_portal::dtype::DType;
use livekit_portal::error::PortalError;
use livekit_portal::metrics::MetricsRegistry;
use livekit_portal::name_map::NameMap;
use livekit_portal::serialization::DecodeError;

fn spec() -> ChunkSpec {
    ChunkSpec::new(
        "vla".to_string(),
        3,
        vec![
            FieldSpec::new("a".to_string(), DType::F32),
            FieldSpec::new("b".to_string(), DType::I8),
        ],
    )
}

fn data(pairs: &[(&str, Vec<u64>)]) -> NameMap<Vec<u64>> {
    let mut m = NameMap::new();
    for (n, v) in pairs {
        m.insert(n.to_string(), v.clone());
    }
    m
}

#[test]
fn columns_are_cut_or_filled_to_the_horizon() {
    assert_eq!(fit_column(Some(&vec![1, 2, 3, 4]), 3), vec![1, 2, 3]);
    assert_eq!(fit_column(Some(&vec![1]), 3), vec![1, 0, 0]);
    assert_eq!(fit_column(None, 2), vec![0, 0]);
    let fitted = fit_columns(&spec(), &data(&[("a", vec![9; 5]), ("x", vec![1])]));
    assert_eq!(fitted.get("a"), Some(&vec![9, 9, 9]));
    assert_eq!(fitted.get("b"), Some(&vec![0, 0, 0]));
    assert!(fitted.get("x").is_none());
}

#[test]
fn reports_of_a_chunk_come_once() {
    let mut p = ChunkPublisher::new(spec());
    assert_eq!(p.warn_unknown_keys(&data(&[("x", vec![]), ("a", vec![])])), vec!["x".to_string()]);
    assert!(p.warn_unknown_keys(&data(&[("x", vec![])])).is_empty());
    assert_eq!(
        p.warn_saturated(&[3, 0]),
        vec![ChunkPosition { timestep: 1, field: 1 }, ChunkPosition { timestep: 0, field: 0 }]
    );
    assert_eq!(p.warn_saturated(&[3, 4]), vec![ChunkPosition { timestep: 2, field: 0 }]);
    assert_eq!(p.spec().name, "vla");
}

#[test]
fn payloads_find_their_slot() {
    let slots = [ChunkSlot::new(spec(), 7), ChunkSlot::new(spec(), 0x0403_0201)];
    let mut told = HashSet::new();
    assert_eq!(route_chunk(&[1, 2, 3, 4, 9, 9], &slots, &mut told), ChunkRoute::Slot(1));
    assert_eq!(route_chunk(&[1, 2, 3], &slots, &mut told), ChunkRoute::Short);
    assert_eq!(
        route_chunk(&[5, 0, 0, 0], &slots, &mut told),
        ChunkRoute::Unknown { fingerprint: 5, warn: true, cap_reached: false }
    );
    assert_eq!(
        route_chunk(&[5, 0, 0, 0], &slots, &mut told),
        ChunkRoute::Unknown { fingerprint: 5, warn: false, cap_reached: false }
    );
}

#[test]
fn reports_of_unknown_chunks_are_bounded() {
    let mut told = HashSet::new();
    for i in 0..UNKNOWN_FP_WARN_CAP as u32 {
        let last = i as usize + 1 == UNKNOWN_FP_WARN_CAP;
        assert_eq!(
            route_chunk(&i.to_le_bytes(), &[], &mut told),
            ChunkRoute::Unknown { fingerprint: i, warn: true, cap_reached: last }
        );
    }
    assert_eq!(
        route_chunk(&999_999u32.to_le_bytes(), &[], &mut told),
        ChunkRoute::Unknown { fingerprint: 999_999, warn: false, cap_reached: false }
    );
    assert_eq!(told.len(), UNKNOWN_FP_WARN_CAP);
}

#[test]
fn decoded_chunks_are_delivered() {
    let mut slot = ChunkSlot::new(spec(), 7);
    let mut metrics = MetricsRegistry::new(&[]);
    let columns = vec![vec![1, 2, 3], vec![4, 5, 6]];
    let out = accept_chunk(
        &mut slot,
        Ok((50, Some(40), columns)),
        &mut metrics,
        100,
        "op".to_string(),
    );
    assert!(matches!(out, ChunkOutcome::Delivered));
    let c = slot.get().unwrap();
    assert_eq!((c.name.as_str(), c.horizon, c.timestamp_us), ("vla", 3, 50));
    assert_eq!(c.in_reply_to_ts_us, Some(40));
    assert_eq!(c.sender, "op");
    assert_eq!(c.data.get("b"), Some(&vec![4, 5, 6]));
    let snap = metrics.snapshot(NameMap::new(), 0);
    assert_eq!(snap.transport.action_chunks_received, 1);
    assert_eq!(snap.policy.e2e_us_p50, Some(60));
}

#[test]
fn chunks_that_cannot_be_read_leave_the_latest() {
    let mut slot = ChunkSlot::new(spec(), 7);
    let mut metrics = MetricsRegistry::new(&[]);
    for first in [true, false] {
        let e = Err(DecodeError::SchemaMismatch { expected: 7, got: 8 });
        match accept_chunk(&mut slot, e, &mut metrics, 1, "op".to_string()) {
            ChunkOutcome::Mismatch { expected: 7, got: 8, first: f } => assert_eq!(f, first),
            other => panic!("unexpected {other:?}"),
        }
    }
    let e = Err(DecodeError::Malformed(PortalError::Deserialization("cut".to_string())));
    assert!(matches!(
        accept_chunk(&mut slot, e, &mut metrics, 1, "op".to_string()),
        ChunkOutcome::Malformed(PortalError::Deserialization(_))
    ));
    assert!(slot.get().is_none());
}
