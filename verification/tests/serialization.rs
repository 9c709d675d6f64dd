use livekit_portal::config::FieldSpec;
use livekit_portal::dtype::DType;
use livekit_portal::error::PortalError;
use livekit_portal::serialization::{
    action_fingerprint, deserialize_action, deserialize_values, schema_fingerprint,
    serialize_action, serialize_values, DecodeError, HEADER_LEN,
};

fn schema(pairs: &[(&str, DType)]) -> Vec<FieldSpec> {
    pairs.iter().map(|(n, d)| FieldSpec::new(n.to_string(), *d)).collect()
}

fn bits(values: &[f64]) -> Vec<u64> {
    values.iter().map(|v| v.to_bits()).collect()
}

fn floats(values: &[u64]) -> Vec<f64> {
    values.iter().map(|v| f64::from_bits(*v)).collect()
}

#[test]
fn serialization_f64_roundtrip() {
    let s = schema(&[("a", DType::F64), ("b", DType::F64), ("c", DType::F64)]);
    let fp = schema_fingerprint(&s);
    let values = vec![1.0, 2.5, -3.25];
    let out = serialize_values(fp, 1_713_300_000_000, &bits(&values), &s);
    assert!(out.saturated_indices.is_empty());
    let (ts2, values2) = deserialize_values(&out.payload, fp, &s).unwrap();
    assert_eq!(ts2, 1_713_300_000_000);
    assert_eq!(values, floats(&values2));
}

#[test]
fn mixed_dtype_roundtrip() {
    let s = schema(&[("f", DType::F32), ("i", DType::I8), ("b", DType::Bool), ("u", DType::U16)]);
    let fp = schema_fingerprint(&s);
    let values = vec![1.5, 127.0, 1.0, 65535.0];
    let out = serialize_values(fp, 42, &bits(&values), &s);
    assert_eq!(out.payload.len(), HEADER_LEN + 4 + 1 + 1 + 2);
    assert!(out.saturated_indices.is_empty());
    let (ts2, values2) = deserialize_values(&out.payload, fp, &s).unwrap();
    assert_eq!(ts2, 42);
    assert_eq!(floats(&values2), vec![1.5, 127.0, 1.0, 65535.0]);
}

#[test]
fn empty_schema() {
    let s: Vec<FieldSpec> = Vec::new();
    let fp = schema_fingerprint(&s);
    let out = serialize_values(fp, 42, &[], &s);
    assert_eq!(out.payload.len(), HEADER_LEN);
    let (ts2, values2) = deserialize_values(&out.payload, fp, &s).unwrap();
    assert_eq!(ts2, 42);
    assert!(values2.is_empty());
}

#[test]
fn wrong_length_errors() {
    let s = schema(&[("x", DType::F64)]);
    let fp = schema_fingerprint(&s);
    // Valid fingerprint header but missing payload bytes.
    let mut bytes = fp.to_le_bytes().to_vec();
    bytes.extend_from_slice(&42u64.to_le_bytes());
    bytes.extend_from_slice(&[0u8; 4]); // f64 needs 8 bytes
    match deserialize_values(&bytes, fp, &s) {
        Err(DecodeError::Malformed(_)) => {}
        other => panic!("expected Malformed, got {other:?}"),
    }
}

#[test]
fn fingerprint_mismatch_is_separated() {
    let s = schema(&[("x", DType::F64)]);
    let fp = schema_fingerprint(&s);
    let out = serialize_values(fp, 0, &bits(&[1.0]), &s);
    match deserialize_values(&out.payload, fp ^ 0x1, &s) {
        Err(DecodeError::SchemaMismatch { expected, got }) => {
            assert_eq!(expected, fp ^ 0x1);
            assert_eq!(got, fp);
        }
        other => panic!("expected SchemaMismatch, got {other:?}"),
    }
}

#[test]
fn fingerprint_changes_when_order_changes() {
    let a = schema(&[("x", DType::F32), ("y", DType::I8)]);
    let b = schema(&[("y", DType::I8), ("x", DType::F32)]);
    assert_ne!(schema_fingerprint(&a), schema_fingerprint(&b));
}

#[test]
fn fingerprint_changes_when_dtype_changes() {
    let a = schema(&[("x", DType::F32)]);
    let b = schema(&[("x", DType::F64)]);
    assert_ne!(schema_fingerprint(&a), schema_fingerprint(&b));
}

#[test]
fn fingerprint_is_stable_across_independent_constructions() {
    let peer_robot = schema(&[("j1", DType::F32), ("gripper", DType::Bool), ("mode", DType::I8)]);
    let peer_operator =
        schema(&[("j1", DType::F32), ("gripper", DType::Bool), ("mode", DType::I8)]);
    assert_eq!(schema_fingerprint(&peer_robot), schema_fingerprint(&peer_operator),);
}

#[test]
fn fingerprint_changes_when_name_changes() {
    let a = schema(&[("shoulder", DType::F32)]);
    let b = schema(&[("shouder", DType::F32)]);
    assert_ne!(schema_fingerprint(&a), schema_fingerprint(&b));
}

#[test]
fn saturation_is_reported() {
    let s = schema(&[("x", DType::I8)]);
    let fp = schema_fingerprint(&s);
    let out = serialize_values(fp, 0, &bits(&[500.0]), &s);
    assert_eq!(out.saturated_indices, vec![0]);
    let (_, values) = deserialize_values(&out.payload, fp, &s).unwrap();
    assert_eq!(floats(&values), vec![127.0]);
}

#[test]
fn action_roundtrip_with_correlation() {
    let s = schema(&[("a", DType::F64), ("b", DType::F32)]);
    let fp = action_fingerprint(&s);
    let out = serialize_action(fp, 100, Some(50), &bits(&[1.0, 2.5]), &s);
    let (ts, reply, values) = deserialize_action(&out.payload, fp, &s).unwrap();
    assert_eq!(ts, 100);
    assert_eq!(reply, Some(50));
    assert_eq!(floats(&values), vec![1.0, 2.5]);
}

#[test]
fn action_roundtrip_without_correlation() {
    let s = schema(&[("a", DType::F64)]);
    let fp = action_fingerprint(&s);
    let out = serialize_action(fp, 200, None, &bits(&[3.0]), &s);
    let (ts, reply, values) = deserialize_action(&out.payload, fp, &s).unwrap();
    assert_eq!(ts, 200);
    assert_eq!(reply, None);
    assert_eq!(floats(&values), vec![3.0]);
}

#[test]
fn action_fingerprint_differs_from_state_fingerprint() {
    let s = schema(&[("x", DType::F32)]);
    assert_ne!(schema_fingerprint(&s), action_fingerprint(&s));
}

#[test]
fn action_wire_rejects_state_fingerprint() {
    let s = schema(&[("x", DType::F64)]);
    let action_fp = action_fingerprint(&s);
    let out = serialize_values(schema_fingerprint(&s), 0, &bits(&[1.0]), &s);
    match deserialize_action(&out.payload, action_fp, &s) {
        Err(DecodeError::SchemaMismatch { .. }) => {}
        other => panic!("expected SchemaMismatch, got {other:?}"),
    }
}

#[test]
fn fingerprint_is_fnv_1a_of_names_and_types() {
    // The empty schema hashes to the start value.
    assert_eq!(schema_fingerprint(&[]), 0x811c_9dc5);
    let s = schema(&[("x", DType::F32)]);
    let mut h: u32 = 0x811c_9dc5;
    for b in [b'x', 0xff, 2, 0xff] {
        h = (h ^ b as u32).wrapping_mul(0x0100_0193);
    }
    assert_eq!(schema_fingerprint(&s), h);
    assert_eq!(action_fingerprint(&s), h ^ 0xa1c0_b001);
}

#[test]
fn a_reply_to_time_zero_reads_as_none() {
    let s = schema(&[("a", DType::F64)]);
    let fp = action_fingerprint(&s);
    let out = serialize_action(fp, 1, Some(0), &bits(&[3.0]), &s);
    let (_, reply, _) = deserialize_action(&out.payload, fp, &s).unwrap();
    assert_eq!(reply, None);
}

#[test]
fn short_packets_are_described() {
    match deserialize_values(&[1, 2, 3], 0, &[]) {
        Err(DecodeError::Malformed(PortalError::Deserialization(m))) => {
            assert_eq!(m, "packet shorter than 12-byte header: got 3");
        }
        other => panic!("expected Malformed, got {other:?}"),
    }
    match deserialize_action(&[0u8; 19], 0, &[]) {
        Err(DecodeError::Malformed(PortalError::Deserialization(m))) => {
            assert_eq!(m, "action packet shorter than 20-byte header: got 19");
        }
        other => panic!("expected Malformed, got {other:?}"),
    }
    let s = schema(&[("x", DType::F64)]);
    let fp = schema_fingerprint(&s);
    let mut p = serialize_values(fp, 0, &bits(&[1.0]), &s).payload;
    p.push(0);
    match deserialize_values(&p, fp, &s) {
        Err(DecodeError::Malformed(PortalError::Deserialization(m))) => {
            assert_eq!(m, "expected 20 bytes, got 21");
        }
        other => panic!("expected Malformed, got {other:?}"),
    }
}

#[test]
fn another_type_always_shows() {
    let names = ["shoulder", "", "\u{e9}lbow", "gripper"];
    let types = [DType::F64, DType::F32, DType::I32, DType::U8, DType::Bool];
    let base: Vec<FieldSpec> =
        names.iter().map(|n| FieldSpec::new(n.to_string(), DType::I16)).collect();
    for k in 0..base.len() {
        for d in types {
            let mut other = base.clone();
            other[k].dtype = d;
            assert_ne!(schema_fingerprint(&base), schema_fingerprint(&other));
        }
    }
}
