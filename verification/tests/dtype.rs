use livekit_portal::dtype::DType;
use livekit_portal::error::PortalError;

fn encode_decode(dtype: DType, v: f64) -> (f64, bool) {
    let mut buf = Vec::new();
    let saturated = dtype.encode(v.to_bits(), &mut buf);
    assert_eq!(buf.len(), dtype.size_bytes());
    (f64::from_bits(dtype.decode(&buf).unwrap()), saturated)
}

#[test]
fn dtype_f64_roundtrip() {
    let (v, sat) = encode_decode(DType::F64, 3.14159265358979);
    assert_eq!(v, 3.14159265358979);
    assert!(!sat);
}

#[test]
fn f32_reports_overflow() {
    let (v, sat) = encode_decode(DType::F32, 1.5);
    assert_eq!(v, 1.5);
    assert!(!sat);
    let (v, sat) = encode_decode(DType::F32, 1e40);
    assert!(v.is_infinite());
    assert!(sat, "f32 overflow must be reported as saturation");
}

#[test]
fn int_saturates_on_overflow() {
    assert_eq!(encode_decode(DType::I8, 500.0), (127.0, true));
    assert_eq!(encode_decode(DType::I8, -500.0), (-128.0, true));
    assert_eq!(encode_decode(DType::U8, -5.0), (0.0, true));
    assert_eq!(encode_decode(DType::U8, 1000.0), (255.0, true));
    assert_eq!(encode_decode(DType::I8, 42.0), (42.0, false));
}

#[test]
fn int_boundary_values_are_not_reported() {
    // Exact MIN/MAX are representable and should not flag.
    assert_eq!(encode_decode(DType::I8, 127.0), (127.0, false));
    assert_eq!(encode_decode(DType::I8, -128.0), (-128.0, false));
    assert_eq!(encode_decode(DType::U16, 65535.0), (65535.0, false));
    assert_eq!(encode_decode(DType::U8, 0.0), (0.0, false));
}

#[test]
fn bool_maps_zero_and_nonzero() {
    assert_eq!(encode_decode(DType::Bool, 0.0), (0.0, false));
    assert_eq!(encode_decode(DType::Bool, 1.0), (1.0, false));
    assert_eq!(encode_decode(DType::Bool, -3.2), (1.0, false));
    let (v, sat) = encode_decode(DType::Bool, f64::NAN);
    assert_eq!(v, 0.0);
    assert!(sat, "NaN into Bool must be reported as saturation");
}

#[test]
fn decode_buffer_too_short() {
    let buf = [0u8; 3];
    assert!(DType::F64.decode(&buf).is_err());
}

#[test]
fn short_buffers_are_described() {
    match DType::I16.decode(&[7]) {
        Err(PortalError::Deserialization(m)) => {
            assert_eq!(m, "dtype I16 needs 2 bytes, got 1");
        }
        other => panic!("expected Deserialization, got {other:?}"),
    }
}

#[test]
fn widths_and_names() {
    let all = [
        (DType::F64, 8, "F64"),
        (DType::F32, 4, "F32"),
        (DType::I32, 4, "I32"),
        (DType::I16, 2, "I16"),
        (DType::I8, 1, "I8"),
        (DType::U32, 4, "U32"),
        (DType::U16, 2, "U16"),
        (DType::U8, 1, "U8"),
        (DType::Bool, 1, "Bool"),
    ];
    for (d, width, name) in all {
        assert_eq!(d.size_bytes(), width);
        assert_eq!(d.variant_name(), name);
    }
}

#[test]
fn integers_survive_the_wire() {
    for n in [i32::MIN, -1, 0, 1, 77, i32::MAX] {
        assert_eq!(encode_decode(DType::I32, n as f64), (n as f64, false));
    }
    for n in [0, 1, 1 << 31, u32::MAX] {
        assert_eq!(encode_decode(DType::U32, n as f64), (n as f64, false));
    }
    for n in [i16::MIN, -300, 300, i16::MAX] {
        assert_eq!(encode_decode(DType::I16, n as f64), (n as f64, false));
    }
    assert_eq!(encode_decode(DType::I32, f64::NAN), (0.0, true));
    assert_eq!(encode_decode(DType::U16, f64::INFINITY), (65535.0, true));
    assert_eq!(encode_decode(DType::I16, f64::NEG_INFINITY), (-32768.0, true));
    // Fractions are cut off, not reported.
    assert_eq!(encode_decode(DType::I8, -3.9), (-3.0, false));
}

#[test]
fn wire_bytes_are_little_endian() {
    let mut out = Vec::new();
    DType::I32.encode((-2.0f64).to_bits(), &mut out);
    assert_eq!(out, (-2i32).to_le_bytes().to_vec());
    out.clear();
    DType::F32.encode(0.1f64.to_bits(), &mut out);
    assert_eq!(out, (0.1f64 as f32).to_le_bytes().to_vec());
    out.clear();
    DType::F64.encode(0.1f64.to_bits(), &mut out);
    assert_eq!(out, 0.1f64.to_le_bytes().to_vec());
}
