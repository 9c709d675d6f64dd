use livekit_portal::ieee::{
    f32_from_f64, f64_clamp_to_int, f64_from_f32, f64_from_int, f64_out_of_range,
};

fn samples() -> Vec<f64> {
    let mut v = vec![
        0.0,
        -0.0,
        1.0,
        -1.0,
        0.1,
        0.5,
        -0.99,
        127.0,
        127.5,
        -128.9,
        255.0,
        1e9,
        4.3e9,
        -1e300,
        f64::MAX,
        f64::MIN_POSITIVE,
        5e-324,
        f64::INFINITY,
        f64::NEG_INFINITY,
        f32::MAX as f64,
        3.4028235677973366e38,
        f32::MIN_POSITIVE as f64,
        1e-45,
        7e-46,
        1.1754942807573643e-38,
        16_777_217.0,
    ];
    let mut x: u64 = 0x2545_F491_4F6C_DD1D;
    for _ in 0..20_000 {
        x ^= x << 13;
        x ^= x >> 7;
        x ^= x << 17;
        let f = f64::from_bits(x);
        if !f.is_nan() {
            v.push(f);
        }
        // Exponents around those of binary32.
        let near = (x & 0x800f_ffff_ffff_ffff) | ((870 + (x >> 52) % 310) << 52);
        v.push(f64::from_bits(near));
    }
    v
}

#[test]
fn integers_are_cut_as_the_machine_cuts_them() {
    for f in samples() {
        assert_eq!(f64_clamp_to_int(f.to_bits(), -128, 127), (f as i8) as i64, "{f}");
        assert_eq!(f64_clamp_to_int(f.to_bits(), 0, 255), (f as u8) as i64, "{f}");
        assert_eq!(
            f64_clamp_to_int(f.to_bits(), i32::MIN as i64, i32::MAX as i64),
            (f as i32) as i64,
            "{f}"
        );
    }
    assert_eq!(f64_clamp_to_int(f64::NAN.to_bits(), -5, 5), 0);
}

#[test]
fn range_tests_agree_with_the_machine() {
    for f in samples() {
        assert_eq!(f64_out_of_range(f.to_bits(), -128, 127), !(-128.0..=127.0).contains(&f), "{f}");
    }
}

#[test]
fn narrowing_agrees_with_the_machine() {
    for f in samples() {
        assert_eq!(f32_from_f64(f.to_bits()), (f as f32).to_bits(), "{f:e}");
    }
    assert!(f32::from_bits(f32_from_f64(f64::NAN.to_bits())).is_nan());
}

#[test]
fn widening_agrees_with_the_machine() {
    for f in samples() {
        let g = f as f32;
        assert_eq!(f64_from_f32(g.to_bits()), (g as f64).to_bits(), "{g:e}");
    }
    for n in [0i64, 1, -1, 2, 3, 255, -128, 65_535, i32::MIN as i64, u32::MAX as i64] {
        assert_eq!(f64_from_int(n), (n as f64).to_bits(), "{n}");
    }
}
