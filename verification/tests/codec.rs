use bytes::Bytes;
use livekit_portal::codec::{
    accept_picture, decode_frame, encode_frame, encode_frame_into, estimated_encoded_size, Codec,
    CodecError,
};

fn gradient(w: u32, h: u32) -> Vec<u8> {
    let mut out = Vec::with_capacity((w * h * 3) as usize);
    for y in 0..h {
        for x in 0..w {
            out.push((x % 256) as u8);
            out.push((y % 256) as u8);
            out.push(((x + y) % 256) as u8);
        }
    }
    out
}

#[test]
fn raw_roundtrip_is_byte_exact() {
    let rgb = gradient(64, 48);
    let bytes = encode_frame(&rgb, 64, 48, Codec::Raw, 0).unwrap();
    assert_eq!(bytes, rgb, "raw encode is identity");
    let decoded = decode_frame(Bytes::from(bytes), Codec::Raw, 64, 48).unwrap();
    assert_eq!(decoded.rgb.as_ref(), rgb.as_slice());
    assert_eq!((decoded.width, decoded.height), (64, 48));
}

#[test]
fn raw_decode_is_zero_copy() {
    let rgb = gradient(64, 48);
    let payload = Bytes::from(rgb.clone());
    let payload_ptr = payload.as_ptr();
    let decoded = decode_frame(payload, Codec::Raw, 64, 48).unwrap();
    assert_eq!(
        decoded.rgb.as_ptr(),
        payload_ptr,
        "Raw decode must reuse the input buffer (zero-copy)"
    );
}

#[test]
fn png_roundtrip_is_byte_exact() {
    let rgb = gradient(64, 48);
    let bytes = encode_frame(&rgb, 64, 48, Codec::Png, 0).unwrap();
    assert!(bytes.len() < rgb.len() * 2, "png shouldn't grow much over raw");
    let decoded = decode_frame(Bytes::from(bytes), Codec::Png, 64, 48).unwrap();
    assert_eq!(decoded.rgb.as_ref(), rgb.as_slice(), "PNG is lossless");
    assert_eq!((decoded.width, decoded.height), (64, 48));
}

#[test]
fn mjpeg_roundtrip_is_close() {
    let rgb = gradient(64, 48);
    let bytes = encode_frame(&rgb, 64, 48, Codec::Mjpeg, 95).unwrap();
    assert!(bytes.len() < rgb.len(), "jpeg should shrink the payload");
    let decoded = decode_frame(Bytes::from(bytes), Codec::Mjpeg, 64, 48).unwrap();
    assert_eq!((decoded.width, decoded.height), (64, 48));
    // JPEG is lossy; check the average per-pixel error is small.
    let total: u64 = rgb
        .iter()
        .zip(decoded.rgb.iter())
        .map(|(a, b)| (*a as i32 - *b as i32).unsigned_abs() as u64)
        .sum();
    let avg = total as f64 / rgb.len() as f64;
    assert!(avg < 5.0, "avg pixel error {avg} should be small at q=95");
}

#[test]
fn declared_dims_zero_skips_check() {
    let rgb = gradient(32, 32);
    let bytes = encode_frame(&rgb, 32, 32, Codec::Png, 0).unwrap();
    let decoded = decode_frame(Bytes::from(bytes), Codec::Png, 0, 0).unwrap();
    assert_eq!((decoded.width, decoded.height), (32, 32));
}

#[test]
fn dimension_mismatch_rejected() {
    let rgb = gradient(32, 32);
    let bytes = encode_frame(&rgb, 32, 32, Codec::Png, 0).unwrap();
    let err = decode_frame(Bytes::from(bytes), Codec::Png, 64, 64).unwrap_err();
    assert!(matches!(err, CodecError::DimensionMismatch { .. }));
}

#[test]
fn wrong_rgb_size_rejected() {
    let rgb = vec![0u8; 100]; // not 32*32*3
    let err = encode_frame(&rgb, 32, 32, Codec::Raw, 0).unwrap_err();
    assert!(matches!(err, CodecError::WrongRgbSize { .. }));
}

#[test]
fn encoders_do_not_hand_their_input_back() {
    let rgb = gradient(16, 16);
    let png = encode_frame(&rgb, 16, 16, Codec::Png, 0).unwrap();
    assert_eq!(&png[..8], &[0x89, b'P', b'N', b'G', 0x0d, 0x0a, 0x1a, 0x0a]);
    let jpeg = encode_frame(&rgb, 16, 16, Codec::Mjpeg, 80).unwrap();
    assert_eq!(&jpeg[..2], &[0xff, 0xd8]);
    let better = encode_frame(&rgb, 16, 16, Codec::Mjpeg, 100).unwrap();
    assert_ne!(jpeg, better, "quality counts");
}

#[test]
fn encoding_appends_behind_what_is_there() {
    let rgb = gradient(4, 4);
    let mut out = vec![1u8, 2, 3];
    encode_frame_into(&mut out, &rgb, 4, 4, Codec::Raw, 0).unwrap();
    assert_eq!(&out[..3], &[1, 2, 3]);
    assert_eq!(&out[3..], rgb.as_slice());
    let before = out.clone();
    assert!(encode_frame_into(&mut out, &rgb, 5, 4, Codec::Raw, 0).is_err());
    assert_eq!(out, before, "a refused frame leaves the buffer alone");
}

#[test]
fn zero_dimensions_are_invalid() {
    let err = encode_frame(&[], 0, 4, Codec::Png, 0).unwrap_err();
    assert!(matches!(err, CodecError::InvalidDimensions { width: 0, height: 4 }));
    assert_eq!(err.describe(), "invalid frame dimensions: 0x4");
}

#[test]
fn garbage_does_not_decode() {
    let err = decode_frame(Bytes::from(vec![1u8, 2, 3]), Codec::Png, 1, 1).unwrap_err();
    assert!(matches!(err, CodecError::DecodeFailed(_)));
    assert!(err.describe().starts_with("decode failed: "));
    let err = decode_frame(Bytes::from(vec![1u8, 2, 3]), Codec::Mjpeg, 1, 1).unwrap_err();
    assert!(matches!(err, CodecError::DecodeFailed(_)));
}

#[test]
fn jpeg_refuses_more_than_its_limit() {
    let rgb = vec![0u8; 70_000 * 3];
    let err = encode_frame(&rgb, 70_000, 1, Codec::Mjpeg, 50).unwrap_err();
    assert!(matches!(err, CodecError::EncodeFailed(_)));
}

#[test]
fn pictures_are_checked_against_the_declaration() {
    let p = accept_picture(2, 1, vec![9u8; 6], 2, 1).unwrap();
    assert_eq!(p.rgb.as_ref(), &[9u8; 6]);
    let err = accept_picture(2, 1, vec![9u8; 6], 1, 2).unwrap_err();
    assert_eq!(err.describe(), "decoded dimensions 2x1 disagree with declared 1x2");
}

/// A picture of more than 64 MiB reads back.
#[test]
fn large_pictures_read_back() {
    let (w, h) = (4_730u32, 4_730u32);
    let rgb = vec![5u8; (w * h * 3) as usize];
    let file = encode_frame(&rgb, w, h, Codec::Png, 0).unwrap();
    let p = decode_frame(Bytes::from(file), Codec::Png, w, h).unwrap();
    assert_eq!((p.width, p.height), (w, h));
    assert!(p.rgb.as_ref() == rgb.as_slice());
}

#[test]
fn jpeg_files_keep_their_dimensions() {
    for (w, h) in [(1, 1), (1, 9), (7, 3), (65_535, 1), (1, 65_535), (33, 17)] {
        let rgb = gradient(w, h);
        for quality in [1, 50, 100] {
            let file = Bytes::from(encode_frame(&rgb, w, h, Codec::Mjpeg, quality).unwrap());
            for (dw, dh) in [(w, h), (0, 0)] {
                let p = decode_frame(file.clone(), Codec::Mjpeg, dw, dh).unwrap();
                assert_eq!((p.width, p.height), (w, h));
                assert_eq!(p.rgb.len(), rgb.len());
            }
        }
    }
}

#[test]
fn decoded_frames_can_be_copied() {
    let p = accept_picture(2, 1, vec![9u8; 6], 2, 1).unwrap();
    let q = p.clone();
    assert_eq!((q.rgb.as_ref(), q.width, q.height), (p.rgb.as_ref(), 2, 1));
}

#[test]
fn sizes_are_estimated() {
    assert_eq!(estimated_encoded_size(640, 480, Codec::Raw), 921_600);
    assert_eq!(estimated_encoded_size(640, 480, Codec::Png), 921_600);
    assert_eq!(estimated_encoded_size(640, 480, Codec::Mjpeg), 115_200);
    assert_eq!(estimated_encoded_size(8, 8, Codec::Mjpeg), 24);
}

#[test]
fn transports_follow_the_codec() {
    for c in [Codec::H264, Codec::Vp8, Codec::Vp9, Codec::Av1, Codec::H265] {
        assert!(c.is_webrtc());
    }
    for c in [Codec::Raw, Codec::Png, Codec::Mjpeg] {
        assert!(!c.is_webrtc());
    }
}

#[test]
fn codec_errors_read_well() {
    let e = CodecError::WrongRgbSize { width: 2, height: 3, expected: 18, got: 5 };
    assert_eq!(e.describe(), "wrong RGB buffer size for 2x3: expected 18 bytes, got 5");
    assert_eq!(CodecError::EncodeFailed("x".to_string()).describe(), "encode failed: x");
}
