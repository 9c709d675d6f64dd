use livekit_portal::placeholder::{glyph, render, render_label, DARK, MAGENTA, TEXT};

fn px(buf: &[u8], w: usize, x: usize, y: usize) -> (u8, u8, u8) {
    let i = (y * w + x) * 3;
    (buf[i], buf[i + 1], buf[i + 2])
}

#[test]
fn output_is_always_rgb24_sized() {
    for (w, h) in [(640u32, 480u32), (1, 1), (2, 2), (17, 33), (320, 240)] {
        let b = render(w, h, "cam1");
        assert_eq!(b.len(), (w as usize) * (h as usize) * 3, "{w}x{h}");
    }
}

#[test]
fn zero_geometry_is_empty_not_a_panic() {
    assert!(render(0, 0, "cam1").is_empty());
    assert!(render(0, 10, "cam1").is_empty());
}

#[test]
fn is_visibly_not_a_dark_frame() {
    let w = 320usize;
    let b = render(320, 240, "cam1");
    let has_magenta = (0..240).any(|y| (0..w).any(|x| px(&b, w, x, y) == MAGENTA));
    assert!(has_magenta, "placeholder must be obviously synthetic");
    assert!(b.iter().any(|&v| v > 0x80), "must not read as near-black");
}

#[test]
fn draws_a_label_when_there_is_room() {
    let w = 640usize;
    let b = render(640, 480, "wrist");
    let white = (0..480).any(|y| (0..w).any(|x| px(&b, w, x, y) == TEXT));
    assert!(white, "expected label pixels");
}

#[test]
fn tiny_frames_skip_the_label() {
    let w = 2usize;
    let b = render(2, 2, "cam1");
    let white = (0..2).any(|y| (0..w).any(|x| px(&b, w, x, y) == TEXT));
    assert!(!white, "no label should be attempted at 2x2");
}

#[test]
fn render_is_deterministic() {
    assert_eq!(render(64, 64, "cam1"), render(64, 64, "cam1"));
    assert_ne!(render(64, 64, "cam1"), render(64, 64, "cam2"));
}

#[test]
fn long_and_odd_names_are_contained() {
    let b = render(320, 240, "a-very-long-track-name-that-keeps-going/…");
    assert_eq!(b.len(), 320 * 240 * 3);
}

#[test]
fn labels_are_upper_case() {
    assert_eq!(render(320, 240, "cam1"), render(320, 240, "CAM1"));
    assert_eq!(render(320, 240, "cam1"), render_label(320, 240, "CAM1"));
    assert_ne!(render(320, 240, "cam1"), render_label(320, 240, "cam1"));
}

#[test]
fn stripes_alternate_along_the_diagonal() {
    let b = render(2, 2, "x");
    assert_eq!(px(&b, 2, 0, 0), MAGENTA);
    let w = 64usize;
    let b = render(64, 4, "x");
    assert_eq!(px(&b, w, 0, 0), MAGENTA);
    assert_eq!(px(&b, w, 8, 0), DARK);
    assert_eq!(px(&b, w, 16, 0), MAGENTA);
}

#[test]
fn glyphs_are_five_bits_wide() {
    for c in "ABCXYZ0189-_/. ?".chars() {
        for row in glyph(c) {
            assert!(row < 32);
        }
    }
    assert_ne!(glyph('A'), glyph('B'));
}
