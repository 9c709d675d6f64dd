//! Placeholder frames for silent video tracks.
//!
//! Diagonal magenta stripes with a label that names the track: unmistakably
//! not a camera picture. The label uses a built-in 5x7 bitmap font.
use crate::payload::bytes_from_vec;
use bytes::Bytes;
use vstd::arithmetic::div_mod::*;
use vstd::arithmetic::mul::*;
use vstd::prelude::*;

verus! {

/// Red, green and blue of a pixel.
pub type Color = (u8, u8, u8);

/// Stripe colours. Magenta essentially never occurs in a robot scene.
pub const MAGENTA: Color = (0xC0, 0x00, 0xC0);

pub const DARK: Color = (0x20, 0x00, 0x28);

/// Band behind the text, so that the label stays legible over the stripes.
pub const BAND: Color = (0x0A, 0x00, 0x0C);

pub const TEXT: Color = (0xFF, 0xFF, 0xFF);

/// Width of a diagonal stripe in pixels.
pub const STRIPE: usize = 8;

pub const GLYPH_W: usize = 5;

pub const GLYPH_H: usize = 7;

/// One blank column between glyphs.
pub const ADVANCE: usize = 6;

/// Longest track name drawn. A longer one is cut and ends in a dot.
pub const MAX_NAME: usize = 20;

// ---------------------------------------------------------------------------
// Font
// ---------------------------------------------------------------------------

/// Rows of a glyph; bit 4 of a row is its leftmost column.
pub open spec fn glyph_rows(c: char) -> Seq<u8> {
    match c {
        'A' => seq![0x0Eu8, 0x11, 0x11, 0x1F, 0x11, 0x11, 0x11],
        'B' => seq![0x1Eu8, 0x11, 0x11, 0x1E, 0x11, 0x11, 0x1E],
        'C' => seq![0x0Eu8, 0x11, 0x10, 0x10, 0x10, 0x11, 0x0E],
        'D' => seq![0x1Eu8, 0x11, 0x11, 0x11, 0x11, 0x11, 0x1E],
        'E' => seq![0x1Fu8, 0x10, 0x10, 0x1E, 0x10, 0x10, 0x1F],
        'F' => seq![0x1Fu8, 0x10, 0x10, 0x1E, 0x10, 0x10, 0x10],
        'G' => seq![0x0Eu8, 0x11, 0x10, 0x17, 0x11, 0x11, 0x0F],
        'H' => seq![0x11u8, 0x11, 0x11, 0x1F, 0x11, 0x11, 0x11],
        'I' => seq![0x0Eu8, 0x04, 0x04, 0x04, 0x04, 0x04, 0x0E],
        'J' => seq![0x07u8, 0x02, 0x02, 0x02, 0x02, 0x12, 0x0C],
        'K' => seq![0x11u8, 0x12, 0x14, 0x18, 0x14, 0x12, 0x11],
        'L' => seq![0x10u8, 0x10, 0x10, 0x10, 0x10, 0x10, 0x1F],
        'M' => seq![0x11u8, 0x1B, 0x15, 0x15, 0x11, 0x11, 0x11],
        'N' => seq![0x11u8, 0x11, 0x19, 0x15, 0x13, 0x11, 0x11],
        'O' => seq![0x0Eu8, 0x11, 0x11, 0x11, 0x11, 0x11, 0x0E],
        'P' => seq![0x1Eu8, 0x11, 0x11, 0x1E, 0x10, 0x10, 0x10],
        'Q' => seq![0x0Eu8, 0x11, 0x11, 0x11, 0x15, 0x12, 0x0D],
        'R' => seq![0x1Eu8, 0x11, 0x11, 0x1E, 0x14, 0x12, 0x11],
        'S' => seq![0x0Fu8, 0x10, 0x10, 0x0E, 0x01, 0x01, 0x1E],
        'T' => seq![0x1Fu8, 0x04, 0x04, 0x04, 0x04, 0x04, 0x04],
        'U' => seq![0x11u8, 0x11, 0x11, 0x11, 0x11, 0x11, 0x0E],
        'V' => seq![0x11u8, 0x11, 0x11, 0x11, 0x11, 0x0A, 0x04],
        'W' => seq![0x11u8, 0x11, 0x11, 0x15, 0x15, 0x1B, 0x11],
        'X' => seq![0x11u8, 0x11, 0x0A, 0x04, 0x0A, 0x11, 0x11],
        'Y' => seq![0x11u8, 0x11, 0x0A, 0x04, 0x04, 0x04, 0x04],
        'Z' => seq![0x1Fu8, 0x01, 0x02, 0x04, 0x08, 0x10, 0x1F],
        '0' => seq![0x0Eu8, 0x11, 0x13, 0x15, 0x19, 0x11, 0x0E],
        '1' => seq![0x04u8, 0x0C, 0x04, 0x04, 0x04, 0x04, 0x0E],
        '2' => seq![0x0Eu8, 0x11, 0x01, 0x02, 0x04, 0x08, 0x1F],
        '3' => seq![0x1Fu8, 0x02, 0x04, 0x02, 0x01, 0x11, 0x0E],
        '4' => seq![0x02u8, 0x06, 0x0A, 0x12, 0x1F, 0x02, 0x02],
        '5' => seq![0x1Fu8, 0x10, 0x1E, 0x01, 0x01, 0x11, 0x0E],
        '6' => seq![0x06u8, 0x08, 0x10, 0x1E, 0x11, 0x11, 0x0E],
        '7' => seq![0x1Fu8, 0x01, 0x02, 0x04, 0x08, 0x08, 0x08],
        '8' => seq![0x0Eu8, 0x11, 0x11, 0x0E, 0x11, 0x11, 0x0E],
        '9' => seq![0x0Eu8, 0x11, 0x11, 0x0F, 0x01, 0x02, 0x0C],
        ' ' => seq![0x00u8, 0x00, 0x00, 0x00, 0x00, 0x00, 0x00],
        '-' => seq![0x00u8, 0x00, 0x00, 0x1F, 0x00, 0x00, 0x00],
        '_' => seq![0x00u8, 0x00, 0x00, 0x00, 0x00, 0x00, 0x1F],
        '.' => seq![0x00u8, 0x00, 0x00, 0x00, 0x00, 0x0C, 0x0C],
        ':' => seq![0x00u8, 0x0C, 0x0C, 0x00, 0x0C, 0x0C, 0x00],
        '/' => seq![0x01u8, 0x02, 0x02, 0x04, 0x08, 0x08, 0x10],
        _ => seq![0x0Eu8, 0x11, 0x01, 0x02, 0x04, 0x00, 0x04],
    }
}

/// The 5x7 glyph of a character. The font has no lower case.
pub fn glyph(c: char) -> (g: [u8; 7])
    ensures
        g@ == glyph_rows(c),
{
    let g: [u8; 7] = match c {
        'A' => [0x0E, 0x11, 0x11, 0x1F, 0x11, 0x11, 0x11],
        'B' => [0x1E, 0x11, 0x11, 0x1E, 0x11, 0x11, 0x1E],
        'C' => [0x0E, 0x11, 0x10, 0x10, 0x10, 0x11, 0x0E],
        'D' => [0x1E, 0x11, 0x11, 0x11, 0x11, 0x11, 0x1E],
        'E' => [0x1F, 0x10, 0x10, 0x1E, 0x10, 0x10, 0x1F],
        'F' => [0x1F, 0x10, 0x10, 0x1E, 0x10, 0x10, 0x10],
        'G' => [0x0E, 0x11, 0x10, 0x17, 0x11, 0x11, 0x0F],
        'H' => [0x11, 0x11, 0x11, 0x1F, 0x11, 0x11, 0x11],
        'I' => [0x0E, 0x04, 0x04, 0x04, 0x04, 0x04, 0x0E],
        'J' => [0x07, 0x02, 0x02, 0x02, 0x02, 0x12, 0x0C],
        'K' => [0x11, 0x12, 0x14, 0x18, 0x14, 0x12, 0x11],
        'L' => [0x10, 0x10, 0x10, 0x10, 0x10, 0x10, 0x1F],
        'M' => [0x11, 0x1B, 0x15, 0x15, 0x11, 0x11, 0x11],
        'N' => [0x11, 0x11, 0x19, 0x15, 0x13, 0x11, 0x11],
        'O' => [0x0E, 0x11, 0x11, 0x11, 0x11, 0x11, 0x0E],
        'P' => [0x1E, 0x11, 0x11, 0x1E, 0x10, 0x10, 0x10],
        'Q' => [0x0E, 0x11, 0x11, 0x11, 0x15, 0x12, 0x0D],
        'R' => [0x1E, 0x11, 0x11, 0x1E, 0x14, 0x12, 0x11],
        'S' => [0x0F, 0x10, 0x10, 0x0E, 0x01, 0x01, 0x1E],
        'T' => [0x1F, 0x04, 0x04, 0x04, 0x04, 0x04, 0x04],
        'U' => [0x11, 0x11, 0x11, 0x11, 0x11, 0x11, 0x0E],
        'V' => [0x11, 0x11, 0x11, 0x11, 0x11, 0x0A, 0x04],
        'W' => [0x11, 0x11, 0x11, 0x15, 0x15, 0x1B, 0x11],
        'X' => [0x11, 0x11, 0x0A, 0x04, 0x0A, 0x11, 0x11],
        'Y' => [0x11, 0x11, 0x0A, 0x04, 0x04, 0x04, 0x04],
        'Z' => [0x1F, 0x01, 0x02, 0x04, 0x08, 0x10, 0x1F],
        '0' => [0x0E, 0x11, 0x13, 0x15, 0x19, 0x11, 0x0E],
        '1' => [0x04, 0x0C, 0x04, 0x04, 0x04, 0x04, 0x0E],
        '2' => [0x0E, 0x11, 0x01, 0x02, 0x04, 0x08, 0x1F],
        '3' => [0x1F, 0x02, 0x04, 0x02, 0x01, 0x11, 0x0E],
        '4' => [0x02, 0x06, 0x0A, 0x12, 0x1F, 0x02, 0x02],
        '5' => [0x1F, 0x10, 0x1E, 0x01, 0x01, 0x11, 0x0E],
        '6' => [0x06, 0x08, 0x10, 0x1E, 0x11, 0x11, 0x0E],
        '7' => [0x1F, 0x01, 0x02, 0x04, 0x08, 0x08, 0x08],
        '8' => [0x0E, 0x11, 0x11, 0x0E, 0x11, 0x11, 0x0E],
        '9' => [0x0E, 0x11, 0x11, 0x0F, 0x01, 0x02, 0x0C],
        ' ' => [0x00, 0x00, 0x00, 0x00, 0x00, 0x00, 0x00],
        '-' => [0x00, 0x00, 0x00, 0x1F, 0x00, 0x00, 0x00],
        '_' => [0x00, 0x00, 0x00, 0x00, 0x00, 0x00, 0x1F],
        '.' => [0x00, 0x00, 0x00, 0x00, 0x00, 0x0C, 0x0C],
        ':' => [0x00, 0x0C, 0x0C, 0x00, 0x0C, 0x0C, 0x00],
        '/' => [0x01, 0x02, 0x02, 0x04, 0x08, 0x08, 0x10],
        _ => [0x0E, 0x11, 0x01, 0x02, 0x04, 0x00, 0x04],
    };
    assert(g@ =~= glyph_rows(c));
    g
}

/// The value of a column's bit in a glyph row.
pub open spec fn column_bit(col: int) -> u8 {
    if col == 0 {
        16
    } else if col == 1 {
        8
    } else if col == 2 {
        4
    } else if col == 3 {
        2
    } else {
        1
    }
}

/// Whether a pixel of a glyph is lit.
pub open spec fn glyph_lit(c: char, row: int, col: int) -> bool {
    &&& 0 <= row < GLYPH_H
    &&& 0 <= col < GLYPH_W
    &&& (glyph_rows(c)[row] / column_bit(col)) % 2 == 1
}

fn is_glyph_lit(c: char, row: usize, col: usize) -> (b: bool)
    ensures
        b == glyph_lit(c, row as int, col as int),
{
    if row >= GLYPH_H || col >= GLYPH_W {
        return false;
    }
    let rows: [u8; 7] = glyph(c);
    let bit: u8 = if col == 0 {
        16
    } else if col == 1 {
        8
    } else if col == 2 {
        4
    } else if col == 3 {
        2
    } else {
        1
    };
    (rows[row] / bit) % 2 == 1
}

// ---------------------------------------------------------------------------
// Picture
// ---------------------------------------------------------------------------

/// Position of a pixel's first byte.
pub open spec fn pixel_at(w: int, x: int, y: int) -> int {
    (y * w + x) * 3
}

/// Colour of a pixel in a packed RGB24 picture.
pub open spec fn color_at(buf: Seq<u8>, w: int, x: int, y: int) -> Color {
    let i = pixel_at(w, x, y);
    (buf[i], buf[i + 1], buf[i + 2])
}

/// Stripe colour of a pixel.
pub open spec fn stripe_color(x: int, y: int) -> Color {
    if ((x + y) / STRIPE as int) % 2 == 0 {
        MAGENTA
    } else {
        DARK
    }
}

/// Whether a pixel belongs to `text`, drawn at `(ox, oy)` with every glyph
/// pixel `scale` wide.
pub open spec fn text_lit(text: Seq<char>, scale: int, ox: int, oy: int, x: int, y: int) -> bool {
    &&& x >= ox
    &&& y >= oy
    &&& ({
        let cell = (x - ox) / scale;
        &&& cell / (ADVANCE as int) < text.len()
        &&& glyph_lit(
            text[cell / (ADVANCE as int)],
            (y - oy) / scale,
            cell % (ADVANCE as int),
        )
    })
}

/// One layer of the picture.
enum Layer<'a> {
    Stripes,
    Band,
    Label { text: &'a Vec<char>, scale: usize, ox: usize, oy: usize },
}

impl<'a> Layer<'a> {
    /// What the layer paints on a pixel.
    spec fn paints(self, x: int, y: int) -> Option<Color> {
        match self {
            Layer::Stripes => Some(stripe_color(x, y)),
            Layer::Band => Some(BAND),
            Layer::Label { text, scale, ox, oy } => if text_lit(
                text@,
                scale as int,
                ox as int,
                oy as int,
                x,
                y,
            ) {
                Some(TEXT)
            } else {
                None
            },
        }
    }

    fn color(&self, x: usize, y: usize) -> (c: Option<Color>)
        requires
            x + y <= usize::MAX,
            self matches Layer::Label { scale, .. } ==> scale > 0,
        ensures
            c == self.paints(x as int, y as int),
    {
        match self {
            Layer::Stripes => Some(
                if ((x + y) / STRIPE) % 2 == 0 {
                    MAGENTA
                } else {
                    DARK
                },
            ),
            Layer::Band => Some(BAND),
            Layer::Label { text, scale, ox, oy } => {
                if x < *ox || y < *oy {
                    return None;
                }
                let cell: usize = (x - *ox) / *scale;
                let n: usize = cell / ADVANCE;
                if n < text.len() && is_glyph_lit(text[n], (y - *oy) / *scale, cell % ADVANCE) {
                    Some(TEXT)
                } else {
                    None
                }
            },
        }
    }
}

/// A picture after a layer was painted on rows `top..bottom`.
spec fn painted(layer: Layer, old_color: Color, top: int, bottom: int, x: int, y: int) -> Color {
    if top <= y < bottom {
        match layer.paints(x, y) {
            Some(c) => c,
            None => old_color,
        }
    } else {
        old_color
    }
}

proof fn lemma_pixel_bounds(w: int, h: int, x: int, y: int)
    requires
        0 <= x < w,
        0 <= y < h,
    ensures
        0 <= pixel_at(w, x, y),
        pixel_at(w, x, y) + 3 <= w * h * 3,
        0 <= y * w <= y * w + x < w * h,
{
    assert(0 <= y * w) by (nonlinear_arith)
        requires
            0 <= y,
            0 <= w,
    ;
    assert(y * w + w <= h * w) by (nonlinear_arith)
        requires
            y + 1 <= h,
            0 <= w,
    ;
    assert(h * w == w * h) by (nonlinear_arith);
}

proof fn lemma_pixels_apart(w: int, x: int, y: int, a: int, b: int)
    requires
        0 <= x < w,
        0 <= a < w,
        x != a || y != b,
    ensures
        pixel_at(w, x, y) + 3 <= pixel_at(w, a, b) || pixel_at(w, a, b) + 3 <= pixel_at(w, x, y),
{
    if y < b {
        assert(y * w + w <= b * w) by (nonlinear_arith)
            requires
                y + 1 <= b,
                0 <= w,
        ;
    } else if b < y {
        assert(b * w + w <= y * w) by (nonlinear_arith)
            requires
                b + 1 <= y,
                0 <= w,
        ;
    }
}

/// Sets one pixel.
fn put_pixel(buf: &mut Vec<u8>, w: usize, h: usize, x: usize, y: usize, c: Color)
    requires
        x < w,
        y < h,
        old(buf)@.len() == w * h * 3,
        w * h * 3 <= usize::MAX,
    ensures
        final(buf)@.len() == old(buf)@.len(),
        color_at(final(buf)@, w as int, x as int, y as int) == c,
        forall|a: int, b: int|
            0 <= a < w && 0 <= b < h && (a != x || b != y) ==> #[trigger] color_at(
                final(buf)@,
                w as int,
                a,
                b,
            ) == color_at(old(buf)@, w as int, a, b),
{
    let ghost before = buf@;
    proof {
        lemma_pixel_bounds(w as int, h as int, x as int, y as int);
    }
    let i: usize = (y * w + x) * 3;
    buf.set(i, c.0);
    buf.set(i + 1, c.1);
    buf.set(i + 2, c.2);
    proof {
        assert forall|a: int, b: int|
            0 <= a < w && 0 <= b < h && (a != x || b != y) implies #[trigger] color_at(
            buf@,
            w as int,
            a,
            b,
        ) == color_at(before, w as int, a, b) by {
            lemma_pixel_bounds(w as int, h as int, a, b);
            lemma_pixels_apart(w as int, x as int, y as int, a, b);
        }
    }
}

/// Paints a layer on rows `top..bottom`.
fn paint(buf: &mut Vec<u8>, w: usize, h: usize, layer: &Layer, top: usize, bottom: usize)
    requires
        old(buf)@.len() == w * h * 3,
        w * h * 3 <= usize::MAX,
        w + h <= usize::MAX,
        top <= bottom <= h,
        *layer matches Layer::Label { scale, .. } ==> scale > 0,
    ensures
        final(buf)@.len() == old(buf)@.len(),
        forall|a: int, b: int|
            0 <= a < w && 0 <= b < h ==> #[trigger] color_at(final(buf)@, w as int, a, b)
                == painted(
                *layer,
                color_at(old(buf)@, w as int, a, b),
                top as int,
                bottom as int,
                a,
                b,
            ),
{
    let ghost start = buf@;
    let mut y: usize = top;
    while y < bottom
        invariant
            start == old(buf)@,
            buf@.len() == w * h * 3,
            w * h * 3 <= usize::MAX,
            w + h <= usize::MAX,
            top <= y <= bottom <= h,
            *layer matches Layer::Label { scale, .. } ==> scale > 0,
            forall|a: int, b: int|
                0 <= a < w && 0 <= b < h ==> #[trigger] color_at(buf@, w as int, a, b) == painted(
                    *layer,
                    color_at(start, w as int, a, b),
                    top as int,
                    y as int,
                    a,
                    b,
                ),
        decreases bottom - y,
    {
        let mut x: usize = 0;
        while x < w
            invariant
                buf@.len() == w * h * 3,
                w * h * 3 <= usize::MAX,
                w + h <= usize::MAX,
                top <= y < bottom <= h,
                x <= w,
                *layer matches Layer::Label { scale, .. } ==> scale > 0,
                forall|a: int, b: int|
                    0 <= a < w && 0 <= b < h ==> #[trigger] color_at(buf@, w as int, a, b)
                        == painted(
                        *layer,
                        color_at(start, w as int, a, b),
                        top as int,
                        if a < x {
                            y + 1
                        } else {
                            y as int
                        },
                        a,
                        b,
                    ),
            decreases w - x,
        {
            let ghost before = buf@;
            match layer.color(x, y) {
                Some(c) => {
                    put_pixel(buf, w, h, x, y, c);
                },
                None => {},
            }
            proof {
                assert forall|a: int, b: int| 0 <= a < w && 0 <= b < h implies #[trigger] color_at(
                    buf@,
                    w as int,
                    a,
                    b,
                ) == painted(
                    *layer,
                    color_at(start, w as int, a, b),
                    top as int,
                    if a < x + 1 {
                        y + 1
                    } else {
                        y as int
                    },
                    a,
                    b,
                ) by {
                    assert(color_at(before, w as int, a, b) == painted(
                        *layer,
                        color_at(start, w as int, a, b),
                        top as int,
                        if a < x {
                            y + 1
                        } else {
                            y as int
                        },
                        a,
                        b,
                    ));
                }
            }
            x = x + 1;
        }
        y = y + 1;
    }
}

// ---------------------------------------------------------------------------
// Label
// ---------------------------------------------------------------------------

/// Size of a glyph pixel in a picture `w` wide.
pub open spec fn label_scale(w: int) -> int {
    if w / 120 > 1 {
        w / 120
    } else {
        1
    }
}

/// Height of the band: two lines of text, a gap and the padding around them.
pub open spec fn band_height(w: int) -> int {
    25 * label_scale(w)
}

/// First row of the band.
pub open spec fn band_top(w: int, h: int) -> int {
    (h - band_height(w)) / 2
}

/// First row of the upper line of text.
pub open spec fn first_line_top(w: int, h: int) -> int {
    band_top(w, h) + 4 * label_scale(w)
}

/// First row of the lower line of text.
pub open spec fn second_line_top(w: int, h: int) -> int {
    first_line_top(w, h) + 10 * label_scale(w)
}

/// Width of a line of text.
pub open spec fn line_width(text: Seq<char>, w: int) -> int {
    text.len() * ADVANCE * label_scale(w)
}

/// Whether a pixel belongs to a line of text, centred between the sides; a
/// line that is too wide is not drawn.
pub open spec fn line_lit(text: Seq<char>, w: int, top: int, x: int, y: int) -> bool {
    &&& line_width(text, w) <= w
    &&& text_lit(text, label_scale(w), (w - line_width(text, w)) / 2, top, x, y)
}

/// The fixed first line.
pub open spec fn headline() -> Seq<char> {
    "NO SIGNAL"@
}

/// The second line: the name in capitals, cut to what is drawn.
pub open spec fn name_line(upper: Seq<char>) -> Seq<char> {
    if upper.len() > MAX_NAME {
        upper.take(MAX_NAME - 1).push('.')
    } else {
        upper
    }
}

/// Colour of a pixel of the placeholder of a track whose name in capitals is
/// `upper`.
pub open spec fn placeholder_color(w: int, h: int, upper: Seq<char>, x: int, y: int) -> Color {
    if band_height(w) > h {
        // No room for a label.
        stripe_color(x, y)
    } else if line_lit(headline(), w, first_line_top(w, h), x, y) || line_lit(
        name_line(upper),
        w,
        second_line_top(w, h),
        x,
        y,
    ) {
        TEXT
    } else if band_top(w, h) <= y < band_top(w, h) + band_height(w) {
        BAND
    } else {
        stripe_color(x, y)
    }
}

/// The bytes of a placeholder: three for every pixel, row by row.
pub open spec fn label_pixels(w: int, h: int, upper: Seq<char>) -> Seq<u8> {
    Seq::new(
        (w * h * 3) as nat,
        |i: int|
            {
                let c = placeholder_color(w, h, upper, (i / 3) % w, (i / 3) / w);
                if i % 3 == 0 {
                    c.0
                } else if i % 3 == 1 {
                    c.1
                } else {
                    c.2
                }
            },
    )
}

proof fn lemma_pixels_are_all(w: int, h: int, upper: Seq<char>, data: Seq<u8>)
    requires
        w >= 0,
        h >= 0,
        data.len() == w * h * 3,
        forall|x: int, y: int|
            0 <= x < w && 0 <= y < h ==> #[trigger] color_at(data, w, x, y)
                == placeholder_color(w, h, upper, x, y),
    ensures
        data == label_pixels(w, h, upper),
{
    assert(w * h * 3 >= 0) by (nonlinear_arith)
        requires
            w >= 0,
            h >= 0,
    ;
    assert forall|i: int| 0 <= i < data.len() implies data[i] == label_pixels(w, h, upper)[i] by {
        let p = i / 3;
        if w == 0 {
            assert(w * h == 0) by (nonlinear_arith)
                requires
                    w == 0,
            ;
        }
        let x = p % w;
        let y = p / w;
        assert(y * w + x == p && 0 <= x < w && 0 <= y) by (nonlinear_arith)
            requires
                w > 0,
                p >= 0,
                x == p % w,
                y == p / w,
        ;
        assert(y < h) by (nonlinear_arith)
            requires
                y * w <= p,
                p < w * h,
                w > 0,
        ;
        assert(color_at(data, w, x, y) == placeholder_color(w, h, upper, x, y));
        assert(pixel_at(w, x, y) == 3 * p);
    }
    assert(data =~= label_pixels(w, h, upper));
}

/// The characters of a piece of text, at most `limit` of them.
fn chars_of(text: &str, limit: usize) -> (v: Vec<char>)
    ensures
        v@ == text@.take(
            if text@.len() < limit {
                text@.len() as int
            } else {
                limit as int
            },
        ),
{
    let len: usize = text.unicode_len();
    let n: usize = if len < limit {
        len
    } else {
        limit
    };
    let mut v: Vec<char> = Vec::new();
    let mut i: usize = 0;
    while i < n
        invariant
            i <= n <= text@.len(),
            v@ == text@.take(i as int),
        decreases n - i,
    {
        v.push(text.get_char(i));
        i = i + 1;
        assert(v@ =~= text@.take(i as int));
    }
    v
}

/// Draws a line of text at `(ox, oy)`. Pixels outside the picture are left
/// out.
fn draw_text(
    buf: &mut Vec<u8>,
    w: usize,
    h: usize,
    ox: usize,
    oy: usize,
    text: &Vec<char>,
    scale: usize,
)
    requires
        old(buf)@.len() == w * h * 3,
        w * h * 3 <= usize::MAX,
        w + h <= usize::MAX,
        scale > 0,
        oy + 7 * scale <= usize::MAX,
    ensures
        final(buf)@.len() == old(buf)@.len(),
        forall|a: int, b: int|
            0 <= a < w && 0 <= b < h ==> #[trigger] color_at(final(buf)@, w as int, a, b) == (
            if text_lit(text@, scale as int, ox as int, oy as int, a, b) {
                TEXT
            } else {
                color_at(old(buf)@, w as int, a, b)
            }),
{
    let ghost start = buf@;
    let layer = Layer::Label { text, scale, ox, oy };
    let bottom: usize = if oy + 7 * scale < h {
        oy + 7 * scale
    } else {
        h
    };
    let top: usize = if oy < bottom {
        oy
    } else {
        bottom
    };
    paint(buf, w, h, &layer, top, bottom);
    proof {
        assert forall|a: int, b: int| 0 <= a < w && 0 <= b < h implies #[trigger] color_at(
            buf@,
            w as int,
            a,
            b,
        ) == (if text_lit(text@, scale as int, ox as int, oy as int, a, b) {
            TEXT
        } else {
            color_at(start, w as int, a, b)
        }) by {
            if b >= oy + 7 * scale {
                assert((b - oy) / (scale as int) >= 7) by (nonlinear_arith)
                    requires
                        b - oy >= 7 * scale,
                        scale > 0,
                ;
            }
        }
    }
}

/// Draws a line of text in the middle between the sides, unless it is too
/// wide.
fn draw_line(buf: &mut Vec<u8>, w: usize, h: usize, top: usize, text: &Vec<char>, scale: usize)
    requires
        old(buf)@.len() == w * h * 3,
        w * h * 3 <= usize::MAX,
        w + h <= usize::MAX,
        scale == label_scale(w as int),
        w <= u32::MAX,
        top + 7 * scale <= h,
        text@.len() <= MAX_NAME,
    ensures
        final(buf)@.len() == old(buf)@.len(),
        forall|a: int, b: int|
            0 <= a < w && 0 <= b < h ==> #[trigger] color_at(final(buf)@, w as int, a, b) == (
            if line_lit(text@, w as int, top as int, a, b) {
                TEXT
            } else {
                color_at(old(buf)@, w as int, a, b)
            }),
{
    let columns: usize = text.len() * ADVANCE;
    proof {
        assert(columns * scale <= 120 * scale) by (nonlinear_arith)
            requires
                columns <= 120,
                scale >= 0,
        ;
        assert(120 * scale <= 0xffff_ffff);
    }
    let text_w: usize = columns * scale;
    if text_w <= w {
        draw_text(buf, w, h, (w - text_w) / 2, top, text, scale);
    }
}

/// The placeholder of a track whose name in capitals is `upper`: exactly
/// three bytes for every pixel. Text that does not fit is left out.
pub fn render_label(width: u32, height: u32, upper: &str) -> (r: Bytes)
    requires
        drawable(width, height),
    ensures
        crate::payload::bytes_contents(r) == label_pixels(width as int, height as int, upper@),
{
    let buf: Vec<u8> = draw_label(width, height, upper);
    proof {
        lemma_pixels_are_all(width as int, height as int, upper@, buf@);
    }
    bytes_from_vec(buf)
}

/// Draws the placeholder of a track whose name in capitals is `upper`.
fn draw_label(width: u32, height: u32, upper: &str) -> (buf: Vec<u8>)
    requires
        drawable(width, height),
    ensures
        buf@.len() == width as nat * height as nat * 3,
        forall|x: int, y: int|
            0 <= x < width && 0 <= y < height ==> #[trigger] color_at(
                buf@,
                width as int,
                x,
                y,
            ) == placeholder_color(width as int, height as int, upper@, x, y),
{
    let w: usize = width as usize;
    let h: usize = height as usize;
    proof {
        assert(w * h >= 0) by (nonlinear_arith)
            requires
                w >= 0,
                h >= 0,
        ;
    }
    let total: usize = w * h * 3;
    let mut buf: Vec<u8> = vec![0u8; total];
    if w == 0 || h == 0 {
        return buf;
    }
    paint(&mut buf, w, h, &Layer::Stripes, 0, h);
    let scale: usize = if w / 120 > 1 {
        w / 120
    } else {
        1
    };
    proof {
        assert(scale == label_scale(w as int));
        assert(scale <= 35_791_394);
    }
    let band: usize = 25 * scale;
    if band > h {
        return buf;
    }
    let top: usize = (h - band) / 2;
    paint(&mut buf, w, h, &Layer::Band, top, top + band);
    let first: Vec<char> = chars_of("NO SIGNAL", 9);
    proof {
        reveal_strlit("NO SIGNAL");
        assert(first@ =~= headline());
    }
    draw_line(&mut buf, w, h, top + 4 * scale, &first, scale);
    let mut second: Vec<char> = chars_of(upper, MAX_NAME);
    if upper.unicode_len() > MAX_NAME {
        second.set(MAX_NAME - 1, '.');
    }
    assert(second@ =~= name_line(upper@));
    draw_line(&mut buf, w, h, top + 4 * scale + 10 * scale, &second, scale);
    buf
}

// ---------------------------------------------------------------------------
// Capitals
// ---------------------------------------------------------------------------

/// The capitals of a piece of text.
pub uninterp spec fn uppercase_of(text: Seq<char>) -> Seq<char>;

/// The capital of an ASCII letter; any other character is its own.
pub open spec fn ascii_capital(c: char) -> char {
    if 'a' <= c && c <= 'z' {
        (c as u32 - 32) as char
    } else {
        c
    }
}

/// `str::to_uppercase`, which follows the Unicode tables of the standard
/// library. Of ASCII text it is known that each lower-case letter becomes its
/// capital and everything else stays.
#[verifier::external_body]
fn uppercase(text: &str) -> (upper: String)
    ensures
        upper@ == uppercase_of(text@),
        text.is_ascii() ==> upper@ == text@.map_values(|c: char| ascii_capital(c)),
{
    text.to_uppercase()
}

/// The bytes of the placeholder of a track.
pub open spec fn placeholder_pixels(w: int, h: int, track_name: Seq<char>) -> Seq<u8> {
    label_pixels(w, h, uppercase_of(track_name))
}

/// Whether a picture of this size can be drawn at all.
pub open spec fn drawable(width: u32, height: u32) -> bool {
    &&& width as nat * height as nat * 3 <= usize::MAX
    &&& width as nat + height as nat <= usize::MAX
}

/// Whether a picture of this size can be drawn at all.
pub fn is_drawable(width: u32, height: u32) -> (b: bool)
    ensures
        b == drawable(width, height),
{
    assert(width * height <= 0xFFFF_FFFFu64 * 0xFFFF_FFFFu64) by (nonlinear_arith)
        requires
            width <= 0xFFFF_FFFF,
            height <= 0xFFFF_FFFF,
    ;
    let pixels: u64 = width as u64 * height as u64;
    let max: u64 = usize::MAX as u64;
    pixels <= max / 3 && width as u64 + height as u64 <= max
}

/// The placeholder of a track. Always exactly three bytes for every pixel,
/// also for degenerate sizes.
pub fn render(width: u32, height: u32, track_name: &str) -> (r: Bytes)
    requires
        drawable(width, height),
    ensures
        ({
            let data = crate::payload::bytes_contents(r);
            &&& data == placeholder_pixels(width as int, height as int, track_name@)
            &&& track_name.is_ascii() ==> data == label_pixels(
                width as int,
                height as int,
                track_name@.map_values(|c: char| ascii_capital(c)),
            )
        }),
{
    let upper: String = uppercase(track_name);
    render_label(width, height, upper.as_str())
}

/// A placeholder is never taken for a dark scene: its corner is magenta,
/// whatever the label, unless the band of the label reaches the top row.
pub proof fn law_corner_is_magenta(w: int, h: int, upper: Seq<char>)
    requires
        w > 0,
        h > 0,
        band_height(w) + 2 <= h || band_height(w) > h,
    ensures
        placeholder_color(w, h, upper, 0, 0) == MAGENTA,
{
}

} // verus!
