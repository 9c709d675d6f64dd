//! What a placeholder shows, stated over its pixels.
use vstd::prelude::*;

verus! {

/// A placeholder has three bytes for every pixel, row by row: those of the
/// pixel's colour.
pub proof fn law_placeholders_are_packed_row_by_row(
    w: int,
    h: int,
    name: Seq<char>,
    x: int,
    y: int,
)
    requires
        0 <= x < w,
        0 <= y < h,
    ensures
        ({
            let p = crate::placeholder::placeholder_pixels(w, h, name);
            let c = crate::placeholder::placeholder_color(
                w,
                h,
                crate::placeholder::uppercase_of(name),
                x,
                y,
            );
            let at = 3 * (y * w + x);
            &&& p.len() == w * h * 3
            &&& 0 <= at && at + 3 <= p.len()
            &&& p[at] == c.0 && p[at + 1] == c.1 && p[at + 2] == c.2
        }),
{
    let n = y * w + x;
    assert(0 <= n < w * h && n / w == y && n % w == x) by (nonlinear_arith)
        requires
            n == y * w + x,
            0 <= x < w,
            0 <= y < h,
    ;
    let at = 3 * n;
    assert(at / 3 == n && (at + 1) / 3 == n && (at + 2) / 3 == n);
    assert(at % 3 == 0 && (at + 1) % 3 == 1 && (at + 2) % 3 == 2);
    assert(w * h * 3 >= 0);
}

/// Outside the band the picture is striped: going eight pixels right or down
/// changes between magenta and a dark colour, and going right and up by the
/// same number changes nothing.
pub proof fn law_stripes_are_diagonal(x: int, y: int, d: int)
    requires
        0 <= x,
        0 <= y,
        0 <= d <= y,
    ensures
        crate::placeholder::stripe_color(x, y) == (0xC0u8, 0x00u8, 0xC0u8)
            || crate::placeholder::stripe_color(x, y) == (0x20u8, 0x00u8, 0x28u8),
        crate::placeholder::stripe_color(x + 8, y) != crate::placeholder::stripe_color(x, y),
        crate::placeholder::stripe_color(x, y + 8) != crate::placeholder::stripe_color(x, y),
        crate::placeholder::stripe_color(x + d, y - d) == crate::placeholder::stripe_color(x, y),
        x + y < 8 ==> crate::placeholder::stripe_color(x, y) == (0xC0u8, 0x00u8, 0xC0u8),
{
    assert((x + y + 8) / 8 == (x + y) / 8 + 1);
}

/// The band lies in the middle of the picture, over its whole width; above
/// and below it there is nothing but stripes, and where it has no room there
/// is none. In the band there is text on a dark ground and nothing else.
pub proof fn law_the_band_is_in_the_middle(w: int, h: int, upper: Seq<char>, x: int, y: int)
    requires
        w > 0,
        h > 0,
        0 <= x < w,
        0 <= y < h,
    ensures
        ({
            let tall = crate::placeholder::band_height(w);
            let top = crate::placeholder::band_top(w, h);
            let c = crate::placeholder::placeholder_color(w, h, upper, x, y);
            let scale = crate::placeholder::label_scale(w);
            &&& w < 240 ==> scale == 1
            &&& w >= 120 ==> scale * 120 <= w < (scale + 1) * 120
            &&& tall == 25 * scale
            &&& tall <= h ==> 2 * top <= h - tall <= 2 * top + 1
            &&& tall > h || y < top || y >= top + tall ==> c == crate::placeholder::stripe_color(
                x,
                y,
            )
            &&& tall <= h && top <= y < top + tall ==> c == (0xFFu8, 0xFFu8, 0xFFu8) || c == (
                0x0Au8,
                0x00u8,
                0x0Cu8,
            )
        }),
{
    let scale = crate::placeholder::label_scale(w);
    let tall = crate::placeholder::band_height(w);
    let top = crate::placeholder::band_top(w, h);
    if tall <= h && !(top <= y < top + tall) {
        lemma_text_stays_in_its_line(
            crate::placeholder::headline(),
            w,
            crate::placeholder::first_line_top(w, h),
            x,
            y,
        );
        lemma_text_stays_in_its_line(
            crate::placeholder::name_line(upper),
            w,
            crate::placeholder::second_line_top(w, h),
            x,
            y,
        );
    }
}

proof fn lemma_text_stays_in_its_line(text: Seq<char>, w: int, top: int, x: int, y: int)
    requires
        crate::placeholder::label_scale(w) > 0,
        y < top || y >= top + 7 * crate::placeholder::label_scale(w),
    ensures
        !crate::placeholder::line_lit(text, w, top, x, y),
{
    let scale = crate::placeholder::label_scale(w);
    if y >= top + 7 * scale {
        let d = y - top;
        assert(d / scale >= 7) by (nonlinear_arith)
            requires
                d >= 7 * scale,
                scale > 0,
        ;
    }
}

/// The two lines of text stand in the band, the upper one four glyph pixels
/// under its top and the lower one ten further down; a line is as wide as six
/// glyph pixels for every character, stands in the middle, and is not drawn
/// where it is wider than the picture. A glyph pixel is lit where its glyph
/// says so.
pub proof fn law_lines_stand_in_the_middle(
    text: Seq<char>,
    w: int,
    h: int,
    top: int,
    k: int,
    row: int,
    col: int,
    dx: int,
    dy: int,
)
    requires
        w > 0,
        0 <= k < text.len(),
        0 <= row < 7,
        0 <= col < 5,
        0 <= dx < crate::placeholder::label_scale(w),
        0 <= dy < crate::placeholder::label_scale(w),
    ensures
        ({
            let scale = crate::placeholder::label_scale(w);
            let wide = 6 * text.len() * scale;
            let left = (w - wide) / 2;
            let x = left + (6 * k + col) * scale + dx;
            let y = top + row * scale + dy;
            &&& crate::placeholder::line_width(text, w) == wide
            &&& wide > w ==> !crate::placeholder::line_lit(text, w, top, x, y)
            &&& wide <= w ==> (crate::placeholder::line_lit(text, w, top, x, y)
                <==> crate::placeholder::glyph_lit(text[k], row, col))
            &&& crate::placeholder::first_line_top(w, h) == crate::placeholder::band_top(w, h) + 4
                * scale
            &&& crate::placeholder::second_line_top(w, h) == crate::placeholder::band_top(w, h)
                + 14 * scale
        }),
{
    let scale = crate::placeholder::label_scale(w);
    let wide = 6 * text.len() * scale;
    let n = text.len() as int;
    assert(crate::placeholder::line_width(text, w) == wide) by {
        assert(n * 6 * scale == 6 * n * scale) by (nonlinear_arith);
    }
    let cell = 6 * k + col;
    let ox = cell * scale + dx;
    let oy = row * scale + dy;
    assert(ox >= 0 && ox / scale == cell) by (nonlinear_arith)
        requires
            ox == cell * scale + dx,
            0 <= dx < scale,
            cell >= 0,
    ;
    assert(oy >= 0 && oy / scale == row) by (nonlinear_arith)
        requires
            oy == row * scale + dy,
            0 <= dy < scale,
            row >= 0,
    ;
    assert(cell / 6 == k && cell % 6 == col);
}

/// The name is shown whole up to twenty characters; a longer one shows its
/// first nineteen and a dot.
pub proof fn law_long_names_are_cut(upper: Seq<char>)
    ensures
        ({
            let s = crate::placeholder::name_line(upper);
            &&& s.len() <= 20
            &&& upper.len() <= 20 ==> s == upper
            &&& upper.len() > 20 ==> s.len() == 20 && s.take(19) == upper.take(19) && s[19] == '.'
        }),
{
    if upper.len() > 20 {
        assert(crate::placeholder::name_line(upper).take(19) =~= upper.take(19));
    }
}

/// A glyph pixel is lit by the bit of its column in its row, the leftmost
/// column by the bit of weight sixteen.
pub proof fn law_glyphs_are_bits(c: char, row: int, col: int)
    requires
        0 <= row < 7,
        0 <= col < 5,
    ensures
        crate::placeholder::glyph_lit(c, row, col) <==> (crate::placeholder::glyph_rows(c)[row]
            as int / (if col == 0 {
            16int
        } else if col == 1 {
            8
        } else if col == 2 {
            4
        } else if col == 3 {
            2
        } else {
            1
        })) % 2 == 1,
{
}

/// Whether a character has a glyph of its own.
pub open spec fn drawn(c: char) -> bool {
    ||| 'A' <= c && c <= 'Z'
    ||| '0' <= c && c <= '9'
    ||| c == ' ' || c == '-' || c == '_' || c == '.' || c == ':' || c == '/'
}

/// A glyph is seven rows of five pixels.
pub proof fn law_glyphs_are_five_by_seven(c: char, row: int)
    requires
        0 <= row < 7,
    ensures
        crate::placeholder::glyph_rows(c).len() == 7,
        crate::placeholder::glyph_rows(c)[row] < 32,
{
}

/// No two characters that are drawn look the same.
#[verifier::rlimit(100)]
#[verifier::spinoff_prover]
pub proof fn law_characters_look_different(c: char, d: char)
    requires
        drawn(c),
        drawn(d),
        c != d,
    ensures
        crate::placeholder::glyph_rows(c) != crate::placeholder::glyph_rows(d),
{
    let a = crate::placeholder::glyph_rows(c);
    let b = crate::placeholder::glyph_rows(d);
    assert(a[0] != b[0] || a[1] != b[1] || a[2] != b[2] || a[3] != b[3] || a[4] != b[4] || a[5]
        != b[5] || a[6] != b[6]);
}

/// The letters and signs that are the same on both sides are drawn so.
pub proof fn law_even_characters_are_drawn_even(c: char, row: int, col: int)
    requires
        c == 'A' || c == 'H' || c == 'I' || c == 'O' || c == 'T' || c == 'U' || c == 'V' || c
            == 'W' || c == 'X' || c == 'Y' || c == '8' || c == ' ' || c == '-' || c == '_',
        0 <= row < 7,
        0 <= col < 5,
    ensures
        crate::placeholder::glyph_lit(c, row, col) == crate::placeholder::glyph_lit(
            c,
            row,
            4 - col,
        ),
{
    let r = crate::placeholder::glyph_rows(c)[row];
    assert(r == 0x00 || r == 0x04 || r == 0x0A || r == 0x0E || r == 0x11 || r == 0x15 || r == 0x1B
        || r == 0x1F);
    assert((r / 16) % 2 == (r / 1) % 2);
    assert((r / 8) % 2 == (r / 2) % 2);
    assert(crate::placeholder::column_bit(0) == 16 && crate::placeholder::column_bit(4) == 1);
    assert(crate::placeholder::column_bit(1) == 8 && crate::placeholder::column_bit(3) == 2);
    assert(col == 0 || col == 1 || col == 2 || col == 3 || col == 4);
}

} // verus!
