//! What the conversions between number formats mean, stated over the fields
//! of the patterns: sign, exponent and fraction.
use vstd::arithmetic::div_mod::*;
use vstd::arithmetic::power2::*;
use vstd::prelude::*;

verus! {

/// Whether a binary64 pattern has this sign, exponent field and fraction.
pub open spec fn fields64(b: u64, negative: bool, e: nat, m: nat) -> bool {
    &&& e < 2048
    &&& m < 0x10_0000_0000_0000
    &&& b == (if negative {
        0x8000_0000_0000_0000int
    } else {
        0
    }) + e * 0x10_0000_0000_0000 + m
}

/// Whether a binary32 pattern has this sign, exponent field and fraction.
pub open spec fn fields32(b: u32, negative: bool, e: nat, m: nat) -> bool {
    &&& e < 256
    &&& m < 0x80_0000
    &&& b == (if negative {
        0x8000_0000int
    } else {
        0
    }) + e * 0x80_0000 + m
}

/// A number held between two bounds.
pub open spec fn held(n: int, lo: int, hi: int) -> int {
    if n < lo {
        lo
    } else if n > hi {
        hi
    } else {
        n
    }
}

proof fn lemma_fields64(b: u64, negative: bool, e: nat, m: nat)
    requires
        fields64(b, negative, e, m),
    ensures
        crate::ieee::f64_magnitude(b) == e * 0x10_0000_0000_0000 + m,
        crate::ieee::f64_negative(b) == negative,
        crate::ieee::f64_is_nan(b) <==> e == 2047 && m > 0,
        crate::ieee::f64_is_finite(b) <==> e < 2047,
        crate::ieee::f64_is_zero(b) <==> e == 0 && m == 0,
        e < 2047 ==> crate::ieee::f64_significand(crate::ieee::f64_magnitude(b)) == (if e == 0 {
            m
        } else {
            0x10_0000_0000_0000 + m
        }),
        e < 2047 ==> crate::ieee::f64_scale(crate::ieee::f64_magnitude(b)) == (if e == 0 {
            -1074
        } else {
            e - 1075
        }),
{
}

/// A binary64 number becomes an integer by leaving out what is after the
/// point and holding it between the bounds: for a number below `2^52` the
/// digits before the point are what fits into it, for a larger one it is
/// whole already. A number below one and not-a-number give zero, an infinite
/// one gives the bound on its side.
pub proof fn law_integers_are_cut_towards_zero(
    b: u64,
    negative: bool,
    e: nat,
    m: nat,
    q: nat,
    lo: int,
    hi: int,
)
    requires
        fields64(b, negative, e, m),
        lo <= 0 <= hi,
        1 <= e < 1075 ==> q * pow2((1075 - e) as nat) <= 0x10_0000_0000_0000 + m < (q + 1) * pow2(
            (1075 - e) as nat,
        ),
        1075 <= e < 2047 ==> q == (0x10_0000_0000_0000 + m) * pow2((e - 1075) as nat),
        e == 0 ==> q == 0,
    ensures
        e < 2047 ==> crate::ieee::f64_to_int(b, lo, hi) == held(
            if negative {
                -q
            } else {
                q as int
            },
            lo,
            hi,
        ),
        e == 2047 && m == 0 ==> crate::ieee::f64_to_int(b, lo, hi) == (if negative {
            lo
        } else {
            hi
        }),
        e == 2047 && m > 0 ==> crate::ieee::f64_to_int(b, lo, hi) == 0,
{
    lemma_fields64(b, negative, e, m);
    if 1 <= e < 1075 {
        let d = pow2((1075 - e) as nat) as int;
        lemma_pow2_pos((1075 - e) as nat);
        let sig = (0x10_0000_0000_0000 + m) as int;
        lemma_fundamental_div_mod(sig, d);
        assert(sig / d == q) by (nonlinear_arith)
            requires
                q * d <= sig < (q + 1) * d,
                d > 0,
                sig == d * (sig / d) + sig % d,
                0 <= sig % d < d,
        ;
    }
    if e == 0 {
        lemma2_to64();
        lemma2_to64_rest();
        crate::ieee::lemma_pow2_monotone(52, 1074);
        lemma_basic_div(m as int, pow2(1074) as int);
    }
}

/// A binary64 number lies outside a range exactly where it is not a number or
/// the number itself, not what is left of it when cut, is past the bound on
/// its side.
pub proof fn law_outside_means_past_a_bound(
    b: u64,
    negative: bool,
    e: nat,
    m: nat,
    lo: int,
    hi: int,
)
    requires
        fields64(b, negative, e, m),
        lo <= 0 <= hi,
    ensures
        ({
            let bound = if negative {
                -lo
            } else {
                hi
            };
            let outside = crate::ieee::f64_outside(b, lo, hi);
            &&& e == 2047 ==> outside
            &&& 1075 <= e < 2047 ==> (outside <==> (0x10_0000_0000_0000 + m) * pow2(
                (e - 1075) as nat,
            ) > bound)
            &&& 1 <= e < 1075 ==> (outside <==> 0x10_0000_0000_0000 + m > bound * pow2(
                (1075 - e) as nat,
            ))
            &&& e == 0 ==> (outside <==> m > 0 && bound == 0)
        }),
{
    lemma_fields64(b, negative, e, m);
    let bound = if negative {
        -lo
    } else {
        hi
    };
    if e == 0 {
        lemma2_to64();
        lemma2_to64_rest();
        crate::ieee::lemma_pow2_monotone(52, 1074);
        let d = pow2(1074) as int;
        assert(bound >= 1 ==> bound * d >= d) by (nonlinear_arith)
            requires
                d > 0,
        ;
        assert(bound == 0 ==> bound * d == 0);
    }
    if 1075 <= e < 2047 {
        lemma_pow2_pos((e - 1075) as nat);
    }
}

/// An integer of up to 32 bits and a sign has a pattern that stands for just
/// that integer: its significand is the integer times a power of two, and the
/// exponent takes the power back. Zero has the pattern of zeros.
pub proof fn law_integers_have_patterns_of_their_own(n: int, b: u64, negative: bool, e: nat, m: nat)
    requires
        -0x1_0000_0000 < n < 0x1_0000_0000,
        b == crate::ieee::f64_of_int(n),
        fields64(b, negative, e, m),
    ensures
        n == 0 ==> b == 0,
        n != 0 ==> 1023 <= e <= 1055,
        n != 0 ==> (negative <==> n < 0),
        n != 0 ==> 0x10_0000_0000_0000 + m == (if n < 0 {
            -n
        } else {
            n
        }) * pow2((1075 - e) as nat),
{
    if n != 0 {
        let k: nat = if n < 0 {
            (-n) as nat
        } else {
            n as nat
        };
        crate::ieee::lemma_pack_f64(k, 0);
        lemma_fields64(b, negative, e, m);
        let len = crate::ieee::bit_length(k);
        crate::ieee::lemma_bit_length_bounds(k);
        lemma2_to64();
        lemma2_to64_rest();
        if len > 32 {
            crate::ieee::lemma_pow2_monotone(32, (len - 1) as nat);
        }
        let packed = crate::ieee::pack(k, 0, 53, -1074);
        assert(crate::ieee::f64_magnitude(b) == packed);
    }
}

/// A binary32 number widens to the binary64 number that it is: the sign and
/// the fraction stay, the exponent moves by the difference of the two biases;
/// below the normal range the number is the fraction times `2^-149` in either
/// format. Infinity stays infinite, and not-a-number stays so.
pub proof fn law_widening_keeps_the_number(
    f: u32,
    negative: bool,
    e: nat,
    m: nat,
    b: u64,
    wide_negative: bool,
    wide_e: nat,
    wide_m: nat,
)
    requires
        fields32(f, negative, e, m),
        b == crate::ieee::f64_of_f32(f),
        fields64(b, wide_negative, wide_e, wide_m),
    ensures
        wide_negative == negative,
        1 <= e < 255 ==> wide_e == e + 896 && wide_m == m * 0x2000_0000,
        e == 0 && m == 0 ==> wide_e == 0 && wide_m == 0,
        e == 0 && m > 0 ==> 874 <= wide_e <= 896 && 0x10_0000_0000_0000 + wide_m == m * pow2(
            (926 - wide_e) as nat,
        ),
        e == 255 ==> wide_e == 2047 && (wide_m == 0 <==> m == 0),
{
    lemma_fields64(b, wide_negative, wide_e, wide_m);
    let mag = crate::ieee::f32_magnitude(f);
    assert(mag == e * 0x80_0000 + m);
    assert(crate::ieee::f32_negative(f) == negative);
    let sig = crate::ieee::f32_significand(mag);
    let scale = crate::ieee::f32_scale(mag);
    lemma2_to64();
    lemma2_to64_rest();
    if e == 255 {
        assert(mag >= crate::ieee::F32_INF);
        if m > 0 {
            assert(mag > crate::ieee::F32_INF);
        }
    } else if mag > 0 {
        assert(sig == (if e == 0 {
            m
        } else {
            0x80_0000 + m
        }));
        crate::ieee::lemma_pack_f64(sig, scale);
        let packed = crate::ieee::pack(sig, scale, 53, -1074);
        let len = crate::ieee::bit_length(sig);
        assert(crate::ieee::f64_magnitude(b) == packed);
        if e > 0 {
            crate::ieee::lemma_bit_length_unique(sig, 24);
            assert((53 - len) as nat == 29);
            assert(pow2(29) == 0x2000_0000);
            assert(sig * pow2(29) == sig * 0x2000_0000);
            assert(packed == (e + 895) * 0x10_0000_0000_0000 + sig * 0x2000_0000);
            assert(sig * 0x2000_0000 == 0x10_0000_0000_0000 + m * 0x2000_0000);
        } else {
            crate::ieee::lemma_bit_length_bounds(sig);
            if len > 23 {
                crate::ieee::lemma_pow2_monotone(23, (len - 1) as nat);
            }
            assert(53 - len == 926 - wide_e);
        }
    } else {
        assert(crate::ieee::pack(0, -149, 53, -1074) == 0);
    }
}

/// A quotient is rounded to a nearest integer, and to the even one of two
/// that are equally near.
pub proof fn law_quotients_round_to_the_nearest(n: nat, d: nat)
    requires
        d > 0,
    ensures
        ({
            let q = crate::ieee::div_round_even(n, d);
            &&& -(d as int) <= 2 * (q * d - n) <= d
            &&& 2 * (q * d - n) == d || 2 * (q * d - n) == -(d as int) ==> q % 2 == 0
        }),
{
    let floor = n / d;
    let rest = n % d;
    lemma_fundamental_div_mod(n as int, d as int);
    assert(n == d * floor + rest && 0 <= rest < d);
    assert(floor * d == d * floor) by (nonlinear_arith);
    assert((floor + 1) * d == d * floor + d) by (nonlinear_arith);
}

/// Whether `c * 2^y` is a number nearest to `s * 2^x` among the multiples of
/// `2^y`; where two are equally near, whether `c` is even.
pub open spec fn nearest(s: nat, x: int, c: nat, y: int) -> bool {
    if x >= y {
        c == s * pow2((x - y) as nat)
    } else {
        let unit = pow2((y - x) as nat) as int;
        &&& -unit <= 2 * (c * unit - s) <= unit
        &&& 2 * (c * unit - s) == unit || 2 * (c * unit - s) == -unit ==> c % 2 == 0
    }
}

proof fn lemma_nearest_of_the_double(s: nat, x: int, c: nat, y: int)
    requires
        nearest(s, x, 2 * c, y),
        x < y,
    ensures
        nearest(s, x, c, y + 1),
{
    let unit = pow2((y - x) as nat) as int;
    lemma_pow2_pos((y - x) as nat);
    lemma_pow2_unfold((y + 1 - x) as nat);
    assert(pow2((y + 1 - x) as nat) == 2 * unit);
    assert(c * (2 * unit) == (2 * c) * unit) by (nonlinear_arith);
}

proof fn lemma_split(a: int, c: int, e: int, m: int)
    requires
        a * 0x80_0000 + c == e * 0x80_0000 + m,
        0 <= c <= 0x100_0000,
        0 <= m < 0x80_0000,
    ensures
        c < 0x80_0000 ==> e == a && m == c,
        0x80_0000 <= c < 0x100_0000 ==> e == a + 1 && m == c - 0x80_0000,
        c == 0x100_0000 ==> e == a + 2 && m == 0,
{
}

/// The significand of a finite binary64 number.
pub open spec fn significand64(e: nat, m: nat) -> nat {
    if e == 0 {
        m
    } else {
        0x10_0000_0000_0000 + m
    }
}

/// The power of two that goes with it.
pub open spec fn exponent64(e: nat) -> int {
    if e == 0 {
        -1074
    } else {
        e - 1075
    }
}

/// What a pattern before the cut-off at infinity stands for.
pub(crate) proof fn lemma_packed32(s: nat, x: int, e: nat, m: nat)
    requires
        s > 0,
        m < 0x80_0000,
        crate::ieee::pack(s, x, 24, -149) == e * 0x80_0000 + m,
    ensures
        e == 0 ==> nearest(s, x, m, -149),
        e > 0 ==> nearest(s, x, 0x80_0000 + m, e - 150),
{
    lemma2_to64();
    lemma2_to64_rest();
    crate::ieee::lemma_bit_length_bounds(s);
    let len = crate::ieee::bit_length(s);
    let top = len + x - 24;
    let step = if top > -149 {
        top
    } else {
        -149
    };
    assert(pow2(23) == 0x80_0000 && pow2(24) == 0x100_0000);
    if x >= step {
        let up = (x - step) as nat;
        let count = s * pow2(up);
        lemma_pow2_pos(up);
        assert(count >= 0) by (nonlinear_arith)
            requires
                count == s * pow2(up),
                s > 0,
                pow2(up) > 0,
        ;
        lemma_pow2_adds(len, up);
        assert(count < pow2(len) * pow2(up)) by (nonlinear_arith)
            requires
                count == s * pow2(up),
                s < pow2(len),
                pow2(up) > 0,
        ;
        crate::ieee::lemma_pow2_monotone(len + up, 24);
        if step > -149 {
            lemma_pow2_adds((len - 1) as nat, up);
            assert(count >= pow2((len - 1) as nat) * pow2(up)) by (nonlinear_arith)
                requires
                    count == s * pow2(up),
                    s >= pow2((len - 1) as nat),
                    pow2(up) > 0,
            ;
            assert((len - 1) + up == 23);
            assert(count >= 0x80_0000);
        }
        assert((step + 149) * 0x80_0000 + count == e * 0x80_0000 + m);
        lemma_split(step + 149, count as int, e as int, m as int);
    } else {
        let down = (step - x) as nat;
        let unit = pow2(down);
        lemma_pow2_pos(down);
        let count = crate::ieee::div_round_even(s, unit);
        law_quotients_round_to_the_nearest(s, unit);
        assert(nearest(s, x, count, step));
        // The rounded count does not pass the next power of two.
        assert(len <= down + 24);
        crate::ieee::lemma_pow2_monotone(len, down + 24);
        lemma_pow2_adds(24, down);
        assert(pow2(24) * unit == pow2(down + 24));
        assert(count <= 0x100_0000) by (nonlinear_arith)
            requires
                2 * (count * unit - s) <= unit,
                s < 0x100_0000 * unit,
                unit > 0,
        ;
        if step > -149 {
            assert(len == down + 24);
            lemma_pow2_adds(23, down);
            assert((len - 1) as nat == 23 + down);
            assert(count >= 0x80_0000) by (nonlinear_arith)
                requires
                    -(unit as int) <= 2 * (count * unit - s),
                    s >= 0x80_0000 * unit,
                    unit > 0,
            ;
        }
        assert((step + 149) * 0x80_0000 + count == e * 0x80_0000 + m);
        lemma_split(step + 149, count as int, e as int, m as int);
        if count == 0x100_0000 {
            lemma_nearest_of_the_double(s, x, 0x80_0000, step);
        }
    }
}

/// A finite binary64 number narrows to the binary32 number nearest to it, the
/// even one of two that are equally near, with the same sign; counted as if
/// exponents went on past the largest one, it becomes infinite where that
/// number has one of those. Infinity stays infinite and not-a-number stays so.
pub proof fn law_narrowing_gives_the_nearest_number(
    b: u64,
    negative: bool,
    e: nat,
    m: nat,
    f: u32,
    narrow_negative: bool,
    narrow_e: nat,
    narrow_m: nat,
)
    requires
        fields64(b, negative, e, m),
        f == crate::ieee::f32_of_f64(b),
        fields32(f, narrow_negative, narrow_e, narrow_m),
    ensures
        narrow_negative == negative,
        e == 2047 ==> narrow_e == 255 && (m == 0 <==> narrow_m == 0),
        e == 0 && m == 0 ==> narrow_e == 0 && narrow_m == 0,
        e < 2047 && narrow_e == 0 ==> nearest(
            significand64(e, m),
            exponent64(e),
            narrow_m,
            -149,
        ),
        e < 2047 && 0 < narrow_e < 255 ==> nearest(
            significand64(e, m),
            exponent64(e),
            0x80_0000 + narrow_m,
            narrow_e - 150,
        ),
        e < 2047 && narrow_e == 255 ==> narrow_m == 0 && exists|c: nat, y: int|
            0x80_0000 <= c < 0x100_0000 && y >= 105 && #[trigger] nearest(
                significand64(e, m),
                exponent64(e),
                c,
                y,
            ),
{
    lemma_fields64(b, negative, e, m);
    let mag = crate::ieee::f64_magnitude(b);
    if e == 2047 {
        if m > 0 {
            assert(mag > crate::ieee::F64_INF);
            assert(mag % 0x8_0000_0000_0000 < 0x8_0000_0000_0000);
            assert((mag % 0x8_0000_0000_0000) / 0x2000_0000 < 0x40_0000);
        } else {
            assert(mag == crate::ieee::F64_INF);
        }
    } else {
        let s = significand64(e, m);
        let x = exponent64(e);
        assert(s == crate::ieee::f64_significand(mag) && x == crate::ieee::f64_scale(mag));
        let p = crate::ieee::pack(s, x, 24, -149);
        if s > 0 {
            lemma_packed32_is_not_negative(s, x);
            let pe = (p / 0x80_0000) as nat;
            let pm = (p % 0x80_0000) as nat;
            lemma_packed32(s, x, pe, pm);
            if p >= crate::ieee::F32_INF {
                assert(pe >= 255);
                assert(nearest(s, x, (0x80_0000 + pm) as nat, pe - 150));
            } else {
                lemma_split(pe as int, pm as int, narrow_e as int, narrow_m as int);
            }
        } else {
            assert(p == 0);
            lemma_split(0, 0, narrow_e as int, narrow_m as int);
            lemma_pow2_pos(925);
            assert(0 * pow2(925) == 0);
        }
    }
}

pub(crate) proof fn lemma_packed32_is_not_negative(s: nat, x: int)
    requires
        s > 0,
    ensures
        crate::ieee::pack(s, x, 24, -149) >= 0,
{
    let top = crate::ieee::bit_length(s) + x - 24;
    let step = if top > -149 {
        top
    } else {
        -149
    };
    lemma_pow2_pos(23);
    assert((step + 149) * pow2(23) >= 0) by (nonlinear_arith)
        requires
            step + 149 >= 0,
            pow2(23) > 0,
    ;
    if x >= step {
        lemma_pow2_pos((x - step) as nat);
        assert(s * pow2((x - step) as nat) >= 0) by (nonlinear_arith)
            requires
                s > 0,
                pow2((x - step) as nat) > 0,
        ;
    }
}

} // verus!
