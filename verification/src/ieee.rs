//! IEEE 754 binary floating-point numbers, handled as bit patterns.
//!
//! Field values travel through the library as the 64 bits of a binary64
//! number (`u64`) and on the wire possibly as the 32 bits of a binary32
//! number (`u32`). This module gives those patterns their meaning and
//! converts between them and the integers. A finite pattern stands for
//! `significand * 2^scale`, negated when the sign bit is set.
use vstd::arithmetic::div_mod::*;
use vstd::arithmetic::mul::*;
use vstd::arithmetic::power2::*;
use vstd::bits::*;
use vstd::prelude::*;

verus! {

/// Bit pattern of binary64 infinity without its sign.
pub const F64_INF: u64 = 0x7ff0_0000_0000_0000;

/// Bit pattern of binary32 infinity without its sign.
pub const F32_INF: u32 = 0x7f80_0000;

/// Sign bit of a binary64 pattern.
pub const F64_SIGN: u64 = 0x8000_0000_0000_0000;

/// Sign bit of a binary32 pattern.
pub const F32_SIGN: u32 = 0x8000_0000;

/// Bit pattern of the binary64 number one.
pub const F64_ONE: u64 = 0x3ff0_0000_0000_0000;

// ---------------------------------------------------------------------------
// Powers of two
// ---------------------------------------------------------------------------

/// Number of binary digits of `n`; zero has none.
pub open spec fn bit_length(n: nat) -> nat
    decreases n,
{
    if n == 0 {
        0
    } else {
        1 + bit_length(n / 2)
    }
}

/// `n / d` rounded to the nearest integer, ties to the even one.
pub open spec fn div_round_even(n: nat, d: nat) -> nat {
    let floor = n / d;
    let rest = n % d;
    if 2 * rest > d || (2 * rest == d && floor % 2 == 1) {
        floor + 1
    } else {
        floor
    }
}

/// A number lies between the powers of two that its length names.
pub proof fn lemma_bit_length_bounds(n: nat)
    requires
        n > 0,
    ensures
        bit_length(n) >= 1,
        pow2((bit_length(n) - 1) as nat) <= n < pow2(bit_length(n)),
    decreases n,
{
    lemma2_to64();
    if n / 2 > 0 {
        lemma_bit_length_bounds(n / 2);
        lemma_pow2_unfold(bit_length(n / 2));
        lemma_pow2_unfold(bit_length(n));
    } else {
        assert(n == 1);
        assert(bit_length(0) == 0);
    }
}

pub(crate) proof fn lemma_bit_length_unique(n: nat, k: nat)
    requires
        k >= 1,
        pow2((k - 1) as nat) <= n < pow2(k),
    ensures
        bit_length(n) == k,
{
    lemma_pow2_pos((k - 1) as nat);
    lemma_bit_length_bounds(n);
    let l = bit_length(n);
    if l < k {
        if l < k - 1 {
            lemma_pow2_strictly_increases(l, (k - 1) as nat);
        }
    } else if l > k {
        if k < l - 1 {
            lemma_pow2_strictly_increases(k, (l - 1) as nat);
        }
    }
}

/// Powers of two grow with their exponent.
pub proof fn lemma_pow2_monotone(a: nat, b: nat)
    requires
        a <= b,
    ensures
        pow2(a) <= pow2(b),
{
    if a < b {
        lemma_pow2_strictly_increases(a, b);
    }
}

/// `x / 2^s`.
pub(crate) fn shift_down(x: u64, s: u64) -> (r: u64)
    requires
        s < 64,
    ensures
        r == x as nat / pow2(s as nat),
{
    proof {
        lemma_u64_shr_is_div(x, s);
    }
    x >> s
}

/// `x * 2^s`.
pub(crate) fn shift_up(x: u64, s: u64) -> (r: u64)
    requires
        s < 64,
        x * pow2(s as nat) <= u64::MAX,
    ensures
        r == x * pow2(s as nat),
{
    proof {
        lemma_u64_shl_is_mul(x, s);
    }
    x << s
}

/// Number of binary digits.
pub(crate) fn count_bits(x: u64) -> (n: u64)
    ensures
        n == bit_length(x as nat),
        n <= 64,
{
    let mut rest: u64 = x;
    let mut n: u64 = 0;
    proof {
        lemma2_to64();
    }
    while rest != 0
        invariant
            n + bit_length(rest as nat) == bit_length(x as nat),
            n <= 64,
            rest > 0 ==> n < 64,
            rest as nat * pow2(n as nat) <= x as nat,
        decreases rest,
    {
        proof {
            let p = pow2(n as nat);
            lemma_pow2_unfold((n + 1) as nat);
            let h = rest as nat / 2;
            assert(h * (2 * p) <= rest as nat * p) by (nonlinear_arith)
                requires
                    2 * h <= rest as nat,
                    p >= 0,
            ;
            if h > 0 {
                assert(2 * p <= h * (2 * p)) by (nonlinear_arith)
                    requires
                        h >= 1,
                        p >= 0,
                ;
                if n + 1 >= 64 {
                    lemma2_to64_rest();
                    lemma_pow2_monotone(64, (n + 1) as nat);
                    assert(pow2(64) == 0x1_0000_0000_0000_0000);
                }
            }
        }
        rest = rest / 2;
        n = n + 1;
    }
    n
}

// ---------------------------------------------------------------------------
// Meaning of a pattern
// ---------------------------------------------------------------------------

/// A binary64 pattern without its sign bit.
pub open spec fn f64_magnitude(b: u64) -> nat {
    b as nat % 0x8000_0000_0000_0000
}

/// Whether the sign bit of a binary64 pattern is set.
pub open spec fn f64_negative(b: u64) -> bool {
    b >= F64_SIGN
}

/// Whether a binary64 pattern is not a number.
pub open spec fn f64_is_nan(b: u64) -> bool {
    f64_magnitude(b) > F64_INF
}

/// Whether a binary64 pattern is a finite number.
pub open spec fn f64_is_finite(b: u64) -> bool {
    f64_magnitude(b) < F64_INF
}

/// Whether a binary64 pattern is one of the two zeros.
pub open spec fn f64_is_zero(b: u64) -> bool {
    f64_magnitude(b) == 0
}

/// Significand of a finite binary64 magnitude.
pub open spec fn f64_significand(mag: nat) -> nat {
    if mag / 0x10_0000_0000_0000 == 0 {
        mag
    } else {
        0x10_0000_0000_0000 + mag % 0x10_0000_0000_0000
    }
}

/// Scale of a finite binary64 magnitude.
pub open spec fn f64_scale(mag: nat) -> int {
    if mag / 0x10_0000_0000_0000 == 0 {
        -1074
    } else {
        mag / 0x10_0000_0000_0000 - 1075
    }
}

/// A binary32 pattern without its sign bit.
pub open spec fn f32_magnitude(b: u32) -> nat {
    b as nat % 0x8000_0000
}

/// Whether the sign bit of a binary32 pattern is set.
pub open spec fn f32_negative(b: u32) -> bool {
    b >= F32_SIGN
}

/// Whether a binary32 pattern is not a number.
pub open spec fn f32_is_nan(b: u32) -> bool {
    f32_magnitude(b) > F32_INF
}

/// Whether a binary32 pattern is a finite number.
pub open spec fn f32_is_finite(b: u32) -> bool {
    f32_magnitude(b) < F32_INF
}

/// Significand of a finite binary32 magnitude.
pub open spec fn f32_significand(mag: nat) -> nat {
    if mag / 0x80_0000 == 0 {
        mag
    } else {
        0x80_0000 + mag % 0x80_0000
    }
}

/// Scale of a finite binary32 magnitude.
pub open spec fn f32_scale(mag: nat) -> int {
    if mag / 0x80_0000 == 0 {
        -149
    } else {
        mag / 0x80_0000 - 150
    }
}

/// `sig * 2^scale`, rounded towards zero.
pub open spec fn scaled_floor(sig: nat, scale: int) -> nat {
    if scale >= 0 {
        sig * pow2(scale as nat)
    } else {
        sig / pow2((-scale) as nat)
    }
}

/// Whether `sig * 2^scale` is greater than `n`.
pub open spec fn scaled_exceeds(sig: nat, scale: int, n: nat) -> bool {
    if scale >= 0 {
        sig * pow2(scale as nat) > n
    } else {
        sig > n * pow2((-scale) as nat)
    }
}

/// The integer part of a finite binary64 number, without its sign.
pub open spec fn f64_floor_magnitude(b: u64) -> nat {
    scaled_floor(f64_significand(f64_magnitude(b)), f64_scale(f64_magnitude(b)))
}

/// Whether the absolute value of a binary64 number is greater than `n`.
pub open spec fn f64_magnitude_exceeds(b: u64, n: nat) -> bool {
    &&& !f64_is_nan(b)
    &&& f64_magnitude(b) == F64_INF || scaled_exceeds(
        f64_significand(f64_magnitude(b)),
        f64_scale(f64_magnitude(b)),
        n,
    )
}

/// Conversion of a binary64 number to an integer in `lo..=hi`: the integer
/// part, clamped to the range; not-a-number gives zero.
pub open spec fn f64_to_int(b: u64, lo: int, hi: int) -> int {
    if f64_is_nan(b) {
        0
    } else if f64_negative(b) {
        if !f64_is_finite(b) || -f64_floor_magnitude(b) < lo {
            lo
        } else {
            -f64_floor_magnitude(b)
        }
    } else {
        if !f64_is_finite(b) || f64_floor_magnitude(b) > hi {
            hi
        } else {
            f64_floor_magnitude(b) as int
        }
    }
}

/// Whether a binary64 number lies outside `lo..=hi`, or is not a number.
pub open spec fn f64_outside(b: u64, lo: int, hi: int) -> bool
    recommends
        lo <= 0 <= hi,
{
    f64_is_nan(b) || if f64_negative(b) {
        f64_magnitude_exceeds(b, (-lo) as nat)
    } else {
        f64_magnitude_exceeds(b, hi as nat)
    }
}

/// The magnitude pattern nearest to `sig * 2^exp` (ties to even) in a format
/// with `precision` significant bits whose smallest step is `2^min_exp`,
/// before the cut-off at infinity.
pub open spec fn pack(sig: nat, exp: int, precision: nat, min_exp: int) -> int {
    if sig == 0 {
        0
    } else {
        let top = bit_length(sig) + exp - precision;
        let step = if top > min_exp { top } else { min_exp };
        let count = if exp >= step {
            sig * pow2((exp - step) as nat)
        } else {
            div_round_even(sig, pow2((step - exp) as nat))
        };
        (step - min_exp) * pow2((precision - 1) as nat) + count
    }
}

/// Binary64 pattern of the integer `n`.
pub open spec fn f64_of_int(n: int) -> int {
    if n < 0 {
        0x8000_0000_0000_0000 + pack((-n) as nat, 0, 53, -1074)
    } else {
        pack(n as nat, 0, 53, -1074)
    }
}

/// Binary64 pattern of the number that a binary32 pattern stands for. A
/// pattern that is not a number keeps its sign and payload and comes out
/// quiet.
pub open spec fn f64_of_f32(b: u32) -> int {
    let mag = f32_magnitude(b);
    let m = if mag > F32_INF {
        (0x7ff8_0000_0000_0000 + (mag % 0x40_0000) * 0x2000_0000) as int
    } else if mag == F32_INF {
        F64_INF as int
    } else {
        pack(f32_significand(mag), f32_scale(mag), 53, -1074)
    };
    if f32_negative(b) {
        0x8000_0000_0000_0000 + m
    } else {
        m
    }
}

/// Binary32 pattern nearest to the number that a binary64 pattern stands
/// for; values past the largest finite one become infinite. A pattern that
/// is not a number keeps its sign and the top of its payload and comes out
/// quiet.
pub open spec fn f32_of_f64(b: u64) -> int {
    let mag = f64_magnitude(b);
    let m = if mag > F64_INF {
        (0x7fc0_0000 + (mag % 0x8_0000_0000_0000) / 0x2000_0000) as int
    } else if mag == F64_INF {
        F32_INF as int
    } else {
        let p = pack(f64_significand(mag), f64_scale(mag), 24, -149);
        if p >= F32_INF {
            F32_INF as int
        } else {
            p
        }
    };
    if f64_negative(b) {
        0x8000_0000 + m
    } else {
        m
    }
}

// ---------------------------------------------------------------------------
// Binary64 to integers
// ---------------------------------------------------------------------------

/// A scaled number exceeds `n` exactly when its integer part does, or equals
/// it and leaves a fraction.
proof fn lemma_exceeds_by_parts(sig: nat, down: nat, n: nat)
    ensures
        sig > n * pow2(down) <==> (sig / pow2(down) > n || (sig / pow2(down) == n && sig
            % pow2(down) != 0)),
{
    let d = pow2(down);
    lemma_pow2_pos(down);
    lemma_fundamental_div_mod(sig as int, d as int);
    let q = sig / d;
    let r = sig % d;
    assert(sig == d * q + r);
    assert(0 <= r < d) by {
        lemma_mod_bound(sig as int, d as int);
    }
    if q > n {
        assert(d * q >= d * (n + 1)) by (nonlinear_arith)
            requires
                q >= n + 1,
                d > 0,
        ;
        assert(d * (n + 1) == d * n + d) by (nonlinear_arith);
    } else if q < n {
        assert(d * q + d <= d * n) by (nonlinear_arith)
            requires
                q + 1 <= n,
                d > 0,
        ;
    }
    assert(d * n == n * d) by (nonlinear_arith);
    assert(d * q == q * d) by (nonlinear_arith);
}

/// Whole part (held at `u64::MAX`) of a number's absolute value, and whether
/// a fraction is left over.
fn f64_parts(b: u64) -> (parts: (u64, bool))
    requires
        !f64_is_nan(b),
    ensures
        f64_is_finite(b) ==> parts.0 == f64_floor_magnitude(b) || (parts.0 == u64::MAX
            && f64_floor_magnitude(b) > u64::MAX),
        !f64_is_finite(b) ==> parts.0 == u64::MAX,
        forall|n: nat|
            n < u64::MAX ==> #[trigger] f64_magnitude_exceeds(b, n) == (parts.0 > n || (parts.0
                == n && parts.1)),
{
    let mag: u64 = b % 0x8000_0000_0000_0000;
    let field: u64 = mag / 0x10_0000_0000_0000;
    let ghost sig = f64_significand(mag as nat);
    let ghost scale = f64_scale(mag as nat);
    proof {
        lemma2_to64();
        lemma2_to64_rest();
    }
    if field < 1023 {
        proof {
            let down = (-scale) as nat;
            lemma_pow2_monotone(53, down);
            assert(sig < pow2(down));
            lemma_basic_div(sig as int, pow2(down) as int);
            lemma_small_mod(sig, pow2(down));
            assert forall|n: nat| n < u64::MAX implies #[trigger] f64_magnitude_exceeds(b, n) == (0
                > n || (0 == n && mag != 0)) by {
                lemma_exceeds_by_parts(sig, down, n);
            }
        }
        (0, mag != 0)
    } else if field >= 1087 {
        proof {
            if mag != F64_INF {
                let up = scale as nat;
                lemma_pow2_monotone(12, up);
                assert(sig * pow2(up) >= 0x10_0000_0000_0000 * 4096) by (nonlinear_arith)
                    requires
                        sig >= 0x10_0000_0000_0000,
                        pow2(up) >= 4096,
                ;
            }
        }
        (u64::MAX, false)
    } else {
        let bits: u64 = 0x10_0000_0000_0000 + mag % 0x10_0000_0000_0000;
        if field < 1075 {
            let down: u64 = 1075 - field;
            let whole: u64 = shift_down(bits, down);
            proof {
                lemma_pow2_pos(down as nat);
                lemma_fundamental_div_mod(bits as int, pow2(down as nat) as int);
                lemma_mod_bound(bits as int, pow2(down as nat) as int);
                assert(whole * pow2(down as nat) == pow2(down as nat) * whole) by (nonlinear_arith);
                assert(whole * pow2(down as nat) <= bits);
                assert(whole <= bits) by (nonlinear_arith)
                    requires
                        whole * pow2(down as nat) <= bits,
                        pow2(down as nat) >= 1,
                        whole >= 0,
                ;
                assert forall|n: nat| n < u64::MAX implies #[trigger] f64_magnitude_exceeds(b, n)
                    == (whole > n || (whole == n && whole * pow2(down as nat) != bits)) by {
                    lemma_exceeds_by_parts(sig, down as nat, n);
                }
            }
            let back: u64 = shift_up(whole, down);
            (whole, back != bits)
        } else {
            let up: u64 = field - 1075;
            proof {
                lemma_pow2_monotone(up as nat, 11);
                assert(bits * pow2(up as nat) <= 0x1f_ffff_ffff_ffff * 2048) by (nonlinear_arith)
                    requires
                        bits <= 0x1f_ffff_ffff_ffff,
                        pow2(up as nat) <= 2048,
                ;
            }
            (shift_up(bits, up), false)
        }
    }
}

/// Converts a binary64 pattern to the nearest integer towards zero in
/// `lo..=hi`; not-a-number gives zero.
pub fn f64_clamp_to_int(b: u64, lo: i64, hi: i64) -> (r: i64)
    requires
        lo <= 0 <= hi,
    ensures
        r == f64_to_int(b, lo as int, hi as int),
{
    let mag: u64 = b % 0x8000_0000_0000_0000;
    if mag > F64_INF {
        0
    } else {
        let (whole, _) = f64_parts(b);
        if b >= F64_SIGN {
            if whole >= 0x8000_0000_0000_0000 {
                lo
            } else {
                let v: i64 = -(whole as i64);
                if v < lo {
                    lo
                } else {
                    v
                }
            }
        } else if whole > hi as u64 {
            hi
        } else {
            whole as i64
        }
    }
}

/// Whether a binary64 pattern is not a number or lies outside `lo..=hi`.
pub fn f64_out_of_range(b: u64, lo: i64, hi: i64) -> (r: bool)
    requires
        i64::MIN < lo <= 0 <= hi < i64::MAX,
    ensures
        r == f64_outside(b, lo as int, hi as int),
{
    let mag: u64 = b % 0x8000_0000_0000_0000;
    if mag > F64_INF {
        true
    } else {
        let (whole, fraction) = f64_parts(b);
        if b >= F64_SIGN {
            let limit: u64 = (-lo) as u64;
            whole > limit || (whole == limit && fraction)
        } else {
            whole > hi as u64 || (whole == hi as u64 && fraction)
        }
    }
}

// ---------------------------------------------------------------------------
// Integers and binary32 to binary64
// ---------------------------------------------------------------------------

/// A significand of at most 53 bits packs into binary64 without rounding.
pub(crate) proof fn lemma_pack_f64(sig: nat, exp: int)
    requires
        0 < sig < 0x20_0000_0000_0000,
        -1000 <= exp <= 900,
    ensures
        1 <= bit_length(sig) <= 53,
        0x10_0000_0000_0000 <= sig * pow2((53 - bit_length(sig)) as nat) < 0x20_0000_0000_0000,
        pack(sig, exp, 53, -1074) == (bit_length(sig) + exp + 1021) * 0x10_0000_0000_0000 + sig
            * pow2((53 - bit_length(sig)) as nat),
        0 < pack(sig, exp, 53, -1074) < F64_INF,
        f64_significand(pack(sig, exp, 53, -1074) as nat) == sig * pow2(
            (53 - bit_length(sig)) as nat,
        ),
        f64_scale(pack(sig, exp, 53, -1074) as nat) == bit_length(sig) + exp - 53,
{
    lemma2_to64();
    lemma2_to64_rest();
    lemma_bit_length_bounds(sig);
    let len = bit_length(sig);
    if len > 53 {
        lemma_pow2_monotone(53, (len - 1) as nat);
    }
    let up = (53 - len) as nat;
    lemma_pow2_adds(len, up);
    lemma_pow2_adds((len - 1) as nat, up);
    lemma_pow2_pos(up);
    let p = pow2(up);
    assert(sig * p < pow2(len) * p) by (nonlinear_arith)
        requires
            sig < pow2(len),
            p > 0,
    ;
    assert(sig * p >= pow2((len - 1) as nat) * p) by (nonlinear_arith)
        requires
            sig >= pow2((len - 1) as nat),
            p > 0,
    ;
    let count = sig * p;
    let packed = pack(sig, exp, 53, -1074);
    assert(packed == (len + exp + 1021) * 0x10_0000_0000_0000 + count);
    assert(packed / 0x10_0000_0000_0000 == len + exp + 1022);
    assert(packed % 0x10_0000_0000_0000 == count - 0x10_0000_0000_0000);
}

/// Packs `sig * 2^exp` as a binary64 magnitude; exact on these inputs.
fn pack_f64(sig: u64, exp: i64) -> (b: u64)
    requires
        sig < 0x20_0000_0000_0000,
        -1000 <= exp <= 900,
    ensures
        b == pack(sig as nat, exp as int, 53, -1074),
        b < F64_INF,
{
    if sig == 0 {
        return 0;
    }
    let len: u64 = count_bits(sig);
    proof {
        lemma_pack_f64(sig as nat, exp as int);
    }
    let count: u64 = shift_up(sig, 53 - len);
    let field: u64 = (len as i64 + exp + 1021) as u64;
    field * 0x10_0000_0000_0000 + count
}

/// Binary64 pattern of an integer of at most 32 bits and a sign.
pub fn f64_from_int(n: i64) -> (b: u64)
    requires
        -0x1_0000_0000 < n < 0x1_0000_0000,
    ensures
        b == f64_of_int(n as int),
{
    if n < 0 {
        F64_SIGN + pack_f64((-n) as u64, 0)
    } else {
        pack_f64(n as u64, 0)
    }
}

/// Widens a binary32 pattern to binary64.
pub fn f64_from_f32(b: u32) -> (r: u64)
    ensures
        r == f64_of_f32(b),
{
    let mag: u32 = b % 0x8000_0000;
    let m: u64 = if mag > F32_INF {
        0x7ff8_0000_0000_0000 + (mag % 0x40_0000) as u64 * 0x2000_0000
    } else if mag == F32_INF {
        F64_INF
    } else if mag / 0x80_0000 == 0 {
        pack_f64(mag as u64, -149)
    } else {
        pack_f64((0x80_0000 + mag % 0x80_0000) as u64, (mag / 0x80_0000) as i64 - 150)
    };
    if b >= F32_SIGN {
        F64_SIGN + m
    } else {
        m
    }
}

// ---------------------------------------------------------------------------
// Binary64 to binary32
// ---------------------------------------------------------------------------

/// Less than half rounds to zero.
pub proof fn lemma_round_even_small(n: nat, d: nat)
    requires
        2 * n < d,
    ensures
        div_round_even(n, d) == 0,
{
    lemma_basic_div(n as int, d as int);
    lemma_small_mod(n, d);
}

/// Narrows a finite binary64 magnitude to binary32.
fn narrow_magnitude(mag: u64) -> (m: u32)
    requires
        mag < F64_INF,
    ensures
        ({
            let p = pack(f64_significand(mag as nat), f64_scale(mag as nat), 24, -149);
            m == (if p >= F32_INF {
                F32_INF as int
            } else {
                p
            })
        }),
{
    let field: u64 = mag / 0x10_0000_0000_0000;
    let ghost sig = f64_significand(mag as nat);
    let ghost scale = f64_scale(mag as nat);
    proof {
        lemma2_to64();
        lemma2_to64_rest();
        if sig > 0 {
            lemma_bit_length_bounds(sig);
            if bit_length(sig) > 53 {
                lemma_pow2_monotone(53, (bit_length(sig) - 1) as nat);
            }
        }
    }
    if field < 872 {
        // At most half of the smallest binary32 step.
        proof {
            if sig > 0 {
                assert(bit_length(sig) + scale - 24 <= -149);
                let down = (-149 - scale) as nat;
                assert(sig < 0x20_0000_0000_0000);
                assert(55 <= down);
                lemma_pow2_monotone(55, down);
                assert(pow2(55) == 0x80_0000_0000_0000);
                lemma_round_even_small(sig, pow2(down));
                assert(scale < -149);
                lemma_pow2_pos(23);
                assert((-149 - (-149)) * pow2(23) == 0) by (nonlinear_arith);
                assert(pack(sig, scale, 24, -149) == 0);
            }
        }
        return 0;
    }
    let bits: u64 = 0x10_0000_0000_0000 + mag % 0x10_0000_0000_0000;
    proof {
        lemma_bit_length_unique(bits as nat, 53);
    }
    // The step between neighbouring binary32 numbers is `2^(base - 149)`.
    let base: u64 = if field > 897 {
        field - 897
    } else {
        0
    };
    let down: u64 = base + 926 - field;
    let floor: u64 = shift_down(bits, down);
    proof {
        lemma_pow2_pos(down as nat);
        lemma_fundamental_div_mod(bits as int, pow2(down as nat) as int);
        lemma_mod_bound(bits as int, pow2(down as nat) as int);
        assert(floor * pow2(down as nat) == pow2(down as nat) * floor) by (nonlinear_arith);
        lemma_pow2_unfold(down as nat);
        lemma_pow2_monotone(29, down as nat);
        assert(floor * 0x2000_0000 <= bits) by (nonlinear_arith)
            requires
                floor * pow2(down as nat) <= bits,
                pow2(down as nat) >= 0x2000_0000,
                floor >= 0,
        ;
        lemma_pow2_monotone((down - 1) as nat, 63);
        assert(1 * pow2((down - 1) as nat) == pow2((down - 1) as nat));
    }
    let rest: u64 = bits - shift_up(floor, down);
    let half: u64 = shift_up(1, down - 1);
    let count: u64 = if rest > half || (rest == half && floor % 2 == 1) {
        floor + 1
    } else {
        floor
    };
    let packed: u64 = base * 0x80_0000 + count;
    if packed >= F32_INF as u64 {
        F32_INF
    } else {
        packed as u32
    }
}

/// Narrows a binary64 pattern to the nearest binary32 pattern.
pub fn f32_from_f64(b: u64) -> (r: u32)
    ensures
        r == f32_of_f64(b),
{
    let mag: u64 = b % 0x8000_0000_0000_0000;
    let m: u32 = if mag > F64_INF {
        (0x7fc0_0000 + (mag % 0x8_0000_0000_0000) / 0x2000_0000) as u32
    } else if mag == F64_INF {
        F32_INF
    } else {
        narrow_magnitude(mag)
    };
    if b >= F64_SIGN {
        F32_SIGN + m
    } else {
        m
    }
}

/// A finite number whose absolute value exceeds `n` has an integer part of
/// at least `n`.
pub proof fn lemma_exceeding_reaches(b: u64, n: nat)
    requires
        f64_is_finite(b),
        f64_magnitude_exceeds(b, n),
    ensures
        f64_floor_magnitude(b) >= n,
{
    let sig = f64_significand(f64_magnitude(b));
    let scale = f64_scale(f64_magnitude(b));
    if scale < 0 {
        lemma_exceeds_by_parts(sig, (-scale) as nat, n);
    }
}

/// A narrowed pattern has 32 bits.
pub proof fn lemma_f32_of_f64_range(b: u64)
    ensures
        0 <= f32_of_f64(b) <= u32::MAX,
{
    let mag = f64_magnitude(b);
    if mag < F64_INF {
        let sig = f64_significand(mag);
        let exp = f64_scale(mag);
        let top = bit_length(sig) + exp - 24;
        let step = if top > -149 {
            top
        } else {
            -149
        };
        lemma_pow2_pos(23);
        assert((step + 149) * pow2(23) >= 0) by (nonlinear_arith)
            requires
                step + 149 >= 0,
                pow2(23) > 0,
        ;
        if exp >= step {
            lemma_pow2_pos((exp - step) as nat);
            assert(sig * pow2((exp - step) as nat) >= 0) by (nonlinear_arith)
                requires
                    sig >= 0,
                    pow2((exp - step) as nat) > 0,
            ;
        }
    }
}

// ---------------------------------------------------------------------------
// Laws
// ---------------------------------------------------------------------------

/// Widening an integer of up to 32 bits and a sign to binary64 loses
/// nothing: converting back to any range that holds it returns it, and it
/// lies inside that range.
pub proof fn law_int_widening_is_lossless(n: int, lo: int, hi: int)
    requires
        -0x1_0000_0000 < n < 0x1_0000_0000,
        lo <= 0 <= hi,
        lo <= n <= hi,
    ensures
        0 <= f64_of_int(n) <= u64::MAX,
        f64_to_int(f64_of_int(n) as u64, lo, hi) == n,
        !f64_outside(f64_of_int(n) as u64, lo, hi),
        f64_is_zero(f64_of_int(n) as u64) <==> n == 0,
        !f64_is_nan(f64_of_int(n) as u64),
{
    let m: nat = if n < 0 {
        (-n) as nat
    } else {
        n as nat
    };
    if m > 0 {
        lemma_pack_f64(m, 0);
        let packed = pack(m, 0, 53, -1074);
        let b = f64_of_int(n) as u64;
        assert(f64_magnitude(b) == packed);
        let down = (53 - bit_length(m)) as nat;
        lemma_pow2_pos(down);
        lemma2_to64();
        let p = pow2(down);
        assert((m * p) / p == m && (m * p) % p == 0) by {
            lemma_div_multiples_vanish(m as int, p as int);
            lemma_mod_multiples_basic(m as int, p as int);
            assert(m * p == p * m) by (nonlinear_arith);
        }
        assert(f64_scale(packed as nat) == bit_length(m) - 53);
        if down == 0 {
            assert(m * 1 == m);
        }
        assert(f64_floor_magnitude(b) == m);
        let limit = if n < 0 {
            (-lo) as nat
        } else {
            hi as nat
        };
        assert(m * p <= limit * p) by (nonlinear_arith)
            requires
                m <= limit,
                p > 0,
        ;
    } else {
        lemma2_to64();
        assert(f64_significand(0) == 0);
        lemma_pow2_pos(1074);
        lemma_basic_div(0, pow2(1074) as int);
        assert(f64_floor_magnitude(0) == 0);
        assert(hi * pow2(1074) >= 0) by (nonlinear_arith)
            requires
                hi >= 0,
                pow2(1074) >= 0,
        ;
    }
}

/// Widening a binary32 number to binary64 loses nothing: narrowing it again
/// returns the same pattern.
pub proof fn law_f32_widening_is_lossless(b: u32)
    requires
        !f32_is_nan(b),
    ensures
        0 <= f64_of_f32(b) <= u64::MAX,
        f32_of_f64(f64_of_f32(b) as u64) == b,
{
    let mag = f32_magnitude(b);
    let sig = f32_significand(mag);
    let exp = f32_scale(mag);
    if mag < F32_INF && mag > 0 {
        lemma2_to64();
        lemma2_to64_rest();
        assert(0 < sig < 0x100_0000);
        lemma_pack_f64(sig, exp);
        let len = bit_length(sig);
        if mag / 0x80_0000 != 0 {
            lemma_bit_length_unique(sig, 24);
        } else {
            lemma_bit_length_bounds(sig);
            if len > 23 {
                lemma_pow2_monotone(23, (len - 1) as nat);
            }
        }
        let wide = pack(sig, exp, 53, -1074);
        assert(f64_magnitude(f64_of_f32(b) as u64) == wide);
        let down = (53 - len) as nat;
        let p = pow2(down);
        lemma_pow2_pos(down);
        let wide_sig = sig * p;
        assert(f64_significand(wide as nat) == wide_sig);
        lemma_bit_length_unique(wide_sig, 53);
        let wide_exp = f64_scale(wide as nat);
        assert(wide_exp == len + exp - 53);
        assert(wide_sig / p == sig && wide_sig % p == 0) by {
            lemma_div_multiples_vanish(sig as int, p as int);
            lemma_mod_multiples_basic(sig as int, p as int);
            assert(sig * p == p * sig) by (nonlinear_arith);
        }
        assert(div_round_even(wide_sig, p) == sig);
        assert(pack(wide_sig, wide_exp, 24, -149) == (exp + 149) * 0x80_0000 + sig);
        assert((exp + 149) * 0x80_0000 + sig == mag);
    }
}

} // verus!
