//! The search range: a number of ticks, turned into microseconds.
//!
//! Ticks are a positive binary32 number, and the arithmetic on them is that of
//! binary32: every step rounds to the nearest number, ties to even.
use crate::ieee;
use vstd::arithmetic::div_mod::*;
use vstd::arithmetic::power2::*;
use vstd::prelude::*;

verus! {

/// Microseconds in a second.
pub const US_PER_SECOND: u64 = 1_000_000;

/// The positive binary32 pattern nearest to `sig * 2^exp`.
pub open spec fn f32_nearest(sig: nat, exp: int) -> u32 {
    let p = ieee::pack(sig, exp, 24, -149);
    if p >= ieee::F32_INF {
        ieee::F32_INF
    } else {
        p as u32
    }
}

/// A positive binary32 number times a million.
pub open spec fn f32_times_million(b: u32) -> u32 {
    if b == ieee::F32_INF {
        ieee::F32_INF
    } else {
        f32_nearest(ieee::f32_significand(b as nat) * 1_000_000, ieee::f32_scale(b as nat))
    }
}

/// A positive binary32 number divided by one that is at least one and finite.
/// The quotient of the significands is taken to more bits than are kept, and
/// a last bit says whether any were cut off, so that it rounds as the exact
/// quotient does.
pub open spec fn f32_divided(a: u32, b: u32) -> u32 {
    if a == ieee::F32_INF {
        ieee::F32_INF
    } else {
        let n = ieee::f32_significand(a as nat) * 0x10_0000_0000;
        let d = ieee::f32_significand(b as nat);
        let cut: nat = if n % d == 0 {
            0
        } else {
            1
        };
        f32_nearest(2 * (n / d) + cut, ieee::f32_scale(a as nat) - ieee::f32_scale(b as nat) - 37)
    }
}

/// The integer part of a positive binary32 number, at most the largest `u64`.
pub open spec fn f32_whole(b: u32) -> u64 {
    let floor = ieee::scaled_floor(ieee::f32_significand(b as nat), ieee::f32_scale(b as nat));
    if b == ieee::F32_INF || floor > u64::MAX {
        u64::MAX
    } else {
        floor as u64
    }
}

/// Microseconds in a number of ticks at a rate.
pub open spec fn search_range(ticks: u32, fps: u32) -> u64 {
    f32_whole(f32_divided(f32_times_million(ticks), f32_nearest(fps as nat, 0)))
}

/// Rounds `sig * 2^exp` to binary32.
fn round_f32(sig: u64, exp: i64) -> (r: u32)
    requires
        0 < sig < 0x4000_0000_0000_0000,
        -400 <= exp <= 200,
    ensures
        r == f32_nearest(sig as nat, exp as int),
        r <= ieee::F32_INF,
{
    let len: u64 = ieee::count_bits(sig);
    proof {
        lemma2_to64();
        lemma2_to64_rest();
        ieee::lemma_bit_length_bounds(sig as nat);
        if len > 62 {
            ieee::lemma_pow2_monotone(62, (len - 1) as nat);
        }
    }
    let top: i64 = len as i64 + exp - 24;
    let step: i64 = if top > -149 {
        top
    } else {
        -149
    };
    let count: u64 = if exp >= step {
        scale_up(sig, len, (exp - step) as u64)
    } else {
        round_down(sig, len, (step - exp) as u64)
    };
    let packed: u64 = (step + 149) as u64 * 0x80_0000 + count;
    proof {
        assert(pow2(23) == 0x80_0000);
        assert((step - (-149)) * pow2(23) == (step + 149) * 0x80_0000);
    }
    if packed >= ieee::F32_INF as u64 {
        ieee::F32_INF
    } else {
        packed as u32
    }
}

/// `sig * 2^up`, where the result has at most 24 bits.
fn scale_up(sig: u64, len: u64, up: u64) -> (count: u64)
    requires
        sig > 0,
        len == ieee::bit_length(sig as nat),
        up + len <= 24,
    ensures
        count == sig * pow2(up as nat),
        count <= 0x100_0000,
{
    proof {
        lemma2_to64();
        ieee::lemma_bit_length_bounds(sig as nat);
        lemma_pow2_adds(len as nat, up as nat);
        ieee::lemma_pow2_monotone((len + up) as nat, 24);
        assert(sig * pow2(up as nat) <= pow2(len as nat) * pow2(up as nat)) by (nonlinear_arith)
            requires
                sig <= pow2(len as nat),
        ;
    }
    ieee::shift_up(sig, up)
}

/// `sig / 2^down` rounded to the nearest integer, where at most 24 bits are
/// left.
fn round_down(sig: u64, len: u64, down: u64) -> (count: u64)
    requires
        0 < sig < 0x4000_0000_0000_0000,
        len == ieee::bit_length(sig as nat),
        down > 0,
        len <= 24 + down,
    ensures
        count == ieee::div_round_even(sig as nat, pow2(down as nat)),
        count <= 0x100_0000,
{
    proof {
        lemma2_to64();
        lemma2_to64_rest();
        ieee::lemma_bit_length_bounds(sig as nat);
    }
    if down >= 63 {
        proof {
            ieee::lemma_pow2_monotone(63, down as nat);
            ieee::lemma_round_even_small(sig as nat, pow2(down as nat));
        }
        return 0;
    }
    let floor: u64 = ieee::shift_down(sig, down);
    proof {
        let p = pow2(down as nat);
        lemma_pow2_pos(down as nat);
        lemma_fundamental_div_mod(sig as int, p as int);
        lemma_mod_bound(sig as int, p as int);
        assert(floor * p == p * floor) by (nonlinear_arith);
        lemma_pow2_unfold(down as nat);
        lemma_pow2_adds(24, down as nat);
        ieee::lemma_pow2_monotone(len as nat, (24 + down) as nat);
        assert(floor < 0x100_0000) by (nonlinear_arith)
            requires
                floor * p <= sig,
                sig < 0x100_0000 * p,
                p > 0,
        ;
        ieee::lemma_pow2_monotone((down - 1) as nat, 63);
        assert(1 * pow2((down - 1) as nat) == pow2((down - 1) as nat));
    }
    let rest: u64 = sig - ieee::shift_up(floor, down);
    let half: u64 = ieee::shift_up(1, down - 1);
    if rest > half || (rest == half && floor % 2 == 1) {
        floor + 1
    } else {
        floor
    }
}

/// Significand and scale of a positive finite binary32 number.
fn f32_parts(b: u32) -> (parts: (u64, i64))
    requires
        0 < b < ieee::F32_INF,
    ensures
        parts.0 == ieee::f32_significand(b as nat),
        parts.1 == ieee::f32_scale(b as nat),
        0 < parts.0 < 0x100_0000,
        -149 <= parts.1 <= 104,
{
    if b / 0x80_0000 == 0 {
        (b as u64, -149)
    } else {
        ((0x80_0000 + b % 0x80_0000) as u64, (b / 0x80_0000) as i64 - 150)
    }
}

/// Microseconds in a number of ticks at a rate.
pub fn search_range_us(ticks: u32, fps: u32) -> (us: u64)
    requires
        crate::config::positive(ticks),
        fps > 0,
    ensures
        us == search_range(ticks, fps),
{
    let scaled: u32 = if ticks == ieee::F32_INF {
        ieee::F32_INF
    } else {
        let (sig, scale): (u64, i64) = f32_parts(ticks);
        round_f32(sig * US_PER_SECOND, scale)
    };
    let rate: u32 = round_f32(fps as u64, 0);
    proof {
        lemma_rate(fps);
        if ticks != ieee::F32_INF {
            lemma_product_is_positive(ticks);
        }
    }
    let quotient: u32 = if scaled == ieee::F32_INF {
        ieee::F32_INF
    } else {
        let (n_sig, n_scale): (u64, i64) = f32_parts(scaled);
        let (d_sig, d_scale): (u64, i64) = f32_parts(rate);
        let n: u64 = n_sig * 0x10_0000_0000;
        let cut: u64 = if n % d_sig == 0 {
            0
        } else {
            1
        };
        let q: u64 = n / d_sig;
        proof {
            lemma_div_is_ordered_by_denominator(n as int, 1, d_sig as int);
            if q == 0 {
                lemma_fundamental_div_mod(n as int, d_sig as int);
                lemma_mod_bound(n as int, d_sig as int);
            }
        }
        round_f32(2 * q + cut, n_scale - d_scale - 37)
    };
    whole(quotient)
}

/// A rate rounds to a number that is at least one and finite.
proof fn lemma_rate(fps: u32)
    requires
        fps > 0,
    ensures
        ({
            let r = f32_nearest(fps as nat, 0);
            &&& 0x3f80_0000 <= r <= 0x4f80_0000
            &&& ieee::f32_significand(r as nat) >= 0x80_0000
            &&& -23 <= ieee::f32_scale(r as nat) <= 9
        }),
{
    lemma2_to64();
    ieee::lemma_bit_length_bounds(fps as nat);
    let len = ieee::bit_length(fps as nat);
    if len > 32 {
        ieee::lemma_pow2_monotone(32, (len - 1) as nat);
    }
    let step = len - 24;
    assert(pow2(23) == 0x80_0000);
    if step <= 0 {
        let up = (-step) as nat;
        lemma_pow2_adds((len - 1) as nat, up);
        assert(fps * pow2(up) >= pow2((len - 1) as nat) * pow2(up)) by (nonlinear_arith)
            requires
                fps >= pow2((len - 1) as nat),
        ;
        lemma_pow2_adds(len, up);
        assert(fps * pow2(up) <= pow2(len) * pow2(up)) by (nonlinear_arith)
            requires
                fps <= pow2(len),
        ;
        let count = fps * pow2(up);
        assert(ieee::pack(fps as nat, 0, 24, -149) == (step + 149) * 0x80_0000 + count);
    } else {
        let p = pow2(step as nat);
        lemma_pow2_pos(step as nat);
        lemma_pow2_adds(23, step as nat);
        lemma_pow2_adds(24, step as nat);
        lemma_fundamental_div_mod(fps as int, p as int);
        lemma_mod_bound(fps as int, p as int);
        let floor = fps as nat / p;
        assert(0x80_0000 <= floor < 0x100_0000) by (nonlinear_arith)
            requires
                0x80_0000 * p <= fps,
                fps < 0x100_0000 * p,
                fps == p * floor + fps as int % p as int,
                0 <= fps as int % (p as int) < p,
        ;
        let count = ieee::div_round_even(fps as nat, p);
        assert(ieee::pack(fps as nat, 0, 24, -149) == (step + 149) * 0x80_0000 + count);
    }
}

/// A positive number times a million is positive.
proof fn lemma_product_is_positive(b: u32)
    requires
        0 < b < ieee::F32_INF,
    ensures
        0 < f32_times_million(b) <= ieee::F32_INF,
{
    let sig = ieee::f32_significand(b as nat) * 1_000_000;
    let exp = ieee::f32_scale(b as nat);
    lemma2_to64();
    ieee::lemma_bit_length_bounds(sig);
    let len = ieee::bit_length(sig);
    if len < 20 {
        ieee::lemma_pow2_monotone(len, 19);
    }
    let top = len + exp - 24;
    let step = if top > -149 {
        top
    } else {
        -149
    };
    assert(pow2(23) == 0x80_0000);
    assert((step - (-149)) * pow2(23) == (step + 149) * 0x80_0000);
    if exp >= step {
        lemma_pow2_pos((exp - step) as nat);
        assert(sig * pow2((exp - step) as nat) > 0) by (nonlinear_arith)
            requires
                sig > 0,
                pow2((exp - step) as nat) > 0,
        ;
    } else if step == -149 {
        assert(exp >= -149);
    }
}

/// The integer part of a positive binary32 number.
fn whole(b: u32) -> (n: u64)
    requires
        b <= ieee::F32_INF,
    ensures
        n == f32_whole(b),
{
    if b == ieee::F32_INF {
        return u64::MAX;
    }
    if b == 0 {
        proof {
            lemma_pow2_pos(149);
            lemma_basic_div(0, pow2(149) as int);
        }
        return 0;
    }
    let (sig, scale): (u64, i64) = f32_parts(b);
    proof {
        lemma2_to64();
        lemma2_to64_rest();
    }
    if scale < 0 {
        let down: u64 = (-scale) as u64;
        if down >= 64 {
            proof {
                ieee::lemma_pow2_monotone(64, down as nat);
                lemma_basic_div(sig as int, pow2(down as nat) as int);
            }
            return 0;
        }
        proof {
            lemma_pow2_pos(down as nat);
            lemma_div_is_ordered_by_denominator(sig as int, 1, pow2(down as nat) as int);
        }
        return ieee::shift_down(sig, down);
    }
    let up: u64 = scale as u64;
    // From here on the number is normal: its significand has 24 bits.
    if up >= 41 {
        proof {
            ieee::lemma_pow2_monotone(41, up as nat);
            assert(sig * pow2(up as nat) >= 0x80_0000 * pow2(41)) by (nonlinear_arith)
                requires
                    sig >= 0x80_0000,
                    pow2(up as nat) >= pow2(41),
            ;
        }
        return u64::MAX;
    }
    proof {
        ieee::lemma_pow2_monotone(up as nat, 40);
        assert(sig * pow2(up as nat) <= 0xff_ffff * pow2(40)) by (nonlinear_arith)
            requires
                sig <= 0xff_ffff,
                pow2(up as nat) <= pow2(40),
        ;
    }
    ieee::shift_up(sig, up)
}

} // verus!
