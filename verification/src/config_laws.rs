//! What the settings of a session mean, stated apart from how they are
//! worked out.
use crate::config::PortalConfig;
use crate::number_laws::{fields32, nearest};
use crate::types::{ActionSubscription, Role, StallBehavior};
use vstd::arithmetic::div_mod::*;
use vstd::arithmetic::power2::*;
use vstd::prelude::*;

verus! {

/// Without settings of its own a track drops what it cannot match, or freezes
/// where stale frames are reused. It waits for as many frames as the slack
/// says, in whole microseconds at the frame rate, or not at all where stale
/// frames are reused. A behavior or a budget that is given counts instead,
/// the budget in milliseconds.
pub proof fn law_patience_is_the_slack(c: PortalConfig)
    ensures
        ({
            let s = c.base_stall();
            let rate = if c.fps > 0 {
                c.fps as int
            } else {
                1
            };
            &&& s.max_lag_us is Some
            &&& c.stall_behavior is None && !c.reuse_stale_frames ==> s.behavior
                == StallBehavior::Drop
            &&& c.stall_behavior is None && c.reuse_stale_frames ==> s.behavior
                == StallBehavior::Freeze
            &&& c.stall_behavior is Some ==> s.behavior == c.stall_behavior->0
            &&& c.max_lag_ms is Some ==> s.max_lag_us->0 == c.max_lag_ms->0 * 1000
            &&& c.max_lag_ms is None && c.reuse_stale_frames ==> s.max_lag_us->0 == 0
            &&& c.max_lag_ms is None && !c.reuse_stale_frames ==> s.max_lag_us->0 * rate
                <= c.slack * 1_000_000 < (s.max_lag_us->0 + 1) * rate
        }),
{
    let total = c.slack * 1_000_000;
    let fps = if c.fps > 0 {
        c.fps as int
    } else {
        1
    };
    assert(0 <= total / fps <= total && (total / fps) * fps <= total < (total / fps + 1) * fps)
        by (nonlinear_arith)
        requires
            total >= 0,
            fps > 0,
    ;
}

/// A track with a behavior or a budget of its own has it; for what it leaves
/// open it is like the others.
pub proof fn law_tracks_may_differ(c: PortalConfig, track: Seq<char>)
    ensures
        ({
            let s = c.track_stall(track);
            &&& c.track_stall_behavior@.contains_key(track) ==> s.behavior
                == c.track_stall_behavior@[track]
            &&& !c.track_stall_behavior@.contains_key(track) ==> s.behavior
                == c.base_stall().behavior
            &&& c.track_max_lag_ms@.contains_key(track) ==> (s.max_lag_us matches Some(us) && us
                == c.track_max_lag_ms@[track] * 1000)
            &&& !c.track_max_lag_ms@.contains_key(track) ==> s.max_lag_us
                == c.base_stall().max_lag_us
        }),
{
}

/// A sync buffer holds as many frames of each track, and as many states, as
/// the slack says; it looks for frames as far as the tolerance reaches at the
/// frame rate, and resolves silent tracks as the settings say.
pub proof fn law_the_buffer_has_the_slack(c: PortalConfig)
    ensures
        ({
            let s = c.sync_settings();
            &&& s.video_buffer_size == c.slack
            &&& s.state_buffer_size == c.slack
            &&& s.search_range_us == crate::ticks::search_range(c.tolerance, c.fps)
            &&& s.default_stall == c.base_stall()
            &&& s.reuse_stale_frames <==> c.base_stall().behavior == StallBehavior::Freeze
                && c.base_stall().max_lag_us == Some(0u64)
        }),
{
}

/// An observer follows the active operator unless told otherwise, the others
/// follow nobody; switched on, a peer follows the active operator.
pub proof fn law_observers_follow_the_active_operator(role: Role, enable: bool)
    ensures
        crate::config::default_subscription(role) == ActionSubscription::Active <==> role
            == Role::Observer,
        crate::config::default_subscription(role) == ActionSubscription::Off <==> role
            != Role::Observer,
        crate::config::subscription_of(enable) == ActionSubscription::Active <==> enable,
        crate::config::subscription_of(enable) == ActionSubscription::Off <==> !enable,
{
}

// ---------------------------------------------------------------------------
// Search range
// ---------------------------------------------------------------------------

/// The significand of a finite binary32 number.
pub open spec fn significand32(e: nat, m: nat) -> nat {
    if e == 0 {
        m
    } else {
        0x80_0000 + m
    }
}

/// The power of two that goes with it.
pub open spec fn exponent32(e: nat) -> int {
    if e == 0 {
        -149
    } else {
        e - 150
    }
}

/// Whether a positive binary32 pattern is nearest to `s * 2^x`: the nearest
/// finite number, or infinity where the nearest one, counted as if exponents
/// went on, is past the largest.
pub open spec fn is_nearest32(f: u32, s: nat, x: int) -> bool {
    ||| f == 0x7f80_0000 && exists|c: nat, y: int|
        0x80_0000 <= c < 0x100_0000 && y >= 105 && #[trigger] nearest(s, x, c, y)
    ||| f < 0x7f80_0000 && nearest(
        s,
        x,
        significand32(f as nat / 0x80_0000, f as nat % 0x80_0000),
        exponent32(f as nat / 0x80_0000),
    )
}

proof fn lemma_fields32_of(f: u32)
    requires
        f < 0x7f80_0000,
    ensures
        crate::ieee::f32_significand(f as nat) == significand32(
            f as nat / 0x80_0000,
            f as nat % 0x80_0000,
        ),
        crate::ieee::f32_scale(f as nat) == exponent32(f as nat / 0x80_0000),
{
}

proof fn lemma_nearest32(s: nat, x: int)
    requires
        s > 0,
    ensures
        is_nearest32(crate::ticks::f32_nearest(s, x), s, x),
{
    let p = crate::ieee::pack(s, x, 24, -149);
    crate::number_laws::lemma_packed32_is_not_negative(s, x);
    let e = (p / 0x80_0000) as nat;
    let m = (p % 0x80_0000) as nat;
    crate::number_laws::lemma_packed32(s, x, e, m);
    if p >= crate::ieee::F32_INF {
        assert(e >= 255);
        assert(nearest(s, x, (0x80_0000 + m) as nat, e - 150));
    } else {
        let f = crate::ticks::f32_nearest(s, x);
        assert(f == p);
        assert(f as nat / 0x80_0000 == e && f as nat % 0x80_0000 == m);
    }
}

/// A whole number, and a positive binary32 number times a million, are taken
/// to the nearest binary32 number.
pub proof fn law_products_are_nearest(n: nat, ticks: u32)
    requires
        n > 0,
        0 < ticks <= 0x7f80_0000,
    ensures
        is_nearest32(crate::ticks::f32_nearest(n, 0), n, 0),
        ticks < 0x7f80_0000 ==> is_nearest32(
            crate::ticks::f32_times_million(ticks),
            significand32(ticks as nat / 0x80_0000, ticks as nat % 0x80_0000) * 1_000_000,
            exponent32(ticks as nat / 0x80_0000),
        ),
        ticks == 0x7f80_0000 ==> crate::ticks::f32_times_million(ticks) == 0x7f80_0000,
{
    lemma_nearest32(n, 0);
    if ticks < 0x7f80_0000 {
        lemma_fields32_of(ticks);
        let s = significand32(ticks as nat / 0x80_0000, ticks as nat % 0x80_0000);
        assert(s > 0);
        lemma_nearest32(s * 1_000_000, exponent32(ticks as nat / 0x80_0000));
    }
}

/// The whole part of a positive binary32 number is what fits into it, as far
/// as 64 bits reach.
pub proof fn law_whole_parts_are_cut(f: u32, e: nat, m: nat, q: nat)
    requires
        fields32(f, false, e, m),
        e < 255,
        e < 150 ==> q * pow2((if e == 0 {
            149
        } else {
            150 - e
        }) as nat) <= significand32(e, m) < (q + 1) * pow2((if e == 0 {
            149
        } else {
            150 - e
        }) as nat),
        e >= 150 ==> q == significand32(e, m) * pow2((e - 150) as nat),
    ensures
        q <= u64::MAX ==> crate::ticks::f32_whole(f) == q,
        q > u64::MAX ==> crate::ticks::f32_whole(f) == u64::MAX,
        crate::ticks::f32_whole(0x7f80_0000) == u64::MAX,
{
    assert(f as nat / 0x80_0000 == e && f as nat % 0x80_0000 == m);
    lemma_fields32_of(f);
    if e < 150 {
        let down = (if e == 0 {
            149
        } else {
            150 - e
        }) as nat;
        let d = pow2(down) as int;
        lemma_pow2_pos(down);
        let sig = significand32(e, m) as int;
        lemma_fundamental_div_mod(sig, d);
        assert(sig / d == q) by (nonlinear_arith)
            requires
                q * d <= sig < (q + 1) * d,
                d > 0,
                sig == d * (sig / d) + sig % d,
                0 <= sig % d < d,
        ;
    } else {
        assert(crate::ieee::f32_scale(f as nat) == e - 150);
    }
}

/// Whether `c * 2^y` is nearest to the quotient of `a * 2^x` and `b * 2^z`
/// among the multiples of `2^y`: times the divisor it misses the dividend by at
/// most half of `2^y` times the divisor.
pub open spec fn nearest_quotient(a: nat, x: int, b: nat, z: int, c: nat, y: int) -> bool {
    if y + z >= x {
        let unit = pow2((y + z - x) as nat) * b;
        -(unit as int) <= 2 * (c * unit - a) <= unit
    } else {
        -(b as int) <= 2 * (c * b - a * pow2((x - y - z) as nat)) <= b
    }
}

proof fn lemma_rounded_quotient(n: nat, d: nat, c: nat, unit: nat, quarter: nat)
    requires
        d > 0,
        unit == 4 * quarter,
        ({
            let s = 2 * (n / d) + (if n % d == 0 {
                0nat
            } else {
                1nat
            });
            -(unit as int) <= 2 * (c * unit - s) <= unit
        }),
    ensures
        -(unit * d as int) <= 2 * (c * unit * d - 2 * n) <= unit * d,
{
    let q = n / d;
    lemma_fundamental_div_mod(n as int, d as int);
    let r = n % d;
    assert(n == d * q + r && 0 <= r < d);
    let v = quarter;
    let k = c * v;
    assert(c * unit == 4 * k) by (nonlinear_arith)
        requires
            unit == 4 * v,
            k == c * v,
    ;
    let dq = (d * q) as int;
    let dk = (d * k) as int;
    let dv = (d * v) as int;
    assert(c * unit * d == 4 * dk) by (nonlinear_arith)
        requires
            c * unit == 4 * k,
            dk == d * k,
    ;
    assert(unit * d == 4 * dv) by (nonlinear_arith)
        requires
            unit == 4 * v,
            dv == d * v,
    ;
    if r == 0 {
        assert(2 * k - v <= q <= 2 * k + v);
        assert(2 * dk - dv <= dq <= 2 * dk + dv) by (nonlinear_arith)
            requires
                2 * k - v <= q <= 2 * k + v,
                d > 0,
                dq == d * q,
                dk == d * k,
                dv == d * v,
        ;
    } else {
        assert(2 * k - v <= q);
        assert(q + 1 <= 2 * k + v);
        assert(2 * dk - dv <= dq && dq + d <= 2 * dk + dv) by (nonlinear_arith)
            requires
                2 * k - v <= q,
                q + 1 <= 2 * k + v,
                d > 0,
                dq == d * q,
                dk == d * k,
                dv == d * v,
        ;
    }
}

proof fn lemma_quotient_in_place(a: nat, x: int, b: nat, z: int, c: nat, y: int)
    requires
        a > 0,
        b > 0,
        y + z - x + 37 >= 2,
        ({
            let n = a * 0x10_0000_0000;
            let cut: nat = if n % b == 0 {
                0
            } else {
                1
            };
            nearest(2 * (n / b) + cut, x - z - 37, c, y)
        }),
    ensures
        nearest_quotient(a, x, b, z, c, y),
{
    let n = a * 0x10_0000_0000;
    let up = (y + z - x + 37) as nat;
    let unit = pow2(up);
    lemma2_to64();
    lemma2_to64_rest();
    lemma_pow2_adds(2, (up - 2) as nat);
    let quarter = pow2((up - 2) as nat);
    assert(unit == 4 * quarter);
    lemma_rounded_quotient(n, b, c, unit, quarter);
    if y + z >= x {
        let low = (y + z - x) as nat;
        lemma_pow2_adds(37, low);
        let part = pow2(low) * b;
        assert(unit * b == 0x20_0000_0000 * part) by (nonlinear_arith)
            requires
                unit == 0x20_0000_0000 * pow2(low),
                part == pow2(low) * b,
        ;
        assert(c * unit * b == 0x20_0000_0000 * (c * part)) by (nonlinear_arith)
            requires
                unit * b == 0x20_0000_0000 * part,
        ;
        assert(2 * n == 0x20_0000_0000 * a);
    } else {
        let k = (x - y - z) as nat;
        lemma_pow2_adds(up, k);
        lemma_pow2_pos(up);
        assert(up + k == 37);
        assert(unit * pow2(k) == 0x20_0000_0000);
        let ak = a * pow2(k);
        assert(2 * n == unit * ak) by (nonlinear_arith)
            requires
                n == a * 0x10_0000_0000,
                unit * pow2(k) == 0x20_0000_0000,
                ak == a * pow2(k),
        ;
        assert(-(b as int) <= 2 * (c * b - ak) <= b) by (nonlinear_arith)
            requires
                -(unit * b as int) <= 2 * (c * unit * b - unit * ak) <= unit * b,
                unit > 0,
        ;
    }
}

/// A positive binary32 number over one that is at least one gives the
/// binary32 number nearest to the quotient, or infinity where that number,
/// counted as if exponents went on, is past the largest.
pub proof fn law_quotients_are_nearest(a: u32, b: u32)
    requires
        0 < a <= 0x7f80_0000,
        0x3f80_0000 <= b < 0x7f80_0000,
    ensures
        a == 0x7f80_0000 ==> crate::ticks::f32_divided(a, b) == 0x7f80_0000,
        a < 0x7f80_0000 ==> {
            let s = significand32(a as nat / 0x80_0000, a as nat % 0x80_0000);
            let x = exponent32(a as nat / 0x80_0000);
            let t = significand32(b as nat / 0x80_0000, b as nat % 0x80_0000);
            let z = exponent32(b as nat / 0x80_0000);
            let f = crate::ticks::f32_divided(a, b);
            f < 0x7f80_0000 ==> nearest_quotient(
                s,
                x,
                t,
                z,
                significand32(f as nat / 0x80_0000, f as nat % 0x80_0000),
                exponent32(f as nat / 0x80_0000),
            )
        },
        a < 0x7f80_0000 ==> crate::ticks::f32_divided(a, b) <= 0x7f80_0000,
        a < 0x7f80_0000 && crate::ticks::f32_divided(a, b) == 0x7f80_0000 ==> exists|c: nat, y: int|
            0x80_0000 <= c < 0x100_0000 && y >= 105 && #[trigger] nearest_quotient(
                significand32(a as nat / 0x80_0000, a as nat % 0x80_0000),
                exponent32(a as nat / 0x80_0000),
                significand32(b as nat / 0x80_0000, b as nat % 0x80_0000),
                exponent32(b as nat / 0x80_0000),
                c,
                y,
            ),
{
    if a < 0x7f80_0000 {
        lemma_fields32_of(a);
        lemma_fields32_of(b);
        let s = significand32(a as nat / 0x80_0000, a as nat % 0x80_0000);
        let x = exponent32(a as nat / 0x80_0000);
        let t = significand32(b as nat / 0x80_0000, b as nat % 0x80_0000);
        let z = exponent32(b as nat / 0x80_0000);
        let f = crate::ticks::f32_divided(a, b);
        assert(s > 0 && t >= 0x80_0000 && t < 0x100_0000 && z >= -23);
        let n = s * 0x10_0000_0000;
        let cut: nat = if n % t == 0 {
            0
        } else {
            1
        };
        let w = 2 * (n / t) + cut;
        assert(n >= t);
        assert(n / t >= 1) by (nonlinear_arith)
            requires
                n >= t,
                t > 0,
        ;
        lemma_nearest32(w, x - z - 37);
        assert(f == crate::ticks::f32_nearest(w, x - z - 37));
        if f < 0x7f80_0000 {
            let c = significand32(f as nat / 0x80_0000, f as nat % 0x80_0000);
            let y = exponent32(f as nat / 0x80_0000);
            assert(nearest(w, x - z - 37, c, y));
            if s >= 0x80_0000 {
                assert(n / t >= 0x8_0000_0000) by (nonlinear_arith)
                    requires
                        n >= 0x80_0000 * 0x10_0000_0000,
                        0 < t < 0x100_0000,
                ;
                lemma_enough_room(w, x - z - 37, c, y);
            } else {
                assert(x == -149 && y >= -149);
            }
            lemma_quotient_in_place(s, x, t, z, c, y);
        } else {
            let (c, y) = choose|c: nat, y: int|
                0x80_0000 <= c < 0x100_0000 && y >= 105 && #[trigger] nearest(
                    w,
                    x - z - 37,
                    c,
                    y,
                );
            if s >= 0x80_0000 {
                assert(n / t >= 0x8_0000_0000) by (nonlinear_arith)
                    requires
                        n >= 0x80_0000 * 0x10_0000_0000,
                        0 < t < 0x100_0000,
                ;
                lemma_enough_room(w, x - z - 37, c, y);
            }
            lemma_quotient_in_place(s, x, t, z, c, y);
        }
    }
}

proof fn lemma_enough_room(w: nat, x: int, c: nat, y: int)
    requires
        w >= 0x10_0000_0000,
        c < 0x100_0000,
        nearest(w, x, c, y),
    ensures
        y - x >= 2,
{
    lemma2_to64();
    if x >= y {
        lemma_pow2_pos((x - y) as nat);
        assert(w * pow2((x - y) as nat) >= w) by (nonlinear_arith)
            requires
                pow2((x - y) as nat) >= 1,
        ;
    } else if y - x == 1 {
        assert(pow2((y - x) as nat) == 2);
    }
}

/// The search range is the whole part of the tolerance in ticks, times a
/// million, over the frame rate, each step in binary32.
pub proof fn law_the_search_range_is_ticks_over_the_rate(ticks: u32, fps: u32)
    ensures
        crate::ticks::search_range(ticks, fps) == crate::ticks::f32_whole(
            crate::ticks::f32_divided(
                crate::ticks::f32_times_million(ticks),
                crate::ticks::f32_nearest(fps as nat, 0),
            ),
        ),
{
}

/// A track is declared exactly where one of either path has its name.
pub proof fn law_tracks_are_declared_by_name(c: PortalConfig, name: Seq<char>)
    ensures
        c.declares(name) <==> (exists|i: int|
            0 <= i < c.video_tracks@.len() && (#[trigger] c.video_tracks@[i]).name@ == name)
            || exists|i: int|
            0 <= i < c.frame_video_tracks@.len() && (#[trigger] c.frame_video_tracks@[i]).name@
                == name,
        crate::config::in_chunks(c.action_chunks@, name) <==> exists|i: int|
            0 <= i < c.action_chunks@.len() && (#[trigger] c.action_chunks@[i]).name@ == name,
{
}

/// What the setters keep: rates above zero, no track or chunk name twice, each
/// track on the path of its codec, and a horizon for every chunk.
pub proof fn law_settings_are_sound(c: PortalConfig, i: int, j: int)
    requires
        c.wf(),
    ensures
        c.fps > 0 && c.slack > 0,
        0 < c.tolerance <= 0x7f80_0000,
        0 <= i < j < c.video_tracks@.len() ==> c.video_tracks@[i].name@
            != c.video_tracks@[j].name@,
        0 <= i < j < c.frame_video_tracks@.len() ==> c.frame_video_tracks@[i].name@
            != c.frame_video_tracks@[j].name@,
        0 <= i < c.video_tracks@.len() && 0 <= j < c.frame_video_tracks@.len()
            ==> c.video_tracks@[i].name@ != c.frame_video_tracks@[j].name@,
        0 <= i < c.video_tracks@.len() ==> c.video_tracks@[i].codec.on_media_path(),
        0 <= j < c.frame_video_tracks@.len() ==> !c.frame_video_tracks@[j].codec.on_media_path(),
        0 <= i < j < c.action_chunks@.len() ==> c.action_chunks@[i].name@
            != c.action_chunks@[j].name@,
        0 <= i < c.action_chunks@.len() ==> c.action_chunks@[i].horizon > 0,
{
}

} // verus!
