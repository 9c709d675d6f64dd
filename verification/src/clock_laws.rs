//! What the session's time promises, stated apart from how it is kept.
use crate::clock::{
    ClockPacket, EstimatorEvent, EstimatorView, Exchange, MonotonicClock, Sample,
};
use crate::types::{Role, TimeSyncSource};
use vstd::prelude::*;

verus! {

/// Whether the sample at `k` has the shortest round trip of a window, and is
/// the first that has it.
pub open spec fn shortest_at(window: Seq<Sample>, k: int) -> bool {
    &&& 0 <= k < window.len()
    &&& forall|i: int| 0 <= i < window.len() ==> window[k].rtt_us <= (#[trigger] window[i]).rtt_us
    &&& forall|i: int| 0 <= i < k ==> window[k].rtt_us < (#[trigger] window[i]).rtt_us
}

/// Whether two offsets differ by at most `limit`.
pub open spec fn within(a: i64, b: i64, limit: int) -> bool {
    -limit <= a - b <= limit
}

proof fn lemma_best_is_shortest(window: Seq<Sample>)
    requires
        window.len() > 0,
    ensures
        shortest_at(window, crate::clock::best_index(window)),
    decreases window.len(),
{
    if window.len() > 1 {
        let front = window.drop_last();
        lemma_best_is_shortest(front);
        let b = crate::clock::best_index(front);
        let n = window.len() - 1;
        assert(front[b] == window[b]);
        assert forall|i: int| 0 <= i < n implies window[b].rtt_us <= (
        #[trigger] window[i]).rtt_us by {
            assert(front[i] == window[i]);
        }
        assert forall|i: int| 0 <= i < b implies window[b].rtt_us < (
        #[trigger] window[i]).rtt_us by {
            assert(front[i] == window[i]);
        }
    }
}

proof fn lemma_shortest_is_best(window: Seq<Sample>, k: int)
    requires
        shortest_at(window, k),
    ensures
        crate::clock::best_of(window) == Some(window[k]),
        crate::clock::best_index(window) == k,
{
    lemma_best_is_shortest(window);
    let b = crate::clock::best_index(window);
    assert(window[b].rtt_us <= window[k].rtt_us);
    assert(window[k].rtt_us <= window[b].rtt_us);
}

// ---------------------------------------------------------------------------
// Samples
// ---------------------------------------------------------------------------

/// An exchange counts exactly where neither clock went backwards in it and
/// the robot held it for no longer than the round trip took. Its sample has
/// the round trip without what the robot held, the time of its arrival, and
/// as offset half of how far the robot's two times are ahead of the local
/// ones, rounded down.
pub proof fn law_a_sample_measures_its_exchange(e: Exchange)
    ensures
        crate::clock::consistent(e) <==> e.t1 <= e.t4 && e.t2 <= e.t3 && e.t3 - e.t2 <= e.t4
            - e.t1,
        e.t1 <= e.t4 && e.t2 <= e.t3 && e.t3 - e.t2 <= e.t4 - e.t1 ==> {
            let s = crate::clock::sample_of(e);
            let ahead = e.t2 + e.t3 - e.t1 - e.t4;
            &&& s.at_us == e.t4
            &&& s.rtt_us + e.t1 + e.t3 == e.t4 + e.t2
            &&& i64::MIN <= ahead / 2 <= i64::MAX ==> 2 * s.offset_us <= ahead < 2 * s.offset_us
                + 2
            &&& (ahead / 2 - s.offset_us) % 0x1_0000_0000_0000_0000 == 0
        },
{
    let n = ((e.t2 - e.t1) + (e.t3 - e.t4)) / 2;
    let full = 0x1_0000_0000_0000_0000int;
    assert((n - n % full) % full == 0 && (n - (n % full - full)) % full == 0) by (nonlinear_arith)
        requires
            full == 0x1_0000_0000_0000_0000,
    ;
    if i64::MIN <= n <= i64::MAX {
        if n < 0 {
            assert(n % 0x1_0000_0000_0000_0000 == n + 0x1_0000_0000_0000_0000);
        } else {
            assert(n % 0x1_0000_0000_0000_0000 == n);
        }
    }
}

/// A peer other than the robot takes in a pong that comes from its robot with
/// consistent times, and nothing else; the exchange has the three times of
/// the pong and the time of its arrival.
pub proof fn law_pongs_of_the_robot_give_samples(
    role: Role,
    packet: ClockPacket,
    sender: Seq<char>,
    robot: Option<String>,
    t4: u64,
)
    ensures
        packet is Ping || role == Role::Robot || robot is None ==> !crate::clock::gives_sample(
            role,
            packet,
            sender,
            robot,
            t4,
        ),
        robot matches Some(name) ==> (name@ != sender ==> !crate::clock::gives_sample(
            role,
            packet,
            sender,
            robot,
            t4,
        )),
        packet matches ClockPacket::Pong { seq, t1, t2, t3 } ==> {
            let e = crate::clock::completed(packet, t4);
            &&& e.t1 == t1 && e.t2 == t2 && e.t3 == t3 && e.t4 == t4
            &&& role != Role::Robot && robot is Some && robot->0@ == sender ==> (
            crate::clock::gives_sample(role, packet, sender, robot, t4) <==> t1 <= t4 && t2 <= t3
                && t3 - t2 <= t4 - t1)
        },
{
}

/// A ping is thirteen bytes and a pong twenty-nine: a zero or a one, then the
/// sequence number and the times in their order, little end first. Nothing
/// else reads as a packet.
pub proof fn law_clock_packets_are_laid_out(p: ClockPacket, payload: Seq<u8>)
    ensures
        ({
            let b = crate::clock::clock_bytes(p);
            match p {
                ClockPacket::Ping { seq, t1 } => {
                    &&& b.len() == 13 && b[0] == 0
                    &&& b.subrange(1, 5) == crate::wire::le_bytes(seq as nat, 4)
                    &&& b.subrange(5, 13) == crate::wire::le_bytes(t1 as nat, 8)
                },
                ClockPacket::Pong { seq, t1, t2, t3 } => {
                    &&& b.len() == 29 && b[0] == 1
                    &&& b.subrange(1, 5) == crate::wire::le_bytes(seq as nat, 4)
                    &&& b.subrange(5, 13) == crate::wire::le_bytes(t1 as nat, 8)
                    &&& b.subrange(13, 21) == crate::wire::le_bytes(t2 as nat, 8)
                    &&& b.subrange(21, 29) == crate::wire::le_bytes(t3 as nat, 8)
                },
            }
        }),
        crate::clock::clock_packet(payload) is Some <==> (payload.len() == 13 && payload[0] == 0)
            || (payload.len() == 29 && payload[0] == 1),
        crate::clock::clock_packet(payload) matches Some(ClockPacket::Ping { .. })
            ==> payload.len() == 13 && payload[0] == 0,
        crate::clock::clock_packet(payload) matches Some(ClockPacket::Pong { .. })
            ==> payload.len() == 29 && payload[0] == 1,
{
    let b = crate::clock::clock_bytes(p);
    match p {
        ClockPacket::Ping { seq, t1 } => {
            crate::wire::law_le_bytes_are_digits(seq as nat, 4, 0);
            crate::wire::law_le_bytes_are_digits(t1 as nat, 8, 0);
            assert(b.subrange(1, 5) =~= crate::wire::le_bytes(seq as nat, 4));
            assert(b.subrange(5, 13) =~= crate::wire::le_bytes(t1 as nat, 8));
        },
        ClockPacket::Pong { seq, t1, t2, t3 } => {
            crate::wire::law_le_bytes_are_digits(seq as nat, 4, 0);
            crate::wire::law_le_bytes_are_digits(t1 as nat, 8, 0);
            crate::wire::law_le_bytes_are_digits(t2 as nat, 8, 0);
            crate::wire::law_le_bytes_are_digits(t3 as nat, 8, 0);
            assert(b.subrange(1, 5) =~= crate::wire::le_bytes(seq as nat, 4));
            assert(b.subrange(5, 13) =~= crate::wire::le_bytes(t1 as nat, 8));
            assert(b.subrange(13, 21) =~= crate::wire::le_bytes(t2 as nat, 8));
            assert(b.subrange(21, 29) =~= crate::wire::le_bytes(t3 as nat, 8));
        },
    }
}

/// Samples are of the robot that they were taken of: another identity, or
/// none, is another robot.
pub proof fn law_robots_are_told_apart(known: Option<String>, identity: Seq<char>)
    ensures
        known is None ==> !crate::clock::same_identity(known, identity),
        known matches Some(name) ==> (crate::clock::same_identity(known, identity) <==> name@
            == identity),
{
}

// ---------------------------------------------------------------------------
// Estimator
// ---------------------------------------------------------------------------

proof fn lemma_aged_is_a_tail(window: Seq<Sample>, horizon: u64)
    ensures
        ({
            let kept = crate::clock::aged(window, horizon);
            let gone = window.len() - kept.len();
            &&& kept.len() <= window.len()
            &&& forall|i: int| 0 <= i < kept.len() ==> #[trigger] kept[i] == window[gone + i]
            &&& forall|i: int| 0 <= i < gone ==> (#[trigger] window[i]).at_us < horizon
            &&& kept.len() > 0 ==> kept[0].at_us >= horizon
        }),
    decreases window.len(),
{
    if window.len() > 0 && window[0].at_us < horizon {
        let rest = window.drop_first();
        lemma_aged_is_a_tail(rest, horizon);
        let kept = crate::clock::aged(rest, horizon);
        let gone = window.len() - kept.len();
        assert forall|i: int| 0 <= i < gone implies (#[trigger] window[i]).at_us < horizon by {
            if i > 0 {
                assert(rest[i - 1] == window[i]);
            }
        }
        assert forall|i: int| 0 <= i < kept.len() implies #[trigger] kept[i] == window[gone
            + i] by {
            assert(rest[gone - 1 + i] == window[gone + i]);
        }
    }
}

/// A sample within a second of the estimate, or the first one, joins the
/// window as its newest. What leaves are the oldest samples, as long as they
/// are more than ten seconds older than it. The estimate is trusted once the
/// window holds four samples, and stays trusted; the event says which of these
/// happened.
pub proof fn law_plausible_samples_join_the_window(v: EstimatorView, s: Sample, k: int)
    requires
        v.window.len() > 0 ==> shortest_at(v.window, k) && within(
            v.window[k].offset_us,
            s.offset_us,
            1_000_000,
        ),
    ensures
        ({
            let (after, event) = crate::clock::estimated(v, s);
            let full = v.window.push(s);
            let gone = full.len() - after.window.len();
            &&& 0 < after.window.len() <= full.len()
            &&& after.window[after.window.len() - 1] == s
            &&& forall|i: int|
                0 <= i < after.window.len() ==> #[trigger] after.window[i] == full[gone + i]
            &&& forall|i: int|
                0 <= i < gone ==> (#[trigger] full[i]).at_us + 10_000_000 < s.at_us
            &&& after.window[0].at_us + 10_000_000 >= s.at_us
            &&& after.synced <==> v.synced || after.window.len() >= 4
            &&& event == EstimatorEvent::Updated <==> v.synced
            &&& event == EstimatorEvent::Synced <==> !v.synced && after.window.len() >= 4
            &&& event == EstimatorEvent::Pending <==> !v.synced && after.window.len() < 4
            &&& v.window.len() > 0 ==> after.jump_run.len() == 0
            &&& v.window.len() == 0 ==> after.jump_run == v.jump_run
            &&& after.resyncs == v.resyncs && after.samples_rejected == v.samples_rejected
        }),
{
    let full = v.window.push(s);
    let horizon = crate::clock::horizon_of(s.at_us);
    lemma_aged_is_a_tail(full, horizon);
    let kept = crate::clock::aged(full, horizon);
    let gone = full.len() - kept.len();
    if v.window.len() > 0 {
        lemma_shortest_is_best(v.window, k);
    }
    assert(full[full.len() - 1] == s);
    if kept.len() == 0 {
        assert(full[full.len() - 1].at_us < horizon);
    }
    assert(kept[kept.len() - 1] == full[gone + kept.len() - 1]);
}

/// A sample more than a second from the estimate is put aside. Samples put
/// aside in a row form a run where each is within a tenth of a second of the
/// first of them; one that is not starts a run of its own. The run replaces
/// the window when it reaches thirty samples; until it does the estimate stays
/// as it was and the sample counts as rejected.
pub proof fn law_implausible_samples_are_put_aside(v: EstimatorView, s: Sample, k: int)
    requires
        v.window.len() > 0,
        shortest_at(v.window, k),
        !within(v.window[k].offset_us, s.offset_us, 1_000_000),
    ensures
        ({
            let (after, event) = crate::clock::estimated(v, s);
            let joins = v.jump_run.len() == 0 || within(
                v.jump_run[0].offset_us,
                s.offset_us,
                100_000,
            );
            let run = if joins {
                v.jump_run.push(s)
            } else {
                Seq::<Sample>::empty().push(s)
            };
            &&& run.len() < 30 ==> {
                &&& event == EstimatorEvent::Rejected
                &&& after.window == v.window && after.synced == v.synced
                &&& after.jump_run == run
                &&& after.resyncs == v.resyncs
                &&& after.samples_rejected == v.samples_rejected + 1 || (v.samples_rejected
                    == u64::MAX && after.samples_rejected == u64::MAX)
            }
            &&& run.len() >= 30 ==> {
                &&& event == EstimatorEvent::Resynced
                &&& after.window == run && after.synced
                &&& after.jump_run.len() == 0
                &&& after.samples_rejected == v.samples_rejected
                &&& after.resyncs == v.resyncs + 1 || (v.resyncs == u64::MAX && after.resyncs
                    == u64::MAX)
            }
        }),
{
    lemma_shortest_is_best(v.window, k);
    assert(seq![s] =~= Seq::<Sample>::empty().push(s));
}

/// An estimator that starts over has no samples and has counted nothing.
pub proof fn law_a_fresh_estimator_knows_nothing(synced: bool)
    ensures
        ({
            let v = crate::clock::fresh_estimator(synced);
            &&& v.window.len() == 0 && v.jump_run.len() == 0
            &&& v.synced == synced
            &&& v.resyncs == 0 && v.samples_rejected == 0
            &&& crate::clock::measured(v) is None
        }),
{
}

/// The worst error is half of the round trip, rounded up.
pub proof fn law_uncertainty_is_half_the_round_trip(rtt_us: u64)
    ensures
        rtt_us <= 2 * crate::clock::half_up(rtt_us) <= rtt_us + 1,
{
}

// ---------------------------------------------------------------------------
// Clock
// ---------------------------------------------------------------------------

/// A time is moved by a signed amount, and stops at either end of the range.
pub proof fn law_shifts_stop_at_the_ends(raw: u64, by: i64)
    ensures
        0 <= raw + by <= u64::MAX ==> crate::clock::shifted(raw, by) == raw + by,
        raw + by < 0 ==> crate::clock::shifted(raw, by) == 0,
        raw + by > u64::MAX ==> crate::clock::shifted(raw, by) == u64::MAX,
{
}

/// A clock that follows the portal aims for the estimate as soon as it is
/// trusted, whatever the sign of the offset and whatever was applied before:
/// the offset of the sample with the shortest round trip, the first of them.
/// Only the offset in effect may stay ahead of it. Nothing else changes.
pub proof fn law_a_trusted_estimate_is_aimed_for(c: MonotonicClock, v: EstimatorView, k: int)
    requires
        shortest_at(v.window, k),
        v.synced,
    ensures
        crate::clock::measured(v) == Some(v.window[k].offset_us),
        ({
            let after = crate::clock::steered(TimeSyncSource::Portal, c, v);
            &&& after.target_offset_us == v.window[k].offset_us
            &&& v.window[k].offset_us >= c.applied_offset_us ==> after.applied_offset_us
                == v.window[k].offset_us
            &&& v.window[k].offset_us <= c.applied_offset_us ==> after.applied_offset_us
                == c.applied_offset_us
            &&& after.last_raw_us == c.last_raw_us
            &&& after.last_out_us == c.last_out_us
        }),
{
    lemma_shortest_is_best(v.window, k);
}

/// Without a trusted estimate, and for a clock that trusts the host, a sample
/// leaves the clock as it is.
pub proof fn law_other_clocks_are_left_alone(
    source: TimeSyncSource,
    c: MonotonicClock,
    v: EstimatorView,
)
    requires
        source == TimeSyncSource::System || !v.synced || v.window.len() == 0,
    ensures
        crate::clock::steered(source, c, v) == c,
        !v.synced || v.window.len() == 0 ==> crate::clock::measured(v) is None,
{
}

/// A reading takes back what the offset in effect is ahead of its target, by
/// a twentieth of the raw time since the last reading, cut to a whole number,
/// and never by more than it is ahead. The reading is the raw time with that
/// offset wherever this is later than the last one, and one microsecond after
/// the last one otherwise.
pub proof fn law_a_reading_takes_back_a_twentieth(c: MonotonicClock, raw: u64)
    requires
        c.last_out_us < u64::MAX,
    ensures
        ({
            let after = crate::clock::ticked(c, raw);
            let taken = c.applied_offset_us - after.applied_offset_us;
            let ahead = c.applied_offset_us - c.target_offset_us;
            &&& after.target_offset_us == c.target_offset_us
            &&& after.last_raw_us == Some(raw)
            &&& taken >= 0
            &&& ahead <= 0 ==> taken == 0
            &&& ahead >= 0 ==> taken <= ahead
            &&& c.last_raw_us is None || raw <= c.last_raw_us->0 ==> taken == 0
            &&& c.last_raw_us is Some && raw >= c.last_raw_us->0 ==> 20 * taken <= raw
                - c.last_raw_us->0
            &&& c.last_raw_us is Some && taken < ahead ==> raw - c.last_raw_us->0 < 20 * taken
                + 20
            &&& c.last_out_us < raw + after.applied_offset_us <= u64::MAX ==> after.last_out_us
                == raw + after.applied_offset_us
            &&& raw + after.applied_offset_us <= c.last_out_us ==> after.last_out_us
                == c.last_out_us + 1
            &&& raw + after.applied_offset_us > u64::MAX ==> after.last_out_us == u64::MAX
        }),
{
}

/// Once enough raw time has passed without a new estimate, a reading is the
/// raw time plus the estimated offset: twenty times as long as the offset in
/// effect was ahead of it.
pub proof fn law_readings_settle_on_the_estimate(
    c: MonotonicClock,
    v: EstimatorView,
    k: int,
    raw0: u64,
    raw1: u64,
)
    requires
        shortest_at(v.window, k),
        v.synced,
        c.last_raw_us == Some(raw0),
        raw0 <= raw1,
        20 * (c.applied_offset_us - v.window[k].offset_us) <= raw1 - raw0,
        c.last_out_us < raw1 + v.window[k].offset_us <= u64::MAX,
    ensures
        ({
            let aimed = crate::clock::steered(TimeSyncSource::Portal, c, v);
            let read = crate::clock::ticked(aimed, raw1);
            &&& read.last_out_us == raw1 + v.window[k].offset_us
            &&& read.applied_offset_us == v.window[k].offset_us
        }),
{
    law_a_trusted_estimate_is_aimed_for(c, v, k);
    let aimed = crate::clock::steered(TimeSyncSource::Portal, c, v);
    law_a_reading_takes_back_a_twentieth(aimed, raw1);
}

/// From then on every reading is the raw time plus that offset, as long as
/// raw time moves on.
pub proof fn law_a_settled_clock_stays_settled(c: MonotonicClock, raw: u64)
    requires
        c.applied_offset_us == c.target_offset_us,
        c.last_out_us < raw + c.target_offset_us <= u64::MAX,
    ensures
        crate::clock::ticked(c, raw).last_out_us == raw + c.target_offset_us,
        crate::clock::ticked(c, raw).applied_offset_us == c.target_offset_us,
{
}

} // verus!
