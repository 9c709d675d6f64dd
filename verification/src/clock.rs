//! Time sync: every peer but the robot estimates the robot's clock from
//! pings and pongs, and reads that estimate through a clock that never
//! repeats and never goes backwards.
use crate::metrics::{MetricsRegistry, TimeSyncMetrics};
use crate::text;
use crate::types::{Role, TimeSyncSource};
use crate::wire;
use std::collections::VecDeque;
use vstd::arithmetic::power2::*;
use vstd::prelude::*;

verus! {

/// Topic of the clock packets.
pub const CLOCK_TOPIC: &'static str = "portal_clock";

/// Received packets that may wait to be handled. A lost one only delays the
/// estimate.
pub const CLOCK_QUEUE_CAP: usize = 64;

pub const PING_KIND: u8 = 0;

pub const PONG_KIND: u8 = 1;

/// Kind, sequence number, send time.
pub const PING_LEN: usize = 13;

/// Kind, sequence number, and the three times known when the robot answers.
pub const PONG_LEN: usize = 29;

pub const UNSYNCED_PING_INTERVAL_US: u64 = 250_000;

pub const SYNCED_PING_INTERVAL_US: u64 = 1_000_000;

/// Age at which a sample leaves the window.
pub const WINDOW_US: u64 = 10_000_000;

/// Samples needed before the first estimate is trusted.
pub const MIN_SAMPLES_TO_SYNC: usize = 4;

/// A sample further than this from the estimate is implausible.
pub const JUMP_THRESHOLD_US: u64 = 1_000_000;

/// Agreeing implausible samples in a row that move the timeline.
pub const RESYNC_RUN: usize = 30;

/// Implausible samples within this distance of each other agree.
pub const JUMP_AGREEMENT_US: u64 = 100_000;

/// A backward correction removes at most this fraction of the elapsed time,
/// so the clock keeps running at no less than 95% of real speed.
pub const SLEW_DIVISOR: u64 = 20;

// ---------------------------------------------------------------------------
// Wire
// ---------------------------------------------------------------------------

#[derive(Debug, Clone, Copy, PartialEq, Eq, Structural)]
#[allow(inconsistent_fields)]
pub enum ClockPacket {
    Ping { seq: u32, t1: u64 },
    Pong { seq: u32, t1: u64, t2: u64, t3: u64 },
}

/// A packet on the wire, all little-endian.
pub open spec fn clock_bytes(p: ClockPacket) -> Seq<u8> {
    match p {
        ClockPacket::Ping { seq, t1 } => seq![PING_KIND] + wire::le_bytes(seq as nat, 4)
            + wire::le_bytes(t1 as nat, 8),
        ClockPacket::Pong { seq, t1, t2, t3 } => seq![PONG_KIND] + wire::le_bytes(seq as nat, 4)
            + wire::le_bytes(t1 as nat, 8) + wire::le_bytes(t2 as nat, 8) + wire::le_bytes(
            t3 as nat,
            8,
        ),
    }
}

/// The packet that a payload carries, if it is one: the kind and the length
/// must agree.
pub open spec fn clock_packet(payload: Seq<u8>) -> Option<ClockPacket> {
    if payload.len() == PING_LEN && payload[0] == PING_KIND {
        Some(
            ClockPacket::Ping {
                seq: wire::le_value(payload.subrange(1, 5)) as u32,
                t1: wire::le_value(payload.subrange(5, 13)) as u64,
            },
        )
    } else if payload.len() == PONG_LEN && payload[0] == PONG_KIND {
        Some(
            ClockPacket::Pong {
                seq: wire::le_value(payload.subrange(1, 5)) as u32,
                t1: wire::le_value(payload.subrange(5, 13)) as u64,
                t2: wire::le_value(payload.subrange(13, 21)) as u64,
                t3: wire::le_value(payload.subrange(21, 29)) as u64,
            },
        )
    } else {
        None
    }
}

impl ClockPacket {
    pub fn encode(&self) -> (buf: Vec<u8>)
        ensures
            buf@ == clock_bytes(*self),
    {
        let mut buf: Vec<u8> = Vec::new();
        match *self {
            ClockPacket::Ping { seq, t1 } => {
                buf.push(PING_KIND);
                assert(buf@ =~= seq![PING_KIND]);
                wire::put_le(&mut buf, seq as u64, 4);
                wire::put_le(&mut buf, t1, 8);
            },
            ClockPacket::Pong { seq, t1, t2, t3 } => {
                buf.push(PONG_KIND);
                assert(buf@ =~= seq![PONG_KIND]);
                wire::put_le(&mut buf, seq as u64, 4);
                wire::put_le(&mut buf, t1, 8);
                wire::put_le(&mut buf, t2, 8);
                wire::put_le(&mut buf, t3, 8);
            },
        }
        buf
    }

    /// Reads a packet; anything malformed gives `None`.
    pub fn decode(payload: &[u8]) -> (p: Option<Self>)
        ensures
            p == clock_packet(payload@),
    {
        proof {
            lemma2_to64();
        }
        if payload.len() == PING_LEN && payload[0] == PING_KIND {
            Some(
                ClockPacket::Ping {
                    seq: wire::get_le(payload, 1, 4) as u32,
                    t1: wire::get_le(payload, 5, 8),
                },
            )
        } else if payload.len() == PONG_LEN && payload[0] == PONG_KIND {
            Some(
                ClockPacket::Pong {
                    seq: wire::get_le(payload, 1, 4) as u32,
                    t1: wire::get_le(payload, 5, 8),
                    t2: wire::get_le(payload, 13, 8),
                    t3: wire::get_le(payload, 21, 8),
                },
            )
        } else {
            None
        }
    }
}

/// Every packet reads back as it was written.
pub proof fn law_clock_packet_round_trip(p: ClockPacket)
    ensures
        clock_packet(clock_bytes(p)) == Some(p),
{
    lemma2_to64();
    let b = clock_bytes(p);
    match p {
        ClockPacket::Ping { seq, t1 } => {
            wire::law_le_round_trip(seq as nat, 4);
            wire::law_le_round_trip(t1 as nat, 8);
            assert(b.subrange(1, 5) =~= wire::le_bytes(seq as nat, 4));
            assert(b.subrange(5, 13) =~= wire::le_bytes(t1 as nat, 8));
        },
        ClockPacket::Pong { seq, t1, t2, t3 } => {
            wire::law_le_round_trip(seq as nat, 4);
            wire::law_le_round_trip(t1 as nat, 8);
            wire::law_le_round_trip(t2 as nat, 8);
            wire::law_le_round_trip(t3 as nat, 8);
            assert(b.subrange(1, 5) =~= wire::le_bytes(seq as nat, 4));
            assert(b.subrange(5, 13) =~= wire::le_bytes(t1 as nat, 8));
            assert(b.subrange(13, 21) =~= wire::le_bytes(t2 as nat, 8));
            assert(b.subrange(21, 29) =~= wire::le_bytes(t3 as nat, 8));
        },
    }
}

// ---------------------------------------------------------------------------
// Samples
// ---------------------------------------------------------------------------

/// One completed exchange. The offset is the robot's clock minus the local
/// one.
#[derive(Debug, Clone, Copy, PartialEq, Eq, Structural)]
pub struct Sample {
    pub offset_us: i64,
    pub rtt_us: u64,
    /// Local receive time, by which samples age.
    pub at_us: u64,
}

/// Times of one exchange: ping sent (local), ping received (robot), pong sent
/// (robot), pong received (local).
#[derive(Debug, Clone, Copy, PartialEq, Eq, Structural)]
pub struct Exchange {
    pub t1: u64,
    pub t2: u64,
    pub t3: u64,
    pub t4: u64,
}

/// A number kept to 64 bits, as two's complement.
pub open spec fn wrap_i64(n: int) -> i64 {
    let low = n % 0x1_0000_0000_0000_0000;
    (if low >= 0x8000_0000_0000_0000 {
        low - 0x1_0000_0000_0000_0000
    } else {
        low
    }) as i64
}

/// Whether the times of an exchange agree with each other: neither clock
/// went backwards, and the robot did not spend longer answering than the
/// whole round trip took.
pub open spec fn consistent(e: Exchange) -> bool {
    &&& e.t4 >= e.t1
    &&& e.t3 >= e.t2
    &&& e.t4 - e.t1 >= e.t3 - e.t2
}

/// The sample that an exchange gives.
pub open spec fn sample_of(e: Exchange) -> Sample {
    Sample {
        offset_us: wrap_i64(((e.t2 - e.t1) + (e.t3 - e.t4)) / 2),
        rtt_us: ((e.t4 - e.t1) - (e.t3 - e.t2)) as u64,
        at_us: e.t4,
    }
}

impl Sample {
    /// The sample of an exchange; `None` when its times are inconsistent.
    pub fn try_from(e: Exchange) -> (s: Option<Sample>)
        ensures
            s == (if consistent(e) {
                Some(sample_of(e))
            } else {
                None
            }),
    {
        if e.t4 < e.t1 || e.t3 < e.t2 || e.t4 - e.t1 < e.t3 - e.t2 {
            return None;
        }
        let rtt_us: u64 = (e.t4 - e.t1) - (e.t3 - e.t2);
        let robot: u128 = e.t2 as u128 + e.t3 as u128;
        let local: u128 = e.t1 as u128 + e.t4 as u128;
        let offset_us: i64 = if robot >= local {
            let m: u128 = (robot - local) / 2;
            if m < 0x8000_0000_0000_0000 {
                m as i64
            } else {
                (m as i128 - 0x1_0000_0000_0000_0000) as i64
            }
        } else {
            let m: u128 = (local - robot + 1) / 2;
            if m <= 0x8000_0000_0000_0000 {
                (-(m as i128)) as i64
            } else {
                (0x1_0000_0000_0000_0000 - m as i128) as i64
            }
        };
        Some(Sample { offset_us, rtt_us, at_us: e.t4 })
    }
}

/// An exchange with a robot whose clock is ahead by `offset`, over one-way
/// delays `up` and `down`, measures the offset to within half the round
/// trip, and exactly when the delays are the same.
pub proof fn law_offset_error_is_bounded(e: Exchange, offset: int, up: int, down: int, hold: int)
    requires
        up >= 0,
        down >= 0,
        hold >= 0,
        e.t2 == e.t1 + up + offset,
        e.t3 == e.t2 + hold,
        e.t4 == e.t1 + up + hold + down,
        -0x4000_0000_0000_0000 <= offset <= 0x4000_0000_0000_0000,
        up <= 0x4000_0000_0000_0000,
        down <= 0x4000_0000_0000_0000,
    ensures
        consistent(e),
        sample_of(e).rtt_us == up + down,
        -((up + down + 1) / 2) <= sample_of(e).offset_us - offset <= (up + down + 1) / 2,
        up == down ==> sample_of(e).offset_us == offset,
{
    let twice = (e.t2 - e.t1) + (e.t3 - e.t4);
    assert(twice == 2 * offset + up - down);
    let n = twice / 2;
    assert(-0x8000_0000_0000_0000 <= n < 0x8000_0000_0000_0000);
    if n < 0 {
        assert(n % 0x1_0000_0000_0000_0000 == n + 0x1_0000_0000_0000_0000);
    } else {
        assert(n % 0x1_0000_0000_0000_0000 == n);
    }
}

// ---------------------------------------------------------------------------
// Estimator
// ---------------------------------------------------------------------------

#[derive(Debug, Clone, Copy, PartialEq, Eq, Structural)]
pub enum EstimatorEvent {
    /// Not enough samples yet.
    Pending,
    /// First trusted estimate.
    Synced,
    /// Estimate refined within the current timeline.
    Updated,
    /// Sample implied an implausible jump and was ignored.
    Rejected,
    /// Enough samples in a row agreed on a jump that the timeline moved.
    Resynced,
}

/// What an estimator knows.
#[verifier::ext_equal]
pub struct EstimatorView {
    pub window: Seq<Sample>,
    pub synced: bool,
    /// Implausible samples in a row that agree with each other.
    pub jump_run: Seq<Sample>,
    pub resyncs: u64,
    pub samples_rejected: u64,
}

/// An estimator without samples.
pub open spec fn fresh_estimator(synced: bool) -> EstimatorView {
    EstimatorView {
        window: Seq::empty(),
        synced,
        jump_run: Seq::empty(),
        resyncs: 0,
        samples_rejected: 0,
    }
}

/// Position of the first of the samples with the shortest round trip.
pub open spec fn best_index(window: Seq<Sample>) -> int
    decreases window.len(),
{
    if window.len() <= 1 {
        0
    } else {
        let b = best_index(window.drop_last());
        if window.last().rtt_us < window[b].rtt_us {
            window.len() - 1
        } else {
            b
        }
    }
}

/// The sample that the estimate comes from.
pub open spec fn best_of(window: Seq<Sample>) -> Option<Sample> {
    if window.len() == 0 {
        None
    } else {
        Some(window[best_index(window)])
    }
}

/// Samples from the first that is not before `horizon`.
pub open spec fn aged(window: Seq<Sample>, horizon: u64) -> Seq<Sample>
    decreases window.len(),
{
    if window.len() > 0 && window[0].at_us < horizon {
        aged(window.drop_first(), horizon)
    } else {
        window
    }
}

/// The time before which samples are too old when `now` is the newest.
pub open spec fn horizon_of(now: u64) -> u64 {
    if now >= WINDOW_US {
        (now - WINDOW_US) as u64
    } else {
        0
    }
}

/// A counter after one more event, held at its largest value.
pub open spec fn counted(n: u64) -> u64 {
    if n == u64::MAX {
        n
    } else {
        (n + 1) as u64
    }
}

/// Distance between two offsets.
pub open spec fn offset_distance(a: i64, b: i64) -> int {
    if a < b {
        b - a
    } else {
        a - b
    }
}

/// An estimator after a plausible sample.
pub open spec fn admitted(v: EstimatorView, s: Sample) -> (EstimatorView, EstimatorEvent) {
    let window = aged(v.window.push(s), horizon_of(s.at_us));
    let ready = window.len() >= MIN_SAMPLES_TO_SYNC;
    (
        EstimatorView { window, synced: v.synced || ready, ..v },
        if v.synced {
            EstimatorEvent::Updated
        } else if ready {
            EstimatorEvent::Synced
        } else {
            EstimatorEvent::Pending
        },
    )
}

/// An estimator after a sample.
pub open spec fn estimated(v: EstimatorView, s: Sample) -> (EstimatorView, EstimatorEvent) {
    match best_of(v.window) {
        None => admitted(v, s),
        Some(best) => if offset_distance(best.offset_us, s.offset_us) <= JUMP_THRESHOLD_US {
            admitted(EstimatorView { jump_run: Seq::empty(), ..v }, s)
        } else {
            let agrees = v.jump_run.len() == 0 || offset_distance(
                v.jump_run[0].offset_us,
                s.offset_us,
            ) <= JUMP_AGREEMENT_US;
            let run = if agrees {
                v.jump_run.push(s)
            } else {
                seq![s]
            };
            if run.len() < RESYNC_RUN {
                (
                    EstimatorView {
                        jump_run: run,
                        samples_rejected: counted(v.samples_rejected),
                        ..v
                    },
                    EstimatorEvent::Rejected,
                )
            } else {
                (
                    EstimatorView {
                        window: run,
                        synced: true,
                        jump_run: Seq::empty(),
                        resyncs: counted(v.resyncs),
                        ..v
                    },
                    EstimatorEvent::Resynced,
                )
            }
        },
    }
}

fn offset_gap(a: i64, b: i64) -> (d: u64)
    ensures
        d == offset_distance(a, b),
{
    if a < b {
        (b as i128 - a as i128) as u64
    } else {
        (a as i128 - b as i128) as u64
    }
}

/// Samples in, offset out.
#[derive(Debug)]
pub struct OffsetEstimator {
    window: VecDeque<Sample>,
    synced: bool,
    jump_run: Vec<Sample>,
    resyncs: u64,
    samples_rejected: u64,
}

impl View for OffsetEstimator {
    type V = EstimatorView;

    closed spec fn view(&self) -> EstimatorView {
        EstimatorView {
            window: self.window@,
            synced: self.synced,
            jump_run: self.jump_run@,
            resyncs: self.resyncs,
            samples_rejected: self.samples_rejected,
        }
    }
}

impl Default for OffsetEstimator {
    fn default() -> (e: Self)
        ensures
            e@ == fresh_estimator(false),
    {
        OffsetEstimator::started(false)
    }
}

proof fn lemma_best_index_range(window: Seq<Sample>)
    requires
        window.len() > 0,
    ensures
        0 <= best_index(window) < window.len(),
    decreases window.len(),
{
    if window.len() > 1 {
        lemma_best_index_range(window.drop_last());
    }
}

impl OffsetEstimator {
    /// An estimator without samples, trusted from the start or not.
    fn started(synced: bool) -> (e: Self)
        ensures
            e@ == fresh_estimator(synced),
    {
        let e = OffsetEstimator {
            window: VecDeque::new(),
            synced,
            jump_run: Vec::new(),
            resyncs: 0,
            samples_rejected: 0,
        };
        assert(e@ =~= fresh_estimator(synced));
        e
    }

    fn best(&self) -> (b: Option<Sample>)
        ensures
            b == best_of(self@.window),
    {
        if self.window.len() == 0 {
            return None;
        }
        let mut b: usize = 0;
        let mut i: usize = 1;
        proof {
            assert(self.window@.take(1).len() == 1);
        }
        while i < self.window.len()
            invariant
                1 <= i <= self.window@.len(),
                b < i,
                b == best_index(self.window@.take(i as int)),
            decreases self.window@.len() - i,
        {
            proof {
                let next = self.window@.take(i + 1);
                assert(next.drop_last() =~= self.window@.take(i as int));
                assert(next.last() == self.window@[i as int]);
                assert(next[b as int] == self.window@[b as int]);
            }
            if self.window[i].rtt_us < self.window[b].rtt_us {
                b = i;
            }
            i = i + 1;
        }
        assert(self.window@.take(i as int) =~= self.window@);
        Some(self.window[b])
    }

    /// Takes in a plausible sample.
    fn take_in(&mut self, sample: Sample) -> (event: EstimatorEvent)
        ensures
            (final(self)@, event) == admitted(old(self)@, sample),
    {
        self.window.push_back(sample);
        let horizon: u64 = sample.at_us.saturating_sub(WINDOW_US);
        let ghost full = self.window@;
        while self.window.len() > 0 && self.window[0].at_us < horizon
            invariant
                aged(self.window@, horizon) == aged(full, horizon),
                self.synced == old(self).synced,
                self.jump_run == old(self).jump_run,
                self.resyncs == old(self).resyncs,
                self.samples_rejected == old(self).samples_rejected,
            decreases self.window@.len(),
        {
            let ghost before = self.window@;
            let gone: Option<Sample> = self.window.pop_front();
            assert(self.window@ =~= before.drop_first());
        }
        if self.synced {
            EstimatorEvent::Updated
        } else if self.window.len() >= MIN_SAMPLES_TO_SYNC {
            self.synced = true;
            EstimatorEvent::Synced
        } else {
            EstimatorEvent::Pending
        }
    }

    /// Takes in a sample.
    pub fn push(&mut self, sample: Sample) -> (event: EstimatorEvent)
        ensures
            (final(self)@, event) == estimated(old(self)@, sample),
    {
        let best: Sample = match self.best() {
            Some(b) => b,
            None => {
                return self.take_in(sample);
            },
        };
        if offset_gap(best.offset_us, sample.offset_us) <= JUMP_THRESHOLD_US {
            self.jump_run = Vec::new();
            proof {
                assert(self@ =~= (EstimatorView { jump_run: Seq::empty(), ..old(self)@ }));
            }
            return self.take_in(sample);
        }
        let agrees: bool = self.jump_run.len() == 0 || offset_gap(
            self.jump_run[0].offset_us,
            sample.offset_us,
        ) <= JUMP_AGREEMENT_US;
        if !agrees {
            self.jump_run = Vec::new();
        }
        self.jump_run.push(sample);
        proof {
            if !agrees {
                assert(self.jump_run@ =~= seq![sample]);
            }
        }
        if self.jump_run.len() < RESYNC_RUN {
            self.samples_rejected = self.samples_rejected.saturating_add(1);
            return EstimatorEvent::Rejected;
        }
        let ghost run = self.jump_run@;
        let mut window: VecDeque<Sample> = VecDeque::new();
        let mut i: usize = 0;
        while i < self.jump_run.len()
            invariant
                i <= self.jump_run@.len(),
                window@ == self.jump_run@.take(i as int),
            decreases self.jump_run@.len() - i,
        {
            window.push_back(self.jump_run[i]);
            i = i + 1;
            assert(window@ =~= self.jump_run@.take(i as int));
        }
        assert(window@ =~= run);
        self.window = window;
        self.jump_run = Vec::new();
        self.resyncs = self.resyncs.saturating_add(1);
        self.synced = true;
        assert(self.jump_run@ =~= Seq::<Sample>::empty());
        EstimatorEvent::Resynced
    }

    /// Current estimate, once synced.
    pub fn offset_us(&self) -> (o: Option<i64>)
        ensures
            o == (if self@.synced {
                match best_of(self@.window) {
                    Some(s) => Some(s.offset_us),
                    None => None,
                }
            } else {
                None
            }),
    {
        if !self.synced {
            return None;
        }
        match self.best() {
            Some(s) => Some(s.offset_us),
            None => None,
        }
    }

    /// Worst-case error of the estimate: half the round trip of the sample it
    /// came from, rounded up.
    pub fn uncertainty_us(&self) -> (u: Option<u64>)
        ensures
            u == (if self@.synced {
                match best_of(self@.window) {
                    Some(s) => Some(half_up(s.rtt_us)),
                    None => None,
                }
            } else {
                None
            }),
    {
        if !self.synced {
            return None;
        }
        match self.best() {
            Some(s) => Some(s.rtt_us / 2 + s.rtt_us % 2),
            None => None,
        }
    }

    pub fn is_synced(&self) -> (b: bool)
        ensures
            b == self@.synced,
    {
        self.synced
    }

    /// Times that the timeline moved.
    pub fn resyncs(&self) -> (n: u64)
        ensures
            n == self@.resyncs,
    {
        self.resyncs
    }

    /// Samples that were ignored.
    pub fn samples_rejected(&self) -> (n: u64)
        ensures
            n == self@.samples_rejected,
    {
        self.samples_rejected
    }

    pub fn reset_counters(&mut self)
        ensures
            final(self)@ == (EstimatorView { resyncs: 0, samples_rejected: 0, ..old(self)@ }),
    {
        self.resyncs = 0;
        self.samples_rejected = 0;
    }
}

/// Half of a duration, rounded up.
pub open spec fn half_up(d: u64) -> u64 {
    (d / 2 + d % 2) as u64
}

/// The estimate comes from the sample with the shortest round trip in the
/// window.
pub proof fn law_estimate_uses_the_shortest_round_trip(window: Seq<Sample>, i: int)
    requires
        0 <= i < window.len(),
    ensures
        best_of(window) matches Some(b) && window.contains(b) && b.rtt_us <= window[i].rtt_us,
    decreases window.len(),
{
    lemma_best_index_range(window);
    if window.len() > 1 {
        let front = window.drop_last();
        lemma_best_index_range(front);
        if i < window.len() - 1 {
            law_estimate_uses_the_shortest_round_trip(front, i);
            assert(front[best_index(front)] == window[best_index(front)]);
            assert(front[i] == window[i]);
        }
    }
    assert(window.contains(window[best_index(window)]));
}

/// A rejected sample leaves the estimate as it was.
pub proof fn law_rejected_samples_change_nothing(v: EstimatorView, s: Sample)
    ensures
        estimated(v, s).1 == EstimatorEvent::Rejected ==> estimated(v, s).0.window == v.window
            && estimated(v, s).0.synced == v.synced,
{
}

/// A window that has samples keeps one: the newest sample is never too old.
proof fn lemma_aged_keeps_newest(window: Seq<Sample>, horizon: u64)
    requires
        window.len() > 0,
        window.last().at_us >= horizon,
    ensures
        aged(window, horizon).len() > 0,
        aged(window, horizon).last() == window.last(),
    decreases window.len(),
{
    if window[0].at_us < horizon {
        lemma_aged_keeps_newest(window.drop_first(), horizon);
    }
}

/// An estimator that has taken in a sample has an estimate from then on, as
/// soon as it is synced; and once synced it stays synced.
pub proof fn law_synced_stays_synced(v: EstimatorView, s: Sample)
    ensures
        v.synced ==> estimated(v, s).0.synced,
        estimated(v, s).0.window.len() > 0,
{
    let (after, _) = estimated(v, s);
    match best_of(v.window) {
        None => lemma_aged_keeps_newest(v.window.push(s), horizon_of(s.at_us)),
        Some(best) => {
            lemma_aged_keeps_newest(v.window.push(s), horizon_of(s.at_us));
        },
    }
}

// ---------------------------------------------------------------------------
// Monotonic clock
// ---------------------------------------------------------------------------

/// `raw` shifted by a signed amount, held at the ends of the range.
pub open spec fn shifted(raw: u64, by: i64) -> u64 {
    if raw + by < 0 {
        0
    } else if raw + by > u64::MAX {
        u64::MAX
    } else {
        (raw + by) as u64
    }
}

/// Shifts a time by a signed amount, held at the ends of the range.
pub fn shift_time(raw: u64, by: i64) -> (t: u64)
    ensures
        t == shifted(raw, by),
{
    let sum: i128 = raw as i128 + by as i128;
    if sum < 0 {
        0
    } else if sum > u64::MAX as i128 {
        u64::MAX
    } else {
        sum as u64
    }
}

/// Turns a raw local time and the current offset into timestamps that
/// strictly increase. Forward corrections apply at once; backward ones are
/// absorbed gradually.
#[derive(Debug, Clone, Copy, PartialEq, Eq, Structural)]
pub struct MonotonicClock {
    pub applied_offset_us: i64,
    pub target_offset_us: i64,
    pub last_raw_us: Option<u64>,
    pub last_out_us: u64,
}

/// Raw time since the last reading.
pub open spec fn elapsed_us(c: MonotonicClock, raw_us: u64) -> u64 {
    match c.last_raw_us {
        Some(last) => if raw_us >= last {
            (raw_us - last) as u64
        } else {
            0
        },
        None => 0,
    }
}

/// The offset in effect at a reading: what is too much is taken back by at
/// most a fixed fraction of the elapsed time.
pub open spec fn slewed(c: MonotonicClock, raw_us: u64) -> i64 {
    let step = elapsed_us(c, raw_us) as int / SLEW_DIVISOR as int;
    if c.applied_offset_us <= c.target_offset_us {
        c.applied_offset_us
    } else if c.applied_offset_us - step >= c.target_offset_us {
        (c.applied_offset_us - step) as i64
    } else {
        c.target_offset_us
    }
}

/// The clock after a reading, which is its `last_out_us`.
pub open spec fn ticked(c: MonotonicClock, raw_us: u64) -> MonotonicClock {
    let candidate = shifted(raw_us, slewed(c, raw_us));
    MonotonicClock {
        applied_offset_us: slewed(c, raw_us),
        target_offset_us: c.target_offset_us,
        last_raw_us: Some(raw_us),
        last_out_us: if candidate > c.last_out_us {
            candidate
        } else {
            (c.last_out_us + 1) as u64
        },
    }
}

impl Default for MonotonicClock {
    fn default() -> (c: Self)
        ensures
            c.applied_offset_us == 0,
            c.target_offset_us == 0,
            c.last_raw_us is None,
            c.last_out_us == 0,
    {
        MonotonicClock {
            applied_offset_us: 0,
            target_offset_us: 0,
            last_raw_us: None,
            last_out_us: 0,
        }
    }
}

impl MonotonicClock {
    /// Sets the offset to aim for. A later time applies at once.
    pub fn set_target(&mut self, offset_us: i64)
        ensures
            *final(self) == (MonotonicClock {
                target_offset_us: offset_us,
                applied_offset_us: if offset_us > old(self).applied_offset_us {
                    offset_us
                } else {
                    old(self).applied_offset_us
                },
                ..*old(self)
            }),
    {
        self.target_offset_us = offset_us;
        if offset_us > self.applied_offset_us {
            self.applied_offset_us = offset_us;
        }
    }

    /// Reads the clock at a raw local time.
    pub fn now(&mut self, raw_us: u64) -> (t: u64)
        requires
            old(self).last_out_us < u64::MAX,
        ensures
            *final(self) == ticked(*old(self), raw_us),
            t == final(self).last_out_us,
            t > old(self).last_out_us,
    {
        let elapsed: u64 = match self.last_raw_us {
            Some(last) => raw_us.saturating_sub(last),
            None => 0,
        };
        self.last_raw_us = Some(raw_us);
        let behind: i128 = self.applied_offset_us as i128 - self.target_offset_us as i128;
        if behind > 0 {
            let limit: u64 = elapsed / SLEW_DIVISOR;
            let step: i128 = if (limit as i128) < behind {
                limit as i128
            } else {
                behind
            };
            self.applied_offset_us = (self.applied_offset_us as i128 - step) as i64;
        }
        let candidate: u64 = shift_time(raw_us, self.applied_offset_us);
        self.last_out_us = if candidate > self.last_out_us {
            candidate
        } else {
            self.last_out_us + 1
        };
        self.last_out_us
    }

    /// Offset in effect, which lags the target while it is taken back.
    pub fn applied_offset_us(&self) -> (o: i64)
        ensures
            o == self.applied_offset_us,
    {
        self.applied_offset_us
    }
}

/// Two readings are never the same and never go backwards, whatever the raw
/// time and the estimate do in between.
pub proof fn law_clock_strictly_increases(c: MonotonicClock, raw_us: u64)
    requires
        c.last_out_us < u64::MAX,
    ensures
        ticked(c, raw_us).last_out_us > c.last_out_us,
{
}

/// While a backward correction is absorbed the clock still runs at no less
/// than 95% of real speed.
pub proof fn law_clock_runs_at_95_percent(c: MonotonicClock, raw0: u64, raw1: u64)
    requires
        c.last_raw_us == Some(raw0),
        raw1 >= raw0,
        c.last_out_us == raw0 + c.applied_offset_us,
        c.last_out_us < u64::MAX,
        0 <= raw1 + slewed(c, raw1) <= u64::MAX,
    ensures
        20 * (ticked(c, raw1).last_out_us - c.last_out_us) >= 19 * (raw1 - raw0),
{
    let elapsed = raw1 - raw0;
    assert(slewed(c, raw1) >= c.applied_offset_us - elapsed / 20);
    assert(ticked(c, raw1).last_out_us >= raw1 + slewed(c, raw1));
}

/// A forward correction is in effect at the very next reading.
pub proof fn law_forward_correction_is_immediate(c: MonotonicClock, offset: i64, raw_us: u64)
    requires
        c.target_offset_us == offset,
        c.applied_offset_us == offset,
        c.last_out_us < raw_us + offset <= u64::MAX,
    ensures
        ticked(c, raw_us).last_out_us == raw_us + offset,
{
}

/// A backward correction never overshoots, and never moves the offset the
/// wrong way.
pub proof fn law_backward_correction_is_gradual(c: MonotonicClock, raw_us: u64)
    requires
        c.applied_offset_us >= c.target_offset_us,
    ensures
        c.target_offset_us <= slewed(c, raw_us) <= c.applied_offset_us,
        c.applied_offset_us - slewed(c, raw_us) <= elapsed_us(c, raw_us) / SLEW_DIVISOR,
{
}

// ---------------------------------------------------------------------------
// Synced clock
// ---------------------------------------------------------------------------

/// The clock that a portal reads. It outlives connections, so its time stays
/// continuous across a reconnect.
#[derive(Debug)]
pub struct SyncedClock {
    pub is_reference: bool,
    pub source: TimeSyncSource,
    pub skew_us: i64,
    pub clock: MonotonicClock,
    pub estimator: OffsetEstimator,
    /// Robot that the samples came from. Another robot means another
    /// timeline, so the estimator starts over.
    pub robot_identity: Option<String>,
}

/// Whether two optional identities are the same.
pub open spec fn same_identity(a: Option<String>, b: Seq<char>) -> bool {
    a matches Some(x) && x@ == b
}

fn is_identity(a: &Option<String>, b: &str) -> (r: bool)
    ensures
        r == same_identity(*a, b@),
{
    match a {
        Some(x) => text::same(x.as_str(), b),
        None => false,
    }
}

impl SyncedClock {
    /// The robot's own clock is the timeline, so as the reference it is synced
    /// from the start. The skew shifts the raw clock.
    pub fn new(is_reference: bool, skew_us: i64) -> (c: Self)
        ensures
            c.is_reference == is_reference,
            c.source == TimeSyncSource::Portal,
            c.skew_us == skew_us,
            c.clock == (MonotonicClock {
                applied_offset_us: 0,
                target_offset_us: 0,
                last_raw_us: None,
                last_out_us: 0,
            }),
            c.estimator@ == fresh_estimator(is_reference),
            c.robot_identity is None,
    {
        SyncedClock {
            is_reference,
            source: TimeSyncSource::Portal,
            skew_us,
            clock: MonotonicClock::default(),
            estimator: OffsetEstimator::started(is_reference),
            robot_identity: None,
        }
    }

    /// Where the time comes from. A clock that trusts the host still measures
    /// the robot's, but keeps the offset that it applies.
    pub fn set_source(&mut self, source: TimeSyncSource)
        ensures
            *final(self) == (SyncedClock { source, ..*old(self) }),
    {
        self.source = source;
    }

    /// Reads the clock at a raw local time.
    pub fn now_us(&mut self, raw_now_us: u64) -> (t: u64)
        requires
            old(self).clock.last_out_us < u64::MAX,
        ensures
            final(self).clock == ticked(old(self).clock, shifted(raw_now_us, old(self).skew_us)),
            t == final(self).clock.last_out_us,
            t > old(self).clock.last_out_us,
            final(self).is_reference == old(self).is_reference,
            final(self).source == old(self).source,
            final(self).skew_us == old(self).skew_us,
            final(self).estimator == old(self).estimator,
            final(self).robot_identity == old(self).robot_identity,
    {
        let raw: u64 = shift_time(raw_now_us, self.skew_us);
        self.clock.now(raw)
    }

    /// The raw local time on which pings and pongs are taken.
    pub fn raw_us(&self, raw_now_us: u64) -> (t: u64)
        ensures
            t == shifted(raw_now_us, self.skew_us),
    {
        shift_time(raw_now_us, self.skew_us)
    }

    pub fn is_synced(&self) -> (b: bool)
        ensures
            b == self.estimator@.synced,
    {
        self.estimator.is_synced()
    }

    pub fn metrics(&self) -> (m: TimeSyncMetrics)
        ensures
            m.source == self.source,
            m.synced == self.estimator@.synced,
            m.offset_us == self.clock.applied_offset_us,
            m.uncertainty_us == (if self.is_reference {
                Some(0)
            } else if self.estimator@.synced {
                match best_of(self.estimator@.window) {
                    Some(s) => Some(half_up(s.rtt_us)),
                    None => None,
                }
            } else {
                None
            }),
            m.measured_offset_us == measured(self.estimator@),
            m.resyncs == self.estimator@.resyncs,
            m.samples_rejected == self.estimator@.samples_rejected,
    {
        TimeSyncMetrics {
            source: self.source,
            synced: self.estimator.is_synced(),
            offset_us: self.clock.applied_offset_us(),
            uncertainty_us: if self.is_reference {
                Some(0)
            } else {
                self.estimator.uncertainty_us()
            },
            measured_offset_us: self.estimator.offset_us(),
            resyncs: self.estimator.resyncs(),
            samples_rejected: self.estimator.samples_rejected(),
        }
    }

    pub fn reset_counters(&mut self)
        ensures
            final(self).estimator@ == (EstimatorView {
                resyncs: 0,
                samples_rejected: 0,
                ..old(self).estimator@
            }),
            final(self).clock == old(self).clock,
            final(self).is_reference == old(self).is_reference,
            final(self).source == old(self).source,
            final(self).skew_us == old(self).skew_us,
            final(self).robot_identity == old(self).robot_identity,
    {
        self.estimator.reset_counters();
    }

    /// Drops the estimate but keeps the applied offset, so that time stays
    /// continuous until a new estimate arrives.
    pub fn restart(&mut self, robot_identity: Option<String>)
        ensures
            final(self).estimator@ == fresh_estimator(false),
            final(self).robot_identity == robot_identity,
            final(self).clock == old(self).clock,
            final(self).is_reference == old(self).is_reference,
            final(self).source == old(self).source,
            final(self).skew_us == old(self).skew_us,
    {
        self.estimator = OffsetEstimator::default();
        self.robot_identity = robot_identity;
    }

    /// Takes in a sample from a robot.
    pub fn record(&mut self, robot_identity: &str, sample: Sample) -> (event: EstimatorEvent)
        ensures
            ({
                let known = same_identity(old(self).robot_identity, robot_identity@);
                let before = if known {
                    old(self).estimator@
                } else {
                    fresh_estimator(false)
                };
                &&& (final(self).estimator@, event) == estimated(before, sample)
                &&& same_identity(final(self).robot_identity, robot_identity@)
                &&& final(self).clock == steered(
                    old(self).source,
                    old(self).clock,
                    final(self).estimator@,
                )
                &&& final(self).is_reference == old(self).is_reference
                &&& final(self).source == old(self).source
                &&& final(self).skew_us == old(self).skew_us
            }),
            old(self).source == TimeSyncSource::Portal && final(self).estimator@.synced
                ==> measured(final(self).estimator@) == Some(final(self).clock.target_offset_us)
                && final(self).clock.applied_offset_us >= final(self).clock.target_offset_us,
    {
        if !is_identity(&self.robot_identity, robot_identity) {
            self.estimator = OffsetEstimator::default();
            self.robot_identity = Some(robot_identity.to_owned());
        }
        let ghost before = self.estimator@;
        let event: EstimatorEvent = self.estimator.push(sample);
        proof {
            law_synced_stays_synced(before, sample);
        }
        if self.source == TimeSyncSource::Portal {
            match self.estimator.offset_us() {
                Some(offset) => {
                    self.clock.set_target(offset);
                },
                None => {},
            }
        }
        event
    }
}

/// The offset that was measured.
pub open spec fn measured(v: EstimatorView) -> Option<i64> {
    match best_of(v.window) {
        Some(s) => if v.synced {
            Some(s.offset_us)
        } else {
            None
        },
        None => None,
    }
}

/// The clock after an estimate: it aims for it, unless it trusts the host.
pub open spec fn steered(
    source: TimeSyncSource,
    c: MonotonicClock,
    v: EstimatorView,
) -> MonotonicClock {
    match source {
        TimeSyncSource::Portal => aimed(c, v),
        TimeSyncSource::System => c,
    }
}

/// The clock once it aims for the current estimate.
pub open spec fn aimed(c: MonotonicClock, v: EstimatorView) -> MonotonicClock {
    match best_of(v.window) {
        Some(s) => if v.synced {
            MonotonicClock {
                target_offset_us: s.offset_us,
                applied_offset_us: if s.offset_us > c.applied_offset_us {
                    s.offset_us
                } else {
                    c.applied_offset_us
                },
                ..c
            }
        } else {
            c
        },
        None => c,
    }
}

// ---------------------------------------------------------------------------
// Exchange
// ---------------------------------------------------------------------------

/// Time until the next ping.
pub fn ping_interval_us(synced: bool) -> (t: u64)
    ensures
        t == (if synced {
            SYNCED_PING_INTERVAL_US
        } else {
            UNSYNCED_PING_INTERVAL_US
        }),
        synced ==> t == 1_000_000,
        !synced ==> t == 250_000,
{
    if synced {
        SYNCED_PING_INTERVAL_US
    } else {
        UNSYNCED_PING_INTERVAL_US
    }
}

/// What a peer does about a clock packet.
#[derive(Debug)]
pub enum ClockAction {
    Ignore,
    /// Send this packet back to its sender.
    Answer(ClockPacket),
    /// A sample was taken in.
    Sampled(EstimatorEvent),
}

impl ClockAction {
    /// Whether the application is to be told that the clock is synced.
    pub fn announces_sync(&self) -> (b: bool)
        ensures
            b == (*self == ClockAction::Sampled(EstimatorEvent::Synced) || *self
                == ClockAction::Sampled(EstimatorEvent::Resynced)),
    {
        match self {
            ClockAction::Sampled(EstimatorEvent::Synced) => true,
            ClockAction::Sampled(EstimatorEvent::Resynced) => true,
            _ => false,
        }
    }
}

/// The exchange that a pong completes when it arrives at `t4`.
pub open spec fn completed(p: ClockPacket, t4: u64) -> Exchange {
    match p {
        ClockPacket::Pong { t1, t2, t3, .. } => Exchange { t1, t2, t3, t4 },
        ClockPacket::Ping { t1, .. } => Exchange { t1, t2: 0, t3: 0, t4 },
    }
}

/// Whether a packet is a pong that gives a sample: it reached a peer that is
/// not the robot, from the robot, with consistent times.
pub open spec fn gives_sample(
    role: Role,
    packet: ClockPacket,
    sender: Seq<char>,
    robot_identity: Option<String>,
    t4: u64,
) -> bool {
    &&& role != Role::Robot
    &&& packet is Pong
    &&& same_identity(robot_identity, sender)
    &&& consistent(completed(packet, t4))
}

/// Decides on a clock packet that arrived at `received_raw_us`. The robot
/// answers pings, with `send_raw_us` as the time of its answer; every other
/// peer takes in the pongs of the robot.
pub fn handle_clock_packet(
    role: Role,
    packet: ClockPacket,
    sender: &str,
    robot_identity: &Option<String>,
    received_raw_us: u64,
    send_raw_us: u64,
    clock: &mut SyncedClock,
    metrics: &mut MetricsRegistry,
) -> (action: ClockAction)
    requires
        old(metrics).wf(),
    ensures
        final(metrics).wf(),
        final(clock).is_reference == old(clock).is_reference,
        final(clock).source == old(clock).source,
        final(clock).skew_us == old(clock).skew_us,
        ({
            let sampled = gives_sample(role, packet, sender@, *robot_identity, received_raw_us);
            let sample = sample_of(completed(packet, received_raw_us));
            if sampled {
                let known = same_identity(old(clock).robot_identity, sender@);
                let before = if known {
                    old(clock).estimator@
                } else {
                    fresh_estimator(false)
                };
                &&& action == ClockAction::Sampled(estimated(before, sample).1)
                &&& final(clock).estimator@ == estimated(before, sample).0
                &&& final(clock).clock == steered(
                    old(clock).source,
                    old(clock).clock,
                    final(clock).estimator@,
                )
                &&& same_identity(final(clock).robot_identity, sender@)
                &&& final(metrics)@ == crate::metrics::rtt_recorded(old(metrics)@, sample.rtt_us)
            } else {
                &&& *final(clock) == *old(clock)
                &&& final(metrics)@ == old(metrics)@
                &&& action == (match (role, packet) {
                    (Role::Robot, ClockPacket::Ping { seq, t1 }) => ClockAction::Answer(
                        ClockPacket::Pong { seq, t1, t2: received_raw_us, t3: send_raw_us },
                    ),
                    _ => ClockAction::Ignore,
                })
            }
        }),
{
    match packet {
        ClockPacket::Ping { seq, t1 } => match role {
            Role::Robot => ClockAction::Answer(
                ClockPacket::Pong { seq, t1, t2: received_raw_us, t3: send_raw_us },
            ),
            Role::Operator | Role::Observer => ClockAction::Ignore,
        },
        ClockPacket::Pong { seq: _, t1, t2, t3 } => {
            if role == Role::Robot || !is_identity(robot_identity, sender) {
                return ClockAction::Ignore;
            }
            let exchange = Exchange { t1, t2, t3, t4: received_raw_us };
            match Sample::try_from(exchange) {
                Some(sample) => {
                    metrics.record_rtt(sample.rtt_us);
                    ClockAction::Sampled(clock.record(sender, sample))
                },
                None => ClockAction::Ignore,
            }
        },
    }
}

/// The ping to send at `t1`, once a robot is known.
pub fn next_ping(
    robot_identity: &Option<String>,
    seq: u32,
    t1: u64,
    metrics: &mut MetricsRegistry,
) -> (ping: Option<(ClockPacket, String)>)
    requires
        old(metrics).wf(),
    ensures
        final(metrics).wf(),
        match ping {
            Some(p) => {
                &&& *robot_identity == Some(p.1)
                &&& p.0 == (ClockPacket::Ping { seq, t1 })
                &&& final(metrics)@ == (crate::metrics::MetricsView {
                    pings_sent: crate::metrics::bumped(old(metrics)@.pings_sent, 1),
                    ..old(metrics)@
                })
            },
            None => *robot_identity is None && final(metrics)@ == old(metrics)@,
        },
{
    match robot_identity {
        Some(robot) => {
            metrics.record_ping_sent();
            Some((ClockPacket::Ping { seq, t1 }, robot.clone()))
        },
        None => None,
    }
}

} // verus!
