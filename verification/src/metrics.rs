//! Counters, rolling samples and snapshots of a running session.
use crate::name_map::NameMap;
use crate::types::TimeSyncSource;
use vstd::prelude::*;
use vstd::relations::*;
use vstd::seq_lib::*;

verus! {

/// Number of samples that a rolling window keeps.
pub const SAMPLE_RING_CAP: usize = 256;

// ---------------------------------------------------------------------------
// Rolling samples
// ---------------------------------------------------------------------------

/// A window of at most `cap` samples, oldest first, after one more arrives.
pub open spec fn pushed(samples: Seq<u64>, v: u64, cap: nat) -> Seq<u64> {
    if samples.len() < cap {
        samples.push(v)
    } else {
        samples.drop_first().push(v)
    }
}

/// The usual order of numbers.
pub open spec fn at_most() -> spec_fn(u64, u64) -> bool {
    |a: u64, b: u64| a <= b
}

/// Sum of a sequence of samples.
pub open spec fn total(samples: Seq<u64>) -> nat
    decreases samples.len(),
{
    if samples.len() == 0 {
        0
    } else {
        total(samples.drop_last()) + samples.last() as nat
    }
}

/// Position of the given percentile among `len` sorted samples: the nearest
/// rank, halves up.
pub open spec fn percentile_rank(percent: nat, len: nat) -> nat {
    let rank = (percent * (len - 1) + 50) as nat / 100;
    if rank < len {
        rank
    } else {
        (len - 1) as nat
    }
}

/// The given percentile of a set of samples.
pub open spec fn percentile_of(samples: Seq<u64>, percent: nat) -> Option<u64> {
    if samples.len() == 0 {
        None
    } else {
        Some(samples.sort_by(at_most())[percentile_rank(percent, samples.len()) as int])
    }
}

/// The mean of a set of samples, rounded down.
pub open spec fn mean_of(samples: Seq<u64>) -> Option<u64> {
    if samples.len() == 0 {
        None
    } else {
        Some((total(samples) / samples.len()) as u64)
    }
}

proof fn lemma_total_concat(a: Seq<u64>, b: Seq<u64>)
    ensures
        total(a + b) == total(a) + total(b),
    decreases b.len(),
{
    if b.len() == 0 {
        assert(a + b =~= a);
    } else {
        lemma_total_concat(a, b.drop_last());
        assert((a + b).drop_last() =~= a + b.drop_last());
    }
}

proof fn lemma_at_most_is_order()
    ensures
        total_ordering(at_most()),
{
}

/// Fixed-capacity ring of samples for percentiles and means in bounded
/// memory.
#[derive(Debug)]
pub struct SampleRing {
    buf: Vec<u64>,
    cap: usize,
    idx: usize,
    len: usize,
}

impl View for SampleRing {
    type V = Seq<u64>;

    /// The samples in the window, oldest first.
    closed spec fn view(&self) -> Seq<u64> {
        if self.len < self.cap {
            self.buf@.take(self.len as int)
        } else {
            self.buf@.skip(self.idx as int) + self.buf@.take(self.idx as int)
        }
    }
}

impl SampleRing {
    pub closed spec fn wf(&self) -> bool {
        &&& self.buf@.len() == self.cap
        &&& self.len <= self.cap
        &&& self.len < self.cap ==> self.idx == self.len
        &&& self.cap > 0 ==> self.idx < self.cap
        &&& self.cap == 0 ==> self.idx == 0
    }

    /// Number of samples that the window keeps.
    pub closed spec fn capacity(&self) -> nat {
        self.cap as nat
    }

    /// A ring never holds more samples than its capacity.
    pub proof fn law_ring_is_bounded(&self)
        requires
            self.wf(),
        ensures
            self@.len() <= self.capacity(),
    {
    }

    pub fn new(cap: usize) -> (r: Self)
        ensures
            r.wf(),
            r.capacity() == cap,
            r@ == Seq::<u64>::empty(),
    {
        let mut buf: Vec<u64> = Vec::new();
        let mut i: usize = 0;
        while i < cap
            invariant
                i <= cap,
                buf@.len() == i,
            decreases cap - i,
        {
            buf.push(0);
            i = i + 1;
        }
        let r = SampleRing { buf, cap, idx: 0, len: 0 };
        assert(r@ =~= Seq::<u64>::empty());
        r
    }

    /// Adds a sample; when the window is full the oldest one leaves.
    pub fn push(&mut self, v: u64)
        requires
            old(self).wf(),
            old(self).capacity() > 0,
        ensures
            final(self).wf(),
            final(self).capacity() == old(self).capacity(),
            final(self)@ == pushed(old(self)@, v, old(self).capacity()),
    {
        let ghost before = *self;
        self.buf.set(self.idx, v);
        self.idx = if self.idx + 1 == self.cap {
            0
        } else {
            self.idx + 1
        };
        if self.len < self.cap {
            self.len = self.len + 1;
        }
        proof {
            assert(self@ =~= pushed(before@, v, before.capacity()));
        }
    }

    /// Forgets every sample.
    pub fn clear(&mut self)
        requires
            old(self).wf(),
        ensures
            final(self).wf(),
            final(self).capacity() == old(self).capacity(),
            final(self)@ == Seq::<u64>::empty(),
    {
        self.idx = 0;
        self.len = 0;
        assert(self@ =~= Seq::<u64>::empty());
    }

    /// Number of samples in the window.
    pub fn len(&self) -> (n: usize)
        requires
            self.wf(),
        ensures
            n == self@.len(),
    {
        self.len
    }

    proof fn lemma_same_samples(&self)
        requires
            self.wf(),
        ensures
            self@.len() == self.len,
            self@.to_multiset() == self.buf@.take(self.len as int).to_multiset(),
            total(self@) == total(self.buf@.take(self.len as int)),
    {
        if self.len == self.cap {
            let a = self.buf@.skip(self.idx as int);
            let b = self.buf@.take(self.idx as int);
            lemma_multiset_commutative(a, b);
            lemma_multiset_commutative(b, a);
            lemma_total_concat(a, b);
            lemma_total_concat(b, a);
            assert(b + a =~= self.buf@.take(self.len as int));
            assert(a.to_multiset().add(b.to_multiset()) =~= b.to_multiset().add(a.to_multiset()));
        }
    }

    /// The samples in ascending order.
    fn sorted(&self) -> (v: Vec<u64>)
        requires
            self.wf(),
        ensures
            v@ == self@.sort_by(at_most()),
            v@.len() == self@.len(),
    {
        let mut v: Vec<u64> = Vec::new();
        let mut i: usize = 0;
        proof {
            assert(v@ =~= self.buf@.take(0));
        }
        while i < self.len
            invariant
                self.wf(),
                i <= self.len,
                v@.len() == i,
                sorted_by(v@, at_most()),
                v@.to_multiset() == self.buf@.take(i as int).to_multiset(),
            decreases self.len - i,
        {
            let x: u64 = self.buf[i];
            let mut at: usize = v.len();
            while at > 0 && v[at - 1] > x
                invariant
                    at <= v@.len(),
                    sorted_by(v@, at_most()),
                    forall|k: int| at <= k < v@.len() ==> #[trigger] v@[k] > x,
                decreases at,
            {
                at = at - 1;
            }
            let ghost before = v@;
            v.insert(at, x);
            proof {
                to_multiset_insert(before, at as int, x);
                to_multiset_build(self.buf@.take(i as int), x);
                assert(self.buf@.take(i + 1) =~= self.buf@.take(i as int).push(x));
                assert forall|p: int, q: int| 0 <= p < q < v@.len() implies #[trigger] at_most()(
                    v@[p],
                    v@[q],
                ) by {
                    let p0 = if p < at {
                        p
                    } else {
                        p - 1
                    };
                    let q0 = if q < at {
                        q
                    } else {
                        q - 1
                    };
                    if p != at && q != at {
                        assert(at_most()(before[p0], before[q0]));
                    } else if q == at {
                        if p < at - 1 {
                            assert(at_most()(before[p], before[at - 1]));
                        }
                    }
                }
            }
            i = i + 1;
        }
        proof {
            self.lemma_same_samples();
            lemma_at_most_is_order();
            self@.lemma_sort_by_ensures(at_most());
            lemma_sorted_unique(v@, self@.sort_by(at_most()), at_most());
            to_multiset_len(v@);
            to_multiset_len(self@);
        }
        v
    }

    /// The sample at the given percentile, by nearest rank.
    pub fn percentile(&self, percent: u32) -> (p: Option<u64>)
        requires
            self.wf(),
        ensures
            p == percentile_of(self@, percent as nat),
    {
        proof {
            self.lemma_same_samples();
        }
        if self.len == 0 {
            return None;
        }
        let v: Vec<u64> = self.sorted();
        let n: u128 = self.len as u128 - 1;
        proof {
            assert(percent * n <= 0xffff_ffff * 0xffff_ffff_ffff_ffff) by (nonlinear_arith)
                requires
                    0 <= percent <= 0xffff_ffff,
                    0 <= n <= 0xffff_ffff_ffff_ffff,
            ;
        }
        let rank: u128 = (percent as u128 * n + 50) / 100;
        if rank < self.len as u128 {
            Some(v[rank as usize])
        } else {
            Some(v[self.len - 1])
        }
    }

    /// The mean of the samples, rounded down.
    pub fn mean(&self) -> (m: Option<u64>)
        requires
            self.wf(),
        ensures
            m == mean_of(self@),
    {
        proof {
            self.lemma_same_samples();
        }
        if self.len == 0 {
            return None;
        }
        let mut sum: u128 = 0;
        let mut i: usize = 0;
        proof {
            assert(self.buf@.take(0) =~= Seq::<u64>::empty());
        }
        while i < self.len
            invariant
                self.wf(),
                i <= self.len,
                sum == total(self.buf@.take(i as int)),
                sum <= i * 0xffff_ffff_ffff_ffff,
            decreases self.len - i,
        {
            proof {
                let next = self.buf@.take(i + 1);
                assert(next.drop_last() =~= self.buf@.take(i as int));
                assert(next.last() == self.buf@[i as int]);
                assert(i * 0xffff_ffff_ffff_ffff <= 0xffff_ffff_ffff_ffff * 0xffff_ffff_ffff_ffff)
                    by (nonlinear_arith)
                    requires
                        0 <= i <= 0xffff_ffff_ffff_ffff,
                ;
            }
            sum = sum + self.buf[i] as u128;
            i = i + 1;
        }
        let n: u128 = self.len as u128;
        proof {
            assert(sum / n <= 0xffff_ffff_ffff_ffff) by (nonlinear_arith)
                requires
                    sum <= n * 0xffff_ffff_ffff_ffff,
                    n > 0,
            ;
        }
        Some((sum / n) as u64)
    }
}

// ---------------------------------------------------------------------------
// Inter-arrival jitter
// ---------------------------------------------------------------------------

/// RFC 3550 inter-arrival jitter of one stream.
#[derive(Debug, Clone, Copy, PartialEq, Eq, Structural)]
pub struct JitterState {
    pub last_send_ts: Option<u64>,
    pub last_recv_ts: Option<u64>,
    pub jitter_us: u64,
}

/// `J + (D - J) / 16`, the division towards zero.
pub open spec fn smoothed(jitter: u64, deviation: u64) -> u64 {
    if deviation >= jitter {
        (jitter + (deviation - jitter) / 16) as u64
    } else {
        (jitter - (jitter - deviation) / 16) as u64
    }
}

/// How much the transit time differs between two packets, kept to 64 bits.
pub open spec fn transit_deviation(send0: u64, recv0: u64, send1: u64, recv1: u64) -> u64 {
    let d = (recv1 - recv0) - (send1 - send0);
    ((if d < 0 {
        -d
    } else {
        d
    }) % 0x1_0000_0000_0000_0000) as u64
}

/// The estimate after one more packet.
pub open spec fn jitter_after(j: JitterState, send_ts_us: u64, recv_ts_us: u64) -> JitterState {
    JitterState {
        last_send_ts: Some(send_ts_us),
        last_recv_ts: Some(recv_ts_us),
        jitter_us: match (j.last_send_ts, j.last_recv_ts) {
            (Some(s), Some(r)) => smoothed(
                j.jitter_us,
                transit_deviation(s, r, send_ts_us, recv_ts_us),
            ),
            _ => j.jitter_us,
        },
    }
}

impl Default for JitterState {
    fn default() -> (j: Self)
        ensures
            j.last_send_ts is None,
            j.last_recv_ts is None,
            j.jitter_us == 0,
    {
        JitterState { last_send_ts: None, last_recv_ts: None, jitter_us: 0 }
    }
}

impl JitterState {
    /// Takes in one packet: `J = J + (|D| - J) / 16` with
    /// `D = (recv - last_recv) - (send - last_send)`.
    pub fn sample(&mut self, send_ts_us: u64, recv_ts_us: u64)
        ensures
            *final(self) == jitter_after(*old(self), send_ts_us, recv_ts_us),
    {
        match (self.last_send_ts, self.last_recv_ts) {
            (Some(s), Some(r)) => {
                let late: u128 = recv_ts_us as u128 + s as u128;
                let early: u128 = r as u128 + send_ts_us as u128;
                let gap: u128 = if late >= early {
                    late - early
                } else {
                    early - late
                };
                let d: u64 = (gap % 0x1_0000_0000_0000_0000) as u64;
                let j: u64 = self.jitter_us;
                self.jitter_us = if d >= j {
                    j + (d - j) / 16
                } else {
                    j - (j - d) / 16
                };
            },
            _ => {},
        }
        self.last_send_ts = Some(send_ts_us);
        self.last_recv_ts = Some(recv_ts_us);
    }
}

// ---------------------------------------------------------------------------
// Snapshots
// ---------------------------------------------------------------------------

/// Snapshot of a session. Counters are cumulative since construction or the
/// last reset; gauges reflect the moment.
#[derive(Debug, Clone)]
pub struct PortalMetrics {
    pub sync: SyncMetrics,
    pub transport: TransportMetrics,
    pub buffers: BufferMetrics,
    pub rtt: RttMetrics,
    pub policy: PolicyMetrics,
}

#[derive(Debug, Clone)]
pub struct SyncMetrics {
    pub observations_emitted: u64,
    /// Observations in which at least one track contributed a reused frame.
    pub stale_observations_emitted: u64,
    pub states_dropped: u64,
    /// Placeholders that stood in for a silent track, by track.
    pub frames_omitted: NameMap<u64>,
    /// Worst per-track distance between state and frame in each emitted
    /// observation, over the rolling window.
    pub match_delta_us_p50: Option<u64>,
    pub match_delta_us_p95: Option<u64>,
    /// The most recent track that stalled the sync. It stays after things
    /// recover.
    pub last_blocker_track: Option<String>,
}

#[derive(Debug, Clone)]
pub struct TransportMetrics {
    pub frames_sent: NameMap<u64>,
    pub frames_received: NameMap<u64>,
    /// Frames that the publisher dropped because its queue was at the cap.
    pub frames_dropped_publisher_full: NameMap<u64>,
    /// Bytes encoded and queued for sending, framing header included.
    pub bytes_sent: NameMap<u64>,
    /// Bytes received, framing header included.
    pub bytes_received: NameMap<u64>,
    pub states_sent: u64,
    pub states_received: u64,
    pub actions_sent: u64,
    pub actions_received: u64,
    pub action_chunks_sent: u64,
    pub action_chunks_received: u64,
    /// RFC 3550 inter-arrival jitter estimates.
    pub frame_jitter_us: NameMap<u64>,
    pub state_jitter_us: u64,
    pub action_jitter_us: u64,
    pub action_chunk_jitter_us: u64,
}

/// End-to-end policy latency: from the observation timestamp that an action
/// answers to, to the local receive time of that action.
#[derive(Debug, Clone)]
pub struct PolicyMetrics {
    pub e2e_us_p50: Option<u64>,
    pub e2e_us_p95: Option<u64>,
    /// Actions received that carry such a timestamp.
    pub correlated_received: u64,
}

#[derive(Debug, Clone)]
pub struct BufferMetrics {
    pub video_fill: NameMap<usize>,
    pub state_fill: usize,
    /// Frames that left a full video buffer, by track.
    pub evictions: NameMap<u64>,
}

#[derive(Debug, Clone)]
pub struct RttMetrics {
    pub rtt_us_last: Option<u64>,
    pub rtt_us_mean: Option<u64>,
    pub rtt_us_p95: Option<u64>,
    pub pings_sent: u64,
    pub pongs_received: u64,
}

/// Snapshot of the clock alignment with the robot.
#[derive(Debug, Clone, Copy, PartialEq, Eq, Structural)]
pub struct TimeSyncMetrics {
    pub source: TimeSyncSource,
    pub synced: bool,
    /// The offset that the clock applies.
    pub offset_us: i64,
    pub uncertainty_us: Option<u64>,
    /// The offset that was measured, whether it is applied or not.
    pub measured_offset_us: Option<i64>,
    pub resyncs: u64,
    pub samples_rejected: u64,
}

impl SyncMetrics {
    /// Whether nothing was counted or measured.
    pub open spec fn blank(self) -> bool {
        &&& self.observations_emitted == 0
        &&& self.stale_observations_emitted == 0
        &&& self.states_dropped == 0
        &&& self.frames_omitted@ == Map::<Seq<char>, u64>::empty()
        &&& self.match_delta_us_p50 is None
        &&& self.match_delta_us_p95 is None
        &&& self.last_blocker_track is None
    }
}

impl Default for SyncMetrics {
    fn default() -> (m: Self)
        ensures
            m.blank(),
    {
        SyncMetrics {
            observations_emitted: 0,
            stale_observations_emitted: 0,
            states_dropped: 0,
            frames_omitted: NameMap::new(),
            match_delta_us_p50: None,
            match_delta_us_p95: None,
            last_blocker_track: None,
        }
    }
}

impl TransportMetrics {
    /// Whether nothing was counted or measured.
    pub open spec fn blank(self) -> bool {
        &&& self.frames_sent@ == Map::<Seq<char>, u64>::empty()
        &&& self.frames_received@ == Map::<Seq<char>, u64>::empty()
        &&& self.frames_dropped_publisher_full@ == Map::<Seq<char>, u64>::empty()
        &&& self.bytes_sent@ == Map::<Seq<char>, u64>::empty()
        &&& self.bytes_received@ == Map::<Seq<char>, u64>::empty()
        &&& self.states_sent == 0
        &&& self.states_received == 0
        &&& self.actions_sent == 0
        &&& self.actions_received == 0
        &&& self.action_chunks_sent == 0
        &&& self.action_chunks_received == 0
        &&& self.frame_jitter_us@ == Map::<Seq<char>, u64>::empty()
        &&& self.state_jitter_us == 0
        &&& self.action_jitter_us == 0
        &&& self.action_chunk_jitter_us == 0
    }
}

impl Default for TransportMetrics {
    fn default() -> (m: Self)
        ensures
            m.blank(),
    {
        TransportMetrics {
            frames_sent: NameMap::new(),
            frames_received: NameMap::new(),
            frames_dropped_publisher_full: NameMap::new(),
            bytes_sent: NameMap::new(),
            bytes_received: NameMap::new(),
            states_sent: 0,
            states_received: 0,
            actions_sent: 0,
            actions_received: 0,
            action_chunks_sent: 0,
            action_chunks_received: 0,
            frame_jitter_us: NameMap::new(),
            state_jitter_us: 0,
            action_jitter_us: 0,
            action_chunk_jitter_us: 0,
        }
    }
}

impl PolicyMetrics {
    /// Whether nothing was counted or measured.
    pub open spec fn blank(self) -> bool {
        &&& self.e2e_us_p50 is None
        &&& self.e2e_us_p95 is None
        &&& self.correlated_received == 0
    }
}

impl Default for PolicyMetrics {
    fn default() -> (m: Self)
        ensures
            m.blank(),
    {
        PolicyMetrics {
            e2e_us_p50: None,
            e2e_us_p95: None,
            correlated_received: 0,
        }
    }
}

impl BufferMetrics {
    /// Whether nothing was counted or measured.
    pub open spec fn blank(self) -> bool {
        &&& self.video_fill@ == Map::<Seq<char>, usize>::empty()
        &&& self.state_fill == 0
        &&& self.evictions@ == Map::<Seq<char>, u64>::empty()
    }
}

impl Default for BufferMetrics {
    fn default() -> (m: Self)
        ensures
            m.blank(),
    {
        BufferMetrics {
            video_fill: NameMap::new(),
            state_fill: 0,
            evictions: NameMap::new(),
        }
    }
}

impl RttMetrics {
    /// Whether nothing was counted or measured.
    pub open spec fn blank(self) -> bool {
        &&& self.rtt_us_last is None
        &&& self.rtt_us_mean is None
        &&& self.rtt_us_p95 is None
        &&& self.pings_sent == 0
        &&& self.pongs_received == 0
    }
}

impl Default for RttMetrics {
    fn default() -> (m: Self)
        ensures
            m.blank(),
    {
        RttMetrics {
            rtt_us_last: None,
            rtt_us_mean: None,
            rtt_us_p95: None,
            pings_sent: 0,
            pongs_received: 0,
        }
    }
}

impl Default for TimeSyncMetrics {
    fn default() -> (m: Self)
        ensures
            m.source == TimeSyncSource::Portal,
            !m.synced,
            m.offset_us == 0,
            m.uncertainty_us is None,
            m.measured_offset_us is None,
            m.resyncs == 0,
            m.samples_rejected == 0,
    {
        TimeSyncMetrics {
            source: TimeSyncSource::Portal,
            synced: false,
            offset_us: 0,
            uncertainty_us: None,
            measured_offset_us: None,
            resyncs: 0,
            samples_rejected: 0,
        }
    }
}

impl Default for PortalMetrics {
    fn default() -> (m: Self)
        ensures
            m.sync.blank(),
            m.transport.blank(),
            m.buffers.blank(),
            m.rtt.blank(),
            m.policy.blank(),
    {
        PortalMetrics {
            sync: SyncMetrics::default(),
            transport: TransportMetrics::default(),
            buffers: BufferMetrics::default(),
            rtt: RttMetrics::default(),
            policy: PolicyMetrics::default(),
        }
    }
}

// ---------------------------------------------------------------------------
// Per-track counters
// ---------------------------------------------------------------------------

/// A counter after `n` more events; it wraps around at 64 bits.
pub open spec fn bumped(counter: u64, n: u64) -> u64 {
    ((counter + n) % 0x1_0000_0000_0000_0000) as u64
}

fn bump(counter: u64, n: u64) -> (r: u64)
    ensures
        r == bumped(counter, n),
{
    ((counter as u128 + n as u128) % 0x1_0000_0000_0000_0000) as u64
}

/// Data streams that are counted one by one.
#[derive(Debug, Clone, Copy, PartialEq, Eq, Structural)]
pub enum DataStream {
    State,
    Action,
    Chunk,
}

/// Counters of one video track.
#[derive(Debug, Clone, Copy, PartialEq, Eq, Structural)]
pub struct TrackMetrics {
    pub frames_sent: u64,
    pub frames_received: u64,
    pub evictions: u64,
    pub frames_dropped_publisher_full: u64,
    pub bytes_sent: u64,
    pub bytes_received: u64,
    /// Placeholders that stood in for the track in observations.
    pub frames_omitted: u64,
    pub jitter: JitterState,
}

/// Counters of a track on which nothing has happened.
pub open spec fn fresh_track() -> TrackMetrics {
    TrackMetrics {
        frames_sent: 0,
        frames_received: 0,
        evictions: 0,
        frames_dropped_publisher_full: 0,
        bytes_sent: 0,
        bytes_received: 0,
        frames_omitted: 0,
        jitter: fresh_jitter(),
    }
}

/// Jitter estimate before the first packet.
pub open spec fn fresh_jitter() -> JitterState {
    JitterState { last_send_ts: None, last_recv_ts: None, jitter_us: 0 }
}

impl TrackMetrics {
    pub fn new() -> (t: Self)
        ensures
            t == fresh_track(),
    {
        TrackMetrics {
            frames_sent: 0,
            frames_received: 0,
            evictions: 0,
            frames_dropped_publisher_full: 0,
            bytes_sent: 0,
            bytes_received: 0,
            frames_omitted: 0,
            jitter: JitterState::default(),
        }
    }

    /// Counts a frame sent.
    pub fn record_sent(&mut self)
        ensures
            *final(self) == (TrackMetrics {
                frames_sent: bumped(old(self).frames_sent, 1),
                ..*old(self)
            }),
    {
        self.frames_sent = bump(self.frames_sent, 1);
    }

    /// Counts a frame sent and its bytes on the wire.
    pub fn record_sent_bytes(&mut self, n: usize)
        ensures
            *final(self) == (TrackMetrics {
                frames_sent: bumped(old(self).frames_sent, 1),
                bytes_sent: bumped(old(self).bytes_sent, n as u64),
                ..*old(self)
            }),
    {
        self.frames_sent = bump(self.frames_sent, 1);
        self.bytes_sent = bump(self.bytes_sent, n as u64);
    }

    /// Counts a frame received and feeds the jitter estimate.
    pub fn record_received(&mut self, send_ts_us: u64, recv_ts_us: u64)
        ensures
            *final(self) == (TrackMetrics {
                frames_received: bumped(old(self).frames_received, 1),
                jitter: jitter_after(old(self).jitter, send_ts_us, recv_ts_us),
                ..*old(self)
            }),
    {
        self.frames_received = bump(self.frames_received, 1);
        let mut jitter: JitterState = self.jitter;
        jitter.sample(send_ts_us, recv_ts_us);
        self.jitter = jitter;
    }

    /// Counts a frame received with its bytes on the wire and feeds the
    /// jitter estimate.
    pub fn record_received_bytes(&mut self, send_ts_us: u64, recv_ts_us: u64, n: usize)
        ensures
            *final(self) == (TrackMetrics {
                frames_received: bumped(old(self).frames_received, 1),
                bytes_received: bumped(old(self).bytes_received, n as u64),
                jitter: jitter_after(old(self).jitter, send_ts_us, recv_ts_us),
                ..*old(self)
            }),
    {
        self.bytes_received = bump(self.bytes_received, n as u64);
        self.record_received(send_ts_us, recv_ts_us);
    }

    /// Counts frames that left a full buffer.
    pub fn record_evictions(&mut self, n: u64)
        ensures
            *final(self) == (TrackMetrics {
                evictions: bumped(old(self).evictions, n),
                ..*old(self)
            }),
    {
        self.evictions = bump(self.evictions, n);
    }

    /// Counts a placeholder that stood in for the track.
    pub fn record_omitted(&mut self)
        ensures
            *final(self) == (TrackMetrics {
                frames_omitted: bumped(old(self).frames_omitted, 1),
                ..*old(self)
            }),
    {
        self.frames_omitted = bump(self.frames_omitted, 1);
    }

    /// Counts a frame that the publisher dropped at its queue's cap.
    pub fn record_dropped_publisher_full(&mut self)
        ensures
            *final(self) == (TrackMetrics {
                frames_dropped_publisher_full: bumped(
                    old(self).frames_dropped_publisher_full,
                    1,
                ),
                ..*old(self)
            }),
    {
        self.frames_dropped_publisher_full = bump(self.frames_dropped_publisher_full, 1);
    }
}

// ---------------------------------------------------------------------------
// Registry
// ---------------------------------------------------------------------------

/// Everything that a session counts.
#[derive(Debug)]
pub struct MetricsRegistry {
    track_order: Vec<String>,
    per_track: NameMap<TrackMetrics>,
    states_sent: u64,
    states_received: u64,
    actions_sent: u64,
    actions_received: u64,
    action_chunks_sent: u64,
    action_chunks_received: u64,
    state_jitter: JitterState,
    action_jitter: JitterState,
    chunk_jitter: JitterState,
    e2e_samples: SampleRing,
    correlated_received: u64,
    observations_emitted: u64,
    stale_observations_emitted: u64,
    states_dropped: u64,
    match_deltas: SampleRing,
    last_blocker_track: Option<usize>,
    rtt_samples: SampleRing,
    rtt_last: Option<u64>,
    pings_sent: u64,
    pongs_received: u64,
}

/// What a registry has counted.
#[verifier::ext_equal]
pub struct MetricsView {
    pub track_order: Seq<String>,
    pub tracks: Map<Seq<char>, TrackMetrics>,
    pub states_sent: u64,
    pub states_received: u64,
    pub actions_sent: u64,
    pub actions_received: u64,
    pub action_chunks_sent: u64,
    pub action_chunks_received: u64,
    pub state_jitter: JitterState,
    pub action_jitter: JitterState,
    pub chunk_jitter: JitterState,
    pub e2e_samples: Seq<u64>,
    pub correlated_received: u64,
    pub observations_emitted: u64,
    pub stale_observations_emitted: u64,
    pub states_dropped: u64,
    pub match_deltas: Seq<u64>,
    pub last_blocker: Option<usize>,
    pub rtt_samples: Seq<u64>,
    pub rtt_last: Option<u64>,
    pub pings_sent: u64,
    pub pongs_received: u64,
}

impl View for MetricsRegistry {
    type V = MetricsView;

    closed spec fn view(&self) -> MetricsView {
        MetricsView {
            track_order: self.track_order@,
            tracks: self.per_track@,
            states_sent: self.states_sent,
            states_received: self.states_received,
            actions_sent: self.actions_sent,
            actions_received: self.actions_received,
            action_chunks_sent: self.action_chunks_sent,
            action_chunks_received: self.action_chunks_received,
            state_jitter: self.state_jitter,
            action_jitter: self.action_jitter,
            chunk_jitter: self.chunk_jitter,
            e2e_samples: self.e2e_samples@,
            correlated_received: self.correlated_received,
            observations_emitted: self.observations_emitted,
            stale_observations_emitted: self.stale_observations_emitted,
            states_dropped: self.states_dropped,
            match_deltas: self.match_deltas@,
            last_blocker: self.last_blocker_track,
            rtt_samples: self.rtt_samples@,
            rtt_last: self.rtt_last,
            pings_sent: self.pings_sent,
            pongs_received: self.pongs_received,
        }
    }
}

/// Whether `name` is one of `order`.
pub open spec fn listed(order: Seq<String>, name: Seq<char>) -> bool {
    exists|i: int| 0 <= i < order.len() && #[trigger] order[i]@ == name
}

/// A registry on which nothing has happened, for the given tracks.
pub open spec fn fresh_metrics(order: Seq<String>) -> MetricsView {
    MetricsView {
        track_order: order,
        tracks: Map::new(|k: Seq<char>| listed(order, k), |k: Seq<char>| fresh_track()),
        states_sent: 0,
        states_received: 0,
        actions_sent: 0,
        actions_received: 0,
        action_chunks_sent: 0,
        action_chunks_received: 0,
        state_jitter: fresh_jitter(),
        action_jitter: fresh_jitter(),
        chunk_jitter: fresh_jitter(),
        e2e_samples: Seq::empty(),
        correlated_received: 0,
        observations_emitted: 0,
        stale_observations_emitted: 0,
        states_dropped: 0,
        match_deltas: Seq::empty(),
        last_blocker: None,
        rtt_samples: Seq::empty(),
        rtt_last: None,
        pings_sent: 0,
        pongs_received: 0,
    }
}

/// Which counter of a track to read.
#[derive(Debug, Clone, Copy, PartialEq, Eq, Structural)]
enum TrackCounter {
    FramesSent,
    FramesReceived,
    Evictions,
    DroppedPublisherFull,
    BytesSent,
    BytesReceived,
    Omitted,
    Jitter,
}

impl TrackCounter {
    spec fn of(self, t: TrackMetrics) -> u64 {
        match self {
            TrackCounter::FramesSent => t.frames_sent,
            TrackCounter::FramesReceived => t.frames_received,
            TrackCounter::Evictions => t.evictions,
            TrackCounter::DroppedPublisherFull => t.frames_dropped_publisher_full,
            TrackCounter::BytesSent => t.bytes_sent,
            TrackCounter::BytesReceived => t.bytes_received,
            TrackCounter::Omitted => t.frames_omitted,
            TrackCounter::Jitter => t.jitter.jitter_us,
        }
    }

    fn read(self, t: &TrackMetrics) -> (n: u64)
        ensures
            n == self.of(*t),
    {
        match self {
            TrackCounter::FramesSent => t.frames_sent,
            TrackCounter::FramesReceived => t.frames_received,
            TrackCounter::Evictions => t.evictions,
            TrackCounter::DroppedPublisherFull => t.frames_dropped_publisher_full,
            TrackCounter::BytesSent => t.bytes_sent,
            TrackCounter::BytesReceived => t.bytes_received,
            TrackCounter::Omitted => t.frames_omitted,
            TrackCounter::Jitter => t.jitter.jitter_us,
        }
    }
}

fn fresh_tracks(names: &[String]) -> (m: NameMap<TrackMetrics>)
    ensures
        m@ == fresh_metrics(names@).tracks,
{
    let mut m: NameMap<TrackMetrics> = NameMap::new();
    let mut i: usize = 0;
    while i < names.len()
        invariant
            i <= names@.len(),
            forall|k: Seq<char>|
                #[trigger] m@.contains_key(k) <==> exists|j: int|
                    0 <= j < i && #[trigger] names@[j]@ == k,
            forall|k: Seq<char>| m@.contains_key(k) ==> #[trigger] m@[k] == fresh_track(),
        decreases names@.len() - i,
    {
        let ghost before = m@;
        m.insert(names[i].clone(), TrackMetrics::new());
        proof {
            assert forall|k: Seq<char>| #[trigger] m@.contains_key(k) <==> exists|j: int|
                0 <= j < i + 1 && #[trigger] names@[j]@ == k by {
                if k == names@[i as int]@ {
                    assert(names@[i as int]@ == k);
                } else {
                    assert(m@.contains_key(k) == before.contains_key(k));
                }
            }
        }
        i = i + 1;
    }
    proof {
        assert forall|k: Seq<char>| m@.contains_key(k) == listed(names@, k) by {}
        assert(m@ =~= fresh_metrics(names@).tracks);
    }
    m
}

impl MetricsRegistry {
    pub closed spec fn wf(&self) -> bool {
        &&& self.e2e_samples.wf() && self.e2e_samples.capacity() == SAMPLE_RING_CAP
        &&& self.match_deltas.wf() && self.match_deltas.capacity() == SAMPLE_RING_CAP
        &&& self.rtt_samples.wf() && self.rtt_samples.capacity() == SAMPLE_RING_CAP
        &&& forall|k: Seq<char>|
            #[trigger] self.per_track@.contains_key(k) <==> listed(self.track_order@, k)
    }

    pub fn new(video_tracks: &[String]) -> (m: Self)
        ensures
            m.wf(),
            m@ == fresh_metrics(video_tracks@),
    {
        let mut track_order: Vec<String> = Vec::new();
        let mut i: usize = 0;
        while i < video_tracks.len()
            invariant
                i <= video_tracks@.len(),
                track_order@ == video_tracks@.take(i as int),
            decreases video_tracks@.len() - i,
        {
            track_order.push(video_tracks[i].clone());
            i = i + 1;
            assert(track_order@ =~= video_tracks@.take(i as int));
        }
        proof {
            assert(track_order@ =~= video_tracks@);
        }
        let per_track: NameMap<TrackMetrics> = fresh_tracks(video_tracks);
        MetricsRegistry {
            track_order,
            per_track,
            states_sent: 0,
            states_received: 0,
            actions_sent: 0,
            actions_received: 0,
            action_chunks_sent: 0,
            action_chunks_received: 0,
            state_jitter: JitterState::default(),
            action_jitter: JitterState::default(),
            chunk_jitter: JitterState::default(),
            e2e_samples: SampleRing::new(SAMPLE_RING_CAP),
            correlated_received: 0,
            observations_emitted: 0,
            stale_observations_emitted: 0,
            states_dropped: 0,
            match_deltas: SampleRing::new(SAMPLE_RING_CAP),
            last_blocker_track: None,
            rtt_samples: SampleRing::new(SAMPLE_RING_CAP),
            rtt_last: None,
            pings_sent: 0,
            pongs_received: 0,
        }
    }

    /// Counters of a track.
    pub fn track(&self, name: &str) -> (t: Option<TrackMetrics>)
        ensures
            match t {
                Some(x) => self@.tracks.contains_key(name@) && x == self@.tracks[name@],
                None => !self@.tracks.contains_key(name@),
            },
    {
        match self.per_track.get(name) {
            Some(t) => Some(*t),
            None => None,
        }
    }

    /// Replaces the counters of a declared track.
    pub fn set_track(&mut self, name: &str, t: TrackMetrics)
        requires
            old(self).wf(),
            old(self)@.tracks.contains_key(name@),
        ensures
            final(self).wf(),
            final(self)@ == (MetricsView {
                tracks: old(self)@.tracks.insert(name@, t),
                ..old(self)@
            }),
    {
        self.per_track.replace(name, t);
        proof {
            assert forall|k: Seq<char>| #[trigger] self.per_track@.contains_key(k) <==> listed(
                self.track_order@,
                k,
            ) by {
                assert(old(self).per_track@.contains_key(k) <==> listed(self.track_order@, k));
            }
        }
    }

    /// Counts a packet sent on a stream.
    pub fn bump_sent(&mut self, stream: DataStream)
        requires
            old(self).wf(),
        ensures
            final(self).wf(),
            final(self)@ == sent(old(self)@, stream),
    {
        match stream {
            DataStream::State => {
                self.states_sent = bump(self.states_sent, 1);
            },
            DataStream::Action => {
                self.actions_sent = bump(self.actions_sent, 1);
            },
            DataStream::Chunk => {
                self.action_chunks_sent = bump(self.action_chunks_sent, 1);
            },
        }
    }

    /// Counts a packet received on a stream and feeds that stream's jitter
    /// estimate.
    pub fn record_received(&mut self, stream: DataStream, send_ts_us: u64, recv_ts_us: u64)
        requires
            old(self).wf(),
        ensures
            final(self).wf(),
            final(self)@ == received(old(self)@, stream, send_ts_us, recv_ts_us),
    {
        match stream {
            DataStream::State => {
                self.states_received = bump(self.states_received, 1);
                self.state_jitter.sample(send_ts_us, recv_ts_us);
            },
            DataStream::Action => {
                self.actions_received = bump(self.actions_received, 1);
                self.action_jitter.sample(send_ts_us, recv_ts_us);
            },
            DataStream::Chunk => {
                self.action_chunks_received = bump(self.action_chunks_received, 1);
                self.chunk_jitter.sample(send_ts_us, recv_ts_us);
            },
        }
    }

    /// Records the latency from an observation to the action that answers to
    /// it. Nothing is recorded for an action that answers to none, or when
    /// the local time is not after the observation's.
    pub fn record_e2e(&mut self, in_reply_to_ts_us: Option<u64>, recv_ts_us: u64)
        requires
            old(self).wf(),
        ensures
            final(self).wf(),
            final(self)@ == correlated(old(self)@, in_reply_to_ts_us, recv_ts_us),
    {
        match in_reply_to_ts_us {
            Some(reply_ts) => {
                if recv_ts_us > reply_ts {
                    self.correlated_received = bump(self.correlated_received, 1);
                    self.e2e_samples.push(recv_ts_us - reply_ts);
                }
            },
            None => {},
        }
    }

    /// Counts an observation and its worst alignment.
    pub fn record_observation(&mut self, worst_delta_us: u64)
        requires
            old(self).wf(),
        ensures
            final(self).wf(),
            final(self)@ == (MetricsView {
                observations_emitted: bumped(old(self)@.observations_emitted, 1),
                match_deltas: pushed(
                    old(self)@.match_deltas,
                    worst_delta_us,
                    SAMPLE_RING_CAP as nat,
                ),
                ..old(self)@
            }),
    {
        self.observations_emitted = bump(self.observations_emitted, 1);
        self.match_deltas.push(worst_delta_us);
    }

    /// Counts an observation that used a reused frame.
    pub fn record_stale_observation(&mut self)
        requires
            old(self).wf(),
        ensures
            final(self).wf(),
            final(self)@ == (MetricsView {
                stale_observations_emitted: bumped(old(self)@.stale_observations_emitted, 1),
                ..old(self)@
            }),
    {
        self.stale_observations_emitted = bump(self.stale_observations_emitted, 1);
    }

    /// Counts states that were dropped.
    pub fn record_state_dropped(&mut self, n: u64)
        requires
            old(self).wf(),
        ensures
            final(self).wf(),
            final(self)@ == (MetricsView {
                states_dropped: bumped(old(self)@.states_dropped, n),
                ..old(self)@
            }),
    {
        self.states_dropped = bump(self.states_dropped, n);
    }

    /// Remembers the track that stalled the sync.
    pub fn record_blocker(&mut self, track_index: usize)
        requires
            old(self).wf(),
        ensures
            final(self).wf(),
            final(self)@ == (MetricsView { last_blocker: Some(track_index), ..old(self)@ }),
    {
        self.last_blocker_track = Some(track_index);
    }

    /// Counts a ping sent.
    pub fn record_ping_sent(&mut self)
        requires
            old(self).wf(),
        ensures
            final(self).wf(),
            final(self)@ == (MetricsView { pings_sent: bumped(old(self)@.pings_sent, 1), ..old(
                self,
            )@ }),
    {
        self.pings_sent = bump(self.pings_sent, 1);
    }

    /// Counts a pong and its round trip. A last round trip of zero reads as
    /// one microsecond.
    pub fn record_rtt(&mut self, rtt_us: u64)
        requires
            old(self).wf(),
        ensures
            final(self).wf(),
            final(self)@ == rtt_recorded(old(self)@, rtt_us),
    {
        self.pongs_received = bump(self.pongs_received, 1);
        self.rtt_samples.push(rtt_us);
        self.rtt_last = Some(
            if rtt_us == 0 {
                1
            } else {
                rtt_us
            },
        );
    }

    /// One counter of every track, by name.
    fn per_track_counter(&self, which: TrackCounter) -> (m: NameMap<u64>)
        requires
            self.wf(),
        ensures
            m@ == self@.tracks.map_values(|t: TrackMetrics| which.of(t)),
    {
        let mut m: NameMap<u64> = NameMap::new();
        let mut i: usize = 0;
        while i < self.track_order.len()
            invariant
                self.wf(),
                i <= self.track_order@.len(),
                forall|k: Seq<char>|
                    #[trigger] m@.contains_key(k) <==> exists|j: int|
                        0 <= j < i && #[trigger] self.track_order@[j]@ == k,
                forall|k: Seq<char>|
                    m@.contains_key(k) ==> #[trigger] m@[k] == which.of(self.per_track@[k]),
            decreases self.track_order@.len() - i,
        {
            let ghost before = m@;
            let ghost name = self.track_order@[i as int]@;
            proof {
                assert(listed(self.track_order@, name));
                assert(self.per_track@.contains_key(name));
            }
            match self.per_track.get(self.track_order[i].as_str()) {
                Some(t) => {
                    m.insert(self.track_order[i].clone(), which.read(t));
                },
                None => {},
            }
            proof {
                assert forall|k: Seq<char>| #[trigger] m@.contains_key(k) <==> exists|j: int|
                    0 <= j < i + 1 && #[trigger] self.track_order@[j]@ == k by {
                    if k == name {
                        assert(self.track_order@[i as int]@ == k);
                    } else {
                        assert(m@.contains_key(k) == before.contains_key(k));
                    }
                }
            }
            i = i + 1;
        }
        proof {
            assert forall|k: Seq<char>| m@.contains_key(k) == self.per_track@.contains_key(k) by {
                assert(self.per_track@.contains_key(k) <==> listed(self.track_order@, k));
            }
            assert(m@ =~= self@.tracks.map_values(|t: TrackMetrics| which.of(t)));
        }
        m
    }

    /// The state of every counter, with the given buffer fills.
    pub fn snapshot(&self, video_fill: NameMap<usize>, state_fill: usize) -> (p: PortalMetrics)
        requires
            self.wf(),
        ensures
            shows(p, self@, video_fill@, state_fill as nat),
    {
        let frames_sent: NameMap<u64> = self.per_track_counter(TrackCounter::FramesSent);
        let frames_received: NameMap<u64> = self.per_track_counter(TrackCounter::FramesReceived);
        let evictions: NameMap<u64> = self.per_track_counter(TrackCounter::Evictions);
        let frames_dropped_publisher_full: NameMap<u64> = self.per_track_counter(
            TrackCounter::DroppedPublisherFull,
        );
        let bytes_sent: NameMap<u64> = self.per_track_counter(TrackCounter::BytesSent);
        let bytes_received: NameMap<u64> = self.per_track_counter(TrackCounter::BytesReceived);
        let frames_omitted: NameMap<u64> = self.per_track_counter(TrackCounter::Omitted);
        let frame_jitter_us: NameMap<u64> = self.per_track_counter(TrackCounter::Jitter);
        proof {
            let tracks = self@.tracks;
            assert(frames_sent@ =~= tracks.map_values(|t: TrackMetrics| t.frames_sent));
            assert(frames_received@ =~= tracks.map_values(|t: TrackMetrics| t.frames_received));
            assert(evictions@ =~= tracks.map_values(|t: TrackMetrics| t.evictions));
            assert(frames_dropped_publisher_full@ =~= tracks.map_values(
                |t: TrackMetrics| t.frames_dropped_publisher_full,
            ));
            assert(bytes_sent@ =~= tracks.map_values(|t: TrackMetrics| t.bytes_sent));
            assert(bytes_received@ =~= tracks.map_values(|t: TrackMetrics| t.bytes_received));
            assert(frames_omitted@ =~= tracks.map_values(|t: TrackMetrics| t.frames_omitted));
            assert(frame_jitter_us@ =~= tracks.map_values(|t: TrackMetrics| t.jitter.jitter_us));
        }
        let last_blocker_track: Option<String> = match self.last_blocker_track {
            Some(i) => if i < self.track_order.len() {
                Some(self.track_order[i].clone())
            } else {
                None
            },
            None => None,
        };
        PortalMetrics {
            sync: SyncMetrics {
                observations_emitted: self.observations_emitted,
                stale_observations_emitted: self.stale_observations_emitted,
                states_dropped: self.states_dropped,
                frames_omitted,
                match_delta_us_p50: self.match_deltas.percentile(50),
                match_delta_us_p95: self.match_deltas.percentile(95),
                last_blocker_track,
            },
            transport: TransportMetrics {
                frames_sent,
                frames_received,
                frames_dropped_publisher_full,
                bytes_sent,
                bytes_received,
                states_sent: self.states_sent,
                states_received: self.states_received,
                actions_sent: self.actions_sent,
                actions_received: self.actions_received,
                action_chunks_sent: self.action_chunks_sent,
                action_chunks_received: self.action_chunks_received,
                frame_jitter_us,
                state_jitter_us: self.state_jitter.jitter_us,
                action_jitter_us: self.action_jitter.jitter_us,
                action_chunk_jitter_us: self.chunk_jitter.jitter_us,
            },
            buffers: BufferMetrics { video_fill, state_fill, evictions },
            rtt: RttMetrics {
                rtt_us_last: self.rtt_last,
                rtt_us_mean: self.rtt_samples.mean(),
                rtt_us_p95: self.rtt_samples.percentile(95),
                pings_sent: self.pings_sent,
                pongs_received: self.pongs_received,
            },
            policy: PolicyMetrics {
                e2e_us_p50: self.e2e_samples.percentile(50),
                e2e_us_p95: self.e2e_samples.percentile(95),
                correlated_received: self.correlated_received,
            },
        }
    }

    /// Starts all counters afresh.
    pub fn reset(&mut self)
        requires
            old(self).wf(),
        ensures
            final(self).wf(),
            final(self)@ == fresh_metrics(old(self)@.track_order),
    {
        self.states_sent = 0;
        self.states_received = 0;
        self.actions_sent = 0;
        self.actions_received = 0;
        self.action_chunks_sent = 0;
        self.action_chunks_received = 0;
        self.state_jitter = JitterState::default();
        self.action_jitter = JitterState::default();
        self.chunk_jitter = JitterState::default();
        self.e2e_samples.clear();
        self.correlated_received = 0;
        self.observations_emitted = 0;
        self.stale_observations_emitted = 0;
        self.states_dropped = 0;
        self.match_deltas.clear();
        self.last_blocker_track = None;
        self.rtt_samples.clear();
        self.rtt_last = None;
        self.pings_sent = 0;
        self.pongs_received = 0;
        self.per_track = fresh_tracks(self.track_order.as_slice());
    }
}

/// Whether a snapshot shows the counters and the given fill levels.
pub open spec fn shows(
    p: PortalMetrics,
    m: MetricsView,
    video_fill: Map<Seq<char>, usize>,
    state_fill: nat,
) -> bool {
    &&& p.sync.observations_emitted == m.observations_emitted
    &&& p.sync.stale_observations_emitted == m.stale_observations_emitted
    &&& p.sync.states_dropped == m.states_dropped
    &&& p.sync.frames_omitted@ == m.tracks.map_values(|t: TrackMetrics| t.frames_omitted)
    &&& p.sync.match_delta_us_p50 == percentile_of(m.match_deltas, 50)
    &&& p.sync.match_delta_us_p95 == percentile_of(m.match_deltas, 95)
    &&& match p.sync.last_blocker_track {
        Some(name) => m.last_blocker matches Some(i) && i < m.track_order.len()
            && name == m.track_order[i as int],
        None => m.last_blocker matches Some(i) ==> i >= m.track_order.len(),
    }
    &&& p.transport.frames_sent@ == m.tracks.map_values(
        |t: TrackMetrics| t.frames_sent,
    )
    &&& p.transport.frames_received@ == m.tracks.map_values(
        |t: TrackMetrics| t.frames_received,
    )
    &&& p.transport.frames_dropped_publisher_full@ == m.tracks.map_values(
        |t: TrackMetrics| t.frames_dropped_publisher_full,
    )
    &&& p.transport.bytes_sent@ == m.tracks.map_values(|t: TrackMetrics| t.bytes_sent)
    &&& p.transport.bytes_received@ == m.tracks.map_values(
        |t: TrackMetrics| t.bytes_received,
    )
    &&& p.transport.frame_jitter_us@ == m.tracks.map_values(
        |t: TrackMetrics| t.jitter.jitter_us,
    )
    &&& p.transport.states_sent == m.states_sent
    &&& p.transport.states_received == m.states_received
    &&& p.transport.actions_sent == m.actions_sent
    &&& p.transport.actions_received == m.actions_received
    &&& p.transport.action_chunks_sent == m.action_chunks_sent
    &&& p.transport.action_chunks_received == m.action_chunks_received
    &&& p.transport.state_jitter_us == m.state_jitter.jitter_us
    &&& p.transport.action_jitter_us == m.action_jitter.jitter_us
    &&& p.transport.action_chunk_jitter_us == m.chunk_jitter.jitter_us
    &&& p.buffers.video_fill@ == video_fill
    &&& p.buffers.state_fill == state_fill
    &&& p.buffers.evictions@ == m.tracks.map_values(|t: TrackMetrics| t.evictions)
    &&& p.rtt.rtt_us_last == m.rtt_last
    &&& p.rtt.rtt_us_mean == mean_of(m.rtt_samples)
    &&& p.rtt.rtt_us_p95 == percentile_of(m.rtt_samples, 95)
    &&& p.rtt.pings_sent == m.pings_sent
    &&& p.rtt.pongs_received == m.pongs_received
    &&& p.policy.e2e_us_p50 == percentile_of(m.e2e_samples, 50)
    &&& p.policy.e2e_us_p95 == percentile_of(m.e2e_samples, 95)
    &&& p.policy.correlated_received == m.correlated_received
}

/// The counters after a packet was sent on a stream.
pub open spec fn sent(m: MetricsView, stream: DataStream) -> MetricsView {
    match stream {
        DataStream::State => MetricsView { states_sent: bumped(m.states_sent, 1), ..m },
        DataStream::Action => MetricsView { actions_sent: bumped(m.actions_sent, 1), ..m },
        DataStream::Chunk => MetricsView {
            action_chunks_sent: bumped(m.action_chunks_sent, 1),
            ..m
        },
    }
}

/// The counters after a packet arrived on a stream.
pub open spec fn received(
    m: MetricsView,
    stream: DataStream,
    send_ts_us: u64,
    recv_ts_us: u64,
) -> MetricsView {
    match stream {
        DataStream::State => MetricsView {
            states_received: bumped(m.states_received, 1),
            state_jitter: jitter_after(m.state_jitter, send_ts_us, recv_ts_us),
            ..m
        },
        DataStream::Action => MetricsView {
            actions_received: bumped(m.actions_received, 1),
            action_jitter: jitter_after(m.action_jitter, send_ts_us, recv_ts_us),
            ..m
        },
        DataStream::Chunk => MetricsView {
            action_chunks_received: bumped(m.action_chunks_received, 1),
            chunk_jitter: jitter_after(m.chunk_jitter, send_ts_us, recv_ts_us),
            ..m
        },
    }
}

/// The counters after an echo told a round trip.
pub open spec fn rtt_recorded(m: MetricsView, rtt_us: u64) -> MetricsView {
    MetricsView {
        pongs_received: bumped(m.pongs_received, 1),
        rtt_samples: pushed(m.rtt_samples, rtt_us, SAMPLE_RING_CAP as nat),
        rtt_last: Some(
            if rtt_us == 0 {
                1
            } else {
                rtt_us
            },
        ),
        ..m
    }
}

/// The counters after an action that answers to an observation arrived.
pub open spec fn correlated(
    m: MetricsView,
    in_reply_to_ts_us: Option<u64>,
    recv_ts_us: u64,
) -> MetricsView {
    match in_reply_to_ts_us {
        Some(reply_ts) => if recv_ts_us > reply_ts {
            MetricsView {
                correlated_received: bumped(m.correlated_received, 1),
                e2e_samples: pushed(
                    m.e2e_samples,
                    (recv_ts_us - reply_ts) as u64,
                    SAMPLE_RING_CAP as nat,
                ),
                ..m
            }
        } else {
            m
        },
        None => m,
    }
}

} // verus!
