//! What the numbers of a session mean, stated apart from how they are kept.
use crate::metrics::{DataStream, JitterState, MetricsView, PortalMetrics, TrackMetrics};
use vstd::prelude::*;
use vstd::seq_lib::*;

verus! {

// ---------------------------------------------------------------------------
// Jitter
// ---------------------------------------------------------------------------

/// The distance of two numbers.
pub open spec fn apart(a: int, b: int) -> int {
    if a < b {
        b - a
    } else {
        a - b
    }
}

/// With `J` the estimate before a packet, `J1` the one after it and `D` how
/// much its transit time differs from that of the packet before, kept to 64
/// bits: `J1` lies between `J` and `D`, and a sixteenth of the way from `J`
/// to `D`, cut to a whole number. So the estimate falls wherever `D` is
/// smaller by sixteen or more, and rises wherever it is larger by that much.
pub proof fn law_jitter_moves_a_sixteenth(
    j: JitterState,
    send0: u64,
    recv0: u64,
    send1: u64,
    recv1: u64,
    d: u64,
    turns: nat,
)
    requires
        j.last_send_ts == Some(send0),
        j.last_recv_ts == Some(recv0),
        apart(recv1 - recv0, send1 - send0) == d + turns * 0x1_0000_0000_0000_0000,
    ensures
        ({
            let j0 = j.jitter_us;
            let j1 = crate::metrics::jitter_after(j, send1, recv1).jitter_us;
            &&& 16 * apart(j1 as int, j0 as int) <= apart(d as int, j0 as int)
            &&& apart(d as int, j0 as int) < 16 * apart(j1 as int, j0 as int) + 16
            &&& j0 <= j1 <= d || d <= j1 <= j0
            &&& d + 16 <= j0 ==> j1 < j0
            &&& d >= j0 + 16 ==> j1 > j0
        }),
{
    let gap = apart(recv1 - recv0, send1 - send0);
    assert(gap % 0x1_0000_0000_0000_0000 == d) by (nonlinear_arith)
        requires
            gap == d + turns * 0x1_0000_0000_0000_0000,
            0 <= d < 0x1_0000_0000_0000_0000,
    ;
}

/// A packet is what the next one is measured against; the first one leaves
/// the estimate alone.
pub proof fn law_jitter_needs_two_packets(j: JitterState, send: u64, recv: u64)
    ensures
        ({
            let next = crate::metrics::jitter_after(j, send, recv);
            &&& next.last_send_ts == Some(send)
            &&& next.last_recv_ts == Some(recv)
            &&& j.last_send_ts is None || j.last_recv_ts is None ==> next.jitter_us
                == j.jitter_us
        }),
{
}

// ---------------------------------------------------------------------------
// Rolling samples
// ---------------------------------------------------------------------------

/// A window ends with the newest sample, holds at most its capacity, and
/// before the newest sample what it held, the oldest one left out where there
/// was no room.
pub proof fn law_window_keeps_the_newest(samples: Seq<u64>, v: u64, cap: nat)
    requires
        samples.len() <= cap,
        cap > 0,
    ensures
        ({
            let after = crate::metrics::pushed(samples, v, cap);
            &&& after.len() == samples.len() + 1 || after.len() == cap == samples.len()
            &&& after.len() <= cap
            &&& after[after.len() - 1] == v
            &&& forall|k: int|
                0 <= k < after.len() - 1 ==> #[trigger] after[after.len() - 2 - k]
                    == samples[samples.len() - 1 - k]
        }),
{
}

/// A percentile is the sample at the nearest rank, halves up, once the
/// samples stand in ascending order, and the largest one past the end; of no
/// samples there is none.
pub proof fn law_percentile_is_the_nearest_rank(
    samples: Seq<u64>,
    percent: nat,
    ascending: Seq<u64>,
    rank: int,
)
    requires
        ascending.to_multiset() == samples.to_multiset(),
        forall|a: int, b: int|
            0 <= a <= b < ascending.len() ==> #[trigger] ascending[a] <= #[trigger] ascending[b],
        100 * rank - 50 <= percent * (samples.len() - 1) < 100 * rank + 50,
    ensures
        samples.len() == 0 ==> crate::metrics::percentile_of(samples, percent) is None,
        samples.len() > 0 && rank < samples.len() ==> 0 <= rank < ascending.len()
            && crate::metrics::percentile_of(samples, percent) == Some(ascending[rank]),
        samples.len() > 0 && rank >= samples.len() ==> crate::metrics::percentile_of(
            samples,
            percent,
        ) == Some(ascending[ascending.len() - 1]),
        percent <= 100 && samples.len() > 0 ==> rank < samples.len(),
{
    if samples.len() > 0 {
        to_multiset_len(samples);
        to_multiset_len(ascending);
        let leq = crate::metrics::at_most();
        assert(vstd::relations::total_ordering(leq));
        samples.lemma_sort_by_ensures(leq);
        let sorted = samples.sort_by(leq);
        assert(vstd::relations::sorted_by(ascending, leq)) by {
            assert forall|a: int, b: int| 0 <= a < b < ascending.len() implies #[trigger] leq(
                ascending[a],
                ascending[b],
            ) by {}
        }
        lemma_sorted_unique(sorted, ascending, leq);
        let n = samples.len() as int;
        assert(0 <= percent * (n - 1) && (percent <= 100 ==> percent * (n - 1) <= 100 * (n - 1)))
            by (nonlinear_arith)
            requires
                n >= 1,
                0 <= percent,
        ;
    }
}

proof fn lemma_total_is_the_sum(samples: Seq<u64>)
    ensures
        crate::metrics::total(samples) == samples.fold_left(0int, |sum: int, x: u64| sum + x),
    decreases samples.len(),
{
    if samples.len() > 0 {
        lemma_total_is_the_sum(samples.drop_last());
    }
}

/// A mean times the number of samples reaches their sum to less than one
/// more round; of no samples there is none.
pub proof fn law_mean_is_the_sum_shared_out(samples: Seq<u64>)
    ensures
        samples.len() == 0 ==> crate::metrics::mean_of(samples) is None,
        samples.len() > 0 ==> (crate::metrics::mean_of(samples) matches Some(m) && m
            * samples.len() <= samples.fold_left(0int, |sum: int, x: u64| sum + x) < (m + 1)
            * samples.len()),
{
    lemma_total_is_the_sum(samples);
    if samples.len() > 0 {
        let t = crate::metrics::total(samples) as int;
        let n = samples.len() as int;
        lemma_total_is_bounded(samples);
        assert(0 <= t / n <= 0xffff_ffff_ffff_ffff && (t / n) * n <= t < (t / n + 1) * n)
            by (nonlinear_arith)
            requires
                0 <= t <= n * 0xffff_ffff_ffff_ffff,
                n > 0,
        ;
    }
}

proof fn lemma_total_is_bounded(samples: Seq<u64>)
    ensures
        crate::metrics::total(samples) <= samples.len() * 0xffff_ffff_ffff_ffff,
    decreases samples.len(),
{
    if samples.len() > 0 {
        lemma_total_is_bounded(samples.drop_last());
    }
}

// ---------------------------------------------------------------------------
// Snapshots before and after an event
// ---------------------------------------------------------------------------

/// Whether a counter went up by `n`, around zero where it ran out of bits.
pub open spec fn went_up(before: u64, after: u64, n: u64) -> bool {
    after == before + n || after + 0x1_0000_0000_0000_0000 == before + n
}

/// Whether two snapshots agree on the counters and estimates of tracks.
pub open spec fn same_tracks(p: PortalMetrics, q: PortalMetrics) -> bool {
    &&& p.sync.frames_omitted@ == q.sync.frames_omitted@
    &&& p.transport.frames_sent@ == q.transport.frames_sent@
    &&& p.transport.frames_received@ == q.transport.frames_received@
    &&& p.transport.frames_dropped_publisher_full@ == q.transport.frames_dropped_publisher_full@
    &&& p.transport.bytes_sent@ == q.transport.bytes_sent@
    &&& p.transport.bytes_received@ == q.transport.bytes_received@
    &&& p.transport.frame_jitter_us@ == q.transport.frame_jitter_us@
    &&& p.buffers.evictions@ == q.buffers.evictions@
}

/// Whether two snapshots agree on what was sent as data.
pub open spec fn same_sent(p: PortalMetrics, q: PortalMetrics) -> bool {
    &&& p.transport.states_sent == q.transport.states_sent
    &&& p.transport.actions_sent == q.transport.actions_sent
    &&& p.transport.action_chunks_sent == q.transport.action_chunks_sent
}

/// Whether two snapshots agree on what was received as data.
pub open spec fn same_received(p: PortalMetrics, q: PortalMetrics) -> bool {
    &&& p.transport.states_received == q.transport.states_received
    &&& p.transport.actions_received == q.transport.actions_received
    &&& p.transport.action_chunks_received == q.transport.action_chunks_received
    &&& p.transport.state_jitter_us == q.transport.state_jitter_us
    &&& p.transport.action_jitter_us == q.transport.action_jitter_us
    &&& p.transport.action_chunk_jitter_us == q.transport.action_chunk_jitter_us
}

/// Whether two snapshots agree on the observations.
pub open spec fn same_sync(p: PortalMetrics, q: PortalMetrics) -> bool {
    &&& p.sync.observations_emitted == q.sync.observations_emitted
    &&& p.sync.stale_observations_emitted == q.sync.stale_observations_emitted
    &&& p.sync.states_dropped == q.sync.states_dropped
    &&& p.sync.match_delta_us_p50 == q.sync.match_delta_us_p50
    &&& p.sync.match_delta_us_p95 == q.sync.match_delta_us_p95
    &&& match (p.sync.last_blocker_track, q.sync.last_blocker_track) {
        (Some(a), Some(b)) => a@ == b@,
        (None, None) => true,
        _ => false,
    }
}

/// Whether two snapshots agree on the round trips.
pub open spec fn same_rtt(p: PortalMetrics, q: PortalMetrics) -> bool {
    &&& p.rtt.rtt_us_last == q.rtt.rtt_us_last
    &&& p.rtt.rtt_us_mean == q.rtt.rtt_us_mean
    &&& p.rtt.rtt_us_p95 == q.rtt.rtt_us_p95
    &&& p.rtt.pings_sent == q.rtt.pings_sent
    &&& p.rtt.pongs_received == q.rtt.pongs_received
}

/// Whether two snapshots agree on the answers to observations.
pub open spec fn same_policy(p: PortalMetrics, q: PortalMetrics) -> bool {
    &&& p.policy.e2e_us_p50 == q.policy.e2e_us_p50
    &&& p.policy.e2e_us_p95 == q.policy.e2e_us_p95
    &&& p.policy.correlated_received == q.policy.correlated_received
}

/// Whether two snapshots agree on the fill levels.
pub open spec fn same_fill(p: PortalMetrics, q: PortalMetrics) -> bool {
    &&& p.buffers.video_fill@ == q.buffers.video_fill@
    &&& p.buffers.state_fill == q.buffers.state_fill
}

/// A packet sent shows as one more packet sent on its stream, and in nothing
/// else.
pub proof fn law_sending_shows_on_its_stream(
    m: MetricsView,
    stream: DataStream,
    p: PortalMetrics,
    q: PortalMetrics,
    fill: Map<Seq<char>, usize>,
    states: nat,
)
    requires
        crate::metrics::shows(p, m, fill, states),
        crate::metrics::shows(q, crate::metrics::sent(m, stream), fill, states),
    ensures
        same_tracks(p, q) && same_received(p, q) && same_sync(p, q) && same_rtt(p, q)
            && same_policy(p, q) && same_fill(p, q),
        went_up(
            p.transport.states_sent,
            q.transport.states_sent,
            if stream == DataStream::State {
                1
            } else {
                0
            },
        ),
        went_up(
            p.transport.actions_sent,
            q.transport.actions_sent,
            if stream == DataStream::Action {
                1
            } else {
                0
            },
        ),
        went_up(
            p.transport.action_chunks_sent,
            q.transport.action_chunks_sent,
            if stream == DataStream::Chunk {
                1
            } else {
                0
            },
        ),
{
}

/// A packet received shows as one more packet received on its stream and in
/// the jitter of that stream, and in nothing else.
pub proof fn law_receiving_shows_on_its_stream(
    m: MetricsView,
    stream: DataStream,
    send_ts_us: u64,
    recv_ts_us: u64,
    p: PortalMetrics,
    q: PortalMetrics,
    fill: Map<Seq<char>, usize>,
    states: nat,
)
    requires
        crate::metrics::shows(p, m, fill, states),
        crate::metrics::shows(
            q,
            crate::metrics::received(m, stream, send_ts_us, recv_ts_us),
            fill,
            states,
        ),
    ensures
        same_tracks(p, q) && same_sent(p, q) && same_sync(p, q) && same_rtt(p, q) && same_policy(
            p,
            q,
        ) && same_fill(p, q),
        went_up(
            p.transport.states_received,
            q.transport.states_received,
            if stream == DataStream::State {
                1
            } else {
                0
            },
        ),
        went_up(
            p.transport.actions_received,
            q.transport.actions_received,
            if stream == DataStream::Action {
                1
            } else {
                0
            },
        ),
        went_up(
            p.transport.action_chunks_received,
            q.transport.action_chunks_received,
            if stream == DataStream::Chunk {
                1
            } else {
                0
            },
        ),
        q.transport.state_jitter_us == (if stream == DataStream::State {
            crate::metrics::jitter_after(m.state_jitter, send_ts_us, recv_ts_us).jitter_us
        } else {
            p.transport.state_jitter_us
        }),
        q.transport.action_jitter_us == (if stream == DataStream::Action {
            crate::metrics::jitter_after(m.action_jitter, send_ts_us, recv_ts_us).jitter_us
        } else {
            p.transport.action_jitter_us
        }),
        q.transport.action_chunk_jitter_us == (if stream == DataStream::Chunk {
            crate::metrics::jitter_after(m.chunk_jitter, send_ts_us, recv_ts_us).jitter_us
        } else {
            p.transport.action_chunk_jitter_us
        }),
{
}

/// A round trip shows as one more pong, as the last round trip, one
/// microsecond where it took none, and in the mean and the percentile of the
/// newest round trips; in nothing else.
pub proof fn law_a_round_trip_shows(
    m: MetricsView,
    rtt_us: u64,
    p: PortalMetrics,
    q: PortalMetrics,
    fill: Map<Seq<char>, usize>,
    states: nat,
)
    requires
        m.rtt_samples.len() <= 256,
        crate::metrics::shows(p, m, fill, states),
        crate::metrics::shows(q, crate::metrics::rtt_recorded(m, rtt_us), fill, states),
    ensures
        same_tracks(p, q) && same_sent(p, q) && same_received(p, q) && same_sync(p, q)
            && same_policy(p, q) && same_fill(p, q),
        went_up(p.rtt.pongs_received, q.rtt.pongs_received, 1),
        p.rtt.pings_sent == q.rtt.pings_sent,
        q.rtt.rtt_us_last matches Some(last) && last >= 1 && (last == rtt_us || (rtt_us == 0
            && last == 1)),
        m.rtt_samples.len() < 256 ==> q.rtt.rtt_us_mean == crate::metrics::mean_of(
            m.rtt_samples.push(rtt_us),
        ) && q.rtt.rtt_us_p95 == crate::metrics::percentile_of(m.rtt_samples.push(rtt_us), 95),
        m.rtt_samples.len() == 256 ==> q.rtt.rtt_us_mean == crate::metrics::mean_of(
            m.rtt_samples.skip(1).push(rtt_us),
        ) && q.rtt.rtt_us_p95 == crate::metrics::percentile_of(
            m.rtt_samples.skip(1).push(rtt_us),
            95,
        ),
{
    assert(m.rtt_samples.len() > 0 ==> m.rtt_samples.skip(1) =~= m.rtt_samples.drop_first());
}

/// An action that answers to an observation shows its latency exactly where
/// it came after the observation's time: one more answer, and the time between
/// the two among the newest latencies. Otherwise nothing shows.
pub proof fn law_an_answer_shows_its_latency(
    m: MetricsView,
    reply: Option<u64>,
    now_us: u64,
    p: PortalMetrics,
    q: PortalMetrics,
    fill: Map<Seq<char>, usize>,
    states: nat,
)
    requires
        m.e2e_samples.len() <= 256,
        crate::metrics::shows(p, m, fill, states),
        crate::metrics::shows(q, crate::metrics::correlated(m, reply, now_us), fill, states),
    ensures
        same_tracks(p, q) && same_sent(p, q) && same_received(p, q) && same_sync(p, q)
            && same_rtt(p, q) && same_fill(p, q),
        reply is None ==> same_policy(p, q),
        reply matches Some(r) ==> (now_us <= r ==> same_policy(p, q)),
        reply matches Some(r) ==> (now_us > r ==> {
            let latency = (now_us - r) as u64;
            let kept = if m.e2e_samples.len() < 256 {
                m.e2e_samples.push(latency)
            } else {
                m.e2e_samples.skip(1).push(latency)
            };
            &&& went_up(p.policy.correlated_received, q.policy.correlated_received, 1)
            &&& q.policy.e2e_us_p50 == crate::metrics::percentile_of(kept, 50)
            &&& q.policy.e2e_us_p95 == crate::metrics::percentile_of(kept, 95)
        }),
{
    assert(m.e2e_samples.len() > 0 ==> m.e2e_samples.skip(1) =~= m.e2e_samples.drop_first());
}

/// A snapshot shows every track of the session under its name, and no other
/// name: each counter and estimate of the track under its own heading.
pub proof fn law_tracks_show_under_their_names(
    m: MetricsView,
    p: PortalMetrics,
    fill: Map<Seq<char>, usize>,
    states: nat,
    name: Seq<char>,
)
    requires
        crate::metrics::shows(p, m, fill, states),
    ensures
        p.transport.frames_sent@.contains_key(name) == m.tracks.contains_key(name),
        p.transport.frames_received@.contains_key(name) == m.tracks.contains_key(name),
        p.transport.frames_dropped_publisher_full@.contains_key(name) == m.tracks.contains_key(
            name,
        ),
        p.transport.bytes_sent@.contains_key(name) == m.tracks.contains_key(name),
        p.transport.bytes_received@.contains_key(name) == m.tracks.contains_key(name),
        p.transport.frame_jitter_us@.contains_key(name) == m.tracks.contains_key(name),
        p.sync.frames_omitted@.contains_key(name) == m.tracks.contains_key(name),
        p.buffers.evictions@.contains_key(name) == m.tracks.contains_key(name),
        m.tracks.contains_key(name) ==> {
            let t: TrackMetrics = m.tracks[name];
            &&& p.transport.frames_sent@[name] == t.frames_sent
            &&& p.transport.frames_received@[name] == t.frames_received
            &&& p.transport.frames_dropped_publisher_full@[name]
                == t.frames_dropped_publisher_full
            &&& p.transport.bytes_sent@[name] == t.bytes_sent
            &&& p.transport.bytes_received@[name] == t.bytes_received
            &&& p.transport.frame_jitter_us@[name] == t.jitter.jitter_us
            &&& p.sync.frames_omitted@[name] == t.frames_omitted
            &&& p.buffers.evictions@[name] == t.evictions
        },
{
}

/// A snapshot shows each counter of the session under its own heading, and
/// percentiles of the samples that belong there.
pub proof fn law_counters_show_under_their_headings(
    m: MetricsView,
    p: PortalMetrics,
    fill: Map<Seq<char>, usize>,
    states: nat,
)
    requires
        crate::metrics::shows(p, m, fill, states),
    ensures
        p.transport.states_sent == m.states_sent,
        p.transport.states_received == m.states_received,
        p.transport.actions_sent == m.actions_sent,
        p.transport.actions_received == m.actions_received,
        p.transport.action_chunks_sent == m.action_chunks_sent,
        p.transport.action_chunks_received == m.action_chunks_received,
        p.transport.state_jitter_us == m.state_jitter.jitter_us,
        p.transport.action_jitter_us == m.action_jitter.jitter_us,
        p.transport.action_chunk_jitter_us == m.chunk_jitter.jitter_us,
        p.sync.observations_emitted == m.observations_emitted,
        p.sync.stale_observations_emitted == m.stale_observations_emitted,
        p.sync.states_dropped == m.states_dropped,
        p.sync.match_delta_us_p50 == crate::metrics::percentile_of(m.match_deltas, 50),
        p.sync.match_delta_us_p95 == crate::metrics::percentile_of(m.match_deltas, 95),
        p.sync.last_blocker_track is Some <==> (m.last_blocker is Some && m.last_blocker->0
            < m.track_order.len()),
        p.sync.last_blocker_track matches Some(name) ==> name@
            == m.track_order[m.last_blocker->0 as int]@,
        p.rtt.rtt_us_last == m.rtt_last,
        p.rtt.rtt_us_mean == crate::metrics::mean_of(m.rtt_samples),
        p.rtt.rtt_us_p95 == crate::metrics::percentile_of(m.rtt_samples, 95),
        p.rtt.pings_sent == m.pings_sent,
        p.rtt.pongs_received == m.pongs_received,
        p.policy.e2e_us_p50 == crate::metrics::percentile_of(m.e2e_samples, 50),
        p.policy.e2e_us_p95 == crate::metrics::percentile_of(m.e2e_samples, 95),
        p.policy.correlated_received == m.correlated_received,
        p.buffers.video_fill@ == fill,
        p.buffers.state_fill == states,
{
}

/// A counter goes up by the number of events.
pub proof fn law_counters_go_up(counter: u64, n: u64)
    ensures
        went_up(counter, crate::metrics::bumped(counter, n), n),
{
}

/// A session on which nothing has happened knows its tracks and has counted
/// nothing.
pub proof fn law_a_fresh_session_has_counted_nothing(
    order: Seq<String>,
    p: PortalMetrics,
    fill: Map<Seq<char>, usize>,
    states: nat,
    name: Seq<char>,
)
    requires
        crate::metrics::shows(p, crate::metrics::fresh_metrics(order), fill, states),
    ensures
        p.transport.frames_sent@.contains_key(name) <==> exists|i: int|
            0 <= i < order.len() && #[trigger] order[i]@ == name,
        p.transport.frames_sent@.contains_key(name) ==> p.transport.frames_sent@[name] == 0
            && p.transport.frames_received@[name] == 0
            && p.transport.frames_dropped_publisher_full@[name] == 0
            && p.transport.bytes_sent@[name] == 0 && p.transport.bytes_received@[name] == 0
            && p.transport.frame_jitter_us@[name] == 0 && p.sync.frames_omitted@[name] == 0
            && p.buffers.evictions@[name] == 0,
        p.transport.states_sent == 0 && p.transport.states_received == 0,
        p.transport.actions_sent == 0 && p.transport.actions_received == 0,
        p.transport.action_chunks_sent == 0 && p.transport.action_chunks_received == 0,
        p.transport.state_jitter_us == 0 && p.transport.action_jitter_us == 0
            && p.transport.action_chunk_jitter_us == 0,
        p.sync.observations_emitted == 0 && p.sync.stale_observations_emitted == 0
            && p.sync.states_dropped == 0,
        p.sync.match_delta_us_p50 is None && p.sync.match_delta_us_p95 is None
            && p.sync.last_blocker_track is None,
        p.rtt.rtt_us_last is None && p.rtt.rtt_us_mean is None && p.rtt.rtt_us_p95 is None,
        p.rtt.pings_sent == 0 && p.rtt.pongs_received == 0,
        p.policy.e2e_us_p50 is None && p.policy.e2e_us_p95 is None
            && p.policy.correlated_received == 0,
        ({
            let m = crate::metrics::fresh_metrics(order);
            &&& m.track_order == order
            &&& m.e2e_samples.len() == 0 && m.match_deltas.len() == 0 && m.rtt_samples.len() == 0
            &&& m.state_jitter.last_send_ts is None && m.action_jitter.last_send_ts is None
                && m.chunk_jitter.last_send_ts is None
            &&& m.tracks.contains_key(name) ==> m.tracks[name].jitter.last_send_ts is None
        }),
{
    assert(crate::metrics::fresh_metrics(order).tracks.contains_key(name)
        == crate::metrics::listed(order, name));
}

} // verus!
