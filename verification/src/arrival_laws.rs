//! What a frame or a state that arrives changes, from end to end.
use crate::match_laws::{aligned, frames_in_order, gap};
use crate::sync_buffer as sb;
use crate::sync_buffer::{DropWarn, Frame, SyncRun, SyncSetup, SyncState, Verdict};
use crate::types::{StallBehavior, SyncConfig};
use vstd::prelude::*;

verus! {

proof fn lemma_position(names: Seq<String>, name: Seq<char>)
    ensures
        match sb::track_position(names, name) {
            Some(t) => 0 <= t < names.len() && names[t]@ == name && forall|u: int|
                t < u < names.len() ==> #[trigger] names[u]@ != name,
            None => forall|u: int| 0 <= u < names.len() ==> #[trigger] names[u]@ != name,
        },
    decreases names.len(),
{
    if names.len() > 0 && names.last()@ != name {
        let front = names.drop_last();
        lemma_position(front, name);
        match sb::track_position(front, name) {
            Some(t) => {
                assert(front[t] == names[t]);
                assert forall|u: int| t < u < names.len() implies #[trigger] names[u]@ != name by {
                    if u < names.len() - 1 {
                        assert(front[u] == names[u]);
                    }
                }
            },
            None => {
                assert forall|u: int| 0 <= u < names.len() implies #[trigger] names[u]@ != name by {
                    if u < names.len() - 1 {
                        assert(front[u] == names[u]);
                    }
                }
            },
        }
    }
}

/// A frame goes to the track of its name, the last one where a name is used
/// again; it goes nowhere exactly where no track has the name.
pub proof fn law_frames_go_by_name(names: Seq<String>, name: Seq<char>, t: int)
    requires
        0 <= t < names.len(),
    ensures
        names[t]@ == name && (forall|u: int| t < u < names.len() ==> #[trigger] names[u]@ != name)
            <==> sb::track_position(names, name) == Some(t),
        sb::track_position(names, name) is None <==> forall|u: int|
            0 <= u < names.len() ==> #[trigger] names[u]@ != name,
{
    lemma_position(names, name);
    match sb::track_position(names, name) {
        Some(p) => {
            if names[t]@ == name && (forall|u: int|
                t < u < names.len() ==> #[trigger] names[u]@ != name) {
                if p > t {
                    assert(names[p]@ != name);
                }
                if p < t {
                    assert(names[t]@ != name);
                }
            }
        },
        None => {},
    }
}

/// A frame is put behind the frames of its track. What is more than the track
/// may hold leaves from the front; the other tracks, the states and what was
/// shown stay as they are. As many frames are counted as left.
pub proof fn law_a_frame_joins_its_track(
    setup: SyncSetup,
    s: SyncState,
    m: crate::metrics::MetricsView,
    t: int,
    name: Seq<char>,
    frame: Frame,
)
    requires
        aligned(setup, s),
        0 <= t < setup.names.len(),
        s.buffers[t].len() <= setup.config.video_buffer_size,
    ensures
        ({
            let cap = setup.config.video_buffer_size as int;
            let after = sb::frame_pushed(setup, s, t, frame);
            let had = s.buffers[t];
            let has = after.buffers[t];
            let gone = sb::excess(had.len() + 1, cap as nat);
            &&& had.len() < cap ==> gone == 0 && has == had.push(frame)
            &&& had.len() == cap ==> gone == 1 && has == had.push(frame).skip(1)
            &&& cap > 0 ==> has.len() > 0 && has[has.len() - 1] == frame
            &&& forall|u: int|
                0 <= u < s.buffers.len() && u != t ==> #[trigger] after.buffers[u]
                    == s.buffers[u]
            &&& after.buffers.len() == s.buffers.len()
            &&& after.last == s.last && after.states == s.states
            &&& after.blocker == s.blocker && after.in_overflow_burst == s.in_overflow_burst
            &&& ({
                let n = sb::evictions_counted(m, name, gone);
                &&& gone == 0 || !m.tracks.contains_key(name) ==> n == m
                &&& gone == 1 && m.tracks.contains_key(name) ==> {
                    &&& crate::metrics_laws::went_up(
                        m.tracks[name].evictions,
                        n.tracks[name].evictions,
                        1,
                    )
                    &&& n.tracks[name] == (crate::metrics::TrackMetrics {
                        evictions: n.tracks[name].evictions,
                        ..m.tracks[name]
                    })
                    &&& n == (crate::metrics::MetricsView { tracks: n.tracks, ..m })
                    &&& forall|k: Seq<char>|
                        k != name ==> (#[trigger] n.tracks.contains_key(k)
                            <==> m.tracks.contains_key(k)) && n.tracks[k] == m.tracks[k]
                }
            })
        }),
{
}

/// Whatever a frame sets off is worked out on the buffer that it has joined,
/// or is put off while the head state is known to wait for another track.
pub proof fn law_a_frame_is_worked_on_or_waits(
    setup: SyncSetup,
    s: SyncState,
    m: crate::metrics::MetricsView,
    t: int,
    name: Seq<char>,
    frame: Frame,
)
    ensures
        ({
            let joined = sb::frame_pushed(setup, s, t, frame);
            let counted = sb::evictions_counted(
                m,
                name,
                sb::excess(s.buffers[t].len() + 1, setup.config.video_buffer_size as nat),
            );
            let fresh = SyncRun {
                state: joined,
                observations: Seq::empty(),
                drops: Seq::empty(),
                ahead: Seq::empty(),
                metrics: counted,
            };
            let end = sb::after_frame(setup, s, m, t, name, frame);
            &&& end == sb::settled(setup, fresh) || (end == fresh && s.blocker is Some
                && s.blocker->0 != t)
            &&& s.blocker is None ==> end == sb::settled(setup, fresh)
            &&& s.blocker is Some && s.blocker->0 == t ==> end == sb::settled(setup, fresh)
        }),
{
}

/// A state is put behind the waiting ones. What is more than the queue may
/// hold leaves from the front as drops, told with their values in their order
/// and counted.
pub proof fn law_a_state_joins_the_queue(
    setup: SyncSetup,
    s: SyncState,
    m: crate::metrics::MetricsView,
    state: (u64, Vec<u64>),
)
    requires
        s.states.len() <= setup.config.state_buffer_size,
    ensures
        ({
            let cap = setup.config.state_buffer_size as int;
            let run = sb::state_pushed(setup, s, m, state);
            let over = sb::excess(s.states.len() + 1, cap as nat);
            &&& sb::after_state(setup, s, m, state) == sb::settled(setup, run)
            &&& run.state.buffers == s.buffers && run.state.last == s.last && run.state.cursors
                == s.cursors
            &&& run.observations.len() == 0 && run.ahead.len() == 0
            &&& run.state.in_overflow_burst <==> s.states.len() == cap
            &&& s.states.len() < cap ==> {
                &&& over == 0
                &&& run.state.states == s.states.push(state)
                &&& run.drops.len() == 0
                &&& run.metrics == m
            }
            &&& s.states.len() == cap ==> {
                &&& over == 1
                &&& run.state.states == s.states.push(state).skip(1)
                &&& run.drops.len() == 1
                &&& run.drops[0] == sb::dropped(setup, s.states.push(state)[0])
                &&& crate::metrics_laws::went_up(m.states_dropped, run.metrics.states_dropped, 1)
                &&& run.metrics == (crate::metrics::MetricsView {
                    states_dropped: run.metrics.states_dropped,
                    ..m
                })
            }
        }),
{
}

/// A state that arrives at an empty queue, when every track has a frame
/// nearer to it than the search range, leaves at once as one observation at
/// its own time. Each track shows a frame at least as near to the state as any
/// of its frames, and keeps what is after that frame; nothing is dropped and
/// nothing waits.
pub proof fn law_a_state_with_all_its_frames_is_observed_at_once(
    setup: SyncSetup,
    s: SyncState,
    m: crate::metrics::MetricsView,
    state: (u64, Vec<u64>),
    t: int,
    other: int,
)
    requires
        aligned(setup, s),
        s.states.len() == 0,
        setup.config.state_buffer_size > 0,
        forall|u: int|
            0 <= u < setup.names.len() ==> frames_in_order(#[trigger] s.buffers[u]) && exists|i: int|
                0 <= i < s.buffers[u].len() && gap(
                    state.0,
                    (#[trigger] s.buffers[u][i]).timestamp_us,
                ) < setup.config.search_range_us,
        forall|u: int, w: int|
            0 <= u < w < setup.names.len() ==> #[trigger] setup.names[u]@
                != #[trigger] setup.names[w]@,
        0 <= t < setup.names.len(),
        0 <= other < s.buffers[t].len(),
    ensures
        ({
            let end = sb::after_state(setup, s, m, state);
            let name = setup.names[t]@;
            &&& end.observations.len() == 1
            &&& end.drops.len() == 0 && end.ahead.len() == 0
            &&& end.state.states.len() == 0
            &&& end.state.blocker is None
            &&& end.observations[0].timestamp_us == state.0
            &&& end.observations[0].frames.contains_key(name)
            &&& gap(state.0, end.observations[0].frames[name].timestamp_us)
                < setup.config.search_range_us
            &&& gap(state.0, end.observations[0].frames[name].timestamp_us) <= gap(
                state.0,
                s.buffers[t][other].timestamp_us,
            )
            &&& exists|i: int|
                {
                    &&& 0 <= i < s.buffers[t].len()
                    &&& end.observations[0].frames[name] == (#[trigger] s.buffers[t][i])@
                    &&& end.state.buffers[t] == s.buffers[t].skip(i + 1)
                    &&& end.state.last[t] == Some(s.buffers[t][i])
                }
        }),
{
    let run = sb::state_pushed(setup, s, m, state);
    let now = run.state;
    assert(now.states =~= seq![state]);
    assert(aligned(setup, now));
    assert forall|u: int| 0 <= u < setup.names.len() implies (#[trigger] now.verdict(
        setup,
        u,
    ) matches Verdict::Use { drain_to, stale, .. } && !stale && drain_to is Some) by {
        assert(frames_in_order(s.buffers[u]));
        let i = choose|i: int|
            0 <= i < s.buffers[u].len() && gap(
                state.0,
                (#[trigger] s.buffers[u][i]).timestamp_us,
            ) < setup.config.search_range_us;
        crate::match_laws::law_a_state_gets_the_nearest_frame(setup, now, u, i);
    }
    assert(frames_in_order(s.buffers[t]));
    let i = choose|i: int|
        0 <= i < s.buffers[t].len() && gap(state.0, (#[trigger] s.buffers[t][i]).timestamp_us)
            < setup.config.search_range_us;
    crate::match_laws::law_a_state_gets_the_nearest_frame(setup, now, t, i);
    if gap(state.0, s.buffers[t][other].timestamp_us) < setup.config.search_range_us {
        crate::match_laws::law_a_state_gets_the_nearest_frame(setup, now, t, other);
    }
    crate::match_laws::law_a_complete_state_is_observed(setup, run, t);
    let next = sb::head_emitted(setup, run);
    crate::match_laws::law_an_empty_queue_is_at_rest(setup, next);
    assert forall|u: int| t < u < setup.names.len() implies #[trigger] setup.names[u]@
        != setup.names[t]@ by {
        assert(setup.names[t]@ != setup.names[u]@);
    }
    crate::match_laws::law_tracks_are_shown_under_their_names(setup, now, t, setup.names[t]@);
    let k = now.verdict(setup, t)->drain_to->0 as int;
    assert(next.state.buffers[t] =~= s.buffers[t].skip(k + 1));
    assert(s.buffers[t][k] == now.verdict(setup, t)->frame);
    assert(next.observations.len() == 1);
}

/// The fill of each track is told under its name: the number of frames that
/// it holds.
pub proof fn law_fills_are_told_by_name(
    names: Seq<String>,
    buffers: Seq<Seq<Frame>>,
    n: nat,
    t: int,
    name: Seq<char>,
)
    requires
        n <= names.len(),
        0 <= t < n,
        buffers[t].len() <= usize::MAX,
        forall|u: int| t < u < n ==> #[trigger] names[u]@ != names[t]@,
    ensures
        sb::fill_map(names, buffers, n).contains_key(names[t]@),
        sb::fill_map(names, buffers, n)[names[t]@] == buffers[t].len(),
        sb::fill_map(names, buffers, n).contains_key(name) ==> exists|u: int|
            0 <= u < n && #[trigger] names[u]@ == name,
    decreases n,
{
    lemma_fill_names(names, buffers, n, name);
    if t < n - 1 {
        assert(names[n - 1]@ != names[t]@);
        law_fills_are_told_by_name(names, buffers, (n - 1) as nat, t, name);
    }
}

proof fn lemma_fill_names(
    names: Seq<String>,
    buffers: Seq<Seq<Frame>>,
    n: nat,
    name: Seq<char>,
)
    requires
        n <= names.len(),
    ensures
        sb::fill_map(names, buffers, n).contains_key(name) ==> exists|u: int|
            0 <= u < n && #[trigger] names[u]@ == name,
    decreases n,
{
    if n > 0 {
        lemma_fill_names(names, buffers, (n - 1) as nat, name);
        assert(names[n - 1]@ == name || names[n - 1]@ != name);
    }
}

/// A buffer starts with nothing in it, for as many tracks as it was made for.
pub proof fn law_a_new_buffer_holds_nothing(n: nat, t: int)
    requires
        0 <= t < n,
    ensures
        ({
            let s = sb::empty_state(n);
            &&& s.buffers.len() == n && s.cursors.len() == n && s.last.len() == n
            &&& s.buffers[t].len() == 0 && s.last[t] is None
            &&& s.states.len() == 0 && s.blocker is None && !s.in_overflow_burst
        }),
{
}

/// Where stale frames are reused, every track freezes without any wait;
/// otherwise every track does as the default says.
pub proof fn law_reuse_freezes_at_once(config: SyncConfig)
    ensures
        config.reuse_stale_frames ==> sb::common_stall(config).behavior == StallBehavior::Freeze
            && sb::common_stall(config).max_lag_us == Some(0u64),
        !config.reuse_stale_frames ==> sb::common_stall(config) == config.default_stall,
{
}

/// A report of dropped states counts one more than were counted, tells the
/// largest lead of them all, and the time since the report before, none for
/// the first and zero where local time went back.
pub proof fn law_reports_tell_the_worst(w: DropWarn, ahead_us: u64, now_us: u64)
    ensures
        ({
            let r = sb::drop_report(w, ahead_us, now_us);
            &&& r.count == w.count + 1 || (w.count == u64::MAX && r.count == u64::MAX)
            &&& r.worst_ahead_us >= ahead_us && r.worst_ahead_us >= w.worst_ahead_us
            &&& r.worst_ahead_us == ahead_us || r.worst_ahead_us == w.worst_ahead_us
            &&& r.elapsed_us is None <==> w.last_report_us is None
            &&& r.elapsed_us == sb::since_report(w, now_us)
            &&& w.last_report_us is Some && now_us >= w.last_report_us->0 ==> r.elapsed_us->0
                + w.last_report_us->0 == now_us
            &&& w.last_report_us is Some && now_us <= w.last_report_us->0 ==> r.elapsed_us->0 == 0
        }),
{
}

} // verus!
