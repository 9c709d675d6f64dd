//! What holds of the sync buffer over whole runs.
use crate::sync_buffer as sb;
use crate::sync_buffer::{Frame, SyncRun, SyncSetup, SyncState, Verdict};
use crate::types::{FrameSource, FrameView, ObservationView, StallBehavior, StallConfig};
use vstd::prelude::*;

verus! {

/// The shape of a buffer: one queue, cursor and memory for each track.
pub open spec fn shaped(setup: SyncSetup, s: SyncState) -> bool {
    &&& s.buffers.len() == setup.names.len()
    &&& s.cursors.len() == setup.names.len()
    &&& s.last.len() == setup.names.len()
    &&& setup.stalls.len() == setup.names.len()
}

/// Whether no queue exceeds its declared size.
pub open spec fn bounded(setup: SyncSetup, s: SyncState) -> bool {
    &&& shaped(setup, s)
    &&& s.states.len() <= setup.config.state_buffer_size
    &&& forall|t: int|
        0 <= t < s.buffers.len() ==> (#[trigger] s.buffers[t]).len()
            <= setup.config.video_buffer_size
}

// ---------------------------------------------------------------------------
// Bounds
// ---------------------------------------------------------------------------

proof fn lemma_settled_bounded(setup: SyncSetup, run: SyncRun)
    requires
        bounded(setup, run.state),
    ensures
        bounded(setup, sb::settled(setup, run).state),
    decreases run.state.states.len(),
{
    let n = setup.names.len() as int;
    if run.state.states.len() > 0 {
        match sb::first_dropping(run.state, setup, 0, n) {
            Some(t) => lemma_settled_bounded(setup, sb::head_dropped(setup, run, t)),
            None => match sb::first_waiting(run.state, setup, 0, n) {
                Some(b) => {},
                None => {
                    lemma_emitted_bounded(setup, run);
                    lemma_settled_bounded(setup, sb::head_emitted(setup, run));
                },
            },
        }
    }
}

pub(crate) proof fn lemma_emitted_bounded(setup: SyncSetup, run: SyncRun)
    requires
        bounded(setup, run.state),
        run.state.states.len() > 0,
    ensures
        bounded(setup, sb::head_emitted(setup, run).state),
{
    let next = sb::head_emitted(setup, run);
    assert forall|t: int| 0 <= t < next.state.buffers.len() implies (
    #[trigger] next.state.buffers[t]).len() <= setup.config.video_buffer_size by {
        assert(run.state.buffers[t].len() <= setup.config.video_buffer_size);
        lemma_drained_len(run.state, setup, t);
    }
}

pub(crate) proof fn lemma_frame_pushed_bounded(setup: SyncSetup, s: SyncState, t: int, frame: Frame)
    requires
        bounded(setup, s),
        0 <= t < setup.names.len(),
    ensures
        bounded(setup, sb::frame_pushed(setup, s, t, frame)),
{
    let pushed = sb::frame_pushed(setup, s, t, frame);
    assert forall|j: int| 0 <= j < pushed.buffers.len() implies (
    #[trigger] pushed.buffers[j]).len() <= setup.config.video_buffer_size by {
        assert(s.buffers[j].len() <= setup.config.video_buffer_size);
    }
}

pub(crate) proof fn lemma_state_pushed_bounded(
    setup: SyncSetup,
    s: SyncState,
    m: crate::metrics::MetricsView,
    state: (u64, Vec<u64>),
)
    requires
        bounded(setup, s),
    ensures
        bounded(setup, sb::state_pushed(setup, s, m, state).state),
{
    let after = sb::state_pushed(setup, s, m, state).state;
    assert forall|t: int| 0 <= t < after.buffers.len() implies (
    #[trigger] after.buffers[t]).len() <= setup.config.video_buffer_size by {
        assert(s.buffers[t].len() <= setup.config.video_buffer_size);
    }
}

/// Carrying out a verdict never lengthens a queue.
proof fn lemma_drained_len(s: SyncState, setup: SyncSetup, t: int)
    requires
        0 <= t < s.buffers.len(),
    ensures
        sb::drained(s.buffers[t], s.verdict(setup, t)).len() <= s.buffers[t].len(),
{
    lemma_drain_within(
        s.buffers[t],
        s.position(t),
        s.last[t],
        s.head_ts(),
        s.next_ts(),
        setup.config.search_range_us,
        setup.stalls[t],
        s.lead(),
        s.cursors[t] as int,
    );
}

proof fn lemma_rewound_range(buf: Seq<Frame>, cursor: int, ts: u64)
    requires
        0 <= cursor < buf.len(),
    ensures
        0 <= sb::rewound(buf, cursor, ts) <= cursor,
    decreases cursor,
{
    if cursor > 0 && buf[cursor].timestamp_us > ts {
        lemma_rewound_range(buf, cursor - 1, ts);
    }
}

proof fn lemma_advanced_range(buf: Seq<Frame>, cursor: int, ts: u64)
    requires
        0 <= cursor < buf.len(),
    ensures
        cursor <= sb::advanced(buf, cursor, ts) < buf.len(),
    decreases buf.len() - cursor,
{
    if cursor + 1 < buf.len() && buf[cursor + 1].timestamp_us <= ts {
        lemma_advanced_range(buf, cursor + 1, ts);
    }
}

pub(crate) proof fn lemma_sought_range(buf: Seq<Frame>, cursor: int, ts: u64)
    requires
        0 <= cursor,
        buf.len() > 0,
    ensures
        0 <= sb::sought(buf, cursor, ts) < buf.len(),
{
    let start = if cursor >= buf.len() {
        buf.len() - 1
    } else {
        cursor
    };
    lemma_rewound_range(buf, start, ts);
    lemma_advanced_range(buf, sb::rewound(buf, start, ts), ts);
}

proof fn lemma_drain_within(
    buf: Seq<Frame>,
    position: int,
    last: Option<Frame>,
    ts: u64,
    next_ts: Option<u64>,
    range: u64,
    stall: StallConfig,
    lead: u64,
    cursor: int,
)
    requires
        0 <= cursor,
        position == sb::sought(buf, cursor, ts),
    ensures
        sb::drained(
            buf,
            sb::judged(buf, position, last, ts, next_ts, range, stall, lead),
        ).len() <= buf.len(),
{
    if buf.len() > 0 {
        lemma_sought_range(buf, cursor, ts);
    }
}

/// A new buffer keeps within its declared sizes.
pub proof fn law_new_buffer_is_bounded(setup: SyncSetup)
    requires
        setup.stalls.len() == setup.names.len(),
    ensures
        bounded(setup, sb::empty_state(setup.names.len())),
{
}

/// No sequence of frames makes a queue exceed its declared size: a full
/// queue of frames loses its oldest ones.
pub proof fn law_frame_keeps_bounds(
    setup: SyncSetup,
    s: SyncState,
    m: crate::metrics::MetricsView,
    t: int,
    name: Seq<char>,
    frame: Frame,
)
    requires
        bounded(setup, s),
        0 <= t < setup.names.len(),
    ensures
        bounded(setup, sb::after_frame(setup, s, m, t, name, frame).state),
{
    let pushed = sb::frame_pushed(setup, s, t, frame);
    lemma_frame_pushed_bounded(setup, s, t, frame);
    let evicted = sb::excess(s.buffers[t].len() + 1, setup.config.video_buffer_size as nat);
    lemma_settled_bounded(setup, sb::started(pushed, sb::evictions_counted(m, name, evicted)));
}

/// No sequence of states makes the queue of states exceed its declared size:
/// a full queue loses its oldest ones.
pub proof fn law_state_keeps_bounds(
    setup: SyncSetup,
    s: SyncState,
    m: crate::metrics::MetricsView,
    state: (u64, Vec<u64>),
)
    requires
        bounded(setup, s),
    ensures
        bounded(setup, sb::after_state(setup, s, m, state).state),
{
    lemma_state_pushed_bounded(setup, s, m, state);
    lemma_settled_bounded(setup, sb::state_pushed(setup, s, m, state));
}

// ---------------------------------------------------------------------------
// No state is lost, duplicated or reordered
// ---------------------------------------------------------------------------

/// Whether the observations carry, in order, the timestamps of some of the
/// states.
pub open spec fn drawn_in_order(
    observations: Seq<ObservationView>,
    states: Seq<(u64, Vec<u64>)>,
) -> bool
    decreases states.len(),
{
    if observations.len() == 0 {
        true
    } else if states.len() == 0 {
        false
    } else {
        ||| drawn_in_order(observations, states.drop_first())
        ||| observations[0].timestamp_us == states[0].0 && drawn_in_order(
            observations.drop_first(),
            states.drop_first(),
        )
    }
}

/// Resolving states takes them from the head of the queue, each to exactly
/// one place: what came out plus what still waits is what went in, and
/// observations keep the order of their states.
pub proof fn law_no_state_is_lost(setup: SyncSetup, run: SyncRun)
    ensures
        ({
            let end = sb::settled(setup, run);
            let emitted = end.observations.skip(run.observations.len() as int);
            let shed = end.drops.len() - run.drops.len();
            &&& run.observations.len() <= end.observations.len()
            &&& end.observations.take(run.observations.len() as int) == run.observations
            &&& shed >= 0
            &&& emitted.len() + shed <= run.state.states.len()
            &&& end.state.states == run.state.states.skip(emitted.len() + shed)
            &&& drawn_in_order(emitted, run.state.states)
        }),
    decreases run.state.states.len(),
{
    let n = setup.names.len() as int;
    let end = sb::settled(setup, run);
    let emitted = end.observations.skip(run.observations.len() as int);
    let states = run.state.states;
    if states.len() == 0 {
        assert(end.observations.take(run.observations.len() as int) =~= run.observations);
        assert(states.skip(0) =~= states);
    } else {
        match sb::first_dropping(run.state, setup, 0, n) {
            Some(t) => {
                let next = sb::head_dropped(setup, run, t);
                law_no_state_is_lost(setup, next);
                assert(states.drop_first().skip(
                    emitted.len() + (end.drops.len() - next.drops.len()),
                ) =~= states.skip(emitted.len() + (end.drops.len() - run.drops.len())));
            },
            None => match sb::first_waiting(run.state, setup, 0, n) {
                Some(b) => {
                    assert(end.observations.take(run.observations.len() as int)
                        =~= run.observations);
                    assert(states.skip(0) =~= states);
                },
                None => {
                    let next = sb::head_emitted(setup, run);
                    law_no_state_is_lost(setup, next);
                    let later = end.observations.skip(next.observations.len() as int);
                    assert(end.observations.take(run.observations.len() as int)
                        =~= end.observations.take(next.observations.len() as int).take(
                        run.observations.len() as int,
                    ));
                    assert(next.observations.take(run.observations.len() as int)
                        =~= run.observations);
                    assert(emitted.drop_first() =~= later);
                    assert(emitted[0] == end.observations.take(
                        next.observations.len() as int,
                    )[run.observations.len() as int]);
                    assert(states.drop_first().skip(
                        later.len() + (end.drops.len() - next.drops.len()),
                    ) =~= states.skip(emitted.len() + (end.drops.len() - run.drops.len())));
                },
            },
        }
    }
}

// ---------------------------------------------------------------------------
// Frames in observations
// ---------------------------------------------------------------------------

/// A frame that is not tagged stale is strictly within the search range of
/// its state, and no later buffered state is strictly closer to it. A stale
/// frame only occurs on a track that freezes, a placeholder only on one that
/// is left out.
pub proof fn law_frames_fit_their_state(
    buf: Seq<Frame>,
    cursor: int,
    last: Option<Frame>,
    ts: u64,
    next_ts: Option<u64>,
    range: u64,
    stall: StallConfig,
    lead: u64,
)
    requires
        0 <= cursor < usize::MAX,
    ensures
        match sb::judged(buf, cursor, last, ts, next_ts, range, stall, lead) {
            Verdict::Use { frame, drain_to, stale } => if stale {
                stall.behavior == StallBehavior::Freeze
            } else {
                &&& drain_to matches Some(i) && i < buf.len() && frame == buf[i as int]
                &&& sb::distance(ts, frame.timestamp_us) < range
                &&& next_ts matches Some(next) ==> sb::distance(next, frame.timestamp_us)
                    >= sb::distance(ts, frame.timestamp_us)
            },
            Verdict::Omit { .. } => stall.behavior == StallBehavior::Omit,
            _ => true,
        },
{
}

pub(crate) proof fn lemma_all_usable(s: SyncState, setup: SyncSetup, from: int, n: int)
    requires
        sb::first_dropping(s, setup, from, n) is None,
        sb::first_waiting(s, setup, from, n) is None,
    ensures
        forall|t: int| from <= t < n ==> (#[trigger] s.verdict(setup, t)).settles(),
    decreases n - from,
{
    if from < n {
        lemma_all_usable(s, setup, from + 1, n);
        assert(s.verdict(setup, from).settles());
    }
}

proof fn lemma_frames_present(setup: SyncSetup, s: SyncState, n: nat, t: int)
    requires
        0 <= t < n,
        forall|j: int| 0 <= j < n ==> (#[trigger] s.verdict(setup, j)).settles(),
    ensures
        sb::frames_of(setup, s, n).contains_key(setup.names[t]@),
    decreases n,
{
    assert(s.verdict(setup, n - 1).settles());
    if t < n - 1 {
        lemma_frames_present(setup, s, (n - 1) as nat, t);
    }
}

/// Whether an observation is what it should be: it has a frame of every
/// declared track, and each fits the state.
pub open spec fn sound(setup: SyncSetup, o: ObservationView) -> bool {
    forall|t: int|
        0 <= t < setup.names.len() ==> {
            let name = (#[trigger] setup.names[t])@;
            &&& o.frames.contains_key(name)
            &&& fits(setup, name, o.timestamp_us, o.frames[name])
        }
}

/// Whether a track of this name is resolved in the given way.
pub open spec fn resolves(setup: SyncSetup, name: Seq<char>, behavior: StallBehavior) -> bool {
    exists|t: int|
        0 <= t < setup.names.len() && (#[trigger] setup.names[t])@ == name
            && setup.stalls[t].behavior == behavior
}

/// Whether a frame may stand for a track in an observation at `ts`: it lies
/// strictly within the search range, or it is tagged stale on a track that
/// freezes, or it is the placeholder of a track that is left out.
pub open spec fn fits(setup: SyncSetup, name: Seq<char>, ts: u64, frame: FrameView) -> bool {
    ||| sb::distance(ts, frame.timestamp_us) < setup.config.search_range_us
    ||| frame.source == FrameSource::Stale && resolves(setup, name, StallBehavior::Freeze)
    ||| frame == sb::placeholder_frame(frame.width, frame.height, name, ts) && resolves(
        setup,
        name,
        StallBehavior::Omit,
    )
}

/// Every observation that comes of a frame has a frame of every track, and
/// every frame fits its state.
pub proof fn law_observations_of_a_frame_are_sound(
    setup: SyncSetup,
    s: SyncState,
    m: crate::metrics::MetricsView,
    t: int,
    name: Seq<char>,
    frame: Frame,
    i: int,
)
    requires
        bounded(setup, s),
        0 <= t < setup.names.len(),
        0 <= i < sb::after_frame(setup, s, m, t, name, frame).observations.len(),
    ensures
        sound(setup, sb::after_frame(setup, s, m, t, name, frame).observations[i]),
{
    let evicted = sb::excess(s.buffers[t].len() + 1, setup.config.video_buffer_size as nat);
    let run = sb::started(
        sb::frame_pushed(setup, s, t, frame),
        sb::evictions_counted(m, name, evicted),
    );
    lemma_frame_pushed_bounded(setup, s, t, frame);
    lemma_settled_sound(setup, run, i);
}

/// Every observation that comes of a state has a frame of every track, and
/// every frame fits its state.
pub proof fn law_observations_of_a_state_are_sound(
    setup: SyncSetup,
    s: SyncState,
    m: crate::metrics::MetricsView,
    state: (u64, Vec<u64>),
    i: int,
)
    requires
        bounded(setup, s),
        0 <= i < sb::after_state(setup, s, m, state).observations.len(),
    ensures
        sound(setup, sb::after_state(setup, s, m, state).observations[i]),
{
    lemma_state_pushed_bounded(setup, s, m, state);
    lemma_settled_sound(setup, sb::state_pushed(setup, s, m, state), i);
}

pub(crate) proof fn lemma_settled_sound(setup: SyncSetup, run: SyncRun, i: int)
    requires
        bounded(setup, run.state),
        run.observations.len() <= i < sb::settled(setup, run).observations.len(),
    ensures
        sound(setup, sb::settled(setup, run).observations[i]),
    decreases run.state.states.len(),
{
    let n = setup.names.len();
    if run.state.states.len() > 0 {
        match sb::first_dropping(run.state, setup, 0, n as int) {
            Some(t) => lemma_settled_sound(setup, sb::head_dropped(setup, run, t), i),
            None => match sb::first_waiting(run.state, setup, 0, n as int) {
                Some(_) => {},
                None => {
                    let next = sb::head_emitted(setup, run);
                    lemma_emitted_bounded(setup, run);
                    if i > run.observations.len() {
                        lemma_settled_sound(setup, next, i);
                    } else {
                        law_no_state_is_lost(setup, next);
                        let end = sb::settled(setup, run);
                        assert(end.observations[i] == end.observations.take(
                            next.observations.len() as int,
                        )[i]);
                        lemma_all_usable(run.state, setup, 0, n as int);
                        lemma_frames_fit(setup, run.state, n);
                        assert forall|t: int| 0 <= t < setup.names.len() implies
                            end.observations[i].frames.contains_key((#[trigger] setup.names[t])@)
                            by {
                            lemma_frames_present(setup, run.state, n, t);
                        }
                    }
                },
            },
        }
    }
}

proof fn lemma_frames_fit(setup: SyncSetup, s: SyncState, n: nat)
    requires
        bounded(setup, s),
        n <= setup.names.len(),
    ensures
        forall|name: Seq<char>| #[trigger]
            sb::frames_of(setup, s, n).contains_key(name) ==> fits(
                setup,
                name,
                s.head_ts(),
                sb::frames_of(setup, s, n)[name],
            ),
    decreases n,
{
    if n > 0 {
        lemma_frames_fit(setup, s, (n - 1) as nat);
        let buf = s.buffers[n - 1];
        assert(buf.len() <= setup.config.video_buffer_size);
        if buf.len() > 0 {
            lemma_sought_range(buf, s.cursors[n - 1] as int, s.head_ts());
            law_frames_fit_their_state(
                buf,
                s.position(n - 1),
                s.last[n - 1],
                s.head_ts(),
                s.next_ts(),
                setup.config.search_range_us,
                setup.stalls[n - 1],
                s.lead(),
            );
        }
        let rest = sb::frames_of(setup, s, (n - 1) as nat);
        let all = sb::frames_of(setup, s, n);
        let last_name = setup.names[n - 1]@;
        assert(setup.names[n - 1]@ == last_name);
        match s.verdict(setup, n - 1) {
            Verdict::Use { frame, stale, .. } => {
                assert(fits(setup, last_name, s.head_ts(), sb::tagged(frame@, stale)));
            },
            Verdict::Omit { width, height } => {
                assert(fits(
                    setup,
                    last_name,
                    s.head_ts(),
                    sb::placeholder_frame(width, height, last_name, s.head_ts()),
                ));
            },
            _ => {},
        }
        assert forall|name: Seq<char>| #[trigger] all.contains_key(name) implies fits(
            setup,
            name,
            s.head_ts(),
            all[name],
        ) by {
            if name != last_name {
                assert(rest.contains_key(name));
            }
        }
    }
}

// ---------------------------------------------------------------------------
// Accounting
// ---------------------------------------------------------------------------

/// Every state that was waiting when a frame came has left as an observation,
/// left as a drop, or still waits.
pub proof fn law_a_frame_loses_no_state(
    setup: SyncSetup,
    s: SyncState,
    m: crate::metrics::MetricsView,
    t: int,
    name: Seq<char>,
    frame: Frame,
)
    ensures
        ({
            let end = sb::after_frame(setup, s, m, t, name, frame);
            end.observations.len() + end.drops.len() + end.state.states.len() == s.states.len()
        }),
{
    let evicted = sb::excess(s.buffers[t].len() + 1, setup.config.video_buffer_size as nat);
    law_no_state_is_lost(
        setup,
        sb::started(
            sb::frame_pushed(setup, s, t, frame),
            sb::evictions_counted(m, name, evicted),
        ),
    );
}

/// Every state that was waiting when another came, and that one, has left as
/// an observation, left as a drop, or still waits.
pub proof fn law_a_state_loses_no_state(
    setup: SyncSetup,
    s: SyncState,
    m: crate::metrics::MetricsView,
    state: (u64, Vec<u64>),
)
    ensures
        ({
            let end = sb::after_state(setup, s, m, state);
            end.observations.len() + end.drops.len() + end.state.states.len() == s.states.len()
                + 1
        }),
{
    law_no_state_is_lost(setup, sb::state_pushed(setup, s, m, state));
}

// ---------------------------------------------------------------------------
// Skipped work
// ---------------------------------------------------------------------------

/// Whether the head state really waits for the track that is noted.
pub open spec fn blocker_holds(setup: SyncSetup, s: SyncState) -> bool {
    s.blocker matches Some(b) ==> {
        &&& b < setup.names.len()
        &&& s.states.len() > 0
        &&& s.verdict(setup, b as int) is Wait
    }
}

/// A new buffer has noted no track.
pub proof fn law_new_buffer_waits_for_nothing(setup: SyncSetup)
    ensures
        blocker_holds(setup, sb::empty_state(setup.names.len())),
{
}

/// Whether no track gives the head state up, where one is noted that it waits
/// for.
pub open spec fn nothing_drops(setup: SyncSetup, s: SyncState) -> bool {
    s.blocker is Some ==> sb::first_dropping(s, setup, 0, setup.names.len() as int) is None
}

/// A new buffer gives nothing up.
pub proof fn law_new_buffer_drops_nothing(setup: SyncSetup)
    ensures
        nothing_drops(setup, sb::empty_state(setup.names.len())),
{
}

/// Nothing is missed when a frame of another track than the one that the head
/// state waits for is only put by: the head state could not have become an
/// observation, and no track gives it up.
pub proof fn law_skipping_misses_nothing(setup: SyncSetup, s: SyncState, t: int, frame: Frame)
    requires
        shaped(setup, s),
        blocker_holds(setup, s),
        nothing_drops(setup, s),
        0 <= t < setup.names.len(),
        !sb::worth_trying(setup, s, t, frame),
    ensures
        sb::first_waiting(
            sb::frame_pushed(setup, s, t, frame),
            setup,
            0,
            setup.names.len() as int,
        ) is Some,
        blocker_holds(setup, sb::frame_pushed(setup, s, t, frame)),
        nothing_drops(setup, sb::frame_pushed(setup, s, t, frame)),
{
    let b = s.blocker->0 as int;
    let n = setup.names.len() as int;
    let pushed = sb::frame_pushed(setup, s, t, frame);
    assert(pushed.verdict(setup, b) is Wait);
    lemma_waiting_is_found(pushed, setup, 0, n, b);
    assert forall|k: int| 0 <= k < n implies !(#[trigger] pushed.verdict(setup, k) is Drop) by {
        if k != t {
            if s.verdict(setup, k) is Drop {
                lemma_dropping_is_found(s, setup, 0, n, k);
            }
            assert(pushed.buffers[k] == s.buffers[k]);
            assert(pushed.cursors[k] == s.cursors[k]);
            assert(pushed.position(k) == s.position(k));
        }
    }
    lemma_none_drops(pushed, setup, 0, n);
}

proof fn lemma_dropping_is_found(s: SyncState, setup: SyncSetup, from: int, n: int, k: int)
    requires
        from <= k < n,
        s.verdict(setup, k) is Drop,
    ensures
        sb::first_dropping(s, setup, from, n) is Some,
    decreases n - from,
{
    if from < k {
        lemma_dropping_is_found(s, setup, from + 1, n, k);
    }
}

proof fn lemma_none_drops(s: SyncState, setup: SyncSetup, from: int, n: int)
    requires
        forall|k: int| from <= k < n ==> !(#[trigger] s.verdict(setup, k) is Drop),
    ensures
        sb::first_dropping(s, setup, from, n) is None,
    decreases n - from,
{
    if from < n {
        lemma_none_drops(s, setup, from + 1, n);
    }
}

proof fn lemma_waiting_is_found(s: SyncState, setup: SyncSetup, from: int, n: int, b: int)
    requires
        from <= b < n,
        s.verdict(setup, b) is Wait,
    ensures
        sb::first_waiting(s, setup, from, n) is Some,
    decreases n - from,
{
    if from < b {
        lemma_waiting_is_found(s, setup, from + 1, n, b);
    }
}

/// The track that is noted stays true, whatever comes: a frame. Nor is a state
/// kept that a track gives up.
pub proof fn law_frame_keeps_the_blocker_true(
    setup: SyncSetup,
    s: SyncState,
    m: crate::metrics::MetricsView,
    t: int,
    name: Seq<char>,
    frame: Frame,
)
    requires
        bounded(setup, s),
        setup.names.len() <= usize::MAX,
        blocker_holds(setup, s),
        nothing_drops(setup, s),
        0 <= t < setup.names.len(),
    ensures
        blocker_holds(setup, sb::after_frame(setup, s, m, t, name, frame).state),
        nothing_drops(setup, sb::after_frame(setup, s, m, t, name, frame).state),
{
    let evicted = sb::excess(s.buffers[t].len() + 1, setup.config.video_buffer_size as nat);
    let pushed = sb::frame_pushed(setup, s, t, frame);
    let run = sb::started(pushed, sb::evictions_counted(m, name, evicted));
    if sb::worth_trying(setup, s, t, frame) {
        lemma_frame_pushed_bounded(setup, s, t, frame);
        lemma_settled_blocker(setup, run);
    } else {
        law_skipping_misses_nothing(setup, s, t, frame);
    }
}

/// The track that is noted stays true, whatever comes: a state. Nor is a state
/// kept that a track gives up.
pub proof fn law_state_keeps_the_blocker_true(
    setup: SyncSetup,
    s: SyncState,
    m: crate::metrics::MetricsView,
    state: (u64, Vec<u64>),
)
    requires
        bounded(setup, s),
        setup.names.len() <= usize::MAX,
    ensures
        blocker_holds(setup, sb::after_state(setup, s, m, state).state),
        nothing_drops(setup, sb::after_state(setup, s, m, state).state),
{
    lemma_state_pushed_bounded(setup, s, m, state);
    lemma_settled_blocker(setup, sb::state_pushed(setup, s, m, state));
}

proof fn lemma_settled_blocker(setup: SyncSetup, run: SyncRun)
    requires
        bounded(setup, run.state),
        setup.names.len() <= usize::MAX,
    ensures
        blocker_holds(setup, sb::settled(setup, run).state),
        nothing_drops(setup, sb::settled(setup, run).state),
    decreases run.state.states.len(),
{
    let n = setup.names.len() as int;
    let s = run.state;
    if s.states.len() > 0 {
        match sb::first_dropping(s, setup, 0, n) {
            Some(t) => {
                lemma_settled_blocker(setup, sb::head_dropped(setup, run, t));
            },
            None => match sb::first_waiting(s, setup, 0, n) {
                Some(b) => {
                    lemma_first_waiting_waits(s, setup, 0, n);
                    lemma_search_settles(s.buffers[b], s.cursors[b] as int, s.head_ts());
                    let after = sb::head_waiting(run, n, b).state;
                    if s.buffers[b].len() > 0 {
                        lemma_sought_range(s.buffers[b], s.cursors[b] as int, s.head_ts());
                    }
                    assert(s.buffers[b].len() <= setup.config.video_buffer_size);
                    assert(after.cursors[b] == s.position(b));
                    assert(after.position(b) == s.position(b));
                    lemma_same_lead(s, after, n);
                    assert forall|k: int| 0 <= k < n implies !(#[trigger] after.verdict(
                        setup,
                        k,
                    ) is Drop) by {
                        if s.verdict(setup, k) is Drop {
                            lemma_dropping_is_found(s, setup, 0, n, k);
                        }
                        lemma_search_settles(s.buffers[k], s.cursors[k] as int, s.head_ts());
                        if s.buffers[k].len() > 0 {
                            lemma_sought_range(s.buffers[k], s.cursors[k] as int, s.head_ts());
                        }
                        assert(s.buffers[k].len() <= setup.config.video_buffer_size);
                        assert(after.cursors[k] == s.position(k));
                        assert(after.position(k) == s.position(k));
                    }
                    lemma_none_drops(after, setup, 0, n);
                },
                None => {
                    lemma_emitted_bounded(setup, run);
                    lemma_settled_blocker(setup, sb::head_emitted(setup, run));
                },
            },
        }
    }
}

proof fn lemma_same_lead(a: SyncState, b: SyncState, n: int)
    requires
        a.buffers == b.buffers,
        a.last == b.last,
        a.states == b.states,
    ensures
        a.lead_of(n) == b.lead_of(n),
    decreases n,
{
    if n > 0 {
        lemma_same_lead(a, b, n - 1);
    }
}

proof fn lemma_first_waiting_waits(s: SyncState, setup: SyncSetup, from: int, n: int)
    requires
        0 <= from,
        sb::first_waiting(s, setup, from, n) is Some,
    ensures
        sb::first_waiting(s, setup, from, n) matches Some(b) && from <= b < n && s.verdict(setup, b) is Wait,
    decreases n - from,
{
    if !(s.verdict(setup, from) is Wait) {
        lemma_first_waiting_waits(s, setup, from + 1, n);
    }
}

/// A search that starts where one ended stays there.
proof fn lemma_search_settles(buf: Seq<Frame>, cursor: int, ts: u64)
    requires
        0 <= cursor,
    ensures
        sb::sought(buf, sb::sought(buf, cursor, ts), ts) == sb::sought(buf, cursor, ts),
{
    if buf.len() > 0 {
        let start = if cursor >= buf.len() {
            buf.len() - 1
        } else {
            cursor
        };
        lemma_sought_range(buf, cursor, ts);
        lemma_rewound_stops(buf, start, ts);
        lemma_rewound_range(buf, start, ts);
        lemma_advanced_stops(buf, sb::rewound(buf, start, ts), ts);
    }
}

proof fn lemma_rewound_stops(buf: Seq<Frame>, cursor: int, ts: u64)
    requires
        0 <= cursor < buf.len(),
    ensures
        sb::rewound(buf, cursor, ts) == 0 || buf[sb::rewound(buf, cursor, ts)].timestamp_us <= ts,
    decreases cursor,
{
    if cursor > 0 && buf[cursor].timestamp_us > ts {
        lemma_rewound_stops(buf, cursor - 1, ts);
    }
}

proof fn lemma_advanced_stops(buf: Seq<Frame>, cursor: int, ts: u64)
    requires
        0 <= cursor < buf.len(),
        cursor == 0 || buf[cursor].timestamp_us <= ts,
    ensures
        ({
            let a = sb::advanced(buf, cursor, ts);
            &&& a == 0 || buf[a].timestamp_us <= ts
            &&& a + 1 < buf.len() ==> buf[a + 1].timestamp_us > ts
        }),
    decreases buf.len() - cursor,
{
    if cursor + 1 < buf.len() && buf[cursor + 1].timestamp_us <= ts {
        lemma_advanced_stops(buf, cursor + 1, ts);
    }
}

// ---------------------------------------------------------------------------
// Silent tracks
// ---------------------------------------------------------------------------

/// Whether a track has something to show whatever comes: it freezes and has
/// emitted a frame, or it is left out and the size of its frames is known.
pub open spec fn has_substitute(setup: SyncSetup, s: SyncState, t: int) -> bool {
    match setup.stalls[t].behavior {
        StallBehavior::Drop => false,
        StallBehavior::Freeze => s.last[t] is Some,
        StallBehavior::Omit => sb::newest_frame(s.buffers[t], s.last[t]) matches Some(f)
            && crate::placeholder::drawable(f.width, f.height),
    }
}

/// Whether every track has something to show.
pub open spec fn all_have_substitutes(setup: SyncSetup, s: SyncState) -> bool {
    forall|t: int| 0 <= t < setup.names.len() ==> #[trigger] has_substitute(setup, s, t)
}

/// Whether no track is waited for.
pub open spec fn waits_for_none(setup: SyncSetup) -> bool {
    forall|t: int|
        0 <= t < setup.stalls.len() ==> (#[trigger] setup.stalls[t]).max_lag_us == Some(0u64)
}

/// A state is never given up because of a track that has something to show.
pub proof fn law_a_substitute_saves_the_state(setup: SyncSetup, s: SyncState, t: int)
    requires
        has_substitute(setup, s, t),
    ensures
        !(s.verdict(setup, t) is Drop),
{
}

/// A state never waits for a track longer than its budget: once the fastest
/// stream is that far ahead, the track is resolved. Where the budget is zero
/// that takes a track that drops or has something to show.
pub proof fn law_waits_are_bounded(setup: SyncSetup, s: SyncState, t: int)
    requires
        sb::expired(setup.stalls[t].max_lag_us, s.head_ts(), s.lead()),
        setup.stalls[t].max_lag_us == Some(0u64) ==> has_substitute(setup, s, t)
            || setup.stalls[t].behavior == StallBehavior::Drop,
    ensures
        !(s.verdict(setup, t) is Wait),
{
}

/// A state is given up on a track only when it has nothing to show, and either
/// no frame can match any more or the budget is used up.
pub proof fn law_drops_are_justified(setup: SyncSetup, s: SyncState, t: int)
    requires
        s.verdict(setup, t) is Drop,
    ensures
        ({
            let stall = setup.stalls[t];
            &&& !has_substitute(setup, s, t)
            &&& {
                ||| sb::past_matching(s.buffers[t], s.head_ts(), setup.config.search_range_us)
                ||| sb::falls_back(stall) && sb::expired(
                    stall.max_lag_us,
                    s.head_ts(),
                    s.lead(),
                )
            }
        }),
{
}

proof fn lemma_lead_covers_head(s: SyncState, n: int)
    ensures
        s.lead_of(n) >= s.head_ts(),
    decreases n,
{
    if n > 0 {
        lemma_lead_covers_head(s, n - 1);
    }
}

/// When no track is waited for and every track has something to show, no
/// state is ever held back or dropped for want of video: every waiting state
/// leaves as an observation.
pub proof fn law_substitutes_never_drop(setup: SyncSetup, run: SyncRun)
    requires
        waits_for_none(setup),
        bounded(setup, run.state),
        all_have_substitutes(setup, run.state),
    ensures
        sb::settled(setup, run).state.states.len() == 0,
        sb::settled(setup, run).drops == run.drops,
        sb::settled(setup, run).observations.len() == run.observations.len()
            + run.state.states.len(),
    decreases run.state.states.len(),
{
    let n = setup.names.len() as int;
    let s = run.state;
    if s.states.len() > 0 {
        lemma_lead_covers_head(s, s.buffers.len() as int);
        assert forall|t: int| 0 <= t < n implies (#[trigger] s.verdict(setup, t)).settles() by {
            assert(has_substitute(setup, s, t));
            assert(setup.stalls[t].max_lag_us == Some(0u64));
        }
        lemma_nothing_blocks(s, setup, 0, n);
        let next = sb::head_emitted(setup, run);
        lemma_emitted_bounded(setup, run);
        assert forall|t: int| 0 <= t < n implies #[trigger] has_substitute(
            setup,
            next.state,
            t,
        ) by {
            assert(has_substitute(setup, s, t));
            assert(s.buffers[t].len() <= setup.config.video_buffer_size);
            if s.buffers[t].len() > 0 {
                lemma_sought_range(s.buffers[t], s.cursors[t] as int, s.head_ts());
            }
        }
        law_substitutes_never_drop(setup, next);
    }
}

/// When no track is waited for and every track has something to show, a state
/// that finds none waiting leaves at once as an observation, and nothing is
/// dropped.
pub proof fn law_substitutes_answer_at_once(
    setup: SyncSetup,
    s: SyncState,
    m: crate::metrics::MetricsView,
    state: (u64, Vec<u64>),
)
    requires
        waits_for_none(setup),
        setup.config.state_buffer_size > 0,
        bounded(setup, s),
        s.states.len() == 0,
        all_have_substitutes(setup, s),
    ensures
        ({
            let end = sb::after_state(setup, s, m, state);
            &&& end.observations.len() == 1
            &&& end.observations[0].timestamp_us == state.0
            &&& end.drops.len() == 0
            &&& end.state.states.len() == 0
        }),
{
    let run = sb::state_pushed(setup, s, m, state);
    lemma_state_pushed_bounded(setup, s, m, state);
    assert forall|t: int| 0 <= t < setup.names.len() implies #[trigger] has_substitute(
        setup,
        run.state,
        t,
    ) by {
        assert(has_substitute(setup, s, t));
    }
    law_substitutes_never_drop(setup, run);
    law_no_state_is_lost(setup, run);
    let end = sb::settled(setup, run);
    assert(end.observations.skip(0) =~= end.observations);
    assert(run.state.states =~= seq![state]);
    assert(!drawn_in_order(end.observations, run.state.states.drop_first()));
}

proof fn lemma_nothing_blocks(s: SyncState, setup: SyncSetup, from: int, n: int)
    requires
        0 <= from,
        forall|t: int| 0 <= t < n ==> (#[trigger] s.verdict(setup, t)).settles(),
    ensures
        sb::first_dropping(s, setup, from, n) is None,
        sb::first_waiting(s, setup, from, n) is None,
    decreases n - from,
{
    if from < n {
        assert(s.verdict(setup, from).settles());
        lemma_nothing_blocks(s, setup, from + 1, n);
    }
}

/// Where every track drops, nothing is made up: no stale frame and no
/// placeholder is ever emitted.
pub proof fn law_strict_makes_nothing_up(setup: SyncSetup, s: SyncState, n: nat)
    requires
        n <= setup.stalls.len(),
        forall|t: int|
            0 <= t < setup.stalls.len() ==> (#[trigger] setup.stalls[t]).behavior
                == StallBehavior::Drop,
    ensures
        !sb::any_stale(setup, s, n),
        forall|t: int| 0 <= t < n ==> !(#[trigger] s.verdict(setup, t) is Omit),
{
    assert forall|t: int| 0 <= t < n implies !(#[trigger] s.verdict(setup, t) is Omit) && !(
    s.verdict(setup, t) matches Verdict::Use { stale, .. } && stale) by {
        assert(setup.stalls[t].behavior == StallBehavior::Drop);
    }
}

/// Without a budget a track is strict: a state waits for it until no frame
/// can match any more.
pub proof fn law_without_a_budget_only_time_decides(setup: SyncSetup, s: SyncState, t: int)
    requires
        setup.stalls[t].max_lag_us is None,
        s.verdict(setup, t) is Drop,
    ensures
        sb::past_matching(s.buffers[t], s.head_ts(), setup.config.search_range_us),
{
}

// ---------------------------------------------------------------------------
// Frames in sender order
// ---------------------------------------------------------------------------

/// Whether frames are in the order of their timestamps.
pub open spec fn in_time_order(buf: Seq<Frame>) -> bool {
    forall|i: int, j: int|
        0 <= i <= j < buf.len() ==> (#[trigger] buf[i]).timestamp_us <= (
        #[trigger] buf[j]).timestamp_us
}

proof fn lemma_rewound_ordered(buf: Seq<Frame>, cursor: int, ts: u64)
    requires
        in_time_order(buf),
        0 <= cursor < buf.len(),
    ensures
        ({
            let r = sb::rewound(buf, cursor, ts);
            &&& 0 <= r <= cursor
            &&& r == 0 || buf[r].timestamp_us <= ts
            &&& forall|j: int| r < j <= cursor ==> (#[trigger] buf[j]).timestamp_us > ts
        }),
    decreases cursor,
{
    if cursor > 0 && buf[cursor].timestamp_us > ts {
        lemma_rewound_ordered(buf, cursor - 1, ts);
    }
}

proof fn lemma_advanced_ordered(buf: Seq<Frame>, cursor: int, ts: u64)
    requires
        in_time_order(buf),
        0 <= cursor < buf.len(),
        cursor == 0 || buf[cursor].timestamp_us <= ts,
    ensures
        ({
            let a = sb::advanced(buf, cursor, ts);
            &&& cursor <= a < buf.len()
            &&& a == 0 || buf[a].timestamp_us <= ts
            &&& forall|j: int| a < j < buf.len() ==> (#[trigger] buf[j]).timestamp_us > ts
        }),
    decreases buf.len() - cursor,
{
    if cursor + 1 < buf.len() && buf[cursor + 1].timestamp_us <= ts {
        lemma_advanced_ordered(buf, cursor + 1, ts);
    }
}

/// For frames in sender order the search does not depend on where it starts:
/// it stands on the last frame that is not after the state, or on the first
/// frame when all are after it.
pub proof fn law_search_finds_the_state(buf: Seq<Frame>, cursor: int, ts: u64)
    requires
        in_time_order(buf),
        buf.len() > 0,
        0 <= cursor,
    ensures
        ({
            let c = sb::sought(buf, cursor, ts);
            &&& 0 <= c < buf.len()
            &&& c == 0 || buf[c].timestamp_us <= ts
            &&& forall|j: int| c < j < buf.len() ==> (#[trigger] buf[j]).timestamp_us > ts
        }),
{
    let start = if cursor >= buf.len() {
        buf.len() - 1
    } else {
        cursor
    };
    lemma_rewound_ordered(buf, start, ts);
    lemma_advanced_ordered(buf, sb::rewound(buf, start, ts), ts);
}

/// For frames and states in sender order, a state is given the nearest of
/// all the frames that it may be given, and none only when there is no such
/// frame.
pub proof fn law_match_is_the_nearest(
    buf: Seq<Frame>,
    cursor: int,
    ts: u64,
    next_ts: Option<u64>,
    range: u64,
    other: int,
)
    requires
        in_time_order(buf),
        buf.len() <= usize::MAX,
        0 <= cursor,
        next_ts matches Some(next) ==> next >= ts,
        sb::eligible(buf, other, ts, next_ts, range),
    ensures
        sb::fresh_match(buf, sb::sought(buf, cursor, ts), ts, next_ts, range) matches Some(i)
            && i < buf.len() && sb::distance(ts, buf[i as int].timestamp_us) <= sb::distance(
            ts,
            buf[other].timestamp_us,
        ),
{
    law_search_finds_the_state(buf, cursor, ts);
    let c = sb::sought(buf, cursor, ts);
    if other <= c {
        assert(buf[other].timestamp_us <= buf[c].timestamp_us);
        if c > 0 {
            assert(sb::eligible(buf, c, ts, next_ts, range));
        }
    } else {
        assert(buf[other].timestamp_us > ts);
        assert(buf[c + 1].timestamp_us > ts);
        assert(buf[c + 1].timestamp_us <= buf[other].timestamp_us);
        assert(sb::eligible(buf, c + 1, ts, next_ts, range));
    }
}

/// Once no frame can match a state any more, that is final: as long as frames
/// arrive in sender order, every frame still to come is out of its range.
pub proof fn law_past_matching_is_final(buf: Seq<Frame>, ts: u64, range: u64, later_ts: u64)
    requires
        sb::past_matching(buf, ts, range),
        later_ts >= buf.last().timestamp_us,
        ts + range <= u64::MAX,
    ensures
        sb::distance(ts, later_ts) >= range,
{
}

/// A state waits on a track with frames only while a frame in its range can
/// still come.
pub proof fn law_waiting_is_justified(
    buf: Seq<Frame>,
    cursor: int,
    last: Option<Frame>,
    ts: u64,
    next_ts: Option<u64>,
    range: u64,
    stall: StallConfig,
    lead: u64,
)
    requires
        sb::judged(buf, cursor, last, ts, next_ts, range, stall, lead) is Wait,
        buf.len() > 0,
        range > 0,
    ensures
        exists|later_ts: u64|
            later_ts >= buf.last().timestamp_us && #[trigger] sb::distance(ts, later_ts) < range,
{
    let newest = buf.last().timestamp_us;
    let later: u64 = if newest < ts {
        ts
    } else {
        newest
    };
    assert(sb::distance(ts, later) < range);
}

} // verus!
