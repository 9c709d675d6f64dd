//! What holds of the sync buffer over whole histories: any sequence of
//! pushes into a new buffer, or into one that was cleared.
use crate::metrics::MetricsView;
use crate::sync_buffer as sb;
use crate::sync_buffer::{Frame, SyncRun, SyncSetup, SyncState, Verdict};
use crate::sync_laws as laws;
use crate::types::{FrameView, ObservationView, StallBehavior, StallConfig, TypedValue};
use vstd::prelude::*;

verus! {

// ---------------------------------------------------------------------------
// Histories
// ---------------------------------------------------------------------------

/// One push, with the counters as it found them.
pub enum Push {
    Video { track_name: Seq<char>, frame: Frame, metrics: MetricsView },
    State { state: (u64, Vec<u64>), metrics: MetricsView },
}

/// A buffer, and all that came out of it.
pub struct History {
    pub state: SyncState,
    pub observations: Seq<ObservationView>,
    pub drops: Seq<Map<Seq<char>, TypedValue>>,
}

/// A history once a push has been worked off.
pub open spec fn joined(h: History, run: SyncRun) -> History {
    History {
        state: run.state,
        observations: h.observations + run.observations,
        drops: h.drops + run.drops,
    }
}

/// A history after one more push. A frame of an undeclared track changes
/// nothing.
pub open spec fn stepped(setup: SyncSetup, h: History, push: Push) -> History {
    match push {
        Push::Video { track_name, frame, metrics } => match sb::track_position(
            setup.names,
            track_name,
        ) {
            Some(t) => joined(
                h,
                sb::after_frame(setup, h.state, metrics, t, track_name, frame),
            ),
            None => h,
        },
        Push::State { state, metrics } => joined(
            h,
            sb::after_state(setup, h.state, metrics, state),
        ),
    }
}

/// The history of a new buffer after some pushes.
pub open spec fn played(setup: SyncSetup, pushes: Seq<Push>) -> History
    decreases pushes.len(),
{
    if pushes.len() == 0 {
        History {
            state: sb::empty_state(setup.names.len()),
            observations: Seq::empty(),
            drops: Seq::empty(),
        }
    } else {
        stepped(setup, played(setup, pushes.drop_last()), pushes.last())
    }
}

/// One more push takes a history one step on.
pub proof fn law_histories_grow_by_steps(setup: SyncSetup, pushes: Seq<Push>, push: Push)
    ensures
        played(setup, pushes.push(push)) == stepped(setup, played(setup, pushes), push),
{
    assert(pushes.push(push).drop_last() =~= pushes);
}

/// The states among some pushes.
pub open spec fn pushed_states(pushes: Seq<Push>) -> Seq<(u64, Vec<u64>)>
    decreases pushes.len(),
{
    if pushes.len() == 0 {
        Seq::empty()
    } else {
        let earlier = pushed_states(pushes.drop_last());
        match pushes.last() {
            Push::State { state, .. } => earlier.push(state),
            Push::Video { .. } => earlier,
        }
    }
}

/// The frames of track `t` among some pushes.
pub open spec fn pushed_frames(setup: SyncSetup, pushes: Seq<Push>, t: int) -> Seq<Frame>
    decreases pushes.len(),
{
    if pushes.len() == 0 {
        Seq::empty()
    } else {
        let earlier = pushed_frames(setup, pushes.drop_last(), t);
        match pushes.last() {
            Push::Video { track_name, frame, .. } => if sb::track_position(setup.names, track_name)
                == Some(t) {
                earlier.push(frame)
            } else {
                earlier
            },
            Push::State { .. } => earlier,
        }
    }
}

proof fn lemma_position_in_range(names: Seq<String>, name: Seq<char>)
    ensures
        sb::track_position(names, name) matches Some(t) ==> {
            &&& 0 <= t < names.len()
            &&& names[t]@ == name
            &&& forall|j: int| t < j < names.len() ==> (#[trigger] names[j])@ != name
        },
    decreases names.len(),
{
    if names.len() > 0 && names.last()@ != name {
        let rest = names.drop_last();
        lemma_position_in_range(rest, name);
        assert(forall|j: int| 0 <= j < rest.len() ==> #[trigger] names[j] == rest[j]);
    }
}

/// The queues keep to their declared sizes, whatever is pushed.
pub proof fn law_histories_are_bounded(setup: SyncSetup, pushes: Seq<Push>)
    requires
        setup.stalls.len() == setup.names.len(),
    ensures
        laws::bounded(setup, played(setup, pushes).state),
    decreases pushes.len(),
{
    if pushes.len() > 0 {
        law_histories_are_bounded(setup, pushes.drop_last());
        let h = played(setup, pushes.drop_last());
        match pushes.last() {
            Push::Video { track_name, frame, metrics } => {
                lemma_position_in_range(setup.names, track_name);
                match sb::track_position(setup.names, track_name) {
                    Some(t) => laws::law_frame_keeps_bounds(
                        setup,
                        h.state,
                        metrics,
                        t,
                        track_name,
                        frame,
                    ),
                    None => {},
                }
            },
            Push::State { state, metrics } => laws::law_state_keeps_bounds(
                setup,
                h.state,
                metrics,
                state,
            ),
        }
    }
}

/// What a frame push is, before anything is matched.
spec fn begun(
    setup: SyncSetup,
    s: SyncState,
    m: MetricsView,
    t: int,
    name: Seq<char>,
    frame: Frame,
) -> SyncRun {
    let evicted = sb::excess(s.buffers[t].len() + 1, setup.config.video_buffer_size as nat);
    sb::started(sb::frame_pushed(setup, s, t, frame), sb::evictions_counted(m, name, evicted))
}

// ---------------------------------------------------------------------------
// States
// ---------------------------------------------------------------------------

/// Whether an observation is that of a state, with some frames.
pub open spec fn answers(setup: SyncSetup, o: ObservationView, state: (u64, Vec<u64>)) -> bool {
    o == sb::observed(setup, state, o.frames)
}

/// Whether some states left, in order, each in exactly one way: as the next
/// observation or as the next drop.
pub open spec fn accounted(
    setup: SyncSetup,
    observations: Seq<ObservationView>,
    drops: Seq<Map<Seq<char>, TypedValue>>,
    states: Seq<(u64, Vec<u64>)>,
) -> bool
    decreases states.len(),
{
    if states.len() == 0 {
        observations.len() == 0 && drops.len() == 0
    } else {
        ||| observations.len() > 0 && answers(setup, observations.last(), states.last())
            && accounted(setup, observations.drop_last(), drops, states.drop_last())
        ||| drops.len() > 0 && drops.last() == sb::dropped(setup, states.last()) && accounted(
            setup,
            observations,
            drops.drop_last(),
            states.drop_last(),
        )
    }
}

proof fn lemma_accounted_count(
    setup: SyncSetup,
    observations: Seq<ObservationView>,
    drops: Seq<Map<Seq<char>, TypedValue>>,
    states: Seq<(u64, Vec<u64>)>,
)
    requires
        accounted(setup, observations, drops, states),
    ensures
        observations.len() + drops.len() == states.len(),
    decreases states.len(),
{
    if states.len() > 0 {
        if observations.len() > 0 && accounted(
            setup,
            observations.drop_last(),
            drops,
            states.drop_last(),
        ) {
            lemma_accounted_count(setup, observations.drop_last(), drops, states.drop_last());
        } else {
            lemma_accounted_count(setup, observations, drops.drop_last(), states.drop_last());
        }
    }
}

proof fn lemma_one_more_observation(
    setup: SyncSetup,
    observations: Seq<ObservationView>,
    drops: Seq<Map<Seq<char>, TypedValue>>,
    states: Seq<(u64, Vec<u64>)>,
    o: ObservationView,
    state: (u64, Vec<u64>),
)
    requires
        accounted(setup, observations, drops, states),
        answers(setup, o, state),
    ensures
        accounted(setup, observations.push(o), drops, states.push(state)),
{
    assert(observations.push(o).drop_last() =~= observations);
    assert(states.push(state).drop_last() =~= states);
}

proof fn lemma_one_more_drop(
    setup: SyncSetup,
    observations: Seq<ObservationView>,
    drops: Seq<Map<Seq<char>, TypedValue>>,
    states: Seq<(u64, Vec<u64>)>,
    state: (u64, Vec<u64>),
)
    requires
        accounted(setup, observations, drops, states),
    ensures
        accounted(setup, observations, drops.push(sb::dropped(setup, state)), states.push(state)),
{
    assert(drops.push(sb::dropped(setup, state)).drop_last() =~= drops);
    assert(states.push(state).drop_last() =~= states);
}

proof fn lemma_overflow_accounted(
    setup: SyncSetup,
    observations: Seq<ObservationView>,
    drops: Seq<Map<Seq<char>, TypedValue>>,
    states: Seq<(u64, Vec<u64>)>,
    queue: Seq<(u64, Vec<u64>)>,
    n: nat,
)
    requires
        accounted(setup, observations, drops, states),
        n <= queue.len(),
    ensures
        accounted(
            setup,
            observations,
            drops + sb::overflow_drops(setup, queue, n),
            states + queue.take(n as int),
        ),
    decreases n,
{
    if n == 0 {
        assert(drops + sb::overflow_drops(setup, queue, 0) =~= drops);
        assert(states + queue.take(0) =~= states);
    } else {
        let m = (n - 1) as nat;
        lemma_overflow_accounted(setup, observations, drops, states, queue, m);
        lemma_one_more_drop(
            setup,
            observations,
            drops + sb::overflow_drops(setup, queue, m),
            states + queue.take(m as int),
            queue[m as int],
        );
        assert((drops + sb::overflow_drops(setup, queue, m)).push(
            sb::dropped(setup, queue[m as int]),
        ) =~= drops + sb::overflow_drops(setup, queue, n));
        assert((states + queue.take(m as int)).push(queue[m as int]) =~= states + queue.take(
            n as int,
        ));
    }
}

proof fn lemma_settled_accounted(
    setup: SyncSetup,
    run: SyncRun,
    observations: Seq<ObservationView>,
    drops: Seq<Map<Seq<char>, TypedValue>>,
    states: Seq<(u64, Vec<u64>)>,
)
    requires
        accounted(setup, observations + run.observations, drops + run.drops, states),
    ensures
        ({
            let end = sb::settled(setup, run);
            let k = run.state.states.len() - end.state.states.len();
            &&& 0 <= k
            &&& end.state.states == run.state.states.skip(k)
            &&& accounted(
                setup,
                observations + end.observations,
                drops + end.drops,
                states + run.state.states.take(k),
            )
        }),
    decreases run.state.states.len(),
{
    let n = setup.names.len() as int;
    let end = sb::settled(setup, run);
    let queue = run.state.states;
    let k = queue.len() - end.state.states.len();
    if queue.len() == 0 {
        assert(queue.skip(0) =~= queue);
        assert(states + queue.take(0) =~= states);
    } else {
        let more = states.push(queue[0]);
        match sb::first_dropping(run.state, setup, 0, n) {
            Some(t) => {
                let next = sb::head_dropped(setup, run, t);
                lemma_one_more_drop(
                    setup,
                    observations + run.observations,
                    drops + run.drops,
                    states,
                    queue[0],
                );
                assert(drops + next.drops =~= (drops + run.drops).push(
                    sb::dropped(setup, queue[0]),
                ));
                lemma_settled_accounted(setup, next, observations, drops, more);
                assert(queue.drop_first().skip(k - 1) =~= queue.skip(k));
                assert(more + queue.drop_first().take(k - 1) =~= states + queue.take(k));
            },
            None => match sb::first_waiting(run.state, setup, 0, n) {
                Some(b) => {
                    assert(queue.skip(0) =~= queue);
                    assert(states + queue.take(0) =~= states);
                },
                None => {
                    let next = sb::head_emitted(setup, run);
                    let o = next.observations.last();
                    lemma_one_more_observation(
                        setup,
                        observations + run.observations,
                        drops + run.drops,
                        states,
                        o,
                        queue[0],
                    );
                    assert(observations + next.observations =~= (observations
                        + run.observations).push(o));
                    lemma_settled_accounted(setup, next, observations, drops, more);
                    assert(queue.drop_first().skip(k - 1) =~= queue.skip(k));
                    assert(more + queue.drop_first().take(k - 1) =~= states + queue.take(k));
                },
            },
        }
    }
}

/// Whether each of all the states has left exactly once or waits: the ones
/// that wait are the newest, and the others left in order, each as the next
/// observation or as the next drop.
pub open spec fn all_accounted(
    setup: SyncSetup,
    h: History,
    all: Seq<(u64, Vec<u64>)>,
) -> bool {
    let gone = all.len() - h.state.states.len();
    &&& 0 <= gone
    &&& h.state.states == all.skip(gone)
    &&& accounted(setup, h.observations, h.drops, all.take(gone))
}

/// A run that took in what was waiting, and what left before it began.
proof fn lemma_run_accounts(
    setup: SyncSetup,
    h: History,
    run: SyncRun,
    end: SyncRun,
    gone: Seq<(u64, Vec<u64>)>,
    all: Seq<(u64, Vec<u64>)>,
)
    requires
        end == sb::settled(setup, run) || end == run,
        all == gone + run.state.states,
        accounted(setup, h.observations + run.observations, h.drops + run.drops, gone),
    ensures
        all_accounted(setup, joined(h, end), all),
{
    let queue = run.state.states;
    if end == sb::settled(setup, run) {
        lemma_settled_accounted(setup, run, h.observations, h.drops, gone);
    } else {
        assert(queue.skip(0) =~= queue);
        assert(gone + queue.take(0) =~= gone);
    }
    let k = queue.len() - end.state.states.len();
    let left = all.len() - end.state.states.len();
    assert(all.take(left) =~= gone + queue.take(k));
    assert(all.skip(left) =~= queue.skip(k));
}

proof fn lemma_frame_accounts(
    setup: SyncSetup,
    h: History,
    all: Seq<(u64, Vec<u64>)>,
    t: int,
    name: Seq<char>,
    frame: Frame,
    m: MetricsView,
)
    requires
        all_accounted(setup, h, all),
    ensures
        all_accounted(
            setup,
            joined(h, sb::after_frame(setup, h.state, m, t, name, frame)),
            all,
        ),
{
    let gone = all.take(all.len() - h.state.states.len());
    let run = begun(setup, h.state, m, t, name, frame);
    assert(gone + h.state.states =~= all);
    assert(h.observations + run.observations =~= h.observations);
    assert(h.drops + run.drops =~= h.drops);
    lemma_run_accounts(
        setup,
        h,
        run,
        sb::after_frame(setup, h.state, m, t, name, frame),
        gone,
        all,
    );
}

proof fn lemma_state_accounts(
    setup: SyncSetup,
    h: History,
    all: Seq<(u64, Vec<u64>)>,
    state: (u64, Vec<u64>),
    m: MetricsView,
)
    requires
        all_accounted(setup, h, all),
    ensures
        all_accounted(
            setup,
            joined(h, sb::after_state(setup, h.state, m, state)),
            all.push(state),
        ),
{
    let gone = all.take(all.len() - h.state.states.len());
    let run = sb::state_pushed(setup, h.state, m, state);
    let queue = h.state.states.push(state);
    let over = sb::excess(queue.len(), setup.config.state_buffer_size as nat);
    lemma_overflow_accounted(setup, h.observations, h.drops, gone, queue, over);
    let more = gone + queue.take(over as int);
    assert(queue.skip(0) =~= queue);
    assert(run.state.states =~= queue.skip(over as int));
    assert(more + run.state.states =~= all.push(state));
    assert(h.observations + run.observations =~= h.observations);
    lemma_run_accounts(
        setup,
        h,
        run,
        sb::after_state(setup, h.state, m, state),
        more,
        all.push(state),
    );
}

/// Every state that was ever pushed has left exactly once or waits: the ones
/// that wait are the newest, and the others left in the order in which they
/// were pushed, each as the next observation or as the next drop.
pub proof fn law_every_state_leaves_once(setup: SyncSetup, pushes: Seq<Push>)
    requires
        setup.stalls.len() == setup.names.len(),
    ensures
        ({
            let h = played(setup, pushes);
            let all = pushed_states(pushes);
            &&& h.state.states.len() <= setup.config.state_buffer_size
            &&& h.observations.len() + h.drops.len() + h.state.states.len() == all.len()
            &&& all_accounted(setup, h, all)
        }),
    decreases pushes.len(),
{
    law_histories_are_bounded(setup, pushes);
    let h = played(setup, pushes);
    let all = pushed_states(pushes);
    if pushes.len() == 0 {
        assert(all.skip(0) =~= h.state.states);
        assert(all.take(0).len() == 0);
    } else {
        let before = pushes.drop_last();
        law_every_state_leaves_once(setup, before);
        let h0 = played(setup, before);
        let all0 = pushed_states(before);
        match pushes.last() {
            Push::Video { track_name, frame, metrics } => match sb::track_position(
                setup.names,
                track_name,
            ) {
                Some(t) => lemma_frame_accounts(setup, h0, all0, t, track_name, frame, metrics),
                None => {},
            },
            Push::State { state, metrics } => lemma_state_accounts(
                setup,
                h0,
                all0,
                state,
                metrics,
            ),
        }
    }
    lemma_accounted_count(
        setup,
        h.observations,
        h.drops,
        all.take(all.len() - h.state.states.len()),
    );
}

// ---------------------------------------------------------------------------
// Observations
// ---------------------------------------------------------------------------

/// Names of the declared tracks.
pub open spec fn track_names(setup: SyncSetup) -> Set<Seq<char>> {
    Set::new(|name: Seq<char>| declared(setup, name))
}

/// Whether a track of this name is declared.
pub open spec fn declared(setup: SyncSetup, name: Seq<char>) -> bool {
    exists|t: int| 0 <= t < setup.names.len() && (#[trigger] setup.names[t])@ == name
}

/// Whether an observation has a frame of every declared track and of no
/// other, and each fits the state.
pub open spec fn complete(setup: SyncSetup, o: ObservationView) -> bool {
    &&& laws::sound(setup, o)
    &&& o.frames.dom() == track_names(setup)
}

proof fn lemma_frames_declared(setup: SyncSetup, s: SyncState, n: nat)
    requires
        n <= setup.names.len(),
    ensures
        forall|name: Seq<char>| #[trigger]
            sb::frames_of(setup, s, n).contains_key(name) ==> declared(setup, name),
    decreases n,
{
    if n > 0 {
        lemma_frames_declared(setup, s, (n - 1) as nat);
        let rest = sb::frames_of(setup, s, (n - 1) as nat);
        let name = setup.names[n - 1]@;
        assert(declared(setup, name));
        assert forall|other: Seq<char>| #[trigger]
            sb::frames_of(setup, s, n).contains_key(other) implies declared(setup, other) by {
            if other != name {
                assert(rest.contains_key(other));
            }
        }
    }
}

proof fn lemma_settled_declared(setup: SyncSetup, run: SyncRun, i: int)
    requires
        run.observations.len() <= i < sb::settled(setup, run).observations.len(),
    ensures
        forall|name: Seq<char>| #[trigger]
            sb::settled(setup, run).observations[i].frames.contains_key(name) ==> declared(
                setup,
                name,
            ),
    decreases run.state.states.len(),
{
    let n = setup.names.len();
    if run.state.states.len() > 0 {
        match sb::first_dropping(run.state, setup, 0, n as int) {
            Some(t) => lemma_settled_declared(setup, sb::head_dropped(setup, run, t), i),
            None => match sb::first_waiting(run.state, setup, 0, n as int) {
                Some(_) => {},
                None => {
                    let next = sb::head_emitted(setup, run);
                    if i > run.observations.len() {
                        lemma_settled_declared(setup, next, i);
                    } else {
                        laws::law_no_state_is_lost(setup, next);
                        let end = sb::settled(setup, run);
                        assert(end.observations[i] == end.observations.take(
                            next.observations.len() as int,
                        )[i]);
                        lemma_frames_declared(setup, run.state, n);
                    }
                },
            },
        }
    }
}

proof fn lemma_settled_complete(setup: SyncSetup, run: SyncRun, i: int)
    requires
        laws::bounded(setup, run.state),
        run.observations.len() <= i < sb::settled(setup, run).observations.len(),
    ensures
        complete(setup, sb::settled(setup, run).observations[i]),
{
    laws::lemma_settled_sound(setup, run, i);
    lemma_settled_declared(setup, run, i);
    let o = sb::settled(setup, run).observations[i];
    assert forall|name: Seq<char>| #[trigger]
        track_names(setup).contains(name) implies o.frames.dom().contains(name) by {
        let t = choose|t: int| 0 <= t < setup.names.len() && (#[trigger] setup.names[t])@ == name;
        assert(o.frames.contains_key(setup.names[t]@));
    }
    assert forall|name: Seq<char>| #[trigger] o.frames.dom().contains(name) implies track_names(
        setup,
    ).contains(name) by {
        assert(o.frames.contains_key(name));
    }
    assert(o.frames.dom() =~= track_names(setup));
}

proof fn lemma_some_state_is_answered(
    setup: SyncSetup,
    observations: Seq<ObservationView>,
    drops: Seq<Map<Seq<char>, TypedValue>>,
    states: Seq<(u64, Vec<u64>)>,
    i: int,
)
    requires
        accounted(setup, observations, drops, states),
        0 <= i < observations.len(),
    ensures
        exists|j: int|
            0 <= j < states.len() && answers(setup, observations[i], #[trigger] states[j]),
    decreases states.len(),
{
    let earlier = states.drop_last();
    if observations.len() > 0 && answers(setup, observations.last(), states.last()) && accounted(
        setup,
        observations.drop_last(),
        drops,
        earlier,
    ) {
        if i < observations.len() - 1 {
            lemma_some_state_is_answered(setup, observations.drop_last(), drops, earlier, i);
            let j = choose|j: int|
                0 <= j < earlier.len() && answers(
                    setup,
                    observations.drop_last()[i],
                    #[trigger] earlier[j],
                );
            assert(states[j] == earlier[j]);
        } else {
            assert(states[states.len() - 1] == states.last());
        }
    } else {
        lemma_some_state_is_answered(setup, observations, drops.drop_last(), earlier, i);
        let j = choose|j: int|
            0 <= j < earlier.len() && answers(setup, observations[i], #[trigger] earlier[j]);
        assert(states[j] == earlier[j]);
    }
}

/// Every observation that ever came out is of a state that was pushed, and has
/// a fitting frame of every declared track and of no other.
pub proof fn law_every_observation_is_complete(setup: SyncSetup, pushes: Seq<Push>, i: int)
    requires
        setup.stalls.len() == setup.names.len(),
        0 <= i < played(setup, pushes).observations.len(),
    ensures
        complete(setup, played(setup, pushes).observations[i]),
        exists|j: int|
            0 <= j < pushed_states(pushes).len() && answers(
                setup,
                played(setup, pushes).observations[i],
                #[trigger] pushed_states(pushes)[j],
            ),
    decreases pushes.len(),
{
    let h = played(setup, pushes);
    let all = pushed_states(pushes);
    let gone = all.len() - h.state.states.len();
    law_every_state_leaves_once(setup, pushes);
    lemma_some_state_is_answered(setup, h.observations, h.drops, all.take(gone), i);
    let j = choose|j: int|
        0 <= j < gone && answers(setup, h.observations[i], #[trigger] all.take(gone)[j]);
    assert(all[j] == all.take(gone)[j]);
    let before = pushes.drop_last();
    let h0 = played(setup, before);
    law_histories_are_bounded(setup, before);
    if i < h0.observations.len() {
        law_every_observation_is_complete(setup, before, i);
        assert(h.observations[i] == h0.observations[i]);
    } else {
        match pushes.last() {
            Push::Video { track_name, frame, metrics } => {
                lemma_position_in_range(setup.names, track_name);
                match sb::track_position(setup.names, track_name) {
                    Some(t) => {
                        laws::lemma_frame_pushed_bounded(setup, h0.state, t, frame);
                        lemma_settled_complete(
                            setup,
                            begun(setup, h0.state, metrics, t, track_name, frame),
                            i - h0.observations.len(),
                        );
                    },
                    None => {},
                }
            },
            Push::State { state, metrics } => {
                laws::lemma_state_pushed_bounded(setup, h0.state, metrics, state);
                lemma_settled_complete(
                    setup,
                    sb::state_pushed(setup, h0.state, metrics, state),
                    i - h0.observations.len(),
                );
            },
        }
    }
}

/// Whether every track gives a state up rather than show something else.
pub open spec fn strict(setup: SyncSetup) -> bool {
    forall|t: int|
        0 <= t < setup.stalls.len() ==> (#[trigger] setup.stalls[t]).behavior
            == StallBehavior::Drop
}

/// Where every track is strict, each frame of every observation that ever came
/// out lies strictly within the search range.
pub proof fn law_strict_frames_are_in_range(
    setup: SyncSetup,
    pushes: Seq<Push>,
    i: int,
    name: Seq<char>,
)
    requires
        setup.stalls.len() == setup.names.len(),
        strict(setup),
        0 <= i < played(setup, pushes).observations.len(),
        played(setup, pushes).observations[i].frames.contains_key(name),
    ensures
        ({
            let o = played(setup, pushes).observations[i];
            sb::distance(o.timestamp_us, o.frames[name].timestamp_us)
                < setup.config.search_range_us
        }),
{
    law_every_observation_is_complete(setup, pushes, i);
    let o = played(setup, pushes).observations[i];
    assert(track_names(setup).contains(name));
    let t = choose|t: int| 0 <= t < setup.names.len() && (#[trigger] setup.names[t])@ == name;
    assert(laws::fits(setup, setup.names[t]@, o.timestamp_us, o.frames[setup.names[t]@]));
}

/// Whether field `k` gives the value of its name: of several fields of one name
/// the last does.
pub open spec fn counts(setup: SyncSetup, k: int) -> bool {
    forall|j: int|
        k < j < setup.schema.len() ==> (#[trigger] setup.schema[j]).name@
            != setup.schema[k].name@
}

proof fn lemma_values_by_name(setup: SyncSetup, values: Seq<u64>, n: nat, k: int)
    requires
        counts(setup, k),
        0 <= k < n <= setup.schema.len(),
    ensures
        crate::types::raw_map(setup.schema, values, n).contains_key(setup.schema[k].name@),
        crate::types::raw_map(setup.schema, values, n)[setup.schema[k].name@] == values[k],
        crate::types::typed_map(setup.schema, values, n).contains_key(setup.schema[k].name@),
        crate::types::typed_map(setup.schema, values, n)[setup.schema[k].name@]
            == crate::types::typed_value(values[k], setup.schema[k].dtype),
    decreases n,
{
    if k < n - 1 {
        lemma_values_by_name(setup, values, (n - 1) as nat, k);
        assert(setup.schema[k].name@ != setup.schema[n - 1].name@);
    }
}

/// Both maps of an observation hold every field of its state: the number as
/// it was pushed, and that number as the field's type.
pub proof fn law_values_are_those_of_the_state(
    setup: SyncSetup,
    o: ObservationView,
    state: (u64, Vec<u64>),
    k: int,
)
    requires
        counts(setup, k),
        state.1@.len() == setup.schema.len(),
        answers(setup, o, state),
        0 <= k < setup.schema.len(),
    ensures
        ({
            let field = setup.schema[k];
            &&& o.raw_state.contains_key(field.name@)
            &&& o.raw_state[field.name@] == state.1@[k]
            &&& o.state.contains_key(field.name@)
            &&& o.state[field.name@] == crate::types::typed_value(
                o.raw_state[field.name@],
                field.dtype,
            )
        }),
{
    lemma_values_by_name(setup, state.1@, setup.schema.len(), k);
}

// ---------------------------------------------------------------------------
// Substitutes
// ---------------------------------------------------------------------------

/// Whether every track shows its last frame again rather than wait.
pub open spec fn reuses(setup: SyncSetup) -> bool {
    forall|t: int|
        0 <= t < setup.stalls.len() ==> #[trigger] setup.stalls[t] == (StallConfig {
            max_lag_us: Some(0),
            behavior: StallBehavior::Freeze,
        })
}

/// A buffer whose tracks have no settings of their own reuses frames where it
/// is set to, and is strict where it is set to drop.
pub proof fn law_common_settings_decide(setup: SyncSetup)
    requires
        setup.stalls == Seq::new(
            setup.names.len(),
            |t: int| sb::common_stall(setup.config),
        ),
    ensures
        setup.config.reuse_stale_frames ==> reuses(setup),
        !setup.config.reuse_stale_frames && setup.config.default_stall.behavior
            == StallBehavior::Drop ==> strict(setup),
{
}

proof fn lemma_last_is_kept(setup: SyncSetup, run: SyncRun)
    requires
        laws::bounded(setup, run.state),
        laws::all_have_substitutes(setup, run.state),
        reuses(setup),
    ensures
        laws::all_have_substitutes(setup, sb::settled(setup, run).state),
    decreases run.state.states.len(),
{
    let n = setup.names.len() as int;
    let s = run.state;
    if s.states.len() > 0 {
        match sb::first_dropping(s, setup, 0, n) {
            Some(t) => {
                let next = sb::head_dropped(setup, run, t);
                lemma_same_last(setup, s, next.state);
                lemma_last_is_kept(setup, next);
            },
            None => match sb::first_waiting(s, setup, 0, n) {
                Some(b) => lemma_same_last(setup, s, sb::head_waiting(run, n, b).state),
                None => {
                    laws::lemma_emitted_bounded(setup, run);
                    lemma_emitting_remembers(setup, run);
                    lemma_last_is_kept(setup, sb::head_emitted(setup, run));
                },
            },
        }
    } else {
        lemma_same_last(setup, s, sb::settled(setup, run).state);
    }
}

proof fn lemma_same_last(setup: SyncSetup, a: SyncState, b: SyncState)
    requires
        laws::shaped(setup, a),
        reuses(setup),
        laws::all_have_substitutes(setup, a),
        b.last == a.last,
    ensures
        laws::all_have_substitutes(setup, b),
{
    assert forall|t: int| 0 <= t < setup.names.len() implies #[trigger] laws::has_substitute(
        setup,
        b,
        t,
    ) by {
        assert(laws::has_substitute(setup, a, t));
        assert(setup.stalls[t].behavior == StallBehavior::Freeze);
    }
}

/// Every track that freezes has a frame to show again once it was part of an
/// observation.
proof fn lemma_emitting_remembers(setup: SyncSetup, run: SyncRun)
    requires
        laws::bounded(setup, run.state),
        reuses(setup),
        run.state.states.len() > 0,
        sb::first_dropping(run.state, setup, 0, setup.names.len() as int) is None,
        sb::first_waiting(run.state, setup, 0, setup.names.len() as int) is None,
    ensures
        laws::all_have_substitutes(setup, sb::head_emitted(setup, run).state),
{
    let s = run.state;
    let n = setup.names.len() as int;
    let next = sb::head_emitted(setup, run).state;
    laws::lemma_all_usable(s, setup, 0, n);
    assert forall|t: int| 0 <= t < n implies #[trigger] laws::has_substitute(
        setup,
        next,
        t,
    ) by {
        assert(s.verdict(setup, t).settles());
        assert(setup.stalls[t].behavior == StallBehavior::Freeze);
    }
}

proof fn lemma_settled_after_emission(setup: SyncSetup, run: SyncRun)
    requires
        laws::bounded(setup, run.state),
        reuses(setup),
        sb::settled(setup, run).observations.len() > run.observations.len(),
    ensures
        sb::settled(setup, run).state.states.len() == 0,
        laws::all_have_substitutes(setup, sb::settled(setup, run).state),
    decreases run.state.states.len(),
{
    let n = setup.names.len() as int;
    if run.state.states.len() > 0 {
        match sb::first_dropping(run.state, setup, 0, n) {
            Some(t) => lemma_settled_after_emission(setup, sb::head_dropped(setup, run, t)),
            None => match sb::first_waiting(run.state, setup, 0, n) {
                Some(_) => {},
                None => {
                    let next = sb::head_emitted(setup, run);
                    laws::lemma_emitted_bounded(setup, run);
                    lemma_emitting_remembers(setup, run);
                    laws::law_substitutes_never_drop(setup, next);
                    lemma_last_is_kept(setup, next);
                },
            },
        }
    }
}

proof fn lemma_ready_once_answered(setup: SyncSetup, pushes: Seq<Push>)
    requires
        setup.stalls.len() == setup.names.len(),
        setup.config.state_buffer_size > 0,
        reuses(setup),
        played(setup, pushes).observations.len() > 0,
    ensures
        played(setup, pushes).state.states.len() == 0,
        laws::all_have_substitutes(setup, played(setup, pushes).state),
    decreases pushes.len(),
{
    let before = pushes.drop_last();
    let h0 = played(setup, before);
    law_histories_are_bounded(setup, before);
    if h0.observations.len() > 0 {
        lemma_ready_once_answered(setup, before);
    }
    match pushes.last() {
        Push::Video { track_name, frame, metrics } => {
            lemma_position_in_range(setup.names, track_name);
            match sb::track_position(setup.names, track_name) {
                Some(t) => {
                    let run = begun(setup, h0.state, metrics, t, track_name, frame);
                    laws::lemma_frame_pushed_bounded(setup, h0.state, t, frame);
                    if h0.observations.len() > 0 {
                        lemma_same_last(setup, h0.state, run.state);
                        if sb::worth_trying(setup, h0.state, t, frame) {
                            lemma_same_last(setup, run.state, sb::settled(setup, run).state);
                        }
                    } else {
                        lemma_settled_after_emission(setup, run);
                    }
                },
                None => {},
            }
        },
        Push::State { state, metrics } => {
            let run = sb::state_pushed(setup, h0.state, metrics, state);
            laws::lemma_state_pushed_bounded(setup, h0.state, metrics, state);
            if h0.observations.len() > 0 {
                laws::law_substitutes_answer_at_once(setup, h0.state, metrics, state);
            }
            lemma_settled_after_emission(setup, run);
        },
    }
}

/// Where every track shows its last frame again rather than wait, every state
/// is answered at once from the first observation on: with one observation, of
/// that state, with a frame of every track, and nothing is dropped or left
/// waiting.
pub proof fn law_reuse_answers_every_state(
    setup: SyncSetup,
    pushes: Seq<Push>,
    state: (u64, Vec<u64>),
    metrics: MetricsView,
)
    requires
        setup.stalls.len() == setup.names.len(),
        setup.config.state_buffer_size > 0,
        reuses(setup),
        played(setup, pushes).observations.len() > 0,
    ensures
        ({
            let h0 = played(setup, pushes);
            let h = played(setup, pushes.push(Push::State { state, metrics }));
            &&& h.observations.len() == h0.observations.len() + 1
            &&& h.observations.take(h0.observations.len() as int) == h0.observations
            &&& answers(setup, h.observations.last(), state)
            &&& complete(setup, h.observations.last())
            &&& h.drops == h0.drops
            &&& h.state.states.len() == 0
        }),
{
    let h0 = played(setup, pushes);
    let longer = pushes.push(Push::State { state, metrics });
    assert(longer.drop_last() =~= pushes);
    let h = played(setup, longer);
    lemma_ready_once_answered(setup, pushes);
    law_histories_are_bounded(setup, pushes);
    laws::law_substitutes_answer_at_once(setup, h0.state, metrics, state);
    let end = sb::after_state(setup, h0.state, metrics, state);
    assert(h.observations.take(h0.observations.len() as int) =~= h0.observations);
    assert(h.drops =~= h0.drops);
    law_every_observation_is_complete(setup, longer, h.observations.len() - 1);
    let run = sb::state_pushed(setup, h0.state, metrics, state);
    assert(run.state.states =~= seq![state]);
    assert(accounted(setup, Seq::empty(), Seq::empty(), Seq::empty()));
    assert(Seq::<ObservationView>::empty() + run.observations =~= Seq::empty());
    assert(Seq::<Map<Seq<char>, TypedValue>>::empty() + run.drops =~= Seq::empty());
    lemma_settled_accounted(setup, run, Seq::empty(), Seq::empty(), Seq::empty());
    assert(Seq::<ObservationView>::empty() + end.observations =~= end.observations);
    assert(Seq::<(u64, Vec<u64>)>::empty() + run.state.states.take(1) =~= seq![state]);
    assert(h.observations.last() == end.observations.last());
}

// ---------------------------------------------------------------------------
// Frames
// ---------------------------------------------------------------------------

/// Whether track `t` receives the frames of its name: of several tracks of one
/// name the last does.
pub open spec fn receives(setup: SyncSetup, t: int) -> bool {
    forall|j: int|
        t < j < setup.names.len() ==> (#[trigger] setup.names[j])@ != setup.names[t]@
}

proof fn lemma_hidden_track_gets_nothing(setup: SyncSetup, pushes: Seq<Push>, t: int)
    requires
        !receives(setup, t),
    ensures
        pushed_frames(setup, pushes, t).len() == 0,
    decreases pushes.len(),
{
    if pushes.len() > 0 {
        lemma_hidden_track_gets_nothing(setup, pushes.drop_last(), t);
        match pushes.last() {
            Push::Video { track_name, .. } => lemma_position_in_range(setup.names, track_name),
            Push::State { .. } => {},
        }
    }
}

/// What a track shows in some observations.
pub open spec fn shown(observations: Seq<ObservationView>, name: Seq<char>) -> Seq<FrameView> {
    observations.map_values(|o: ObservationView| o.frames[name])
}

/// Whether pictures are, in order, some of the frames, each at most once.
pub open spec fn picked(pictures: Seq<FrameView>, frames: Seq<Frame>) -> bool
    decreases frames.len(),
{
    if frames.len() == 0 {
        pictures.len() == 0
    } else {
        ||| picked(pictures, frames.drop_last())
        ||| pictures.len() > 0 && pictures.last() == frames.last()@ && picked(
            pictures.drop_last(),
            frames.drop_last(),
        )
    }
}

proof fn lemma_picked_from_more(pictures: Seq<FrameView>, frames: Seq<Frame>, more: Seq<Frame>)
    requires
        picked(pictures, frames),
        frames.len() <= more.len(),
        frames == more.take(frames.len() as int),
    ensures
        picked(pictures, more),
    decreases more.len(),
{
    if frames.len() < more.len() {
        assert(frames =~= more.drop_last().take(frames.len() as int));
        lemma_picked_from_more(pictures, frames, more.drop_last());
    } else {
        assert(frames =~= more);
    }
}

/// Whether a track still holds the newest of all its frames, and what it
/// showed are, in order, some of the others, each at most once.
pub open spec fn frames_accounted(
    setup: SyncSetup,
    h: History,
    t: int,
    all: Seq<Frame>,
) -> bool {
    let gone = all.len() - h.state.buffers[t].len();
    &&& 0 <= gone
    &&& h.state.buffers[t] == all.skip(gone)
    &&& picked(shown(h.observations, setup.names[t]@), all.take(gone))
}

proof fn lemma_frame_by_name(setup: SyncSetup, s: SyncState, n: nat, t: int)
    requires
        receives(setup, t),
        0 <= t < n <= setup.names.len(),
    ensures
        s.verdict(setup, t) matches Verdict::Use { frame, stale, .. } ==> sb::frames_of(
            setup,
            s,
            n,
        )[setup.names[t]@] == sb::tagged(frame@, stale),
    decreases n,
{
    if t < n - 1 {
        lemma_frame_by_name(setup, s, (n - 1) as nat, t);
        assert(setup.names[t]@ != setup.names[n - 1]@);
    }
}

/// On a strict track a match takes a frame from the queue, and all before it.
proof fn lemma_strict_match(setup: SyncSetup, s: SyncState, t: int) -> (i: int)
    requires
        laws::bounded(setup, s),
        strict(setup),
        0 <= t < setup.names.len(),
        s.verdict(setup, t).settles(),
    ensures
        0 <= i < s.buffers[t].len(),
        s.verdict(setup, t) == (Verdict::Use {
            frame: s.buffers[t][i],
            drain_to: Some(i as usize),
            stale: false,
        }),
        i <= usize::MAX,
{
    let buf = s.buffers[t];
    assert(buf.len() <= setup.config.video_buffer_size);
    assert(setup.stalls[t].behavior == StallBehavior::Drop);
    if buf.len() > 0 {
        laws::lemma_sought_range(buf, s.cursors[t] as int, s.head_ts());
    }
    match s.verdict(setup, t) {
        Verdict::Use { drain_to: Some(i), .. } => i as int,
        _ => 0,
    }
}

proof fn lemma_emission_accounts(
    setup: SyncSetup,
    h: History,
    run: SyncRun,
    t: int,
    all: Seq<Frame>,
)
    requires
        laws::bounded(setup, run.state),
        strict(setup),
        receives(setup, t) || all.len() == 0,
        0 <= t < setup.names.len(),
        run.state.states.len() > 0,
        sb::first_dropping(run.state, setup, 0, setup.names.len() as int) is None,
        sb::first_waiting(run.state, setup, 0, setup.names.len() as int) is None,
        frames_accounted(setup, joined(h, run), t, all),
    ensures
        frames_accounted(setup, joined(h, sb::head_emitted(setup, run)), t, all),
{
    let s = run.state;
    let n = setup.names.len();
    let name = setup.names[t]@;
    let next = sb::head_emitted(setup, run);
    laws::lemma_all_usable(s, setup, 0, n as int);
    assert(s.verdict(setup, t).settles());
    let i = lemma_strict_match(setup, s, t);
    assert(receives(setup, t));
    lemma_frame_by_name(setup, s, n, t);
    let gone = all.len() - s.buffers[t].len();
    let before = shown(h.observations + run.observations, name);
    let after = shown(h.observations + next.observations, name);
    let picture = s.buffers[t][i]@;
    assert(next.observations.last().frames[name] == picture);
    assert(after =~= before.push(picture));
    assert(next.state.buffers[t] =~= all.skip(gone + i + 1));
    assert(all.take(gone) =~= all.take(gone + i).take(gone));
    lemma_picked_from_more(before, all.take(gone), all.take(gone + i));
    assert(all.take(gone + i + 1).drop_last() =~= all.take(gone + i));
    assert(all.take(gone + i + 1).last() == s.buffers[t][i]);
    assert(after.drop_last() =~= before);
}

proof fn lemma_settled_frames(
    setup: SyncSetup,
    h: History,
    run: SyncRun,
    t: int,
    all: Seq<Frame>,
)
    requires
        laws::bounded(setup, run.state),
        strict(setup),
        receives(setup, t) || all.len() == 0,
        0 <= t < setup.names.len(),
        frames_accounted(setup, joined(h, run), t, all),
    ensures
        frames_accounted(setup, joined(h, sb::settled(setup, run)), t, all),
    decreases run.state.states.len(),
{
    let n = setup.names.len() as int;
    if run.state.states.len() > 0 {
        match sb::first_dropping(run.state, setup, 0, n) {
            Some(d) => lemma_settled_frames(setup, h, sb::head_dropped(setup, run, d), t, all),
            None => match sb::first_waiting(run.state, setup, 0, n) {
                Some(_) => {},
                None => {
                    laws::lemma_emitted_bounded(setup, run);
                    lemma_emission_accounts(setup, h, run, t, all);
                    lemma_settled_frames(setup, h, sb::head_emitted(setup, run), t, all);
                },
            },
        }
    }
}

/// Where every track is strict, no frame is ever in two observations, and the
/// frames that a track shows were pushed in that order. The queue of a track
/// holds its newest frames, and no more than its declared size.
pub proof fn law_every_frame_is_shown_once(setup: SyncSetup, pushes: Seq<Push>, t: int)
    requires
        setup.stalls.len() == setup.names.len(),
        strict(setup),
        0 <= t < setup.names.len(),
    ensures
        played(setup, pushes).state.buffers[t].len() <= setup.config.video_buffer_size,
        frames_accounted(setup, played(setup, pushes), t, pushed_frames(setup, pushes, t)),
    decreases pushes.len(),
{
    law_histories_are_bounded(setup, pushes);
    let h = played(setup, pushes);
    let all = pushed_frames(setup, pushes, t);
    if !receives(setup, t) {
        lemma_hidden_track_gets_nothing(setup, pushes, t);
    }
    if pushes.len() == 0 {
        assert(all.skip(0) =~= h.state.buffers[t]);
        assert(all.take(0).len() == 0);
    } else {
        let before = pushes.drop_last();
        law_every_frame_is_shown_once(setup, before, t);
        law_histories_are_bounded(setup, before);
        let h0 = played(setup, before);
        let all0 = pushed_frames(setup, before, t);
        match pushes.last() {
            Push::Video { track_name, frame, metrics } => {
                lemma_position_in_range(setup.names, track_name);
                match sb::track_position(setup.names, track_name) {
                    Some(k) => {
                        let run = begun(setup, h0.state, metrics, k, track_name, frame);
                        laws::lemma_frame_pushed_bounded(setup, h0.state, k, frame);
                        lemma_frame_taken_in(setup, h0, run, t, k, frame, all0, all);
                        lemma_settled_frames(setup, h0, run, t, all);
                    },
                    None => {},
                }
            },
            Push::State { state, metrics } => {
                let run = sb::state_pushed(setup, h0.state, metrics, state);
                laws::lemma_state_pushed_bounded(setup, h0.state, metrics, state);
                assert(h0.observations + run.observations =~= h0.observations);
                lemma_settled_frames(setup, h0, run, t, all);
            },
        }
    }
}

proof fn lemma_frame_taken_in(
    setup: SyncSetup,
    h: History,
    run: SyncRun,
    t: int,
    k: int,
    frame: Frame,
    before: Seq<Frame>,
    all: Seq<Frame>,
)
    requires
        laws::bounded(setup, h.state),
        0 <= t < setup.names.len(),
        0 <= k < setup.names.len(),
        frames_accounted(setup, h, t, before),
        run.state == sb::frame_pushed(setup, h.state, k, frame),
        run.observations.len() == 0,
        all == (if t == k {
            before.push(frame)
        } else {
            before
        }),
    ensures
        frames_accounted(setup, joined(h, run), t, all),
{
    assert(h.observations + run.observations =~= h.observations);
    if t == k {
        let gone = before.len() - h.state.buffers[t].len();
        let now = all.len() - run.state.buffers[t].len();
        assert(h.state.buffers[t].push(frame) =~= all.skip(gone));
        assert(run.state.buffers[t] =~= all.skip(now));
        assert(before.take(gone) =~= all.take(now).take(gone));
        lemma_picked_from_more(
            shown(h.observations, setup.names[t]@),
            before.take(gone),
            all.take(now),
        );
    }
}

/// Where every track is strict and two have one name, the earlier one never
/// gets a frame, so no observation ever comes out.
pub proof fn law_a_hidden_track_blocks_everything(setup: SyncSetup, pushes: Seq<Push>, t: int)
    requires
        setup.stalls.len() == setup.names.len(),
        strict(setup),
        0 <= t < setup.names.len(),
        !receives(setup, t),
    ensures
        pushed_frames(setup, pushes, t).len() == 0,
        played(setup, pushes).state.buffers[t].len() == 0,
        played(setup, pushes).observations.len() == 0,
{
    lemma_hidden_track_gets_nothing(setup, pushes, t);
    law_every_frame_is_shown_once(setup, pushes, t);
    assert(pushed_frames(setup, pushes, t).take(0).len() == 0);
}

/// A frame of an undeclared track changes nothing, and nothing comes of it.
pub proof fn law_undeclared_frames_are_ignored(
    setup: SyncSetup,
    pushes: Seq<Push>,
    track_name: Seq<char>,
    frame: Frame,
    metrics: MetricsView,
)
    requires
        !declared(setup, track_name),
    ensures
        played(setup, pushes.push(Push::Video { track_name, frame, metrics })) == played(
            setup,
            pushes,
        ),
{
    lemma_position_in_range(setup.names, track_name);
    assert(pushes.push(Push::Video { track_name, frame, metrics }).drop_last() =~= pushes);
}

} // verus!
