//! Matching of state samples with video frames.
//!
//! Every state that arrives is matched with one frame of every declared
//! track, by sender timestamps alone. A state whose frames are all there is
//! emitted as an observation; otherwise the head of the state queue waits. The
//! wait for a track ends when no frame of it can match any more, or when the
//! other streams have run too far ahead. What happens then is up to the track:
//! the state is dropped, or it is emitted with an earlier frame, or with a
//! placeholder.
use crate::config::FieldSpec;
use crate::metrics::MetricsRegistry;
use crate::metrics::MetricsView;
use crate::name_map::NameMap;
use crate::payload::bytes_clone;
use crate::placeholder;
use crate::text;
use crate::types::{
    to_value_maps, FrameSource, FrameView, Observation, ObservationView, StallBehavior,
    StallConfig, SyncConfig, TypedValue, VideoFrameData,
};
use bytes::Bytes;
use std::collections::VecDeque;
use std::sync::Arc;
use vstd::prelude::*;

verus! {

/// A frame as the buffer holds it.
pub type Frame = Arc<VideoFrameData>;

// ---------------------------------------------------------------------------
// Model
// ---------------------------------------------------------------------------

/// What a buffer was made with.
pub struct SyncSetup {
    pub names: Seq<String>,
    pub schema: Seq<FieldSpec>,
    pub config: SyncConfig,
    /// How each track is resolved when it falls silent.
    pub stalls: Seq<StallConfig>,
}

/// What a buffer holds.
#[verifier::ext_equal]
pub struct SyncState {
    /// Buffered frames of each track, oldest first.
    pub buffers: Seq<Seq<Frame>>,
    /// Where the search in each track left off.
    pub cursors: Seq<usize>,
    /// The frame that each track emitted last.
    pub last: Seq<Option<Frame>>,
    /// Waiting states: timestamp and values, oldest first.
    pub states: Seq<(u64, Vec<u64>)>,
    /// The track that the head state waits for, where known.
    pub blocker: Option<usize>,
    /// Whether the previous state overflowed the queue.
    pub in_overflow_burst: bool,
}

/// A buffer in the middle of its work, with what came out so far.
#[verifier::ext_equal]
pub struct SyncRun {
    pub state: SyncState,
    pub observations: Seq<ObservationView>,
    pub drops: Seq<Map<Seq<char>, TypedValue>>,
    /// For each state dropped for want of a frame, how far the streams were
    /// ahead.
    pub ahead: Seq<u64>,
    pub metrics: MetricsView,
}

/// What becomes of the head state on one track.
pub enum Verdict {
    /// A frame for it.
    Use { frame: Frame, drain_to: Option<usize>, stale: bool },
    /// A placeholder of this size for it.
    Omit { width: u32, height: u32 },
    /// A frame may still come.
    Wait,
    /// It is given up: the streams are this far past it.
    Drop { ahead_us: u64 },
}

impl Verdict {
    /// Whether the track has something to show for the state.
    pub open spec fn settles(self) -> bool {
        self is Use || self is Omit
    }
}

/// Distance between two timestamps.
pub open spec fn distance(a: u64, b: u64) -> u64 {
    if a < b {
        (b - a) as u64
    } else {
        (a - b) as u64
    }
}

/// A cursor moved back while it stands past `ts`.
pub open spec fn rewound(buf: Seq<Frame>, cursor: int, ts: u64) -> int
    decreases cursor,
{
    if cursor > 0 && buf[cursor].timestamp_us > ts {
        rewound(buf, cursor - 1, ts)
    } else {
        cursor
    }
}

/// A cursor moved on while the next frame is not past `ts`.
pub open spec fn advanced(buf: Seq<Frame>, cursor: int, ts: u64) -> int
    decreases buf.len() - cursor,
{
    if cursor + 1 < buf.len() && buf[cursor + 1].timestamp_us <= ts {
        advanced(buf, cursor + 1, ts)
    } else {
        cursor
    }
}

/// Where the search for `ts` stands, starting from `cursor`.
pub open spec fn sought(buf: Seq<Frame>, cursor: int, ts: u64) -> int {
    if buf.len() == 0 {
        cursor
    } else {
        let start = if cursor >= buf.len() {
            buf.len() - 1
        } else {
            cursor
        };
        advanced(buf, rewound(buf, start, ts), ts)
    }
}

/// Whether frame `i` may be given to a state at `ts`: it is in range, and the
/// next state has no strictly closer claim on it.
pub open spec fn eligible(
    buf: Seq<Frame>,
    i: int,
    ts: u64,
    next_ts: Option<u64>,
    range: u64,
) -> bool {
    &&& 0 <= i < buf.len()
    &&& distance(ts, buf[i].timestamp_us) < range
    &&& next_ts matches Some(n) ==> distance(n, buf[i].timestamp_us) >= distance(
        ts,
        buf[i].timestamp_us,
    )
}

/// The frame to give to a state at `ts`: the closer of the two around the
/// cursor that may be given, the earlier one on a tie.
pub open spec fn fresh_match(
    buf: Seq<Frame>,
    cursor: int,
    ts: u64,
    next_ts: Option<u64>,
    range: u64,
) -> Option<usize> {
    let here = eligible(buf, cursor, ts, next_ts, range);
    let beyond = eligible(buf, cursor + 1, ts, next_ts, range);
    if beyond && (!here || distance(ts, buf[cursor + 1].timestamp_us) < distance(
        ts,
        buf[cursor].timestamp_us,
    )) {
        Some((cursor + 1) as usize)
    } else if here {
        Some(cursor as usize)
    } else {
        None
    }
}

/// `a + b`, held at the largest timestamp.
pub open spec fn sum_held(a: u64, b: u64) -> u64 {
    if a + b > u64::MAX {
        u64::MAX
    } else {
        (a + b) as u64
    }
}

/// Whether the wait for a track has run out: the fastest stream has reached
/// `lead`, which is as far past `ts` as the budget allows.
pub open spec fn expired(max_lag_us: Option<u64>, ts: u64, lead: u64) -> bool {
    max_lag_us matches Some(lag) && lead >= ts && lead - ts >= lag
}

/// Whether no frame that is still to come can match a state at `ts`.
pub open spec fn past_matching(buf: Seq<Frame>, ts: u64, range: u64) -> bool {
    buf.len() > 0 && buf.last().timestamp_us >= sum_held(ts, range)
}

/// The frame that a track received last.
pub open spec fn newest_frame(buf: Seq<Frame>, last: Option<Frame>) -> Option<Frame> {
    if buf.len() > 0 {
        Some(buf.last())
    } else {
        last
    }
}

/// What a track shows in place of a frame of its own, where it does so and
/// has anything to show.
pub open spec fn substitute(
    buf: Seq<Frame>,
    cursor: int,
    last: Option<Frame>,
    ts: u64,
    range: u64,
    behavior: StallBehavior,
) -> Option<Verdict> {
    match behavior {
        StallBehavior::Drop => None,
        StallBehavior::Freeze => if buf.len() > 0 && buf[cursor].timestamp_us <= ts && ts
            - buf[cursor].timestamp_us >= range {
            // The newest frame before the window: no later state can match it.
            Some(
                Verdict::Use { frame: buf[cursor], drain_to: Some(cursor as usize), stale: true },
            )
        } else {
            match last {
                Some(frame) => Some(Verdict::Use { frame, drain_to: None, stale: true }),
                None => None,
            }
        },
        StallBehavior::Omit => match newest_frame(buf, last) {
            Some(f) => if placeholder::drawable(f.width, f.height) {
                Some(Verdict::Omit { width: f.width, height: f.height })
            } else {
                None
            },
            None => None,
        },
    }
}

/// Whether a track without a substitute gives a state up once its wait has run
/// out. One that shows substitutes does so only if it waited at all.
pub open spec fn falls_back(stall: StallConfig) -> bool {
    stall.behavior == StallBehavior::Drop || stall.max_lag_us != Some(0u64)
}

/// What becomes of a state at `ts` on a track whose search stands at
/// `cursor`, when the fastest stream has reached `lead`. A track that shows
/// substitutes but has none yet gives a state up when its wait has run out; one
/// that never waits gives it up only when no frame can match it any more.
pub open spec fn judged(
    buf: Seq<Frame>,
    cursor: int,
    last: Option<Frame>,
    ts: u64,
    next_ts: Option<u64>,
    range: u64,
    stall: StallConfig,
    lead: u64,
) -> Verdict {
    let over = expired(stall.max_lag_us, ts, lead);
    let missed = past_matching(buf, ts, range);
    let instead = substitute(buf, cursor, last, ts, range, stall.behavior);
    match fresh_match(buf, cursor, ts, next_ts, range) {
        Some(i) => Verdict::Use { frame: buf[i as int], drain_to: Some(i), stale: false },
        None => if (over || missed) && instead is Some {
            instead->0
        } else if missed {
            Verdict::Drop { ahead_us: (buf.last().timestamp_us - ts) as u64 }
        } else if over && falls_back(stall) {
            Verdict::Drop { ahead_us: (lead - ts) as u64 }
        } else {
            Verdict::Wait
        },
    }
}

/// The later of two timestamps.
pub open spec fn later(a: u64, b: u64) -> u64 {
    if a < b {
        b
    } else {
        a
    }
}

impl SyncState {
    /// Timestamp of the head state.
    pub open spec fn head_ts(self) -> u64 {
        self.states[0].0
    }

    /// Timestamp of the state after the head.
    pub open spec fn next_ts(self) -> Option<u64> {
        if self.states.len() > 1 {
            Some(self.states[1].0)
        } else {
            None
        }
    }

    /// Where the search for the head state stands on track `t`.
    pub open spec fn position(self, t: int) -> int {
        sought(self.buffers[t], self.cursors[t] as int, self.head_ts())
    }

    /// How far the fastest of the states and the first `n` tracks has come.
    pub open spec fn lead_of(self, n: int) -> u64
        decreases n,
    {
        if n <= 0 {
            later(self.head_ts(), self.states.last().0)
        } else {
            match newest_frame(self.buffers[n - 1], self.last[n - 1]) {
                Some(f) => later(self.lead_of(n - 1), f.timestamp_us),
                None => self.lead_of(n - 1),
            }
        }
    }

    /// How far the fastest stream has come.
    pub open spec fn lead(self) -> u64 {
        self.lead_of(self.buffers.len() as int)
    }

    /// What becomes of the head state on track `t`.
    pub open spec fn verdict(self, setup: SyncSetup, t: int) -> Verdict {
        judged(
            self.buffers[t],
            self.position(t),
            self.last[t],
            self.head_ts(),
            self.next_ts(),
            setup.config.search_range_us,
            setup.stalls[t],
            self.lead(),
        )
    }

    /// Cursors after the search on the first `n` tracks.
    pub open spec fn searched(self, n: int) -> Seq<usize> {
        Seq::new(
            self.cursors.len(),
            |t: int|
                if t < n {
                    self.position(t) as usize
                } else {
                    self.cursors[t]
                },
        )
    }
}

/// The first track from `t` on, before `n`, for which the head state is given
/// up.
pub open spec fn first_dropping(s: SyncState, setup: SyncSetup, t: int, n: int) -> Option<int>
    decreases n - t,
{
    if t >= n {
        None
    } else if s.verdict(setup, t) is Drop {
        Some(t)
    } else {
        first_dropping(s, setup, t + 1, n)
    }
}

/// The first track from `t` on, before `n`, that the head state waits for.
pub open spec fn first_waiting(s: SyncState, setup: SyncSetup, t: int, n: int) -> Option<int>
    decreases n - t,
{
    if t >= n {
        None
    } else if s.verdict(setup, t) is Wait {
        Some(t)
    } else {
        first_waiting(s, setup, t + 1, n)
    }
}

/// A frame as it appears in an observation.
pub open spec fn tagged(frame: FrameView, stale: bool) -> FrameView {
    if stale {
        FrameView { source: FrameSource::Stale, ..frame }
    } else {
        frame
    }
}

/// What stands in an observation at `ts` for a track that is left out.
pub open spec fn placeholder_frame(width: u32, height: u32, name: Seq<char>, ts: u64) -> FrameView {
    FrameView {
        width,
        height,
        data: placeholder::placeholder_pixels(width as int, height as int, name),
        timestamp_us: ts,
        source: FrameSource::Omitted,
    }
}

/// Frames of an observation of the head state, from the first `n` tracks.
pub open spec fn frames_of(setup: SyncSetup, s: SyncState, n: nat) -> Map<Seq<char>, FrameView>
    decreases n,
{
    if n == 0 {
        Map::empty()
    } else {
        let rest = frames_of(setup, s, (n - 1) as nat);
        match s.verdict(setup, n - 1) {
            Verdict::Use { frame, stale, .. } => rest.insert(
                setup.names[n - 1]@,
                tagged(frame@, stale),
            ),
            Verdict::Omit { width, height } => rest.insert(
                setup.names[n - 1]@,
                placeholder_frame(width, height, setup.names[n - 1]@, s.head_ts()),
            ),
            _ => rest,
        }
    }
}

/// Largest distance between the head state and its frames on the first `n`
/// tracks.
pub open spec fn worst_distance(setup: SyncSetup, s: SyncState, n: nat) -> u64
    decreases n,
{
    if n == 0 {
        0
    } else {
        let rest = worst_distance(setup, s, (n - 1) as nat);
        match s.verdict(setup, n - 1) {
            Verdict::Use { frame, .. } => if distance(s.head_ts(), frame.timestamp_us) > rest {
                distance(s.head_ts(), frame.timestamp_us)
            } else {
                rest
            },
            _ => rest,
        }
    }
}

/// Whether one of the first `n` tracks gives the head state a stale frame.
pub open spec fn any_stale(setup: SyncSetup, s: SyncState, n: nat) -> bool {
    exists|t: int|
        0 <= t < n && (#[trigger] s.verdict(setup, t) matches Verdict::Use { stale, .. }
            && stale)
}

/// The observation of a state with the given frames.
pub open spec fn observed(
    setup: SyncSetup,
    state: (u64, Vec<u64>),
    frames: Map<Seq<char>, FrameView>,
) -> ObservationView {
    let n = crate::types::paired(setup.schema, state.1@);
    ObservationView {
        state: crate::types::typed_map(setup.schema, state.1@, n),
        raw_state: crate::types::raw_map(setup.schema, state.1@, n),
        frames,
        timestamp_us: state.0,
    }
}

/// A state as it is reported when dropped.
pub open spec fn dropped(setup: SyncSetup, state: (u64, Vec<u64>)) -> Map<Seq<char>, TypedValue> {
    crate::types::typed_map(
        setup.schema,
        state.1@,
        crate::types::paired(setup.schema, state.1@),
    )
}

/// Counters after an observation.
pub open spec fn observation_counted(m: MetricsView, worst: u64, stale: bool) -> MetricsView {
    let counted = MetricsView {
        observations_emitted: crate::metrics::bumped(m.observations_emitted, 1),
        match_deltas: crate::metrics::pushed(
            m.match_deltas,
            worst,
            crate::metrics::SAMPLE_RING_CAP as nat,
        ),
        ..m
    };
    if stale {
        MetricsView {
            stale_observations_emitted: crate::metrics::bumped(m.stale_observations_emitted, 1),
            ..counted
        }
    } else {
        counted
    }
}

/// Counters after a placeholder stood in for a track.
pub open spec fn omission_counted(m: MetricsView, name: Seq<char>) -> MetricsView {
    if m.tracks.contains_key(name) {
        MetricsView {
            tracks: m.tracks.insert(
                name,
                crate::metrics::TrackMetrics {
                    frames_omitted: crate::metrics::bumped(m.tracks[name].frames_omitted, 1),
                    ..m.tracks[name]
                },
            ),
            ..m
        }
    } else {
        m
    }
}

/// Counters after the placeholders among the first `n` tracks of an
/// observation of the head state.
pub open spec fn omissions_counted(
    setup: SyncSetup,
    s: SyncState,
    m: MetricsView,
    n: nat,
) -> MetricsView
    decreases n,
{
    if n == 0 {
        m
    } else {
        let rest = omissions_counted(setup, s, m, (n - 1) as nat);
        if s.verdict(setup, n - 1) is Omit {
            omission_counted(rest, setup.names[n - 1]@)
        } else {
            rest
        }
    }
}

/// Frames that a track is left with once its verdict has been carried out.
pub open spec fn drained(buf: Seq<Frame>, v: Verdict) -> Seq<Frame> {
    match v {
        Verdict::Use { drain_to: Some(i), .. } => buf.skip(i + 1),
        _ => buf,
    }
}

/// Cursor of a track once its verdict has been carried out.
pub open spec fn moved(cursor: int, v: Verdict) -> usize {
    match v {
        Verdict::Use { drain_to: Some(i), .. } => if cursor > i {
            (cursor - (i + 1)) as usize
        } else {
            0
        },
        _ => cursor as usize,
    }
}

/// Last emitted frame of a track once its verdict has been carried out.
pub open spec fn remembered(last: Option<Frame>, v: Verdict) -> Option<Frame> {
    match v {
        Verdict::Use { frame, drain_to: Some(_), .. } => Some(frame),
        _ => last,
    }
}

/// The buffer after its head state was given up, because of track `t`.
pub open spec fn head_dropped(setup: SyncSetup, run: SyncRun, t: int) -> SyncRun {
    let s = run.state;
    SyncRun {
        state: SyncState { cursors: s.searched(t + 1), states: s.states.drop_first(), ..s },
        drops: run.drops.push(dropped(setup, s.states[0])),
        ahead: run.ahead.push(s.verdict(setup, t)->ahead_us),
        metrics: MetricsView {
            states_dropped: crate::metrics::bumped(run.metrics.states_dropped, 1),
            ..run.metrics
        },
        ..run
    }
}

/// The buffer after its head state left as an observation.
pub open spec fn head_emitted(setup: SyncSetup, run: SyncRun) -> SyncRun {
    let s = run.state;
    let n = setup.names.len();
    SyncRun {
        state: SyncState {
            buffers: Seq::new(n, |t: int| drained(s.buffers[t], s.verdict(setup, t))),
            cursors: Seq::new(n, |t: int| moved(s.position(t), s.verdict(setup, t))),
            last: Seq::new(n, |t: int| remembered(s.last[t], s.verdict(setup, t))),
            states: s.states.drop_first(),
            ..s
        },
        observations: run.observations.push(observed(setup, s.states[0], frames_of(setup, s, n))),
        metrics: observation_counted(
            omissions_counted(setup, s, run.metrics, n),
            worst_distance(setup, s, n),
            any_stale(setup, s, n),
        ),
        ..run
    }
}

/// The buffer once its head state waits for track `b`.
pub open spec fn head_waiting(run: SyncRun, n: int, b: int) -> SyncRun {
    SyncRun {
        state: SyncState {
            cursors: run.state.searched(n),
            blocker: Some(b as usize),
            ..run.state
        },
        metrics: MetricsView { last_blocker: Some(b as usize), ..run.metrics },
        ..run
    }
}

/// The buffer once every state that can be resolved has left: a state that
/// some track gives up is dropped, else one that some track may still match
/// waits, else it is emitted.
pub open spec fn settled(setup: SyncSetup, run: SyncRun) -> SyncRun
    decreases run.state.states.len(),
{
    let n = setup.names.len() as int;
    if run.state.states.len() == 0 {
        SyncRun { state: SyncState { blocker: None, ..run.state }, ..run }
    } else {
        match first_dropping(run.state, setup, 0, n) {
            Some(t) => settled(setup, head_dropped(setup, run, t)),
            None => match first_waiting(run.state, setup, 0, n) {
                Some(b) => head_waiting(run, n, b),
                None => settled(setup, head_emitted(setup, run)),
            },
        }
    }
}

// ---------------------------------------------------------------------------
// One track
// ---------------------------------------------------------------------------

/// Distance between two timestamps.
fn time_distance(a: u64, b: u64) -> (d: u64)
    ensures
        d == distance(a, b),
{
    if a < b {
        b - a
    } else {
        a - b
    }
}

/// Where the search for `ts` stands in a track, starting from `cursor`.
fn seek(buf: &VecDeque<Frame>, cursor: usize, ts: u64) -> (c: usize)
    ensures
        c == sought(buf@, cursor as int, ts),
        buf@.len() > 0 ==> c < buf@.len(),
{
    if buf.len() == 0 {
        return cursor;
    }
    let mut c: usize = cursor;
    if c >= buf.len() {
        c = buf.len() - 1;
    }
    let ghost start = c;
    while c > 0 && buf[c].timestamp_us > ts
        invariant
            c < buf.len(),
            rewound(buf@, c as int, ts) == rewound(buf@, start as int, ts),
        decreases c,
    {
        c = c - 1;
    }
    let ghost back = c;
    while c + 1 < buf.len() && buf[c + 1].timestamp_us <= ts
        invariant
            c < buf.len(),
            advanced(buf@, c as int, ts) == advanced(buf@, back as int, ts),
        decreases buf@.len() - c,
    {
        c = c + 1;
    }
    c
}

/// Whether frame `i` of a track may be given to a state at `ts`.
fn may_take(buf: &VecDeque<Frame>, i: usize, ts: u64, next_ts: Option<u64>, range: u64) -> (r: bool)
    ensures
        r == eligible(buf@, i as int, ts, next_ts, range),
{
    if i >= buf.len() {
        return false;
    }
    let frame_ts: u64 = buf[i].timestamp_us;
    let d: u64 = time_distance(ts, frame_ts);
    if d >= range {
        return false;
    }
    match next_ts {
        Some(n) => time_distance(n, frame_ts) >= d,
        None => true,
    }
}

/// The frame of a track to give to a state at `ts`.
fn find_match(
    buf: &VecDeque<Frame>,
    cursor: usize,
    ts: u64,
    next_ts: Option<u64>,
    range: u64,
) -> (m: Option<usize>)
    requires
        buf@.len() > 0 ==> cursor < buf@.len(),
    ensures
        m == fresh_match(buf@, cursor as int, ts, next_ts, range),
        m matches Some(i) ==> i < buf@.len(),
{
    if buf.len() == 0 {
        return None;
    }
    let here: bool = may_take(buf, cursor, ts, next_ts, range);
    if cursor + 1 < buf.len() && may_take(buf, cursor + 1, ts, next_ts, range) {
        if !here || time_distance(ts, buf[cursor + 1].timestamp_us) < time_distance(
            ts,
            buf[cursor].timestamp_us,
        ) {
            return Some(cursor + 1);
        }
    }
    if here {
        Some(cursor)
    } else {
        None
    }
}

/// What a track shows in place of a frame of its own.
fn find_substitute(
    buf: &VecDeque<Frame>,
    cursor: usize,
    last: &Option<Frame>,
    ts: u64,
    range: u64,
    behavior: StallBehavior,
) -> (v: Option<Verdict>)
    requires
        buf@.len() > 0 ==> cursor < buf@.len(),
    ensures
        v == substitute(buf@, cursor as int, *last, ts, range, behavior),
        v matches Some(Verdict::Use { drain_to: Some(i), .. }) ==> i < buf@.len(),
{
    match behavior {
        StallBehavior::Drop => None,
        StallBehavior::Freeze => {
            if buf.len() > 0 {
                let frame_ts: u64 = buf[cursor].timestamp_us;
                if frame_ts <= ts && ts - frame_ts >= range {
                    return Some(
                        Verdict::Use {
                            frame: buf[cursor].clone(),
                            drain_to: Some(cursor),
                            stale: true,
                        },
                    );
                }
            }
            match last {
                Some(frame) => Some(
                    Verdict::Use { frame: frame.clone(), drain_to: None, stale: true },
                ),
                None => None,
            }
        },
        StallBehavior::Omit => {
            let (width, height): (u32, u32) = if buf.len() > 0 {
                let newest: &Frame = &buf[buf.len() - 1];
                (newest.width, newest.height)
            } else {
                match last {
                    Some(frame) => (frame.width, frame.height),
                    None => {
                        return None;
                    },
                }
            };
            if placeholder::is_drawable(width, height) {
                Some(Verdict::Omit { width, height })
            } else {
                None
            }
        },
    }
}

/// Whether the wait for a track has run out.
fn is_expired(max_lag_us: Option<u64>, ts: u64, lead: u64) -> (b: bool)
    ensures
        b == expired(max_lag_us, ts, lead),
{
    match max_lag_us {
        Some(lag) => lead >= ts && lead - ts >= lag,
        None => false,
    }
}

/// What becomes of a state at `ts` on a track.
fn judge(
    buf: &VecDeque<Frame>,
    cursor: usize,
    last: &Option<Frame>,
    ts: u64,
    next_ts: Option<u64>,
    range: u64,
    stall: StallConfig,
    lead: u64,
) -> (v: Verdict)
    requires
        buf@.len() > 0 ==> cursor < buf@.len(),
    ensures
        v == judged(buf@, cursor as int, *last, ts, next_ts, range, stall, lead),
        v matches Verdict::Use { drain_to: Some(i), .. } ==> i < buf@.len(),
{
    match find_match(buf, cursor, ts, next_ts, range) {
        Some(i) => {
            return Verdict::Use { frame: buf[i].clone(), drain_to: Some(i), stale: false };
        },
        None => {},
    }
    let newest_ts: Option<u64> = if buf.len() > 0 {
        Some(buf[buf.len() - 1].timestamp_us)
    } else {
        None
    };
    let missed: bool = match newest_ts {
        Some(newest) => newest >= ts.saturating_add(range),
        None => false,
    };
    let over: bool = is_expired(stall.max_lag_us, ts, lead);
    if over || missed {
        match find_substitute(buf, cursor, last, ts, range, stall.behavior) {
            Some(v) => {
                return v;
            },
            None => {},
        }
    }
    match newest_ts {
        Some(newest) => {
            if missed {
                return Verdict::Drop { ahead_us: newest - ts };
            }
        },
        None => {},
    }
    let gives_up: bool = match stall.max_lag_us {
        Some(lag) => stall.behavior == StallBehavior::Drop || lag > 0,
        None => true,
    };
    if over && gives_up {
        Verdict::Drop { ahead_us: lead - ts }
    } else {
        Verdict::Wait
    }
}

// ---------------------------------------------------------------------------
// Buffer
// ---------------------------------------------------------------------------

/// Result of pushing a frame or a state. Callers dispatch these after
/// releasing the buffer, so that slow consumers do not stall the hot path.
#[derive(Debug)]
pub struct SyncOutput {
    pub observations: Vec<Observation>,
    /// State samples that could not be matched to a video frame, typed per
    /// the declared state schema.
    pub drops: Vec<NameMap<TypedValue>>,
    /// For each of the drops that happened because the streams had moved past
    /// the state, by how much.
    pub ahead_us: Vec<u64>,
    /// Frames that left a full buffer.
    pub evicted: usize,
    /// States that left a full queue.
    pub overflowed: usize,
}

impl SyncOutput {
    /// The observations that came out.
    pub open spec fn observed(self) -> Seq<ObservationView> {
        self.observations@.map_values(|o: Observation| o@)
    }

    /// The states that were dropped.
    pub open spec fn dropped(self) -> Seq<Map<Seq<char>, TypedValue>> {
        self.drops@.map_values(|d: NameMap<TypedValue>| d@)
    }

    /// Whether nothing came out.
    pub open spec fn nothing(self) -> bool {
        &&& self.observations@.len() == 0
        &&& self.drops@.len() == 0
        &&& self.ahead_us@.len() == 0
        &&& self.evicted == 0
        &&& self.overflowed == 0
    }

    pub fn empty() -> (o: Self)
        ensures
            o.nothing(),
    {
        SyncOutput {
            observations: Vec::new(),
            drops: Vec::new(),
            ahead_us: Vec::new(),
            evicted: 0,
            overflowed: 0,
        }
    }

    pub fn is_empty(&self) -> (b: bool)
        ensures
            b == (self.observed().len() == 0 && self.dropped().len() == 0),
    {
        self.observations.len() == 0 && self.drops.len() == 0
    }
}

/// Pixels that stand in for a track, kept for as long as its frames have the
/// same size.
#[derive(Debug)]
struct Placeholder {
    width: u32,
    height: u32,
    data: Bytes,
}

/// Queues of frames and states, matched against each other.
#[derive(Debug)]
pub struct SyncBuffer {
    track_names: Vec<String>,
    /// Parallel to `track_names`.
    video_buffers: Vec<VecDeque<Frame>>,
    /// Timestamp and values of each waiting state.
    state_buffer: VecDeque<(u64, Vec<u64>)>,
    state_schema: Vec<FieldSpec>,
    config: SyncConfig,
    /// Parallel to `track_names`.
    stalls: Vec<StallConfig>,
    /// Parallel to `track_names`: what was drawn for the track last.
    placeholders: Vec<Option<Placeholder>>,
    /// Per track: the largest index whose frame is not after the head state.
    cursors: Vec<usize>,
    /// The track that made the last attempt wait. `None` means unknown.
    blocker: Option<usize>,
    /// Per track: the most recent frame emitted in an observation.
    last_emitted_frames: Vec<Option<Frame>>,
    /// Whether the previous state overflowed the queue.
    in_overflow_burst: bool,
}

impl View for SyncBuffer {
    type V = SyncState;

    closed spec fn view(&self) -> SyncState {
        SyncState {
            buffers: Seq::new(self.video_buffers@.len(), |t: int| self.video_buffers@[t]@),
            cursors: self.cursors@,
            last: self.last_emitted_frames@,
            states: self.state_buffer@,
            blocker: self.blocker,
            in_overflow_burst: self.in_overflow_burst,
        }
    }
}

impl SyncBuffer {
    pub closed spec fn wf(&self) -> bool {
        &&& self.video_buffers@.len() == self.track_names@.len()
        &&& self.cursors@.len() == self.track_names@.len()
        &&& self.last_emitted_frames@.len() == self.track_names@.len()
        &&& self.stalls@.len() == self.track_names@.len()
        &&& self.placeholders@.len() == self.track_names@.len()
        &&& forall|t: int|
            0 <= t < self.placeholders@.len() ==> (#[trigger] self.placeholders@[t] matches Some(p)
                ==> crate::payload::bytes_contents(p.data) == placeholder::placeholder_pixels(
                p.width as int,
                p.height as int,
                self.track_names@[t]@,
            ))
    }

    /// What the buffer was made with.
    pub closed spec fn setup(&self) -> SyncSetup {
        SyncSetup {
            names: self.track_names@,
            schema: self.state_schema@,
            config: self.config,
            stalls: self.stalls@,
        }
    }
}

/// A buffer that holds nothing, for `n` tracks.
pub open spec fn empty_state(n: nat) -> SyncState {
    SyncState {
        buffers: Seq::new(n, |t: int| Seq::<Frame>::empty()),
        cursors: Seq::new(n, |t: int| 0usize),
        last: Seq::new(n, |t: int| None::<Frame>),
        states: Seq::empty(),
        blocker: None,
        in_overflow_burst: false,
    }
}

/// How every track is resolved where no track has settings of its own.
pub open spec fn common_stall(config: SyncConfig) -> StallConfig {
    if config.reuse_stale_frames {
        StallConfig { max_lag_us: Some(0), behavior: StallBehavior::Freeze }
    } else {
        config.default_stall
    }
}

impl SyncBuffer {
    /// A buffer whose tracks have no settings of their own.
    pub fn new(
        video_track_names: &[String],
        state_schema: Vec<FieldSpec>,
        config: SyncConfig,
    ) -> (b: Self)
        ensures
            b.wf(),
            b.setup() == (SyncSetup {
                names: video_track_names@,
                schema: state_schema@,
                config,
                stalls: Seq::new(video_track_names@.len(), |t: int| common_stall(config)),
            }),
            b@ == empty_state(video_track_names@.len()),
    {
        let stall: StallConfig = if config.reuse_stale_frames {
            StallConfig { max_lag_us: Some(0), behavior: StallBehavior::Freeze }
        } else {
            config.default_stall
        };
        let mut stalls: Vec<StallConfig> = Vec::new();
        while stalls.len() < video_track_names.len()
            invariant
                stalls@.len() <= video_track_names@.len(),
                stall == common_stall(config),
                stalls@ == Seq::new(stalls@.len(), |t: int| common_stall(config)),
            decreases video_track_names@.len() - stalls@.len(),
        {
            stalls.push(stall);
            assert(stalls@ =~= Seq::new(stalls@.len(), |t: int| common_stall(config)));
        }
        SyncBuffer::with_stalls(video_track_names, state_schema, config, stalls)
    }

    /// A buffer whose tracks are resolved as `stalls` says, each in its
    /// place.
    pub fn with_stalls(
        video_track_names: &[String],
        state_schema: Vec<FieldSpec>,
        config: SyncConfig,
        stalls: Vec<StallConfig>,
    ) -> (b: Self)
        requires
            stalls@.len() == video_track_names@.len(),
        ensures
            b.wf(),
            b.setup() == (SyncSetup {
                names: video_track_names@,
                schema: state_schema@,
                config,
                stalls: stalls@,
            }),
            b@ == empty_state(video_track_names@.len()),
    {
        let mut track_names: Vec<String> = Vec::new();
        let mut video_buffers: Vec<VecDeque<Frame>> = Vec::new();
        let mut cursors: Vec<usize> = Vec::new();
        let mut last_emitted_frames: Vec<Option<Frame>> = Vec::new();
        let mut placeholders: Vec<Option<Placeholder>> = Vec::new();
        let mut i: usize = 0;
        while i < video_track_names.len()
            invariant
                i <= video_track_names@.len(),
                track_names@ == video_track_names@.take(i as int),
                video_buffers@.len() == i,
                cursors@.len() == i,
                last_emitted_frames@.len() == i,
                placeholders@.len() == i,
                forall|t: int| 0 <= t < i ==> (#[trigger] video_buffers@[t])@.len() == 0,
                forall|t: int| 0 <= t < i ==> #[trigger] cursors@[t] == 0,
                forall|t: int| 0 <= t < i ==> #[trigger] last_emitted_frames@[t] is None,
                forall|t: int| 0 <= t < i ==> #[trigger] placeholders@[t] is None,
            decreases video_track_names@.len() - i,
        {
            track_names.push(video_track_names[i].clone());
            video_buffers.push(VecDeque::new());
            cursors.push(0);
            last_emitted_frames.push(None);
            placeholders.push(None);
            i = i + 1;
            assert(track_names@ =~= video_track_names@.take(i as int));
        }
        let b = SyncBuffer {
            track_names,
            video_buffers,
            state_buffer: VecDeque::new(),
            state_schema,
            config,
            stalls,
            placeholders,
            cursors,
            blocker: None,
            last_emitted_frames,
            in_overflow_burst: false,
        };
        proof {
            assert(track_names@ =~= video_track_names@);
            let e = empty_state(video_track_names@.len());
            assert(b@.buffers =~= e.buffers) by {
                assert forall|t: int| 0 <= t < b@.buffers.len() implies b@.buffers[t]
                    =~= e.buffers[t] by {
                    assert(video_buffers@[t]@.len() == 0);
                }
            }
            assert(b@ =~= e);
        }
        b
    }

    /// Number of buffered frames of each track.
    pub fn video_fill_snapshot(&self) -> (m: NameMap<usize>)
        requires
            self.wf(),
        ensures
            m@ == fill_map(self.setup().names, self@.buffers, self.setup().names.len()),
    {
        let mut m: NameMap<usize> = NameMap::new();
        let mut i: usize = 0;
        while i < self.track_names.len()
            invariant
                self.wf(),
                i <= self.track_names@.len(),
                m@ == fill_map(self.track_names@, self@.buffers, i as nat),
            decreases self.track_names@.len() - i,
        {
            m.insert(self.track_names[i].clone(), self.video_buffers[i].len());
            i = i + 1;
        }
        m
    }

    /// The track that the oldest waiting state is known to wait for.
    pub fn blocker(&self) -> (b: Option<usize>)
        ensures
            b == self@.blocker,
    {
        self.blocker
    }

    /// Where the search of every track stands.
    pub fn cursors(&self) -> (c: &Vec<usize>)
        ensures
            c@ == self@.cursors,
    {
        &self.cursors
    }

    /// Timestamps of the buffered frames of a track, oldest first.
    pub fn buffered_timestamps(&self, track: usize) -> (v: Vec<u64>)
        requires
            self.wf(),
            track < self.setup().names.len(),
        ensures
            v@ == self@.buffers[track as int].map_values(|f: Frame| f.timestamp_us),
    {
        let mut v: Vec<u64> = Vec::new();
        let mut i: usize = 0;
        let ghost frames = self.video_buffers@[track as int]@;
        while i < self.video_buffers[track].len()
            invariant
                self.wf(),
                track < self.video_buffers@.len(),
                frames == self.video_buffers@[track as int]@,
                i <= frames.len(),
                v@ == frames.take(i as int).map_values(|f: Frame| f.timestamp_us),
            decreases frames.len() - i,
        {
            v.push(self.video_buffers[track][i].timestamp_us);
            i = i + 1;
            assert(v@ =~= frames.take(i as int).map_values(|f: Frame| f.timestamp_us));
        }
        assert(frames.take(i as int) =~= frames);
        v
    }

    /// Timestamp of the frame that a track last contributed to an
    /// observation.
    pub fn last_emitted_timestamp(&self, track: usize) -> (t: Option<u64>)
        requires
            self.wf(),
            track < self.setup().names.len(),
        ensures
            t == (match self@.last[track as int] {
                Some(f) => Some(f.timestamp_us),
                None => None,
            }),
    {
        match &self.last_emitted_frames[track] {
            Some(f) => Some(f.timestamp_us),
            None => None,
        }
    }

    /// Number of waiting states.
    pub fn state_fill(&self) -> (n: usize)
        ensures
            n == self@.states.len(),
    {
        self.state_buffer.len()
    }
}

/// Number of buffered frames of the first `n` tracks, by name.
pub open spec fn fill_map(names: Seq<String>, buffers: Seq<Seq<Frame>>, n: nat) -> Map<
    Seq<char>,
    usize,
>
    decreases n,
{
    if n == 0 {
        Map::empty()
    } else {
        fill_map(names, buffers, (n - 1) as nat).insert(
            names[n - 1]@,
            buffers[n - 1].len() as usize,
        )
    }
}

// ---------------------------------------------------------------------------
// Resolution of the head state
// ---------------------------------------------------------------------------

proof fn lemma_first_dropping(s: SyncState, setup: SyncSetup, t: int, n: int, at: int)
    requires
        0 <= t <= at < n,
        forall|j: int| t <= j < at ==> !(#[trigger] s.verdict(setup, j) is Drop),
        s.verdict(setup, at) is Drop,
    ensures
        first_dropping(s, setup, t, n) == Some(at),
    decreases at - t,
{
    if t < at {
        assert(!(s.verdict(setup, t) is Drop));
        lemma_first_dropping(s, setup, t + 1, n, at);
    }
}

proof fn lemma_none_dropping(s: SyncState, setup: SyncSetup, t: int, n: int)
    requires
        forall|j: int| t <= j < n ==> !(#[trigger] s.verdict(setup, j) is Drop),
    ensures
        first_dropping(s, setup, t, n) is None,
    decreases n - t,
{
    if t < n {
        assert(!(s.verdict(setup, t) is Drop));
        lemma_none_dropping(s, setup, t + 1, n);
    }
}

proof fn lemma_first_waiting(s: SyncState, setup: SyncSetup, t: int, n: int, at: int)
    requires
        0 <= t <= at < n,
        forall|j: int| t <= j < at ==> !(#[trigger] s.verdict(setup, j) is Wait),
        s.verdict(setup, at) is Wait,
    ensures
        first_waiting(s, setup, t, n) == Some(at),
    decreases at - t,
{
    if t < at {
        assert(!(s.verdict(setup, t) is Wait));
        lemma_first_waiting(s, setup, t + 1, n, at);
    }
}

proof fn lemma_none_waiting(s: SyncState, setup: SyncSetup, t: int, n: int)
    requires
        forall|j: int| t <= j < n ==> !(#[trigger] s.verdict(setup, j) is Wait),
    ensures
        first_waiting(s, setup, t, n) is None,
    decreases n - t,
{
    if t < n {
        assert(!(s.verdict(setup, t) is Wait));
        lemma_none_waiting(s, setup, t + 1, n);
    }
}

/// Whether a verdict can be carried out on a track.
spec fn feasible(v: Verdict, buf: Seq<Frame>) -> bool {
    &&& v matches Verdict::Use { drain_to: Some(i), .. } ==> i < buf.len()
    &&& v matches Verdict::Omit { width, height } ==> placeholder::drawable(width, height)
}

/// What to do with the head state.
enum Scan {
    Drop { track: usize, ahead_us: u64 },
    Wait { track: usize },
    Emit,
}

impl SyncBuffer {
    /// How far the fastest stream has come.
    fn lead(&self) -> (t: u64)
        requires
            self.wf(),
            self@.states.len() > 0,
        ensures
            t == self@.lead(),
    {
        let newest: u64 = self.state_buffer[self.state_buffer.len() - 1].0;
        let head: u64 = self.state_buffer[0].0;
        let mut lead: u64 = if head < newest {
            newest
        } else {
            head
        };
        let mut t: usize = 0;
        while t < self.video_buffers.len()
            invariant
                self.wf(),
                self@.states.len() > 0,
                t <= self.video_buffers@.len(),
                lead == self@.lead_of(t as int),
            decreases self.video_buffers@.len() - t,
        {
            assert(self@.buffers[t as int] == self.video_buffers@[t as int]@);
            let buf: &VecDeque<Frame> = &self.video_buffers[t];
            if buf.len() > 0 {
                let ts: u64 = buf[buf.len() - 1].timestamp_us;
                if lead < ts {
                    lead = ts;
                }
            } else {
                match &self.last_emitted_frames[t] {
                    Some(f) => {
                        if lead < f.timestamp_us {
                            lead = f.timestamp_us;
                        }
                    },
                    None => {},
                }
            }
            t = t + 1;
        }
        lead
    }

    /// Looks for a frame on every track for the head state.
    fn scan(&mut self) -> (r: (Vec<Verdict>, Scan))
        requires
            old(self).wf(),
            old(self)@.states.len() > 0,
        ensures
            final(self).wf(),
            final(self).setup() == old(self).setup(),
            ({
                let s = old(self)@;
                let setup = old(self).setup();
                let n = setup.names.len() as int;
                match r.1 {
                    Scan::Drop { track, ahead_us } => {
                        &&& first_dropping(s, setup, 0, n) == Some(track as int)
                        &&& ahead_us == s.verdict(setup, track as int)->ahead_us
                        &&& final(self)@ == (SyncState { cursors: s.searched(track + 1), ..s })
                    },
                    Scan::Wait { track } => {
                        &&& first_dropping(s, setup, 0, n) is None
                        &&& first_waiting(s, setup, 0, n) == Some(track as int)
                        &&& final(self)@ == (SyncState { cursors: s.searched(n), ..s })
                    },
                    Scan::Emit => {
                        &&& first_dropping(s, setup, 0, n) is None
                        &&& first_waiting(s, setup, 0, n) is None
                        &&& final(self)@ == (SyncState { cursors: s.searched(n), ..s })
                        &&& r.0@.len() == n
                        &&& forall|t: int|
                            0 <= t < n ==> #[trigger] r.0@[t] == s.verdict(setup, t)
                                && r.0@[t].settles() && feasible(r.0@[t], s.buffers[t])
                        &&& forall|t: int|
                            0 <= t < n ==> 0 <= #[trigger] s.position(t) <= usize::MAX
                    },
                }
            }),
    {
        let ghost s = self@;
        let ghost n = self.track_names@.len() as int;
        let ghost setup = self.setup();
        let lead: u64 = self.lead();
        let ts: u64 = self.state_buffer[0].0;
        let next_ts: Option<u64> = if self.state_buffer.len() > 1 {
            Some(self.state_buffer[1].0)
        } else {
            None
        };
        let mut slots: Vec<Verdict> = Vec::new();
        let mut blocker: Option<usize> = None;
        let mut t: usize = 0;
        proof {
            assert(self@.cursors =~= s.searched(0));
        }
        while t < self.video_buffers.len()
            invariant
                self.wf(),
                s == old(self)@,
                setup == old(self).setup(),
                self.setup() == setup,
                setup.names.len() == n,
                s.states.len() > 0,
                s.buffers.len() == n,
                s.cursors.len() == n,
                s.last.len() == n,
                ts == s.head_ts(),
                next_ts == s.next_ts(),
                lead == s.lead(),
                t <= n,
                slots@.len() == t,
                self@ == (SyncState { cursors: s.searched(t as int), ..s }),
                forall|j: int|
                    0 <= j < t ==> #[trigger] slots@[j] == s.verdict(setup, j) && !(slots@[j]
                        is Drop) && feasible(slots@[j], s.buffers[j]),
                blocker matches Some(b) ==> b < t && slots@[b as int] is Wait,
                forall|j: int| 0 <= j < t ==> 0 <= #[trigger] s.position(j) <= usize::MAX,
                forall|j: int|
                    0 <= j < t && (blocker matches Some(b) ==> j < b) ==> !(#[trigger] slots@[j]
                        is Wait),
            decreases n - t,
        {
            proof {
                assert(self@.buffers[t as int] == s.buffers[t as int]);
                assert(self@.cursors[t as int] == s.cursors[t as int]);
                assert(self@.last[t as int] == s.last[t as int]);
            }
            let cursor: usize = seek(&self.video_buffers[t], self.cursors[t], ts);
            self.cursors.set(t, cursor);
            proof {
                assert(self@.cursors =~= s.searched(t + 1));
                assert(self@.buffers =~= s.buffers);
            }
            let v: Verdict = judge(
                &self.video_buffers[t],
                cursor,
                &self.last_emitted_frames[t],
                ts,
                next_ts,
                self.config.search_range_us,
                self.stalls[t],
                lead,
            );
            assert(v == s.verdict(setup, t as int));
            match &v {
                Verdict::Drop { ahead_us } => {
                    let ahead_us: u64 = *ahead_us;
                    proof {
                        assert forall|j: int| 0 <= j < t implies !(#[trigger] s.verdict(setup, j)
                            is Drop) by {
                            assert(slots@[j] == s.verdict(setup, j));
                        }
                        lemma_first_dropping(s, setup, 0, n, t as int);
                    }
                    return (slots, Scan::Drop { track: t, ahead_us });
                },
                Verdict::Wait => {
                    if blocker.is_none() {
                        blocker = Some(t);
                    }
                },
                _ => {},
            }
            slots.push(v);
            t = t + 1;
        }
        proof {
            assert forall|j: int| 0 <= j < n implies !(#[trigger] s.verdict(setup, j)
                is Drop) by {
                assert(slots@[j] == s.verdict(setup, j));
            }
            lemma_none_dropping(s, setup, 0, n);
        }
        match blocker {
            Some(b) => {
                proof {
                    assert forall|j: int| 0 <= j < b implies !(#[trigger] s.verdict(setup, j)
                        is Wait) by {
                        assert(slots@[j] == s.verdict(setup, j));
                    }
                    assert(slots@[b as int] == s.verdict(setup, b as int));
                    lemma_first_waiting(s, setup, 0, n, b as int);
                }
                (slots, Scan::Wait { track: b })
            },
            None => {
                proof {
                    assert forall|j: int| 0 <= j < n implies !(#[trigger] s.verdict(setup, j)
                        is Wait) by {
                        assert(slots@[j] == s.verdict(setup, j));
                    }
                    lemma_none_waiting(s, setup, 0, n);
                }
                (slots, Scan::Emit)
            },
        }
    }
}

impl SyncBuffer {
    /// The placeholder of a track. It is drawn anew only when the size of the
    /// track's frames has changed.
    fn placeholder_pixels(&mut self, t: usize, width: u32, height: u32) -> (data: Bytes)
        requires
            old(self).wf(),
            t < old(self).setup().names.len(),
            placeholder::drawable(width, height),
        ensures
            final(self).wf(),
            final(self).setup() == old(self).setup(),
            final(self)@ == old(self)@,
            crate::payload::bytes_contents(data) == placeholder::placeholder_pixels(
                width as int,
                height as int,
                old(self).setup().names[t as int]@,
            ),
    {
        match &self.placeholders[t] {
            Some(p) => {
                if p.width == width && p.height == height {
                    return bytes_clone(&p.data);
                }
            },
            None => {},
        }
        let data: Bytes = placeholder::render(width, height, self.track_names[t].as_str());
        let kept: Bytes = bytes_clone(&data);
        self.placeholders.set(t, Some(Placeholder { width, height, data: kept }));
        data
    }

    /// Takes the head state out as an observation with the frames that were
    /// found for it.
    fn emit(
        &mut self,
        slots: Vec<Verdict>,
        metrics: &mut MetricsRegistry,
        Ghost(s): Ghost<SyncState>,
    ) -> (o: Observation)
        requires
            old(self).wf(),
            old(metrics).wf(),
            s.states.len() > 0,
            s.buffers.len() == old(self).setup().names.len(),
            s.cursors.len() == old(self).setup().names.len(),
            s.last.len() == old(self).setup().names.len(),
            old(self)@ == (SyncState {
                cursors: s.searched(old(self).setup().names.len() as int),
                ..s
            }),
            slots@.len() == old(self).setup().names.len(),
            forall|t: int|
                0 <= t < slots@.len() ==> #[trigger] slots@[t] == s.verdict(
                    old(self).setup(),
                    t,
                ) && slots@[t].settles() && feasible(slots@[t], s.buffers[t]),
            forall|t: int|
                0 <= t < slots@.len() ==> 0 <= #[trigger] s.position(t) <= usize::MAX,
        ensures
            final(self).wf(),
            final(self).setup() == old(self).setup(),
            final(metrics).wf(),
            ({
                let setup = old(self).setup();
                let n = setup.names.len();
                &&& o@ == observed(setup, s.states[0], frames_of(setup, s, n))
                &&& final(metrics)@ == observation_counted(
                    omissions_counted(setup, s, old(metrics)@, n),
                    worst_distance(setup, s, n),
                    any_stale(setup, s, n),
                )
                &&& final(self)@.buffers == Seq::new(
                    n,
                    |t: int| drained(s.buffers[t], s.verdict(setup, t)),
                )
                &&& final(self)@.cursors == Seq::new(
                    n,
                    |t: int| moved(s.position(t), s.verdict(setup, t)),
                )
                &&& final(self)@.last == Seq::new(
                    n,
                    |t: int| remembered(s.last[t], s.verdict(setup, t)),
                )
                &&& final(self)@.states == s.states.drop_first()
                &&& final(self)@.blocker == s.blocker
                &&& final(self)@.in_overflow_burst == s.in_overflow_burst
            }),
    {
        let ghost setup = self.setup();
        let ghost n = setup.names.len();
        let ts: u64 = self.state_buffer[0].0;
        let mut frames: NameMap<VideoFrameData> = NameMap::new();
        let mut worst: u64 = 0;
        let mut stale_seen: bool = false;
        let mut t: usize = 0;
        proof {
            assert(frames@.map_values(|f: VideoFrameData| f@) =~= frames_of(setup, s, 0));
        }
        while t < slots.len()
            invariant
                self.wf(),
                metrics.wf(),
                self.setup() == setup,
                setup.names.len() == n,
                slots@.len() == n,
                s.states.len() > 0,
                s.buffers.len() == n,
                s.cursors.len() == n,
                s.last.len() == n,
                ts == s.head_ts(),
                t <= n,
                forall|j: int|
                    0 <= j < n ==> #[trigger] slots@[j] == s.verdict(setup, j)
                        && slots@[j].settles() && feasible(slots@[j], s.buffers[j]),
                self@.states == s.states,
                self@.blocker == s.blocker,
                self@.in_overflow_burst == s.in_overflow_burst,
                forall|j: int|
                    0 <= j < t ==> #[trigger] self@.buffers[j] == drained(
                        s.buffers[j],
                        s.verdict(setup, j),
                    ),
                forall|j: int|
                    0 <= j < t ==> #[trigger] self@.cursors[j] == moved(
                        s.position(j),
                        s.verdict(setup, j),
                    ),
                forall|j: int|
                    0 <= j < t ==> #[trigger] self@.last[j] == remembered(
                        s.last[j],
                        s.verdict(setup, j),
                    ),
                forall|j: int| t <= j < n ==> #[trigger] self@.buffers[j] == s.buffers[j],
                forall|j: int| t <= j < n ==> #[trigger] self@.cursors[j] == s.position(j) as usize,
                forall|j: int| t <= j < n ==> #[trigger] self@.last[j] == s.last[j],
                forall|j: int| 0 <= j < n ==> 0 <= #[trigger] s.position(j) <= usize::MAX,
                worst == worst_distance(setup, s, t as nat),
                stale_seen == any_stale(setup, s, t as nat),
                frames@.map_values(|f: VideoFrameData| f@) == frames_of(setup, s, t as nat),
                metrics@ == omissions_counted(setup, s, old(metrics)@, t as nat),
            decreases n - t,
        {
            let ghost start = self@;
            proof {
                assert(slots@[t as int] == s.verdict(setup, t as int));
                assert(start.buffers[t as int] == s.buffers[t as int]);
                assert(start.cursors[t as int] == s.position(t as int) as usize);
                assert(start.last[t as int] == s.last[t as int]);
            }
            match &slots[t] {
                Verdict::Use { frame, drain_to, stale } => {
                    let d: u64 = time_distance(ts, frame.timestamp_us);
                    if d > worst {
                        worst = d;
                    }
                    if *stale {
                        stale_seen = true;
                    }
                    match drain_to {
                        Some(idx) => {
                            let idx: usize = *idx;
                            let mut buf: VecDeque<Frame> = VecDeque::new();
                            std::mem::swap(&mut self.video_buffers[t], &mut buf);
                            assert(buf@ == s.buffers[t as int]);
                            assert(idx < buf.len());
                            let rest: VecDeque<Frame> = buf.split_off(idx + 1);
                            self.video_buffers.set(t, rest);
                            let cursor: usize = self.cursors[t];
                            self.cursors.set(t, cursor.saturating_sub(idx + 1));
                            self.last_emitted_frames.set(t, Some(frame.clone()));
                        },
                        None => {},
                    }
                    let mut out: VideoFrameData = (**frame).clone();
                    if *stale {
                        out.source = FrameSource::Stale;
                    }
                    let ghost old_frames = frames@;
                    let ghost view = out@;
                    frames.insert(self.track_names[t].clone(), out);
                    proof {
                        assert(frames@.map_values(|f: VideoFrameData| f@)
                            =~= old_frames.map_values(|f: VideoFrameData| f@).insert(
                            setup.names[t as int]@,
                            view,
                        ));
                    }
                },
                Verdict::Omit { width, height } => {
                    let out = VideoFrameData {
                        width: *width,
                        height: *height,
                        data: self.placeholder_pixels(t, *width, *height),
                        timestamp_us: ts,
                        source: FrameSource::Omitted,
                    };
                    match metrics.track(self.track_names[t].as_str()) {
                        Some(counters) => {
                            let mut counters = counters;
                            counters.record_omitted();
                            metrics.set_track(self.track_names[t].as_str(), counters);
                        },
                        None => {},
                    }
                    let ghost old_frames = frames@;
                    let ghost view = out@;
                    frames.insert(self.track_names[t].clone(), out);
                    proof {
                        assert(frames@.map_values(|f: VideoFrameData| f@)
                            =~= old_frames.map_values(|f: VideoFrameData| f@).insert(
                            setup.names[t as int]@,
                            view,
                        ));
                    }
                },
                _ => {},
            }
            proof {
                lemma_any_stale_step(setup, s, t as nat);
                assert forall|j: int| 0 <= j < n && j != t implies #[trigger] self@.buffers[j]
                    == start.buffers[j] by {}
                assert forall|j: int| 0 <= j < n && j != t implies #[trigger] self@.cursors[j]
                    == start.cursors[j] by {}
                assert forall|j: int| 0 <= j < n && j != t implies #[trigger] self@.last[j]
                    == start.last[j] by {}
            }
            t = t + 1;
        }
        let ghost mid = self@;
        metrics.record_observation(worst);
        if stale_seen {
            metrics.record_stale_observation();
        }
        let (head_ts, values): (u64, Vec<u64>) = match self.state_buffer.pop_front() {
            Some(head) => head,
            None => (0, Vec::new()),
        };
        let (state, raw_state): (NameMap<TypedValue>, NameMap<u64>) = to_value_maps(
            self.state_schema.as_slice(),
            values.as_slice(),
        );
        proof {
            assert(self@.states =~= s.states.drop_first());
            assert(self@.buffers =~= mid.buffers);
            assert(mid.buffers =~= Seq::new(
                n,
                |t: int| drained(s.buffers[t], s.verdict(setup, t)),
            ));
            assert(mid.cursors =~= Seq::new(
                n,
                |t: int| moved(s.position(t), s.verdict(setup, t)),
            ));
            assert(mid.last =~= Seq::new(
                n,
                |t: int| remembered(s.last[t], s.verdict(setup, t)),
            ));
        }
        Observation { state, raw_state, frames, timestamp_us: head_ts }
    }
}

proof fn lemma_any_stale_step(setup: SyncSetup, s: SyncState, n: nat)
    ensures
        any_stale(setup, s, n + 1) == (any_stale(setup, s, n) || (s.verdict(setup, n as int) matches Verdict::Use { stale, .. } && stale)),
{
    if any_stale(setup, s, n + 1) {
        let t = choose|t: int|
            0 <= t < n + 1 && (#[trigger] s.verdict(setup, t) matches Verdict::Use {
                stale,
                ..
            } && stale);
        if t < n {
            assert(any_stale(setup, s, n));
        }
    }
    if any_stale(setup, s, n) {
        let t = choose|t: int|
            0 <= t < n && (#[trigger] s.verdict(setup, t) matches Verdict::Use {
                stale,
                ..
            } && stale);
        assert(0 <= t < n + 1);
    }
}

/// A buffer about to work, with nothing out yet.
pub open spec fn started(state: SyncState, metrics: MetricsView) -> SyncRun {
    SyncRun {
        state,
        observations: Seq::empty(),
        drops: Seq::empty(),
        ahead: Seq::empty(),
        metrics,
    }
}

/// Position of a track, by name. Of several tracks of one name it is the
/// last.
pub open spec fn track_position(names: Seq<String>, name: Seq<char>) -> Option<int>
    decreases names.len(),
{
    if names.len() == 0 {
        None
    } else if names.last()@ == name {
        Some(names.len() - 1)
    } else {
        track_position(names.drop_last(), name)
    }
}

/// Finds a track by its name.
pub(crate) fn find_track(names: &[String], name: &str) -> (t: Option<usize>)
    ensures
        match t {
            Some(i) => i < names@.len() && track_position(names@, name@) == Some(i as int)
                && names@[i as int]@ == name@,
            None => track_position(names@, name@) is None,
        },
{
    let mut i: usize = names.len();
    assert(names@.take(i as int) =~= names@);
    while i > 0
        invariant
            i <= names@.len(),
            track_position(names@.take(i as int), name@) == track_position(names@, name@),
        decreases i,
    {
        proof {
            let front = names@.take(i as int);
            assert(front.drop_last() =~= names@.take(i - 1));
            assert(front.last() == names@[i - 1]);
        }
        if text::same(names[i - 1].as_str(), name) {
            return Some(i - 1);
        }
        i = i - 1;
    }
    assert(names@.take(0).len() == 0);
    None
}

/// The newest `cap` items of a queue.
pub open spec fn newest<T>(queue: Seq<T>, cap: nat) -> Seq<T> {
    if queue.len() > cap {
        queue.skip(queue.len() - cap)
    } else {
        queue
    }
}

/// Number of items that leave a queue to keep it at `cap`.
pub open spec fn excess(len: nat, cap: nat) -> nat {
    if len > cap {
        (len - cap) as nat
    } else {
        0
    }
}

/// The buffer after a frame arrived on track `t`, before anything is matched.
pub open spec fn frame_pushed(setup: SyncSetup, s: SyncState, t: int, frame: Frame) -> SyncState {
    let cap = setup.config.video_buffer_size as nat;
    let queue = s.buffers[t].push(frame);
    let evicted = excess(queue.len(), cap);
    SyncState {
        buffers: s.buffers.update(t, newest(queue, cap)),
        cursors: s.cursors.update(
            t,
            if s.cursors[t] >= evicted {
                (s.cursors[t] - evicted) as usize
            } else {
                0
            },
        ),
        ..s
    }
}

/// Counters after `evicted` frames of a track left its full buffer.
pub open spec fn evictions_counted(
    m: MetricsView,
    name: Seq<char>,
    evicted: nat,
) -> MetricsView {
    if evicted > 0 && m.tracks.contains_key(name) {
        MetricsView {
            tracks: m.tracks.insert(
                name,
                crate::metrics::TrackMetrics {
                    evictions: crate::metrics::bumped(m.tracks[name].evictions, evicted as u64),
                    ..m.tracks[name]
                },
            ),
            ..m
        }
    } else {
        m
    }
}

/// Whether the wait for some track runs out between two moments.
pub open spec fn a_wait_ends(setup: SyncSetup, before: SyncState, after: SyncState) -> bool {
    exists|j: int|
        0 <= j < setup.stalls.len() && expired(
            (#[trigger] setup.stalls[j]).max_lag_us,
            after.head_ts(),
            after.lead(),
        ) && !expired(setup.stalls[j].max_lag_us, before.head_ts(), before.lead())
}

/// Whether a frame on track `t` can change what becomes of the head state: no
/// track is known to block it, or this is the one, or frames left a full
/// queue, or the frame lets a wait run out, or the track now gives it up.
pub open spec fn worth_trying(setup: SyncSetup, s: SyncState, t: int, frame: Frame) -> bool {
    match s.blocker {
        None => true,
        Some(b) => {
            ||| b == t
            ||| excess(s.buffers[t].len() + 1, setup.config.video_buffer_size as nat) > 0
            ||| s.states.len() > 0 && a_wait_ends(setup, s, frame_pushed(setup, s, t, frame))
            ||| s.states.len() > 0 && frame_pushed(setup, s, t, frame).verdict(setup, t) is Drop
        },
    }
}

/// The buffer after a frame arrived on track `t`.
pub open spec fn after_frame(
    setup: SyncSetup,
    s: SyncState,
    m: MetricsView,
    t: int,
    name: Seq<char>,
    frame: Frame,
) -> SyncRun {
    let evicted = excess(s.buffers[t].len() + 1, setup.config.video_buffer_size as nat);
    let run = started(frame_pushed(setup, s, t, frame), evictions_counted(m, name, evicted));
    if worth_trying(setup, s, t, frame) {
        settled(setup, run)
    } else {
        run
    }
}

/// Timestamp at the head of a queue of states.
pub open spec fn front_ts(states: Seq<(u64, Vec<u64>)>) -> Option<u64> {
    if states.len() == 0 {
        None
    } else {
        Some(states[0].0)
    }
}

/// The states that leave a full queue, as they are reported.
pub open spec fn overflow_drops(setup: SyncSetup, states: Seq<(u64, Vec<u64>)>, n: nat) -> Seq<
    Map<Seq<char>, TypedValue>,
> {
    Seq::new(n, |i: int| dropped(setup, states[i]))
}

/// The buffer after a state arrived, before anything is matched: the states
/// that overflow the queue are out.
pub open spec fn state_pushed(
    setup: SyncSetup,
    s: SyncState,
    m: MetricsView,
    state: (u64, Vec<u64>),
) -> SyncRun {
    let cap = setup.config.state_buffer_size as nat;
    let queue = s.states.push(state);
    let over = excess(queue.len(), cap);
    let kept = newest(queue, cap);
    SyncRun {
        drops: overflow_drops(setup, queue, over),
        ..started(
            SyncState {
                states: kept,
                blocker: if front_ts(kept) == front_ts(s.states) {
                    s.blocker
                } else {
                    None
                },
                in_overflow_burst: over > 0,
                ..s
            },
            if over > 0 {
                MetricsView {
                    states_dropped: crate::metrics::bumped(m.states_dropped, over as u64),
                    ..m
                }
            } else {
                m
            },
        )
    }
}

/// The buffer after a state arrived.
pub open spec fn after_state(
    setup: SyncSetup,
    s: SyncState,
    m: MetricsView,
    state: (u64, Vec<u64>),
) -> SyncRun {
    settled(setup, state_pushed(setup, s, m, state))
}

impl SyncBuffer {
    /// Resolves states from the head of the queue until one has to wait.
    fn try_sync(&mut self, metrics: &mut MetricsRegistry, output: &mut SyncOutput)
        requires
            old(self).wf(),
            old(metrics).wf(),
        ensures
            final(self).wf(),
            final(self).setup() == old(self).setup(),
            final(metrics).wf(),
            final(output).evicted == old(output).evicted,
            final(output).overflowed == old(output).overflowed,
            ({
                let end = settled(
                    old(self).setup(),
                    SyncRun {
                        state: old(self)@,
                        observations: old(output).observed(),
                        drops: old(output).dropped(),
                        ahead: old(output).ahead_us@,
                        metrics: old(metrics)@,
                    },
                );
                &&& final(self)@ == end.state
                &&& final(output).observed() == end.observations
                &&& final(output).dropped() == end.drops
                &&& final(output).ahead_us@ == end.ahead
                &&& final(metrics)@ == end.metrics
            }),
    {
        let ghost setup = self.setup();
        let ghost goal = settled(
            setup,
            SyncRun {
                state: self@,
                observations: output.observed(),
                drops: output.dropped(),
                ahead: output.ahead_us@,
                metrics: metrics@,
            },
        );
        while self.state_buffer.len() > 0
            invariant
                self.wf(),
                metrics.wf(),
                self.setup() == setup,
                setup == old(self).setup(),
                output.evicted == old(output).evicted,
                output.overflowed == old(output).overflowed,
                goal == settled(
                    old(self).setup(),
                    SyncRun {
                        state: old(self)@,
                        observations: old(output).observed(),
                        drops: old(output).dropped(),
                        ahead: old(output).ahead_us@,
                        metrics: old(metrics)@,
                    },
                ),
                settled(
                    setup,
                    SyncRun {
                        state: self@,
                        observations: output.observed(),
                        drops: output.dropped(),
                        ahead: output.ahead_us@,
                        metrics: metrics@,
                    },
                ) == goal,
            decreases self.state_buffer@.len(),
        {
            let ghost s = self@;
            let ghost run = SyncRun {
                state: s,
                observations: output.observed(),
                drops: output.dropped(),
                ahead: output.ahead_us@,
                metrics: metrics@,
            };
            let (slots, scan): (Vec<Verdict>, Scan) = self.scan();
            match scan {
                Scan::Drop { track, ahead_us } => {
                    let values: Vec<u64> = match self.state_buffer.pop_front() {
                        Some(head) => head.1,
                        None => Vec::new(),
                    };
                    let maps: (NameMap<TypedValue>, NameMap<u64>) = to_value_maps(
                        self.state_schema.as_slice(),
                        values.as_slice(),
                    );
                    output.ahead_us.push(ahead_us);
                    output.drops.push(maps.0);
                    metrics.record_state_dropped(1);
                    proof {
                        let after = head_dropped(setup, run, track as int);
                        assert(self@.states =~= s.states.drop_first());
                        assert(self@ =~= after.state);
                        assert(output.dropped() =~= after.drops);
                        assert(output.ahead_us@ =~= after.ahead);
                    }
                },
                Scan::Wait { track } => {
                    self.blocker = Some(track);
                    metrics.record_blocker(track);
                    proof {
                        let after = head_waiting(run, setup.names.len() as int, track as int);
                        assert(self@ =~= after.state);
                    }
                    return;
                },
                Scan::Emit => {
                    let observation: Observation = self.emit(slots, metrics, Ghost(s));
                    let ghost view = observation@;
                    output.observations.push(observation);
                    proof {
                        let after = head_emitted(setup, run);
                        assert(self@ =~= after.state);
                        assert(output.observed() =~= after.observations);
                    }
                },
            }
        }
        self.blocker = None;
    }

    /// Whether the wait for some track has run out since the fastest stream
    /// was at `lead_before`.
    fn wait_ends(&self, lead_before: u64) -> (b: bool)
        requires
            self.wf(),
            self@.states.len() > 0,
        ensures
            b == exists|j: int|
                0 <= j < self.setup().stalls.len() && expired(
                    (#[trigger] self.setup().stalls[j]).max_lag_us,
                    self@.head_ts(),
                    self@.lead(),
                ) && !expired(self.setup().stalls[j].max_lag_us, self@.head_ts(), lead_before),
    {
        let ts: u64 = self.state_buffer[0].0;
        let lead: u64 = self.lead();
        let mut j: usize = 0;
        while j < self.stalls.len()
            invariant
                j <= self.stalls@.len(),
                ts == self@.head_ts(),
                lead == self@.lead(),
                forall|k: int|
                    0 <= k < j ==> !(expired((#[trigger] self.stalls@[k]).max_lag_us, ts, lead)
                        && !expired(self.stalls@[k].max_lag_us, ts, lead_before)),
            decreases self.stalls@.len() - j,
        {
            let lag: Option<u64> = self.stalls[j].max_lag_us;
            if is_expired(lag, ts, lead) && !is_expired(lag, ts, lead_before) {
                assert(self.setup().stalls[j as int].max_lag_us == lag);
                return true;
            }
            j = j + 1;
        }
        false
    }

    /// Whether track `idx` gives the head state up.
    fn gives_head_up(&self, idx: usize) -> (b: bool)
        requires
            self.wf(),
            self@.states.len() > 0,
            idx < self.setup().names.len(),
        ensures
            b == (self@.verdict(self.setup(), idx as int) is Drop),
    {
        let ts: u64 = self.state_buffer[0].0;
        let next_ts: Option<u64> = if self.state_buffer.len() > 1 {
            Some(self.state_buffer[1].0)
        } else {
            None
        };
        let cursor: usize = seek(&self.video_buffers[idx], self.cursors[idx], ts);
        let v: Verdict = judge(
            &self.video_buffers[idx],
            cursor,
            &self.last_emitted_frames[idx],
            ts,
            next_ts,
            self.config.search_range_us,
            self.stalls[idx],
            self.lead(),
        );
        assert(v == self@.verdict(self.setup(), idx as int));
        match v {
            Verdict::Drop { .. } => true,
            _ => false,
        }
    }

    /// Takes in a frame and returns what it made possible. A frame of an
    /// undeclared track is ignored.
    pub fn push_frame(
        &mut self,
        track_name: &str,
        frame: Arc<VideoFrameData>,
        metrics: &mut MetricsRegistry,
    ) -> (output: SyncOutput)
        requires
            old(self).wf(),
            old(metrics).wf(),
        ensures
            final(self).wf(),
            final(self).setup() == old(self).setup(),
            final(metrics).wf(),
            match track_position(old(self).setup().names, track_name@) {
                None => {
                    &&& output.nothing()
                    &&& final(self)@ == old(self)@
                    &&& final(metrics)@ == old(metrics)@
                },
                Some(t) => {
                    let end = after_frame(
                        old(self).setup(),
                        old(self)@,
                        old(metrics)@,
                        t,
                        track_name@,
                        frame,
                    );
                    &&& final(self)@ == end.state
                    &&& output.observed() == end.observations
                    &&& output.dropped() == end.drops
                    &&& output.ahead_us@ == end.ahead
                    &&& final(metrics)@ == end.metrics
                    &&& output.evicted == excess(
                        old(self)@.buffers[t].len() + 1,
                        old(self).setup().config.video_buffer_size as nat,
                    )
                    &&& output.overflowed == 0
                },
            },
    {
        let ghost setup = self.setup();
        let ghost s = self@;
        let idx: usize = match find_track(self.track_names.as_slice(), track_name) {
            Some(i) => i,
            None => {
                return SyncOutput::empty();
            },
        };
        let lead_before: u64 = if self.state_buffer.len() > 0 {
            self.lead()
        } else {
            0
        };
        let cap: usize = self.config.video_buffer_size as usize;
        let mut queue: VecDeque<Frame> = VecDeque::new();
        std::mem::swap(&mut self.video_buffers[idx], &mut queue);
        assert(queue@ == s.buffers[idx as int]);
        queue.push_back(frame);
        let ghost full = queue@;
        let total: usize = queue.len();
        let mut evicted: usize = 0;
        while queue.len() > cap
            invariant
                queue@ == full.skip(evicted as int),
                full.len() == total,
                evicted <= total,
                evicted <= excess(full.len(), cap as nat),
            decreases queue@.len(),
        {
            let gone: Option<Frame> = queue.pop_front();
            evicted = evicted + 1;
            assert(queue@ =~= full.skip(evicted as int));
        }
        assert(queue@ =~= newest(full, cap as nat));
        self.video_buffers.set(idx, queue);
        if evicted > 0 {
            let cursor: usize = self.cursors[idx];
            self.cursors.set(idx, cursor.saturating_sub(evicted));
            match metrics.track(track_name) {
                Some(t) => {
                    let mut t = t;
                    t.record_evictions(evicted as u64);
                    metrics.set_track(track_name, t);
                },
                None => {},
            }
        }
        let mut output: SyncOutput = SyncOutput::empty();
        output.evicted = evicted;
        let ghost between = frame_pushed(setup, s, idx as int, frame);
        proof {
            assert(full =~= s.buffers[idx as int].push(frame));
            assert(self@.buffers =~= between.buffers);
            assert(self@.cursors =~= between.cursors);
            assert(self@ =~= between);
            assert(output.observed() =~= Seq::<ObservationView>::empty());
            assert(output.dropped() =~= Seq::<Map<Seq<char>, TypedValue>>::empty());
            assert(output.ahead_us@ =~= Seq::<u64>::empty());
        }
        let should_run: bool = match self.blocker {
            None => true,
            Some(b) => b == idx || evicted > 0 || (self.state_buffer.len() > 0 && (self.wait_ends(
                lead_before,
            ) || self.gives_head_up(idx))),
        };
        if should_run {
            self.try_sync(metrics, &mut output);
        }
        output
    }

    /// Takes the oldest states out of an overfull queue, as they are reported.
    fn shed_states(&mut self) -> (shed: Vec<NameMap<TypedValue>>)
        requires
            old(self).wf(),
        ensures
            final(self).wf(),
            final(self).setup() == old(self).setup(),
            ({
                let cap = old(self).setup().config.state_buffer_size as nat;
                let queue = old(self)@.states;
                &&& final(self)@ == (SyncState { states: newest(queue, cap), ..old(self)@ })
                &&& shed@.map_values(|d: NameMap<TypedValue>| d@) == overflow_drops(
                    old(self).setup(),
                    queue,
                    excess(queue.len(), cap),
                )
            }),
    {
        let ghost setup = self.setup();
        let ghost s = self@;
        let ghost queue = self.state_buffer@;
        let cap: usize = self.config.state_buffer_size as usize;
        let total: usize = self.state_buffer.len();
        let mut shed: Vec<NameMap<TypedValue>> = Vec::new();
        proof {
            assert(shed@.map_values(|d: NameMap<TypedValue>| d@) =~= overflow_drops(
                setup,
                queue,
                0,
            ));
            assert(queue.skip(0) =~= queue);
        }
        while self.state_buffer.len() > cap
            invariant
                self.wf(),
                self.setup() == setup,
                cap == setup.config.state_buffer_size,
                self@ == (SyncState { states: self.state_buffer@, ..s }),
                queue.len() == total,
                shed@.len() <= total,
                shed@.len() <= excess(queue.len(), cap as nat),
                self.state_buffer@ == queue.skip(shed@.len() as int),
                shed@.map_values(|d: NameMap<TypedValue>| d@) == overflow_drops(
                    setup,
                    queue,
                    shed@.len(),
                ),
            decreases self.state_buffer@.len(),
        {
            let ghost at = shed@.len() as int;
            let ghost before = shed@;
            let values: Vec<u64> = match self.state_buffer.pop_front() {
                Some(head) => head.1,
                None => Vec::new(),
            };
            assert(values == queue[at].1);
            let maps: (NameMap<TypedValue>, NameMap<u64>) = to_value_maps(
                self.state_schema.as_slice(),
                values.as_slice(),
            );
            assert(maps.0@ == dropped(setup, queue[at]));
            shed.push(maps.0);
            proof {
                assert(self.state_buffer@ =~= queue.skip(at + 1));
                assert(before.map_values(|d: NameMap<TypedValue>| d@).push(
                    dropped(setup, queue[at]),
                ) =~= overflow_drops(setup, queue, (at + 1) as nat));
                assert(shed@.map_values(|d: NameMap<TypedValue>| d@) =~= before.map_values(
                    |d: NameMap<TypedValue>| d@,
                ).push(dropped(setup, queue[at])));
                assert(self@.buffers =~= s.buffers);
            }
        }
        proof {
            assert(self.state_buffer@ =~= newest(queue, cap as nat));
        }
        shed
    }

    /// Takes in a state and returns what it made possible. States that
    /// overflow the queue come first among the drops.
    pub fn push_state(
        &mut self,
        timestamp_us: u64,
        values: Vec<u64>,
        metrics: &mut MetricsRegistry,
    ) -> (output: SyncOutput)
        requires
            old(self).wf(),
            old(metrics).wf(),
        ensures
            final(self).wf(),
            final(self).setup() == old(self).setup(),
            final(metrics).wf(),
            ({
                let end = after_state(
                    old(self).setup(),
                    old(self)@,
                    old(metrics)@,
                    (timestamp_us, values),
                );
                &&& final(self)@ == end.state
                &&& output.observed() == end.observations
                &&& output.dropped() == end.drops
                &&& output.ahead_us@ == end.ahead
                &&& final(metrics)@ == end.metrics
                &&& output.evicted == 0
                &&& output.overflowed == excess(
                    old(self)@.states.len() + 1,
                    old(self).setup().config.state_buffer_size as nat,
                )
            }),
    {
        let ghost setup = self.setup();
        let ghost s = self@;
        let old_head: Option<u64> = if self.state_buffer.len() > 0 {
            Some(self.state_buffer[0].0)
        } else {
            None
        };
        self.state_buffer.push_back((timestamp_us, values));
        let ghost queue = self.state_buffer@;
        let ghost cap = self.config.state_buffer_size as nat;
        let shed: Vec<NameMap<TypedValue>> = self.shed_states();
        let over: usize = shed.len();
        let mut output: SyncOutput = SyncOutput::empty();
        output.drops = shed;
        output.overflowed = over;
        if over > 0 {
            metrics.record_state_dropped(over as u64);
            self.in_overflow_burst = true;
        } else {
            self.in_overflow_burst = false;
        }
        let same_head: bool = if self.state_buffer.len() > 0 {
            match old_head {
                Some(ts) => ts == self.state_buffer[0].0,
                None => false,
            }
        } else {
            old_head.is_none()
        };
        if !same_head {
            self.blocker = None;
        }
        proof {
            assert(queue =~= s.states.push((timestamp_us, values)));
            assert(output.observed() =~= Seq::<ObservationView>::empty());
            assert(output.ahead_us@ =~= Seq::<u64>::empty());
            assert(output.dropped() =~= overflow_drops(setup, queue, excess(queue.len(), cap)));
            assert(front_ts(self@.states) == front_ts(s.states) <==> same_head);
        }
        self.try_sync(metrics, &mut output);
        output
    }

    /// Forgets every frame and state.
    pub fn clear(&mut self)
        requires
            old(self).wf(),
        ensures
            final(self).wf(),
            final(self).setup() == old(self).setup(),
            final(self)@ == empty_state(old(self).setup().names.len()),
    {
        let ghost n = self.track_names@.len();
        let mut t: usize = 0;
        while t < self.track_names.len()
            invariant
                self.wf(),
                self.setup() == old(self).setup(),
                t <= n,
                n == self.track_names@.len(),
                forall|j: int| 0 <= j < t ==> (#[trigger] self.video_buffers@[j])@.len() == 0,
                forall|j: int| 0 <= j < t ==> #[trigger] self.cursors@[j] == 0,
                forall|j: int| 0 <= j < t ==> #[trigger] self.last_emitted_frames@[j] is None,
            decreases n - t,
        {
            self.video_buffers.set(t, VecDeque::new());
            self.cursors.set(t, 0);
            self.last_emitted_frames.set(t, None);
            t = t + 1;
        }
        self.state_buffer.clear();
        self.blocker = None;
        self.in_overflow_burst = false;
        proof {
            let e = empty_state(n);
            assert forall|j: int| 0 <= j < n implies #[trigger] self@.buffers[j]
                =~= e.buffers[j] by {
                assert(self.video_buffers@[j]@.len() == 0);
            }
            assert(self@.buffers =~= e.buffers);
            assert(self@ =~= e);
        }
    }
}

// ---------------------------------------------------------------------------
// Warnings about dropped states
// ---------------------------------------------------------------------------

/// Minimum time between two warnings about dropped states. The first drop of
/// a burst is reported at once; further ones are folded into one report.
pub const DROP_WARN_INTERVAL_US: u64 = 5_000_000;

/// Folds the drops of a burst, so that a stalled track does not flood the
/// log. Local time is used for this alone, never to decide on a state.
#[derive(Debug, Clone, Copy, PartialEq, Eq, Structural)]
pub struct DropWarn {
    /// Drops since the last report.
    pub count: u64,
    /// Largest lead of the video over a dropped state since the last report.
    pub worst_ahead_us: u64,
    /// Local time of the last report.
    pub last_report_us: Option<u64>,
}

/// One warning about dropped states.
#[derive(Debug, Clone, Copy, PartialEq, Eq, Structural)]
pub struct DropReport {
    /// Time since the previous report; `None` for the first one.
    pub elapsed_us: Option<u64>,
    pub count: u64,
    pub worst_ahead_us: u64,
}

/// Time since the last report.
pub open spec fn since_report(w: DropWarn, now_us: u64) -> Option<u64> {
    match w.last_report_us {
        Some(t) => Some(
            if now_us >= t {
                (now_us - t) as u64
            } else {
                0
            },
        ),
        None => None,
    }
}

/// What is reported if a report is due when another state is dropped.
pub open spec fn drop_report(w: DropWarn, ahead_us: u64, now_us: u64) -> DropReport {
    DropReport {
        elapsed_us: since_report(w, now_us),
        count: sum_held(w.count, 1),
        worst_ahead_us: if ahead_us > w.worst_ahead_us {
            ahead_us
        } else {
            w.worst_ahead_us
        },
    }
}

impl Default for DropWarn {
    fn default() -> (w: Self)
        ensures
            w.count == 0,
            w.worst_ahead_us == 0,
            w.last_report_us is None,
    {
        DropWarn { count: 0, worst_ahead_us: 0, last_report_us: None }
    }
}

impl DropWarn {
    /// Counts a dropped state and returns the report that is due: at once for
    /// the first drop, then at most one per interval.
    pub fn note_unsyncable_drop(&mut self, ahead_us: u64, now_us: u64) -> (r: Option<DropReport>)
        ensures
            ({
                let due = match since_report(*old(self), now_us) {
                    Some(elapsed) => elapsed >= DROP_WARN_INTERVAL_US,
                    None => true,
                };
                let report = drop_report(*old(self), ahead_us, now_us);
                if due {
                    &&& r == Some(report)
                    &&& *final(self) == (DropWarn {
                        count: 0,
                        worst_ahead_us: 0,
                        last_report_us: Some(now_us),
                    })
                } else {
                    &&& r is None
                    &&& *final(self) == (DropWarn {
                        count: report.count,
                        worst_ahead_us: report.worst_ahead_us,
                        last_report_us: old(self).last_report_us,
                    })
                }
            }),
            r is Some <==> old(self).last_report_us is None || now_us
                >= old(self).last_report_us->0 + 5_000_000,
    {
        let count: u64 = self.count.saturating_add(1);
        let worst_ahead_us: u64 = if ahead_us > self.worst_ahead_us {
            ahead_us
        } else {
            self.worst_ahead_us
        };
        let elapsed_us: Option<u64> = match self.last_report_us {
            Some(t) => Some(now_us.saturating_sub(t)),
            None => None,
        };
        let due: bool = match elapsed_us {
            Some(elapsed) => elapsed >= DROP_WARN_INTERVAL_US,
            None => true,
        };
        if due {
            self.count = 0;
            self.worst_ahead_us = 0;
            self.last_report_us = Some(now_us);
            Some(DropReport { elapsed_us, count, worst_ahead_us })
        } else {
            self.count = count;
            self.worst_ahead_us = worst_ahead_us;
            None
        }
    }
}

} // verus!
