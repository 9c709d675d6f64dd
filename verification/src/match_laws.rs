//! Which frames a state gets and what becomes of it, stated over timestamps
//! alone, apart from how the frames are searched.
use crate::sync_buffer as sb;
use crate::sync_buffer::{Frame, SyncRun, SyncSetup, SyncState, Verdict};
use crate::types::{FrameSource, FrameView, StallBehavior};
use vstd::prelude::*;

verus! {

/// How far two moments are apart.
pub open spec fn gap(a: u64, b: u64) -> int {
    if a <= b {
        b - a
    } else {
        a - b
    }
}

/// Whether a buffer has one of everything for each track.
pub open spec fn aligned(setup: SyncSetup, s: SyncState) -> bool {
    &&& setup.names.len() == setup.stalls.len()
    &&& s.buffers.len() == setup.names.len()
    &&& s.cursors.len() == setup.names.len()
    &&& s.last.len() == setup.names.len()
    &&& forall|t: int| 0 <= t < s.buffers.len() ==> (#[trigger] s.buffers[t]).len() < usize::MAX
}

/// Whether frames stand in the order of their timestamps.
pub open spec fn frames_in_order(buf: Seq<Frame>) -> bool {
    forall|i: int, j: int|
        0 <= i <= j < buf.len() ==> (#[trigger] buf[i]).timestamp_us <= (
        #[trigger] buf[j]).timestamp_us
}

/// Whether the frame at `i` of track `t` is nearer than the search range to
/// the head state, and the state after it, if there is one, is not strictly
/// nearer to it.
pub open spec fn head_may_have(setup: SyncSetup, s: SyncState, t: int, i: int) -> bool {
    &&& 0 <= i < s.buffers[t].len()
    &&& gap(s.states[0].0, s.buffers[t][i].timestamp_us) < setup.config.search_range_us
    &&& s.states.len() > 1 ==> gap(s.states[1].0, s.buffers[t][i].timestamp_us) >= gap(
        s.states[0].0,
        s.buffers[t][i].timestamp_us,
    )
}

/// The moment that the newest thing received on track `t` is of, if anything
/// was received and has not been cleared.
pub open spec fn newest_on(s: SyncState, t: int) -> Option<u64> {
    if s.buffers[t].len() > 0 {
        Some(s.buffers[t][s.buffers[t].len() - 1].timestamp_us)
    } else {
        match s.last[t] {
            Some(f) => Some(f.timestamp_us),
            None => None,
        }
    }
}

/// Whether `lead` is the latest moment of all: that of the first or the last
/// waiting state, or of the newest frame of some track.
pub open spec fn furthest(s: SyncState, n: int, lead: u64) -> bool {
    &&& s.states[0].0 <= lead
    &&& s.states[s.states.len() - 1].0 <= lead
    &&& forall|t: int| 0 <= t < n ==> (#[trigger] newest_on(s, t) matches Some(x) ==> x <= lead)
    &&& lead == s.states[0].0 || lead == s.states[s.states.len() - 1].0 || exists|t: int|
        0 <= t < n && #[trigger] newest_on(s, t) == Some(lead)
}

proof fn lemma_lead(s: SyncState, n: int)
    requires
        s.states.len() > 0,
        0 <= n,
    ensures
        furthest(s, n, s.lead_of(n)),
    decreases n,
{
    if n > 0 {
        lemma_lead(s, n - 1);
        let before = s.lead_of(n - 1);
        let now = s.lead_of(n);
        let x = newest_on(s, n - 1);
        assert(x matches Some(v) ==> sb::newest_frame(s.buffers[n - 1], s.last[n - 1]) matches Some(
            f,
        ) && f.timestamp_us == v);
        assert(x is None ==> sb::newest_frame(s.buffers[n - 1], s.last[n - 1]) is None);
        if now != before {
            assert(newest_on(s, n - 1) == Some(now));
        } else if before != s.states[0].0 && before != s.states[s.states.len() - 1].0 {
            let t = choose|t: int| 0 <= t < n - 1 && #[trigger] newest_on(s, t) == Some(before);
            assert(newest_on(s, t) == Some(now));
        }
    }
}

proof fn lemma_lead_is(s: SyncState, lead: u64)
    requires
        s.states.len() > 0,
        furthest(s, s.buffers.len() as int, lead),
    ensures
        s.lead() == lead,
{
    let n = s.buffers.len() as int;
    lemma_lead(s, n);
    let other = s.lead();
    if lead != s.states[0].0 && lead != s.states[s.states.len() - 1].0 {
        let t = choose|t: int| 0 <= t < n && #[trigger] newest_on(s, t) == Some(lead);
        assert(newest_on(s, t) == Some(lead));
        assert(lead <= other);
    }
    if other != s.states[0].0 && other != s.states[s.states.len() - 1].0 {
        let t = choose|t: int| 0 <= t < n && #[trigger] newest_on(s, t) == Some(other);
        assert(newest_on(s, t) == Some(other));
        assert(other <= lead);
    }
}

proof fn lemma_where_the_search_stands(buf: Seq<Frame>, cursor: int, ts: u64)
    requires
        frames_in_order(buf),
        buf.len() > 0,
        0 <= cursor,
    ensures
        ({
            let c = sb::sought(buf, cursor, ts);
            &&& 0 <= c < buf.len()
            &&& c == 0 || buf[c].timestamp_us <= ts
            &&& forall|j: int| c < j < buf.len() ==> (#[trigger] buf[j]).timestamp_us > ts
        }),
{
    crate::sync_laws::law_search_finds_the_state(buf, cursor, ts);
}

/// With frames in time order, a state gets a frame of a track whenever the
/// track has one nearer than the search range to which the next state is not
/// strictly nearer: such a frame, at least as near as every other one, and the
/// earlier of two that are equally near. Every frame up to the one given
/// leaves the track.
pub proof fn law_a_state_gets_the_nearest_frame(
    setup: SyncSetup,
    s: SyncState,
    t: int,
    other: int,
)
    requires
        aligned(setup, s),
        s.states.len() > 0,
        0 <= t < setup.names.len(),
        frames_in_order(s.buffers[t]),
        0 <= other < s.buffers[t].len(),
        gap(s.states[0].0, s.buffers[t][other].timestamp_us) < setup.config.search_range_us,
        s.states.len() > 1 ==> gap(s.states[1].0, s.buffers[t][other].timestamp_us) >= gap(
            s.states[0].0,
            s.buffers[t][other].timestamp_us,
        ),
    ensures
        s.verdict(setup, t) matches Verdict::Use { frame, drain_to, stale } && {
            let ts = s.states[0].0;
            let near = gap(ts, frame.timestamp_us);
            &&& !stale
            &&& drain_to is Some
            &&& drain_to->0 < s.buffers[t].len()
            &&& frame == s.buffers[t][drain_to->0 as int]
            &&& near < setup.config.search_range_us
            &&& s.states.len() > 1 ==> gap(s.states[1].0, frame.timestamp_us) >= near
            &&& near <= gap(ts, s.buffers[t][other].timestamp_us)
            &&& near == gap(ts, s.buffers[t][other].timestamp_us) ==> frame.timestamp_us
                <= s.buffers[t][other].timestamp_us
        },
{
    let buf = s.buffers[t];
    let ts = s.states[0].0;
    lemma_where_the_search_stands(buf, s.cursors[t] as int, ts);
    let c = s.position(t);
    assert(buf.len() < usize::MAX);
    if other <= c {
        assert(buf[other].timestamp_us <= buf[c].timestamp_us);
    } else {
        assert(buf[c + 1].timestamp_us <= buf[other].timestamp_us);
        assert(buf[c + 1].timestamp_us > ts);
    }
}

/// A frame that is given as the state's own is in the buffer, nearer than the
/// search range, and the next state is not strictly nearer to it, in whatever
/// order frames came.
pub proof fn law_only_frames_in_range_are_given(setup: SyncSetup, s: SyncState, t: int)
    requires
        aligned(setup, s),
        s.states.len() > 0,
        0 <= t < setup.names.len(),
        s.verdict(setup, t) matches Verdict::Use { stale, .. } && !stale,
    ensures
        s.verdict(setup, t) matches Verdict::Use { frame, drain_to, .. } && {
            &&& drain_to is Some
            &&& head_may_have(setup, s, t, drain_to->0 as int)
            &&& frame == s.buffers[t][drain_to->0 as int]
        },
{
    let buf = s.buffers[t];
    if buf.len() > 0 {
        law_the_search_walks_one_way(buf, s.cursors[t] as int, s.states[0].0);
    }
    assert(buf.len() < usize::MAX);
}

/// Whether no frame that is still to come on track `t` can be near enough to
/// the head state: the newest one is as far past it as the search range, or
/// as far as time goes.
pub open spec fn too_late_for_a_frame(setup: SyncSetup, s: SyncState, t: int) -> bool {
    &&& s.buffers[t].len() > 0
    &&& ({
        let newest = s.buffers[t][s.buffers[t].len() - 1].timestamp_us;
        newest >= s.states[0].0 + setup.config.search_range_us || (s.states[0].0
            + setup.config.search_range_us > u64::MAX && newest == u64::MAX)
    })
}

/// Whether track `t` has a budget and the fastest stream is as far past the
/// head state as it allows.
pub open spec fn out_of_patience(setup: SyncSetup, s: SyncState, t: int, lead: u64) -> bool {
    setup.stalls[t].max_lag_us is Some && lead >= s.states[0].0 + setup.stalls[t].max_lag_us->0
}

/// Whether the head state may have neither the frame of track `t` that the
/// search stands on nor the one behind it. Of frames in time order it may
/// then have none at all.
pub open spec fn unmatched(setup: SyncSetup, s: SyncState, t: int) -> bool {
    let c = sb::sought(s.buffers[t], s.cursors[t] as int, s.states[0].0);
    !head_may_have(setup, s, t, c) && !head_may_have(setup, s, t, c + 1)
}

proof fn lemma_no_frame_of_its_own(setup: SyncSetup, s: SyncState, t: int)
    requires
        aligned(setup, s),
        s.states.len() > 0,
        0 <= t < setup.names.len(),
        unmatched(setup, s, t),
    ensures
        sb::fresh_match(
            s.buffers[t],
            s.position(t),
            s.head_ts(),
            s.next_ts(),
            setup.config.search_range_us,
        ) is None,
        s.head_ts() == s.states[0].0,
        s.buffers[t].len() > 0 ==> 0 <= s.position(t) < s.buffers[t].len(),
        sb::past_matching(s.buffers[t], s.head_ts(), setup.config.search_range_us)
            == too_late_for_a_frame(setup, s, t),
{
    if s.buffers[t].len() > 0 {
        law_the_search_walks_one_way(s.buffers[t], s.cursors[t] as int, s.states[0].0);
    }
}

/// A track that shows nothing in place of a frame gives the head state up as
/// soon as no frame can match it any more or its patience is over, and waits
/// for a frame as long as neither is so.
pub proof fn law_a_strict_track_drops_or_waits(
    setup: SyncSetup,
    s: SyncState,
    t: int,
    lead: u64,
)
    requires
        aligned(setup, s),
        s.states.len() > 0,
        0 <= t < setup.names.len(),
        unmatched(setup, s, t),
        furthest(s, s.buffers.len() as int, lead),
        setup.stalls[t].behavior == StallBehavior::Drop,
    ensures
        s.verdict(setup, t) is Drop <==> too_late_for_a_frame(setup, s, t) || out_of_patience(
            setup,
            s,
            t,
            lead,
        ),
        s.verdict(setup, t) is Wait <==> !too_late_for_a_frame(setup, s, t) && !out_of_patience(
            setup,
            s,
            t,
            lead,
        ),
        s.verdict(setup, t) matches Verdict::Drop { ahead_us } ==> ahead_us == (
        if too_late_for_a_frame(setup, s, t) {
            s.buffers[t][s.buffers[t].len() - 1].timestamp_us - s.states[0].0
        } else {
            lead - s.states[0].0
        }),
{
    lemma_no_frame_of_its_own(setup, s, t);
    lemma_lead_is(s, lead);
}

/// A track that freezes waits as a strict one does. When it need not wait any
/// longer it shows the newest frame that is not after the state, where that is
/// as old as the search range or older, and it and every frame before it leave
/// the track; else it shows once more what it showed last. Only where it has
/// neither does it give the state up: because no frame can match it any more,
/// or because a patience above zero is over.
pub proof fn law_a_frozen_track_shows_what_it_had(
    setup: SyncSetup,
    s: SyncState,
    t: int,
    lead: u64,
    k: int,
)
    requires
        aligned(setup, s),
        s.states.len() > 0,
        0 <= t < setup.names.len(),
        frames_in_order(s.buffers[t]),
        forall|i: int| !head_may_have(setup, s, t, i),
        furthest(s, s.buffers.len() as int, lead),
        setup.stalls[t].behavior == StallBehavior::Freeze,
        -1 <= k < s.buffers[t].len(),
        k >= 0 ==> s.buffers[t][k].timestamp_us <= s.states[0].0,
        k + 1 < s.buffers[t].len() ==> s.buffers[t][k + 1].timestamp_us > s.states[0].0,
    ensures
        ({
            let v = s.verdict(setup, t);
            let late = too_late_for_a_frame(setup, s, t);
            let over = out_of_patience(setup, s, t, lead);
            let old = k >= 0 && s.buffers[t][k].timestamp_us + setup.config.search_range_us
                <= s.states[0].0;
            &&& !late && !over ==> v is Wait
            &&& (late || over) && old ==> v == (Verdict::Use {
                frame: s.buffers[t][k],
                drain_to: Some(k as usize),
                stale: true,
            })
            &&& (late || over) && !old && s.last[t] is Some ==> v == (Verdict::Use {
                frame: s.last[t]->0,
                drain_to: None,
                stale: true,
            })
            &&& !old && s.last[t] is None && late ==> v is Drop && v->ahead_us
                == s.buffers[t][s.buffers[t].len() - 1].timestamp_us - s.states[0].0
            &&& !old && s.last[t] is None && !late && over && setup.stalls[t].max_lag_us->0 > 0
                ==> v is Drop && v->ahead_us == lead - s.states[0].0
            &&& !old && s.last[t] is None && !late && over && setup.stalls[t].max_lag_us->0 == 0
                ==> v is Wait
        }),
{
    let buf = s.buffers[t];
    let c = s.position(t);
    assert(!head_may_have(setup, s, t, c));
    assert(!head_may_have(setup, s, t, c + 1));
    lemma_no_frame_of_its_own(setup, s, t);
    lemma_lead_is(s, lead);
    if buf.len() > 0 {
        lemma_where_the_search_stands(buf, s.cursors[t] as int, s.states[0].0);
        if k >= 0 {
            if c < k {
                assert(buf[k].timestamp_us > s.states[0].0);
            }
            if c > k {
                assert(buf[k + 1].timestamp_us <= buf[c].timestamp_us);
            }
            assert(c == k);
        } else {
            assert(buf[0].timestamp_us <= buf[c].timestamp_us);
            assert(c == 0);
        }
    }
}

/// In whatever order frames came, a track that freezes shows the frame that
/// the search stands on, where it is as old as the search range or older, and
/// what it showed last otherwise.
pub proof fn law_a_frozen_track_looks_at_the_search(
    setup: SyncSetup,
    s: SyncState,
    t: int,
    lead: u64,
)
    requires
        aligned(setup, s),
        s.states.len() > 0,
        0 <= t < setup.names.len(),
        unmatched(setup, s, t),
        furthest(s, s.buffers.len() as int, lead),
        setup.stalls[t].behavior == StallBehavior::Freeze,
    ensures
        ({
            let v = s.verdict(setup, t);
            let late = too_late_for_a_frame(setup, s, t);
            let over = out_of_patience(setup, s, t, lead);
            let c = sb::sought(s.buffers[t], s.cursors[t] as int, s.states[0].0);
            let old = s.buffers[t].len() > 0 && s.buffers[t][c].timestamp_us
                + setup.config.search_range_us <= s.states[0].0;
            &&& !late && !over ==> v is Wait
            &&& (late || over) && old ==> v == (Verdict::Use {
                frame: s.buffers[t][c],
                drain_to: Some(c as usize),
                stale: true,
            })
            &&& (late || over) && !old && s.last[t] is Some ==> v == (Verdict::Use {
                frame: s.last[t]->0,
                drain_to: None,
                stale: true,
            })
            &&& !old && s.last[t] is None && late ==> v is Drop
            &&& !old && s.last[t] is None && !late && over && setup.stalls[t].max_lag_us->0 > 0
                ==> v is Drop
            &&& !old && s.last[t] is None && !late && over && setup.stalls[t].max_lag_us->0 == 0
                ==> v is Wait
        }),
{
    lemma_no_frame_of_its_own(setup, s, t);
    lemma_lead_is(s, lead);
}

/// A track that is left out waits as a strict one does. When it need not wait
/// any longer a placeholder of the size of its newest frame stands for it,
/// where such a picture can be drawn. Only where it has never had a frame, or
/// the picture cannot be drawn, is the state given up as by a frozen track.
pub proof fn law_an_omitted_track_shows_a_placeholder(
    setup: SyncSetup,
    s: SyncState,
    t: int,
    lead: u64,
)
    requires
        aligned(setup, s),
        s.states.len() > 0,
        0 <= t < setup.names.len(),
        unmatched(setup, s, t),
        furthest(s, s.buffers.len() as int, lead),
        setup.stalls[t].behavior == StallBehavior::Omit,
    ensures
        ({
            let v = s.verdict(setup, t);
            let late = too_late_for_a_frame(setup, s, t);
            let over = out_of_patience(setup, s, t, lead);
            let known = s.buffers[t].len() > 0 || s.last[t] is Some;
            let newest = if s.buffers[t].len() > 0 {
                s.buffers[t][s.buffers[t].len() - 1]
            } else {
                s.last[t]->0
            };
            let drawn = known && newest.width * newest.height * 3 <= usize::MAX && newest.width
                + newest.height <= usize::MAX;
            &&& !late && !over ==> v is Wait
            &&& (late || over) && drawn ==> v == (Verdict::Omit {
                width: newest.width,
                height: newest.height,
            })
            &&& !drawn && late ==> v is Drop && v->ahead_us
                == s.buffers[t][s.buffers[t].len() - 1].timestamp_us - s.states[0].0
            &&& !drawn && !late && over && setup.stalls[t].max_lag_us->0 > 0 ==> v is Drop
                && v->ahead_us == lead - s.states[0].0
            &&& !drawn && !late && over && setup.stalls[t].max_lag_us->0 == 0 ==> v is Wait
        }),
{
    lemma_no_frame_of_its_own(setup, s, t);
    lemma_lead_is(s, lead);
}

// ---------------------------------------------------------------------------
// The search, in whatever order frames came
// ---------------------------------------------------------------------------

proof fn lemma_walk_back(buf: Seq<Frame>, from: int, ts: u64)
    requires
        0 <= from < buf.len(),
    ensures
        ({
            let r = sb::rewound(buf, from, ts);
            &&& 0 <= r <= from
            &&& r == 0 || buf[r].timestamp_us <= ts
            &&& forall|i: int| r < i <= from ==> (#[trigger] buf[i]).timestamp_us > ts
        }),
    decreases from,
{
    if from > 0 && buf[from].timestamp_us > ts {
        lemma_walk_back(buf, from - 1, ts);
    }
}

proof fn lemma_walk_on(buf: Seq<Frame>, from: int, ts: u64)
    requires
        0 <= from < buf.len(),
    ensures
        ({
            let a = sb::advanced(buf, from, ts);
            &&& from <= a < buf.len()
            &&& a + 1 == buf.len() || buf[a + 1].timestamp_us > ts
            &&& forall|i: int| from < i <= a ==> (#[trigger] buf[i]).timestamp_us <= ts
        }),
    decreases buf.len() - from,
{
    if from + 1 < buf.len() && buf[from + 1].timestamp_us <= ts {
        lemma_walk_on(buf, from + 1, ts);
    }
}

/// The search starts where it left off, or at the newest frame where there
/// are fewer. It walks back over frames that are after the state, and only
/// where there are none on over frames that are not; it stops at the first
/// frame that ends such a walk.
pub proof fn law_the_search_walks_one_way(buf: Seq<Frame>, cursor: int, ts: u64)
    requires
        buf.len() > 0,
        0 <= cursor,
    ensures
        ({
            let start = if cursor < buf.len() {
                cursor
            } else {
                buf.len() - 1
            };
            let c = sb::sought(buf, cursor, ts);
            &&& 0 <= c < buf.len()
            &&& c + 1 == buf.len() || buf[c + 1].timestamp_us > ts
            &&& c < start ==> (c == 0 || buf[c].timestamp_us <= ts) && forall|i: int|
                c < i <= start ==> (#[trigger] buf[i]).timestamp_us > ts
            &&& c > start ==> (start == 0 || buf[start].timestamp_us <= ts) && forall|i: int|
                start < i <= c ==> (#[trigger] buf[i]).timestamp_us <= ts
            &&& c == start ==> c == 0 || buf[c].timestamp_us <= ts
        }),
{
    let start = if cursor >= buf.len() {
        buf.len() - 1
    } else {
        cursor
    };
    lemma_walk_back(buf, start, ts);
    let r = sb::rewound(buf, start, ts);
    lemma_walk_on(buf, r, ts);
    let a = sb::advanced(buf, r, ts);
    if r < start {
        assert(buf[r + 1].timestamp_us > ts);
        assert(a == r);
    }
}

/// Of the frame that the search stands on and the one behind it, a state gets
/// the nearer one that it may have, the earlier one on a tie; of those that it
/// may not have it gets none. Whatever else it is shown was shown before or is
/// marked as stale.
pub proof fn law_the_match_is_around_the_search(setup: SyncSetup, s: SyncState, t: int)
    requires
        aligned(setup, s),
        s.states.len() > 0,
        0 <= t < setup.names.len(),
        s.buffers[t].len() > 0,
    ensures
        ({
            let c = sb::sought(s.buffers[t], s.cursors[t] as int, s.states[0].0);
            let here = head_may_have(setup, s, t, c);
            let beyond = head_may_have(setup, s, t, c + 1);
            let nearer = gap(s.states[0].0, s.buffers[t][c + 1].timestamp_us) < gap(
                s.states[0].0,
                s.buffers[t][c].timestamp_us,
            );
            let v = s.verdict(setup, t);
            &&& here && !(beyond && nearer) ==> v == (Verdict::Use {
                frame: s.buffers[t][c],
                drain_to: Some(c as usize),
                stale: false,
            })
            &&& beyond && (!here || nearer) ==> v == (Verdict::Use {
                frame: s.buffers[t][c + 1],
                drain_to: Some((c + 1) as usize),
                stale: false,
            })
            &&& !here && !beyond ==> !(v matches Verdict::Use { stale, .. } && !stale)
        }),
{
    law_the_search_walks_one_way(s.buffers[t], s.cursors[t] as int, s.states[0].0);
    assert(s.buffers[t].len() < usize::MAX);
}

/// For frames in time order it does not matter where the search starts: what
/// becomes of the head state on a track is the same.
pub proof fn law_where_the_search_starts_does_not_matter(
    setup: SyncSetup,
    s: SyncState,
    cursors: Seq<usize>,
    t: int,
)
    requires
        aligned(setup, s),
        cursors.len() == s.cursors.len(),
        s.states.len() > 0,
        0 <= t < setup.names.len(),
        frames_in_order(s.buffers[t]),
        s.buffers[t].len() > 0,
    ensures
        (SyncState { cursors, ..s }).verdict(setup, t) == s.verdict(setup, t),
{
    let other = SyncState { cursors, ..s };
    let buf = s.buffers[t];
    let ts = s.states[0].0;
    lemma_where_the_search_stands(buf, s.cursors[t] as int, ts);
    lemma_where_the_search_stands(buf, cursors[t] as int, ts);
    let a = s.position(t);
    let b = other.position(t);
    if a < b {
        assert(buf[b].timestamp_us > ts);
    }
    if b < a {
        assert(buf[a].timestamp_us > ts);
    }
    lemma_same_lead(s, cursors, s.buffers.len() as int);
}

proof fn lemma_same_lead(s: SyncState, cursors: Seq<usize>, n: int)
    requires
        0 <= n,
    ensures
        (SyncState { cursors, ..s }).lead_of(n) == s.lead_of(n),
    decreases n,
{
    if n > 0 {
        lemma_same_lead(s, cursors, n - 1);
    }
}

/// A search that was made is remembered for the tracks that were looked at:
/// all of them where the state waits, and those up to the one that gave it up
/// where it is dropped. Where it is observed the search goes on behind the
/// frames that left, and what leaves a full track moves it back as far.
pub proof fn law_searches_are_remembered(
    setup: SyncSetup,
    run: SyncRun,
    t: int,
    b: int,
    frame: Frame,
)
    requires
        aligned(setup, run.state),
        run.state.states.len() > 0,
        0 <= t < setup.names.len(),
        0 <= b < setup.names.len(),
        run.state.buffers[t].len() > 0,
    ensures
        ({
            let s = run.state;
            let c = sb::sought(s.buffers[t], s.cursors[t] as int, s.states[0].0);
            let waiting = sb::head_waiting(run, setup.names.len() as int, b);
            let gone = sb::head_dropped(setup, run, b);
            let seen = sb::head_emitted(setup, run);
            let pushed = sb::frame_pushed(setup, s, t, frame);
            let evicted = sb::excess(
                s.buffers[t].len() + 1,
                setup.config.video_buffer_size as nat,
            );
            &&& waiting.state.cursors[t] == c
            &&& t <= b ==> gone.state.cursors[t] == c
            &&& t > b ==> gone.state.cursors[t] == s.cursors[t]
            &&& match s.verdict(setup, t) {
                Verdict::Use { drain_to: Some(i), .. } => seen.state.cursors[t] == (if c > i {
                    c - i - 1
                } else {
                    0
                }),
                _ => seen.state.cursors[t] == c,
            }
            &&& pushed.cursors[t] == (if s.cursors[t] >= evicted {
                s.cursors[t] - evicted
            } else {
                0
            })
        }),
{
    law_the_search_walks_one_way(
        run.state.buffers[t],
        run.state.cursors[t] as int,
        run.state.states[0].0,
    );
    assert(run.state.buffers[t].len() < usize::MAX);
}

/// A state that is dropped is told with its values by name, each at the type
/// that its field declares.
pub proof fn law_dropped_states_tell_their_values(
    setup: SyncSetup,
    state: (u64, Vec<u64>),
    k: int,
    name: Seq<char>,
)
    requires
        0 <= k < setup.schema.len(),
        k < state.1@.len(),
        forall|l: int|
            k < l < setup.schema.len() && l < state.1@.len() ==> (#[trigger] setup.schema[l]).name@
                != setup.schema[k].name@,
    ensures
        ({
            let told = sb::dropped(setup, state);
            &&& told.contains_key(setup.schema[k].name@)
            &&& told[setup.schema[k].name@] == crate::types::typed_value(
                state.1@[k],
                setup.schema[k].dtype,
            )
            &&& (forall|l: int|
                0 <= l < setup.schema.len() && l < state.1@.len() ==> (
                #[trigger] setup.schema[l]).name@ != name) ==> !told.contains_key(name)
        }),
{
    crate::value_laws::law_values_are_told_by_name(setup.schema, state.1@, k, name);
}

// ---------------------------------------------------------------------------
// The head of the queue
// ---------------------------------------------------------------------------

proof fn lemma_first_dropping(s: SyncState, setup: SyncSetup, from: int, n: int, t: int)
    requires
        0 <= from <= t < n,
        s.verdict(setup, t) is Drop,
        forall|u: int| from <= u < t ==> !(#[trigger] s.verdict(setup, u) is Drop),
    ensures
        sb::first_dropping(s, setup, from, n) == Some(t),
    decreases t - from,
{
    if from < t {
        assert(!(s.verdict(setup, from) is Drop));
        lemma_first_dropping(s, setup, from + 1, n, t);
    }
}

proof fn lemma_none_dropping(s: SyncState, setup: SyncSetup, from: int, n: int)
    requires
        0 <= from,
        forall|u: int| from <= u < n ==> !(#[trigger] s.verdict(setup, u) is Drop),
    ensures
        sb::first_dropping(s, setup, from, n) is None,
    decreases n - from,
{
    if from < n {
        assert(!(s.verdict(setup, from) is Drop));
        lemma_none_dropping(s, setup, from + 1, n);
    }
}

proof fn lemma_first_waiting(s: SyncState, setup: SyncSetup, from: int, n: int, t: int)
    requires
        0 <= from <= t < n,
        s.verdict(setup, t) is Wait,
        forall|u: int| from <= u < t ==> !(#[trigger] s.verdict(setup, u) is Wait),
    ensures
        sb::first_waiting(s, setup, from, n) == Some(t),
    decreases t - from,
{
    if from < t {
        assert(!(s.verdict(setup, from) is Wait));
        lemma_first_waiting(s, setup, from + 1, n, t);
    }
}

proof fn lemma_none_waiting(s: SyncState, setup: SyncSetup, from: int, n: int)
    requires
        0 <= from,
        forall|u: int| from <= u < n ==> !(#[trigger] s.verdict(setup, u) is Wait),
    ensures
        sb::first_waiting(s, setup, from, n) is None,
    decreases n - from,
{
    if from < n {
        assert(!(s.verdict(setup, from) is Wait));
        lemma_none_waiting(s, setup, from + 1, n);
    }
}

/// Without a waiting state nothing happens, and nothing is waited for.
pub proof fn law_an_empty_queue_is_at_rest(setup: SyncSetup, run: SyncRun)
    requires
        run.state.states.len() == 0,
    ensures
        ({
            let end = sb::settled(setup, run);
            &&& end.state.states.len() == 0
            &&& end.state.buffers == run.state.buffers
            &&& end.state.last == run.state.last
            &&& end.state.blocker is None
            &&& end.observations == run.observations
            &&& end.drops == run.drops
            &&& end.ahead == run.ahead
            &&& end.metrics == run.metrics
        }),
{
}

/// A head state that some track gives up leaves as a drop, told with its
/// values and with how far the first such track says the streams are ahead.
/// No frame leaves with it, and the work goes on with the next state.
pub proof fn law_one_track_is_enough_to_drop(setup: SyncSetup, run: SyncRun, t: int)
    requires
        run.state.states.len() > 0,
        0 <= t < setup.names.len(),
        run.state.verdict(setup, t) is Drop,
        forall|u: int| 0 <= u < t ==> !(#[trigger] run.state.verdict(setup, u) is Drop),
    ensures
        sb::settled(setup, run) == sb::settled(setup, sb::head_dropped(setup, run, t)),
        ({
            let next = sb::head_dropped(setup, run, t);
            &&& next.state.states == run.state.states.skip(1)
            &&& next.state.buffers == run.state.buffers
            &&& next.state.last == run.state.last
            &&& next.state.in_overflow_burst == run.state.in_overflow_burst
            &&& next.observations == run.observations
            &&& next.drops == run.drops.push(sb::dropped(setup, run.state.states[0]))
            &&& next.ahead == run.ahead.push(run.state.verdict(setup, t)->ahead_us)
            &&& crate::metrics_laws::went_up(
                run.metrics.states_dropped,
                next.metrics.states_dropped,
                1,
            )
            &&& next.metrics == (crate::metrics::MetricsView {
                states_dropped: next.metrics.states_dropped,
                ..run.metrics
            })
        }),
{
    lemma_first_dropping(run.state, setup, 0, setup.names.len() as int, t);
    assert(run.state.states.drop_first() =~= run.state.states.skip(1));
}

/// A head state that no track gives up, but that some track may still match,
/// waits: nothing leaves, and the first such track is what it waits for.
pub proof fn law_one_track_is_enough_to_wait(setup: SyncSetup, run: SyncRun, b: int)
    requires
        run.state.states.len() > 0,
        0 <= b < setup.names.len() <= usize::MAX,
        forall|u: int|
            0 <= u < setup.names.len() ==> !(#[trigger] run.state.verdict(setup, u) is Drop),
        run.state.verdict(setup, b) is Wait,
        forall|u: int| 0 <= u < b ==> !(#[trigger] run.state.verdict(setup, u) is Wait),
    ensures
        ({
            let end = sb::settled(setup, run);
            &&& end.state.states == run.state.states
            &&& end.state.buffers == run.state.buffers
            &&& end.state.last == run.state.last
            &&& end.state.in_overflow_burst == run.state.in_overflow_burst
            &&& end.state.blocker matches Some(x) && x == b
            &&& end.observations == run.observations
            &&& end.drops == run.drops
            &&& end.ahead == run.ahead
            &&& end.metrics.last_blocker matches Some(x) && x == b
            &&& end.metrics == (crate::metrics::MetricsView {
                last_blocker: end.metrics.last_blocker,
                ..run.metrics
            })
        }),
{
    let n = setup.names.len() as int;
    lemma_none_dropping(run.state, setup, 0, n);
    lemma_first_waiting(run.state, setup, 0, n, b);
}

/// A head state for which every track has something to show leaves as an
/// observation at its own time, and the work goes on with the next state. Of
/// each track, a frame that is shown for the first time leaves with all the
/// frames before it, and is what the track showed last; any other track stays
/// as it is.
pub proof fn law_a_complete_state_is_observed(setup: SyncSetup, run: SyncRun, t: int)
    requires
        run.state.states.len() > 0,
        aligned(setup, run.state),
        0 <= t < setup.names.len(),
        forall|u: int|
            0 <= u < setup.names.len() ==> !(#[trigger] run.state.verdict(setup, u) is Drop)
                && !(run.state.verdict(setup, u) is Wait),
    ensures
        sb::settled(setup, run) == sb::settled(setup, sb::head_emitted(setup, run)),
        ({
            let s = run.state;
            let next = sb::head_emitted(setup, run);
            let n = setup.names.len();
            &&& next.state.states == s.states.skip(1)
            &&& next.state.in_overflow_burst == s.in_overflow_burst
            &&& next.drops == run.drops
            &&& next.ahead == run.ahead
            &&& next.observations.len() == run.observations.len() + 1
            &&& next.observations.take(run.observations.len() as int) == run.observations
            &&& next.observations.last().timestamp_us == s.states[0].0
            &&& next.observations.last().frames == sb::frames_of(setup, s, n)
            &&& next.observations.last().state == crate::types::typed_map(
                setup.schema,
                s.states[0].1@,
                crate::types::paired(setup.schema, s.states[0].1@),
            )
            &&& next.observations.last().raw_state == crate::types::raw_map(
                setup.schema,
                s.states[0].1@,
                crate::types::paired(setup.schema, s.states[0].1@),
            )
            &&& match s.verdict(setup, t) {
                Verdict::Use { frame, drain_to: Some(i), .. } => {
                    &&& i < s.buffers[t].len() ==> next.state.buffers[t].len()
                        == s.buffers[t].len() - i - 1
                    &&& forall|j: int|
                        0 <= j < s.buffers[t].len() - i - 1
                            ==> #[trigger] next.state.buffers[t][j] == s.buffers[t][i + 1 + j]
                    &&& next.state.last[t] == Some(frame)
                },
                _ => {
                    &&& next.state.buffers[t] == s.buffers[t]
                    &&& next.state.last[t] == s.last[t]
                },
            }
        }),
{
    let n = setup.names.len() as int;
    lemma_none_dropping(run.state, setup, 0, n);
    lemma_none_waiting(run.state, setup, 0, n);
    assert(run.state.states.drop_first() =~= run.state.states.skip(1));
    let next = sb::head_emitted(setup, run);
    assert(next.observations.take(run.observations.len() as int) =~= run.observations);
}

proof fn lemma_frames_of(setup: SyncSetup, s: SyncState, n: nat, name: Seq<char>)
    requires
        n <= setup.names.len(),
    ensures
        sb::frames_of(setup, s, n).contains_key(name) <==> exists|t: int|
            0 <= t < n && #[trigger] setup.names[t]@ == name && s.verdict(setup, t).settles(),
    decreases n,
{
    if n > 0 {
        lemma_frames_of(setup, s, (n - 1) as nat, name);
        assert(setup.names[n - 1]@ == name || setup.names[n - 1]@ != name);
    }
}

proof fn lemma_frame_of(setup: SyncSetup, s: SyncState, n: nat, t: int)
    requires
        n <= setup.names.len(),
        0 <= t < n,
        forall|u: int| t < u < n ==> #[trigger] setup.names[u]@ != setup.names[t]@,
    ensures
        match s.verdict(setup, t) {
            Verdict::Use { frame, stale, .. } => {
                &&& sb::frames_of(setup, s, n).contains_key(setup.names[t]@)
                &&& sb::frames_of(setup, s, n)[setup.names[t]@] == sb::tagged(frame@, stale)
            },
            Verdict::Omit { width, height } => {
                &&& sb::frames_of(setup, s, n).contains_key(setup.names[t]@)
                &&& sb::frames_of(setup, s, n)[setup.names[t]@] == sb::placeholder_frame(
                    width,
                    height,
                    setup.names[t]@,
                    s.head_ts(),
                )
            },
            _ => true,
        },
    decreases n,
{
    if t < n - 1 {
        assert(setup.names[n - 1]@ != setup.names[t]@);
        lemma_frame_of(setup, s, (n - 1) as nat, t);
    }
}

/// An observation shows each track under the track's own name, and no other
/// name: the frame that the track gives, unchanged but that one which is
/// shown again says so, or a placeholder of the given size at the time of the
/// state that says that the track was left out.
pub proof fn law_tracks_are_shown_under_their_names(
    setup: SyncSetup,
    s: SyncState,
    t: int,
    name: Seq<char>,
)
    requires
        s.states.len() > 0,
        0 <= t < setup.names.len(),
        forall|u: int|
            t < u < setup.names.len() ==> #[trigger] setup.names[u]@ != setup.names[t]@,
    ensures
        ({
            let frames = sb::frames_of(setup, s, setup.names.len());
            let shown: FrameView = frames[setup.names[t]@];
            &&& frames.contains_key(name) ==> exists|u: int|
                0 <= u < setup.names.len() && #[trigger] setup.names[u]@ == name
            &&& match s.verdict(setup, t) {
                Verdict::Use { frame, stale, .. } => {
                    &&& frames.contains_key(setup.names[t]@)
                    &&& shown.width == frame@.width && shown.height == frame@.height
                    &&& shown.data == frame@.data
                    &&& shown.timestamp_us == frame@.timestamp_us
                    &&& shown.source == (if stale {
                        FrameSource::Stale
                    } else {
                        frame@.source
                    })
                },
                Verdict::Omit { width, height } => {
                    &&& frames.contains_key(setup.names[t]@)
                    &&& shown.width == width && shown.height == height
                    &&& shown.data == crate::placeholder::placeholder_pixels(
                        width as int,
                        height as int,
                        setup.names[t]@,
                    )
                    &&& shown.timestamp_us == s.states[0].0
                    &&& shown.source == FrameSource::Omitted
                },
                _ => true,
            }
        }),
{
    lemma_frames_of(setup, s, setup.names.len(), name);
    lemma_frame_of(setup, s, setup.names.len(), t);
}

proof fn lemma_worst(setup: SyncSetup, s: SyncState, n: nat)
    requires
        s.states.len() > 0,
    ensures
        ({
            let worst = sb::worst_distance(setup, s, n);
            &&& forall|t: int|
                0 <= t < n ==> (#[trigger] s.verdict(setup, t) matches Verdict::Use { frame, .. }
                    ==> gap(s.states[0].0, frame.timestamp_us) <= worst)
            &&& worst == 0 || exists|t: int|
                0 <= t < n && (#[trigger] s.verdict(setup, t) matches Verdict::Use { frame, .. }
                    && gap(s.states[0].0, frame.timestamp_us) == worst)
        }),
    decreases n,
{
    if n > 0 {
        lemma_worst(setup, s, (n - 1) as nat);
        let before = sb::worst_distance(setup, s, (n - 1) as nat);
        let worst = sb::worst_distance(setup, s, n);
        let v = s.verdict(setup, n - 1);
        if worst != before {
            assert(v matches Verdict::Use { frame, .. } && gap(s.states[0].0, frame.timestamp_us)
                == worst);
        } else if before != 0 {
            let t = choose|t: int|
                0 <= t < n - 1 && (#[trigger] s.verdict(setup, t) matches Verdict::Use {
                    frame,
                    ..
                } && gap(s.states[0].0, frame.timestamp_us) == before);
            assert(s.verdict(setup, t) matches Verdict::Use { frame, .. } && gap(
                s.states[0].0,
                frame.timestamp_us,
            ) == worst);
        }
    }
}

/// An observation counts once, with the largest gap between its state and a
/// frame that is shown for it, and as stale exactly where some frame is shown
/// again.
pub proof fn law_an_observation_is_counted(setup: SyncSetup, run: SyncRun, worst: u64)
    requires
        run.state.states.len() > 0,
        run.metrics.match_deltas.len() <= 256,
        forall|t: int|
            0 <= t < setup.names.len() ==> (#[trigger] run.state.verdict(
                setup,
                t,
            ) matches Verdict::Use { frame, .. } ==> gap(
                run.state.states[0].0,
                frame.timestamp_us,
            ) <= worst),
        worst == 0 || exists|t: int|
            0 <= t < setup.names.len() && (#[trigger] run.state.verdict(
                setup,
                t,
            ) matches Verdict::Use { frame, .. } && gap(
                run.state.states[0].0,
                frame.timestamp_us,
            ) == worst),
    ensures
        ({
            let m = run.metrics;
            let next = sb::head_emitted(setup, run).metrics;
            let stale = exists|t: int|
                0 <= t < setup.names.len() && (#[trigger] run.state.verdict(
                    setup,
                    t,
                ) matches Verdict::Use { stale, .. } && stale);
            &&& crate::metrics_laws::went_up(m.observations_emitted, next.observations_emitted, 1)
            &&& crate::metrics_laws::went_up(
                m.stale_observations_emitted,
                next.stale_observations_emitted,
                if stale {
                    1
                } else {
                    0
                },
            )
            &&& next.match_deltas.len() > 0 && next.match_deltas.last() == worst
            &&& m.match_deltas.len() < 256 ==> next.match_deltas == m.match_deltas.push(worst)
            &&& m.match_deltas.len() == 256 ==> next.match_deltas == m.match_deltas.skip(1).push(
                worst,
            )
            &&& next == (crate::metrics::MetricsView {
                observations_emitted: next.observations_emitted,
                stale_observations_emitted: next.stale_observations_emitted,
                match_deltas: next.match_deltas,
                tracks: next.tracks,
                ..m
            })
        }),
{
    let s = run.state;
    let n = setup.names.len();
    lemma_worst(setup, s, n);
    let w = sb::worst_distance(setup, s, n);
    if worst != 0 {
        let t = choose|t: int|
            0 <= t < n && (#[trigger] s.verdict(setup, t) matches Verdict::Use { frame, .. }
                && gap(s.states[0].0, frame.timestamp_us) == worst);
        assert(s.verdict(setup, t) is Use);
        assert(worst <= w);
    }
    if w != 0 {
        let t = choose|t: int|
            0 <= t < n && (#[trigger] s.verdict(setup, t) matches Verdict::Use { frame, .. }
                && gap(s.states[0].0, frame.timestamp_us) == w);
        assert(s.verdict(setup, t) is Use);
        assert(w <= worst);
    }
    lemma_omissions_keep(setup, s, run.metrics, n);
    assert(run.metrics.match_deltas.len() > 0 ==> run.metrics.match_deltas.skip(1)
        =~= run.metrics.match_deltas.drop_first());
}

proof fn lemma_omissions_keep(
    setup: SyncSetup,
    s: SyncState,
    m: crate::metrics::MetricsView,
    n: nat,
)
    ensures
        sb::omissions_counted(setup, s, m, n) == (crate::metrics::MetricsView {
            tracks: sb::omissions_counted(setup, s, m, n).tracks,
            ..m
        }),
        sb::omissions_counted(setup, s, m, n).tracks.dom() == m.tracks.dom(),
    decreases n,
{
    if n > 0 {
        lemma_omissions_keep(setup, s, m, (n - 1) as nat);
        assert(sb::omissions_counted(setup, s, m, n).tracks.dom() =~= m.tracks.dom());
    }
}

proof fn lemma_omission_of(
    setup: SyncSetup,
    s: SyncState,
    m: crate::metrics::MetricsView,
    n: nat,
    t: int,
)
    requires
        n <= setup.names.len(),
        0 <= t < setup.names.len(),
        forall|u: int|
            0 <= u < setup.names.len() && u != t ==> #[trigger] setup.names[u]@
                != setup.names[t]@,
        m.tracks.contains_key(setup.names[t]@),
    ensures
        ({
            let next = sb::omissions_counted(setup, s, m, n);
            let name = setup.names[t]@;
            &&& next.tracks.contains_key(name)
            &&& crate::metrics_laws::went_up(
                m.tracks[name].frames_omitted,
                next.tracks[name].frames_omitted,
                if t < n && s.verdict(setup, t) is Omit {
                    1
                } else {
                    0
                },
            )
            &&& next.tracks[name] == (crate::metrics::TrackMetrics {
                frames_omitted: next.tracks[name].frames_omitted,
                ..m.tracks[name]
            })
        }),
    decreases n,
{
    if n > 0 {
        lemma_omission_of(setup, s, m, (n - 1) as nat, t);
        if n - 1 != t {
            assert(setup.names[n - 1]@ != setup.names[t]@);
        }
    }
}

proof fn lemma_omissions_of_others(
    setup: SyncSetup,
    s: SyncState,
    m: crate::metrics::MetricsView,
    n: nat,
    name: Seq<char>,
)
    requires
        n <= setup.names.len(),
        forall|u: int| 0 <= u < setup.names.len() ==> #[trigger] setup.names[u]@ != name,
    ensures
        sb::omissions_counted(setup, s, m, n).tracks[name] == m.tracks[name],
        sb::omissions_counted(setup, s, m, n).tracks.contains_key(name) == m.tracks.contains_key(
            name,
        ),
    decreases n,
{
    if n > 0 {
        lemma_omissions_of_others(setup, s, m, (n - 1) as nat, name);
        assert(setup.names[n - 1]@ != name);
    }
}

/// An observation counts nothing under a name that is none of its tracks.
pub proof fn law_other_tracks_are_not_counted(setup: SyncSetup, run: SyncRun, name: Seq<char>)
    requires
        forall|u: int| 0 <= u < setup.names.len() ==> #[trigger] setup.names[u]@ != name,
    ensures
        sb::head_emitted(setup, run).metrics.tracks.contains_key(name)
            == run.metrics.tracks.contains_key(name),
        sb::head_emitted(setup, run).metrics.tracks[name] == run.metrics.tracks[name],
{
    lemma_omissions_of_others(setup, run.state, run.metrics, setup.names.len(), name);
}

/// Of each track, an observation counts the placeholder that stood for it and
/// changes nothing else.
pub proof fn law_placeholders_are_counted(setup: SyncSetup, run: SyncRun, t: int)
    requires
        0 <= t < setup.names.len(),
        forall|u: int|
            0 <= u < setup.names.len() && u != t ==> #[trigger] setup.names[u]@
                != setup.names[t]@,
        run.metrics.tracks.contains_key(setup.names[t]@),
    ensures
        ({
            let before = run.metrics.tracks[setup.names[t]@];
            let after = sb::head_emitted(setup, run).metrics.tracks[setup.names[t]@];
            &&& crate::metrics_laws::went_up(
                before.frames_omitted,
                after.frames_omitted,
                if run.state.verdict(setup, t) is Omit {
                    1
                } else {
                    0
                },
            )
            &&& after == (crate::metrics::TrackMetrics {
                frames_omitted: after.frames_omitted,
                ..before
            })
        }),
{
    lemma_omission_of(setup, run.state, run.metrics, setup.names.len(), t);
}

} // verus!
