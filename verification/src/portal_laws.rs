//! What one side of the link does, stated apart from how it does it.
use crate::config::{ChunkSpec, FrameVideoSpec, PortalConfig, VideoTrackSpec};
use crate::controller::{ControllerView, NoticeView};
use crate::error::{PortalError, PortalResult};
use crate::metrics::{DataStream, MetricsView, TrackMetrics};
use crate::metrics_laws::went_up;
use crate::portal::{ChunkSend, Portal, RoomEvent, RoomReaction, VideoSend};
use crate::sync_buffer::SyncOutput;
use crate::types::{ActionSubscription, FrameView, Role, VideoFrameData};
use std::sync::Arc;
use vstd::prelude::*;

verus! {

// ---------------------------------------------------------------------------
// Declarations
// ---------------------------------------------------------------------------

/// The tracks of a portal are those of the media path and behind them those
/// of the byte-stream path, each in the order of declaration.
pub proof fn law_tracks_stand_in_order(config: PortalConfig, i: int)
    ensures
        ({
            let names = crate::portal::track_names(config);
            let media = config.video_tracks@;
            let streams = config.frame_video_tracks@;
            &&& names.len() == media.len() + streams.len()
            &&& 0 <= i < media.len() ==> names[i] == media[i].name
            &&& 0 <= i < streams.len() ==> names[media.len() + i] == streams[i].name
        }),
{
}

proof fn lemma_chunk_index(chunks: Seq<ChunkSpec>, name: Seq<char>)
    ensures
        match crate::portal::chunk_index(chunks, name) {
            Some(t) => 0 <= t < chunks.len() && chunks[t].name@ == name && forall|u: int|
                t < u < chunks.len() ==> (#[trigger] chunks[u]).name@ != name,
            None => forall|u: int| 0 <= u < chunks.len() ==> (#[trigger] chunks[u]).name@ != name,
        },
    decreases chunks.len(),
{
    if chunks.len() > 0 && chunks.last().name@ != name {
        let front = chunks.drop_last();
        lemma_chunk_index(front, name);
        match crate::portal::chunk_index(front, name) {
            Some(t) => {
                assert(front[t] == chunks[t]);
                assert forall|u: int| t < u < chunks.len() implies (#[trigger] chunks[u]).name@
                    != name by {
                    if u < chunks.len() - 1 {
                        assert(front[u] == chunks[u]);
                    }
                }
            },
            None => {
                assert forall|u: int| 0 <= u < chunks.len() implies (#[trigger] chunks[u]).name@
                    != name by {
                    if u < chunks.len() - 1 {
                        assert(front[u] == chunks[u]);
                    }
                }
            },
        }
    }
}

/// A chunk is found by its name, and is missing exactly where none has it.
pub proof fn law_chunks_are_found_by_name(chunks: Seq<ChunkSpec>, name: Seq<char>, t: int)
    requires
        0 <= t < chunks.len(),
        chunks[t].name@ == name,
        forall|u: int|
            0 <= u < chunks.len() && u != t ==> (#[trigger] chunks[u]).name@ != name,
    ensures
        crate::portal::chunk_index(chunks, name) == Some(t),
{
    lemma_chunk_index(chunks, name);
    match crate::portal::chunk_index(chunks, name) {
        Some(p) => {
            if p != t {
                assert(chunks[p].name@ != name);
            }
        },
        None => {
            assert(chunks[t].name@ != name);
        },
    }
}

/// A name that no chunk, no track of the media path and no byte-stream track
/// has is found among none of them; a track is found by its name.
pub proof fn law_tracks_are_found_by_name(
    chunks: Seq<ChunkSpec>,
    media: Seq<VideoTrackSpec>,
    streams: Seq<FrameVideoSpec>,
    name: Seq<char>,
    t: int,
)
    ensures
        (forall|u: int| 0 <= u < chunks.len() ==> (#[trigger] chunks[u]).name@ != name)
            <==> crate::portal::chunk_index(chunks, name) is None,
        (forall|u: int| 0 <= u < media.len() ==> (#[trigger] media[u]).name@ != name)
            <==> crate::portal::media_position(media, name) is None,
        (forall|u: int| 0 <= u < streams.len() ==> (#[trigger] streams[u]).name@ != name)
            <==> crate::portal::stream_track_position(streams, name) is None,
        0 <= t < media.len() && media[t].name@ == name && (forall|u: int|
            0 <= u < media.len() && u != t ==> (#[trigger] media[u]).name@ != name)
            ==> crate::portal::media_position(media, name) == Some(t),
        0 <= t < streams.len() && streams[t].name@ == name && (forall|u: int|
            0 <= u < streams.len() && u != t ==> (#[trigger] streams[u]).name@ != name)
            ==> crate::portal::stream_track_position(streams, name) == Some(t),
{
    lemma_chunk_index(chunks, name);
    if crate::portal::chunk_index(chunks, name) is Some {
        assert(chunks[crate::portal::chunk_index(chunks, name)->0].name@ == name);
    }
    let a = media.map_values(|t: VideoTrackSpec| t.name);
    let b = streams.map_values(|t: FrameVideoSpec| t.name);
    assert(forall|u: int| 0 <= u < media.len() ==> #[trigger] a[u] == media[u].name);
    assert(forall|u: int| 0 <= u < streams.len() ==> #[trigger] b[u] == streams[u].name);
    if a.len() > 0 {
        crate::arrival_laws::law_frames_go_by_name(a, name, 0);
    }
    if b.len() > 0 {
        crate::arrival_laws::law_frames_go_by_name(b, name, 0);
    }
    if forall|u: int| 0 <= u < media.len() ==> (#[trigger] media[u]).name@ != name {
        assert forall|u: int| 0 <= u < a.len() implies #[trigger] a[u]@ != name by {
            assert(media[u].name@ != name);
        }
    }
    if forall|u: int| 0 <= u < a.len() ==> #[trigger] a[u]@ != name {
        assert forall|u: int| 0 <= u < media.len() implies (#[trigger] media[u]).name@ != name by {
            assert(a[u]@ != name);
        }
    }
    if forall|u: int| 0 <= u < streams.len() ==> (#[trigger] streams[u]).name@ != name {
        assert forall|u: int| 0 <= u < b.len() implies #[trigger] b[u]@ != name by {
            assert(streams[u].name@ != name);
        }
    }
    if forall|u: int| 0 <= u < b.len() ==> #[trigger] b[u]@ != name {
        assert forall|u: int| 0 <= u < streams.len() implies (#[trigger] streams[u]).name@
            != name by {
            assert(b[u]@ != name);
        }
    }
    if 0 <= t < media.len() && media[t].name@ == name && (forall|u: int|
        0 <= u < media.len() && u != t ==> (#[trigger] media[u]).name@ != name) {
        crate::arrival_laws::law_frames_go_by_name(a, name, t);
        assert(a[t]@ == name);
        assert forall|u: int| t < u < a.len() implies #[trigger] a[u]@ != name by {
            assert(media[u].name@ != name);
        }
    }
    if 0 <= t < streams.len() && streams[t].name@ == name && (forall|u: int|
        0 <= u < streams.len() && u != t ==> (#[trigger] streams[u]).name@ != name) {
        crate::arrival_laws::law_frames_go_by_name(b, name, t);
        assert(b[t]@ == name);
        assert forall|u: int| t < u < b.len() implies #[trigger] b[u]@ != name by {
            assert(streams[u].name@ != name);
        }
    }
}

// ---------------------------------------------------------------------------
// Setting up
// ---------------------------------------------------------------------------

/// A robot that is ready sends video, and states where it declares fields of
/// them; it sends no actions and puts no observations together.
pub proof fn law_a_robot_sends_video_and_states(p: Portal)
    requires
        p.robot_ready(),
    ensures
        p.publishing,
        p.state_publisher is Some <==> p.config.state_schema@.len() > 0,
        p.state_publisher matches Some(s) ==> s@.schema == p.config.state_schema@ && s@.stream
            == DataStream::State,
        p.action_publisher is None && p.chunk_publishers@.len() == 0 && p.sync_buffer is None,
{
}

/// An operator that is ready sends actions where it declares fields of them
/// and every declared chunk; it sends neither video nor states.
pub proof fn law_an_operator_sends_actions_and_chunks(p: Portal)
    requires
        p.operator_ready(),
    ensures
        !p.publishing && p.state_publisher is None,
        p.action_publisher is Some <==> p.config.action_schema@.len() > 0,
        p.action_publisher matches Some(a) ==> a@.schema == p.config.action_schema@ && a@.stream
            == DataStream::Action,
        p.chunk_publishers@.len() == p.config.action_chunks@.len(),
        p.sync_buffer is Some <==> p.config.observation_sync,
{
}

/// An observer that is ready sends nothing at all.
pub proof fn law_an_observer_sends_nothing(p: Portal)
    requires
        p.observer_ready(),
    ensures
        !p.publishing && p.state_publisher is None && p.action_publisher is None
            && p.chunk_publishers@.len() == 0,
        p.sync_buffer is Some <==> p.config.observation_sync,
{
}

/// A side that puts observations together does so for every declared track,
/// each resolved as its own settings say, with the declared state fields and
/// the settings of the buffer, and starts with an empty buffer.
pub proof fn law_observations_are_set_up_as_declared(p: Portal, t: int)
    requires
        p.sync_ready(),
        p.config.observation_sync,
        0 <= t < crate::portal::track_names(p.config).len(),
    ensures
        p.sync_buffer matches Some(b) && {
            &&& b.setup().names == crate::portal::track_names(p.config)
            &&& b.setup().schema == p.config.state_schema@
            &&& b.setup().config == p.config.sync_settings()
            &&& b.setup().stalls.len() == b.setup().names.len()
            &&& b.setup().stalls[t] == p.config.track_stall(
                crate::portal::track_names(p.config)[t]@,
            )
            &&& b@.states.len() == 0 && b@.buffers[t].len() == 0
        },
{
}

/// A robot starts from the control that its own attributes name, every other
/// side from what it knows.
pub proof fn law_robots_read_their_own_attributes(p: Portal, attrs: Map<Seq<char>, String>)
    ensures
        p.config.role == Role::Robot && attrs.contains_key("lk.portal.active_operator"@)
            ==> p.room_at_connect(attrs).active_operator == crate::controller::named_operator(
            attrs,
        ),
        p.config.role != Role::Robot ==> p.room_at_connect(attrs) == p.controller@,
        p.room_at_connect(attrs).operators == p.controller@.operators,
        p.room_at_connect(attrs).observers == p.controller@.observers,
{
}

/// A side that is detached has no identity, sends nothing, holds nothing and
/// knows nobody.
pub proof fn law_a_detached_side_holds_nothing(p: Portal, i: int)
    requires
        p.detached(),
    ensures
        p.local_identity is None && !p.connected && !p.publishing,
        p.state_publisher is None && p.action_publisher is None && p.sync_buffer is None,
        p.chunk_publishers@.len() == 0,
        p.observation is None && p.action.latest is None && p.state.latest is None,
        0 <= i < p.video@.len() ==> p.video@[i].latest is None,
        0 <= i < p.chunk_slots@.len() ==> p.chunk_slots@[i].inner.latest is None,
        p.controller@.active_operator is None && p.controller@.robot_identity is None,
        p.controller@.operators == Set::<Seq<char>>::empty(),
        p.controller@.observers == Set::<Seq<char>>::empty(),
{
}

// ---------------------------------------------------------------------------
// Sending
// ---------------------------------------------------------------------------

/// A frame of the media path is sent exactly where both sides are even and
/// the buffer holds three bytes for every pixel, and counts as one more frame
/// of its track then. Otherwise the error tells the sides, or else the two
/// numbers of bytes, and nothing counts.
pub proof fn law_media_frames_have_even_sides(
    m: MetricsView,
    n: MetricsView,
    name: Seq<char>,
    index: int,
    rgb: Seq<u8>,
    width: u32,
    height: u32,
    ts: u64,
    r: PortalResult<VideoSend>,
)
    requires
        width * height * 3 <= usize::MAX,
        rgb.len() <= usize::MAX,
        crate::portal::media_frame_sent(m, n, name, index, rgb, width, height, ts, r),
    ensures
        r is Ok <==> width % 2 == 0 && height % 2 == 0 && rgb.len() == width * height * 3,
        r is Err ==> n == m,
        r matches Ok(s) ==> (s matches VideoSend::Media { index: i, timestamp_us } && i == index
            && timestamp_us == ts),
        width % 2 == 1 || height % 2 == 1 ==> (
        r matches Err(PortalError::InvalidFrameDimensions { width: w, height: h }) && w == width
            && h == height),
        width % 2 == 0 && height % 2 == 0 && rgb.len() != width * height * 3 ==> (
        r matches Err(PortalError::WrongFrameSize { expected, got }) && expected == width * height
            * 3 && got == rgb.len()),
        r is Ok && m.tracks.contains_key(name) ==> {
            let a: TrackMetrics = m.tracks[name];
            let b: TrackMetrics = n.tracks[name];
            &&& went_up(a.frames_sent, b.frames_sent, 1)
            &&& b == (TrackMetrics { frames_sent: b.frames_sent, ..a })
            &&& n == (MetricsView { tracks: n.tracks, ..m })
            &&& forall|k: Seq<char>|
                k != name ==> (#[trigger] n.tracks.contains_key(k) <==> m.tracks.contains_key(k))
                    && n.tracks[k] == m.tracks[k]
        },
        r is Ok && !m.tracks.contains_key(name) ==> n == m,
{
}

/// A frame of the byte-stream path is sent as a payload for its own track,
/// in the track's codec and quality.
pub proof fn law_stream_frames_are_payloads_of_their_track(
    spec: FrameVideoSpec,
    index: int,
    rgb: Seq<u8>,
    width: u32,
    height: u32,
    ts: u64,
    r: PortalResult<VideoSend>,
)
    requires
        rgb.len() <= usize::MAX,
        crate::portal::stream_frame_built(spec, index, rgb, width, height, ts, r),
    ensures
        r is Ok <==> {
            &&& width <= 65535 && height <= 65535
            &&& vstd::utf8::encode_utf8(spec.name@).len() <= 256
            &&& width > 0 && height > 0 && rgb.len() == width * height * 3
            &&& crate::codec::encoded(rgb, width, height, spec.codec, spec.quality) is Some
        },
        r matches Ok(s) ==> (s matches VideoSend::Stream { index: i, payload } && i == index
            && payload@ == crate::frame_video::frame_header(
            spec.name@,
            spec.codec,
            width,
            height,
            ts,
        ) + crate::codec::encoded(rgb, width, height, spec.codec, spec.quality)->0),
{
    match r {
        Ok(VideoSend::Stream { index: i, payload }) => {
            crate::frame_laws::law_payloads_are_header_and_frame(
                spec.name@,
                spec.codec,
                width,
                height,
                ts,
                rgb,
                spec.quality,
                Ok(payload),
            );
        },
        Ok(VideoSend::Media { .. }) => {},
        Err(e) => {
            crate::frame_laws::law_payloads_are_header_and_frame(
                spec.name@,
                spec.codec,
                width,
                height,
                ts,
                rgb,
                spec.quality,
                Err(e),
            );
        },
    }
}

/// This side is the active operator exactly where it is in the room and has
/// the identity of the one in control.
pub proof fn law_the_active_side_has_the_identity_in_control(p: Portal)
    ensures
        p.self_active() <==> p.local_identity is Some && p.controller@.active_operator is Some
            && p.local_identity->0@ == p.controller@.active_operator->0,
{
}

/// A chunk that is sent is delivered on this side too exactly where this side
/// follows actions and is itself in control: with the given columns cut or
/// filled to the horizon, the given times and this side as the sender.
/// Otherwise no slot changes.
pub proof fn law_own_chunks_are_echoed(
    before: Portal,
    after: Portal,
    i: int,
    data: Map<Seq<char>, Vec<u64>>,
    ts: u64,
    reply: Option<u64>,
    send: ChunkSend,
    name: Seq<char>,
    t: int,
)
    requires
        crate::portal::chunk_prepared(before, after, i, data, ts, reply, send),
        0 <= i < before.chunk_slots@.len(),
        0 <= t < before.config.action_chunks@[i].horizon,
    ensures
        send.timestamp_us == ts,
        send.echoed <==> before.config.action_subscription != ActionSubscription::Off
            && before.local_identity is Some && before.controller@.active_operator is Some
            && before.local_identity->0@ == before.controller@.active_operator->0,
        !send.echoed ==> after.chunk_slots == before.chunk_slots,
        send.echoed ==> after.chunk_slots@.len() == before.chunk_slots@.len()
            && after.chunk_slots@[i].inner.latest is Some && {
            let spec = before.config.action_chunks@[i];
            let c = after.chunk_slots@[i].inner.latest->0;
            &&& c.name@ == spec.name@ && c.horizon == spec.horizon
            &&& c.timestamp_us == ts && c.in_reply_to_ts_us == reply
            &&& c.sender@ == before.local_identity->0@
            &&& c.data@.contains_key(name) <==> exists|k: int|
                0 <= k < spec.fields@.len() && (#[trigger] spec.fields@[k]).name@ == name
            &&& c.data@.contains_key(name) ==> c.data@[name]@.len() == spec.horizon
            &&& c.data@.contains_key(name) && data.contains_key(name) && t < data[name]@.len()
                ==> c.data@[name]@[t] == data[name]@[t]
            &&& c.data@.contains_key(name) && (data.contains_key(name) ==> t
                >= data[name]@.len()) ==> c.data@[name]@[t] == 0
            &&& forall|j: int|
                0 <= j < before.chunk_slots@.len() && j != i ==> #[trigger] after.chunk_slots@[j]
                    == before.chunk_slots@[j]
        },
{
    if send.echoed {
        let spec = before.config.action_chunks@[i];
        let c = after.chunk_slots@[i].inner.latest->0;
        crate::chunk_laws::law_columns_fit_the_horizon(
            spec.fields@,
            spec.horizon as nat,
            data,
            name,
            t,
        );
        let shown = c.data@.map_values(|v: Vec<u64>| v@);
        let fitted = crate::chunks::fitted_columns(
            spec.fields@,
            spec.horizon as nat,
            data,
            spec.fields@.len(),
        );
        assert(shown == fitted);
        assert(shown.contains_key(name) == c.data@.contains_key(name));
        assert(c.data@.contains_key(name) ==> shown[name] == c.data@[name]@);
    }
}

/// A procedure call goes to the participant that is given, else to the one
/// that this side works with, else to the only other one in the room; without
/// a room, with nobody in it, or with several in it, it goes nowhere.
pub proof fn law_calls_go_to_one_participant(
    c: ControllerView,
    role: Role,
    destination: Option<Seq<char>>,
    remotes: Option<Vec<String>>,
)
    ensures
        ({
            let r = crate::portal::rpc_target(c, role, destination, remotes);
            let partner = if role == Role::Robot {
                c.active_operator
            } else {
                c.robot_identity
            };
            &&& destination is Some ==> r == Ok::<Seq<char>, PortalError>(destination->0)
            &&& destination is None && partner is Some ==> r == Ok::<Seq<char>, PortalError>(
                partner->0,
            )
            &&& destination is None && partner is None ==> {
                &&& remotes is None ==> r == Err::<Seq<char>, PortalError>(
                    PortalError::NotConnected,
                )
                &&& remotes is Some && remotes->0@.len() == 0 ==> r == Err::<
                    Seq<char>,
                    PortalError,
                >(PortalError::NoPeer)
                &&& remotes is Some && remotes->0@.len() == 1 ==> r == Ok::<
                    Seq<char>,
                    PortalError,
                >(remotes->0@[0]@)
                &&& remotes is Some && remotes->0@.len() > 1 ==> r == Err::<
                    Seq<char>,
                    PortalError,
                >(PortalError::AmbiguousPeer)
            }
        }),
{
}

// ---------------------------------------------------------------------------
// What happens in the room
// ---------------------------------------------------------------------------

/// A side other than the robot, in the room, receives the video tracks of the
/// media path that it declares, and byte streams of frames where it declares
/// any. The robot, and every side that follows actions, reads chunks. Nothing
/// else is received.
pub proof fn law_sides_receive_what_they_declare(
    p: Portal,
    track: Seq<char>,
    is_video: bool,
    topic: Seq<char>,
)
    ensures
        p.wants_track(track, is_video) <==> {
            &&& p.config.role != Role::Robot
            &&& is_video
            &&& p.local_identity is Some
            &&& !(forall|u: int|
                0 <= u < p.config.video_tracks@.len() ==> (
                #[trigger] p.config.video_tracks@[u]).name@ != track)
        },
        p.stream_reaction(topic) is ReadChunk <==> topic == "portal_action_chunk"@ && (
        p.config.role == Role::Robot || p.config.action_subscription != ActionSubscription::Off),
        p.stream_reaction(topic) is ReadFrame <==> topic == "portal_frame_video"@ && p.config.role
            != Role::Robot && p.config.frame_video_tracks@.len() > 0 && p.local_identity is Some,
        p.stream_reaction(topic) is ReadChunk || p.stream_reaction(topic) is ReadFrame
            || p.stream_reaction(topic) is Nothing,
{
    law_tracks_are_found_by_name(
        Seq::empty(),
        p.config.video_tracks@,
        Seq::empty(),
        track,
        0,
    );
    reveal_strlit("portal_action_chunk");
    reveal_strlit("portal_frame_video");
    assert("portal_action_chunk"@.len() == 19 && "portal_frame_video"@.len() == 18);
}

/// A packet that is no action is always taken in. An action is taken in with
/// a sender alone: at the robot and at a side that follows the active operator
/// where the sender is in control, at a side that follows all in any case. A
/// packet that is not taken in changes nothing.
pub proof fn law_packets_are_taken_in(
    before: Portal,
    after: Portal,
    payload: Seq<u8>,
    topic: Seq<char>,
    sender: Option<Seq<char>>,
    now_us: u64,
    reaction: RoomReaction,
)
    requires
        crate::portal::packet_handled(before, after, payload, topic, sender, now_us, reaction),
    ensures
        ({
            let follows_one = before.config.role == Role::Robot || before.config.action_subscription
                == ActionSubscription::Active;
            let follows_all = before.config.role != Role::Robot
                && before.config.action_subscription == ActionSubscription::All;
            let wanted = sender is Some && (follows_all || (follows_one && sender
                == before.controller@.active_operator));
            &&& reaction is Data <==> topic != "portal_action"@ || wanted
            &&& !(reaction is Data) ==> after == before && reaction is Nothing
            &&& after.config == before.config && after.controller == before.controller
            &&& after.observation == before.observation && after.video == before.video
            &&& after.chunk_slots == before.chunk_slots
        }),
{
}

/// A participant that leaves is forgotten, and the application is told where
/// it was an operator; nothing else changes.
pub proof fn law_leaving_is_told_of_operators(
    before: Portal,
    after: Portal,
    identity: String,
    now_us: u64,
    reaction: RoomReaction,
)
    requires
        crate::portal::event_handled(
            before,
            after,
            RoomEvent::ParticipantDisconnected { identity },
            now_us,
            reaction,
        ),
    ensures
        after == (Portal { controller: after.controller, ..before }),
        !after.controller@.operators.contains(identity@),
        !after.controller@.observers.contains(identity@),
        after.controller@.robot_identity != Some(identity@),
        before.controller@.operators.contains(identity@) ==> (
        reaction matches RoomReaction::Tell(n) && n@ == NoticeView::OperatorLeft(identity@)),
        !before.controller@.operators.contains(identity@) ==> reaction is Nothing,
{
}

/// After a reconnect nothing that was received is left and nobody is known,
/// but the one in control stays in control; what was told stays told, and the
/// settings, the publishers and the counters stay.
pub proof fn law_a_reconnect_starts_over(
    before: Portal,
    after: Portal,
    now_us: u64,
    reaction: RoomReaction,
    i: int,
)
    requires
        crate::portal::event_handled(before, after, RoomEvent::Reconnected, now_us, reaction),
    ensures
        reaction is Nothing,
        after.observation is None && after.action.latest is None && after.state.latest is None,
        0 <= i < after.video@.len() ==> after.video@[i].latest is None,
        0 <= i < after.chunk_slots@.len() ==> after.chunk_slots@[i].inner.latest is None,
        after.action.warned_mismatches == before.action.warned_mismatches,
        after.state.warned_mismatches == before.state.warned_mismatches,
        after.controller@.active_operator == before.controller@.active_operator,
        after.controller@.robot_identity is None,
        after.controller@.operators == Set::<Seq<char>>::empty(),
        after.controller@.observers == Set::<Seq<char>>::empty(),
        after.chunk_slots@.len() == before.chunk_slots@.len(),
        0 <= i < before.chunk_slots@.len() ==> after.chunk_slots@[i].spec
            == before.chunk_slots@[i].spec && after.chunk_slots@[i].fingerprint
            == before.chunk_slots@[i].fingerprint
            && after.chunk_slots@[i].inner.warned_mismatches
            == before.chunk_slots@[i].inner.warned_mismatches,
        after.config == before.config && after.metrics == before.metrics,
        after.state_publisher == before.state_publisher && after.action_publisher
            == before.action_publisher,
        before.sync_buffer is None ==> after.sync_buffer is None,
        before.sync_buffer matches Some(b) ==> (after.sync_buffer matches Some(a) && a.setup()
            == b.setup() && a@.states.len() == 0 && (0 <= i < a@.buffers.len()
            ==> a@.buffers[i].len() == 0)),
{
}

/// What the local participant changes about itself is of no account; any
/// other participant that is seen or changes is known as its role says, and
/// nothing but who is in the room changes.
pub proof fn law_own_attributes_are_of_no_account(
    before: Portal,
    after: Portal,
    p: crate::controller::Participant,
    now_us: u64,
    reaction: RoomReaction,
)
    requires
        crate::portal::event_handled(
            before,
            after,
            RoomEvent::ParticipantAttributesChanged(p),
            now_us,
            reaction,
        ),
    ensures
        before.local_identity is Some && before.local_identity->0@ == p.identity@ ==> after
            == before && reaction is Nothing,
        before.local_identity is None || before.local_identity->0@ != p.identity@ ==> {
            &&& after == (Portal { controller: after.controller, ..before })
            &&& after.controller@ == crate::controller::after_seeing(
                before.controller@,
                before.config.role,
                p.identity@,
                p.attributes@,
            )
            &&& reaction is Nothing || reaction is Tell
        },
{
}

/// A frame is the latest of the declared track that has its name, and of no
/// other.
pub proof fn law_the_latest_frame_is_kept(
    before: Portal,
    after: Portal,
    name: Seq<char>,
    frame: FrameView,
    t: int,
    u: int,
)
    requires
        crate::portal::kept_latest(before, after, name, frame),
        before.video@.len() == before.all_track_names@.len(),
        0 <= t < before.all_track_names@.len(),
        before.all_track_names@[t]@ == name,
        forall|w: int|
            t < w < before.all_track_names@.len() ==> #[trigger] before.all_track_names@[w]@
                != name,
        0 <= u < before.video@.len(),
    ensures
        after.video@.len() == before.video@.len(),
        u == t ==> (after.video@[u].latest matches Some(f) && f@ == frame),
        u != t ==> after.video@[u] == before.video@[u],
{
    crate::arrival_laws::law_frames_go_by_name(before.all_track_names@, name, t);
}

/// A frame is handed to the sync buffer under its track's name; without a
/// buffer, or for a name that no track has, nothing comes of it.
pub proof fn law_frames_are_handed_to_the_buffer(
    before: Portal,
    after: Portal,
    name: Seq<char>,
    frame: Arc<VideoFrameData>,
    output: SyncOutput,
    t: int,
)
    requires
        crate::portal::frame_processed(before, after, name, frame, output),
    ensures
        before.sync_buffer is None ==> after == before && output.observations@.len() == 0
            && output.drops@.len() == 0,
        before.sync_buffer matches Some(b) ==> (after.sync_buffer matches Some(a) && a.setup()
            == b.setup() && (0 <= t < b.setup().names.len() && b.setup().names[t]@ == name && (
        forall|w: int| t < w < b.setup().names.len() ==> #[trigger] b.setup().names[w]@ != name)
            ==> {
            let end = crate::sync_buffer::after_frame(
                b.setup(),
                b@,
                before.metrics@,
                t,
                name,
                frame,
            );
            &&& a@ == end.state
            &&& output.observed() == end.observations
            &&& output.dropped() == end.drops
            &&& after.metrics@ == end.metrics
        })),
        before.sync_buffer matches Some(b) ==> ((forall|w: int|
            0 <= w < b.setup().names.len() ==> #[trigger] b.setup().names[w]@ != name)
            && b.setup().names.len() > 0 ==> after.sync_buffer->0@ == b@ && after.metrics@
            == before.metrics@ && output.observations@.len() == 0 && output.drops@.len() == 0),
{
    match before.sync_buffer {
        Some(b) => {
            if 0 <= t < b.setup().names.len() {
                crate::arrival_laws::law_frames_go_by_name(b.setup().names, name, t);
            }
            if b.setup().names.len() > 0 {
                crate::arrival_laws::law_frames_go_by_name(b.setup().names, name, 0);
            }
        },
        None => {},
    }
}

/// A participant that joins is known as its role says, and nothing but who is
/// in the room changes; the application is told where an operator is new or
/// control changed.
pub proof fn law_joining_is_told(
    before: Portal,
    after: Portal,
    p: crate::controller::Participant,
    now_us: u64,
    reaction: RoomReaction,
)
    requires
        crate::portal::event_handled(
            before,
            after,
            RoomEvent::ParticipantConnected(p),
            now_us,
            reaction,
        ),
    ensures
        after == (Portal { controller: after.controller, ..before }),
        after.controller@ == crate::controller::after_seeing(
            before.controller@,
            before.config.role,
            p.identity@,
            p.attributes@,
        ),
        reaction is Tell || reaction is Nothing,
        reaction is Tell <==> (after.controller@.active_operator
            != before.controller@.active_operator || (after.controller@.operators.contains(
            p.identity@,
        ) && !before.controller@.operators.contains(p.identity@))),
        reaction matches RoomReaction::Tell(n) ==> n@ == NoticeView::OperatorJoined(p.identity@)
            || n@ == NoticeView::ActiveOperatorChanged(after.controller@.active_operator),
{
    crate::room_laws::law_changes_are_told(
        before.controller@,
        before.config.role,
        p.identity@,
        p.attributes@,
    );
}

} // verus!
