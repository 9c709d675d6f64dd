//! The portal: one side of the link between a robot and its operators.
//!
//! The portal decides what is sent and what is done with what arrives. It
//! holds no connection of its own: whoever does hands it what happens in the
//! room and carries out what it answers.
use crate::chunks::{
    accept_chunk, bare_columns, check_claims, fit_columns, route_chunk, ChunkOutcome,
    ChunkPosition, ChunkPublisher, ChunkRoute, ChunkSlot,
};
use crate::config::{ChunkSpec, FieldSpec, PortalConfig};
use crate::controller::{
    gate_action, is_text, role_value, ControllerState, Notice, Participant,
    ACTIVE_OPERATOR_ATTR_KEY, ROLE_ATTR_KEY,
};
use crate::data::{
    build_action, handle_data_received, DataOutcome, DataPublisher, DataSlot, Outgoing,
    ACTION_CHUNK_TOPIC, ACTION_TOPIC,
};
use crate::error::{PortalError, PortalResult};
use crate::frame_video::{
    build_frame_payload, dispatch_frame_payload, FrameFault, FRAME_VIDEO_TOPIC,
};
use crate::metrics::{DataStream, MetricsRegistry, PortalMetrics};
use crate::name_map::NameMap;
use crate::serialization::{action_fingerprint, schema_fingerprint, DecodeError};
use crate::sync_buffer::{find_track, SyncBuffer, SyncOutput};
use crate::text;
use crate::types::{
    Action, ActionChunk, ActionSubscription, ChunkColumn, Observation, Role, State, TypedValue,
    VideoFrameData,
};
use crate::video::{check_frame, VideoTrackSlots};
use bytes::Bytes;
use std::collections::HashSet;
use std::sync::Arc;
use std::time::Duration;
use vstd::prelude::*;

verus! {

/// One side of the link.
#[derive(Debug)]
pub struct Portal {
    pub config: PortalConfig,
    /// Names of the tracks of either transport.
    pub all_track_names: Vec<String>,
    pub metrics: MetricsRegistry,
    pub controller: ControllerState,
    /// The identity in the room; `None` while not connected.
    pub local_identity: Option<String>,
    /// Whether connecting is complete.
    pub connected: bool,
    /// Whether the video tracks can be sent: on a robot in the room.
    pub publishing: bool,
    pub state_publisher: Option<DataPublisher>,
    pub action_publisher: Option<DataPublisher>,
    /// Parallel to the declared chunks, or empty.
    pub chunk_publishers: Vec<ChunkPublisher>,
    pub sync_buffer: Option<SyncBuffer>,
    /// The latest observation.
    pub observation: Option<Observation>,
    pub action: DataSlot<Action>,
    pub state: DataSlot<State>,
    /// Parallel to the declared chunks.
    pub chunk_slots: Vec<ChunkSlot>,
    /// Chunk fingerprints that nothing declares and that were reported.
    pub unknown_chunk_fps: HashSet<u32>,
    /// Parallel to `all_track_names`.
    pub video: Vec<VideoTrackSlots>,
    pub action_schema_fp: u32,
    pub state_schema_fp: u32,
}

/// Names of the tracks of either transport, in the order of declaration, the
/// media path first.
pub open spec fn track_names(config: PortalConfig) -> Seq<String> {
    config.video_tracks@.map_values(|t: crate::config::VideoTrackSpec| t.name)
        + config.frame_video_tracks@.map_values(|t: crate::config::FrameVideoSpec| t.name)
}

/// Whether two chunk declarations say the same.
pub open spec fn same_chunk(a: ChunkSpec, b: ChunkSpec) -> bool {
    a.name@ == b.name@ && a.horizon == b.horizon && a.fields@ == b.fields@
}

/// Position of a declared chunk, by name.
pub open spec fn chunk_index(chunks: Seq<ChunkSpec>, name: Seq<char>) -> Option<int>
    decreases chunks.len(),
{
    if chunks.len() == 0 {
        None
    } else if chunks.last().name@ == name {
        Some(chunks.len() - 1)
    } else {
        chunk_index(chunks.drop_last(), name)
    }
}

fn find_chunk(chunks: &[ChunkSpec], name: &str) -> (t: Option<usize>)
    ensures
        match t {
            Some(i) => i < chunks@.len() && chunk_index(chunks@, name@) == Some(i as int)
                && chunks@[i as int].name@ == name@,
            None => chunk_index(chunks@, name@) is None,
        },
{
    let mut i: usize = chunks.len();
    assert(chunks@.take(i as int) =~= chunks@);
    while i > 0
        invariant
            i <= chunks@.len(),
            chunk_index(chunks@.take(i as int), name@) == chunk_index(chunks@, name@),
        decreases i,
    {
        proof {
            let front = chunks@.take(i as int);
            assert(front.drop_last() =~= chunks@.take(i - 1));
            assert(front.last() == chunks@[i - 1]);
        }
        if text::same(chunks[i - 1].name.as_str(), name) {
            return Some(i - 1);
        }
        i = i - 1;
    }
    assert(chunks@.take(0).len() == 0);
    None
}

/// Names of the tracks of either transport.
fn combined_track_names(config: &PortalConfig) -> (v: Vec<String>)
    ensures
        v@ == track_names(*config),
{
    let mut names: Vec<String> = config.video_track_names();
    let mut streams: Vec<String> = config.frame_video_track_names();
    names.append(&mut streams);
    names
}

impl Portal {
    /// What every operation keeps.
    pub open spec fn wf(self) -> bool {
        &&& self.config.wf()
        &&& self.metrics.wf()
        &&& self.all_track_names@ == track_names(self.config)
        &&& self.video@.len() == self.all_track_names@.len()
        &&& self.connected ==> self.local_identity is Some
        &&& self.publishers_ok()
        &&& self.chunks_ok()
        &&& self.sync_buffer matches Some(b) ==> b.wf()
        &&& self.state_schema_fp == crate::serialization::fingerprint_of(
            self.config.state_schema@,
        )
        &&& self.action_schema_fp == crate::serialization::fingerprint_of(
            self.config.action_schema@,
        ) ^ crate::serialization::ACTION_STREAM_TAG
        &&& self.unknown_chunk_fps@.finite()
    }

    /// Whether the publishers are those of the declared schemas.
    pub open spec fn publishers_ok(self) -> bool {
        &&& self.state_publisher matches Some(p) ==> p.wf() && p@.schema
            == self.config.state_schema@ && p@.stream == DataStream::State
        &&& self.action_publisher matches Some(p) ==> p.wf() && p@.schema
            == self.config.action_schema@ && p@.stream == DataStream::Action
    }

    /// Whether the chunk slots and publishers are those of the declared
    /// chunks.
    pub open spec fn chunks_ok(self) -> bool {
        &&& self.chunk_slots@.len() == self.config.action_chunks@.len()
        &&& forall|i: int|
            0 <= i < self.chunk_slots@.len() ==> same_chunk(
                (#[trigger] self.chunk_slots@[i]).spec,
                self.config.action_chunks@[i],
            )
        &&& self.chunk_publishers@.len() == 0 || self.chunk_publishers@.len()
            == self.config.action_chunks@.len()
        &&& forall|i: int|
            0 <= i < self.chunk_publishers@.len() ==> same_chunk(
                (#[trigger] self.chunk_publishers@[i])@.spec,
                self.config.action_chunks@[i],
            )
    }

    /// Whether nothing has been received since connecting.
    pub open spec fn nothing_received(self) -> bool {
        &&& self.observation is None
        &&& self.action.latest is None
        &&& self.state.latest is None
        &&& forall|i: int|
            0 <= i < self.chunk_slots@.len() ==> (
            #[trigger] self.chunk_slots@[i]).inner.latest is None
        &&& forall|i: int|
            0 <= i < self.video@.len() ==> (#[trigger] self.video@[i]).latest is None
    }

    /// Whether nothing is left of a connection.
    pub open spec fn detached(self) -> bool {
        &&& self.idle()
        &&& self.controller@ == crate::controller::empty_room()
        &&& self.nothing_received()
    }

    /// Nothing is set up to send or receive.
    pub open spec fn idle(self) -> bool {
        &&& self.local_identity is None
        &&& !self.connected
        &&& !self.publishing
        &&& self.state_publisher is None
        &&& self.action_publisher is None
        &&& self.chunk_publishers@.len() == 0
        &&& self.sync_buffer is None
    }

    /// A portal that is not connected. `chunk_fingerprints` are those of the
    /// declared chunks.
    pub fn new(config: PortalConfig, chunk_fingerprints: &[u32]) -> (p: Self)
        requires
            config.wf(),
            chunk_fingerprints@.len() == config.action_chunks@.len(),
        ensures
            p.wf(),
            p.detached(),
            p.config == config,
            p.metrics@ == crate::metrics::fresh_metrics(track_names(config)),
            p.action.warned_mismatches@ == Set::<u32>::empty(),
            p.state.warned_mismatches@ == Set::<u32>::empty(),
            p.unknown_chunk_fps@ == Set::<u32>::empty(),
            forall|i: int|
                0 <= i < p.chunk_slots@.len() ==> (#[trigger] p.chunk_slots@[i]).fingerprint
                    == chunk_fingerprints@[i]
                    && p.chunk_slots@[i].inner.warned_mismatches@ == Set::<u32>::empty(),
    {
        broadcast use vstd::std_specs::hash::group_hash_axioms;

        let all_track_names: Vec<String> = combined_track_names(&config);
        let metrics: MetricsRegistry = MetricsRegistry::new(all_track_names.as_slice());
        let mut video: Vec<VideoTrackSlots> = Vec::new();
        let mut i: usize = 0;
        while i < all_track_names.len()
            invariant
                i <= all_track_names@.len(),
                video@.len() == i,
                forall|j: int| 0 <= j < i ==> (#[trigger] video@[j]).latest is None,
            decreases all_track_names@.len() - i,
        {
            video.push(VideoTrackSlots::new());
            i = i + 1;
        }
        let mut chunk_slots: Vec<ChunkSlot> = Vec::new();
        let mut k: usize = 0;
        while k < config.action_chunks.len()
            invariant
                k <= config.action_chunks@.len(),
                chunk_fingerprints@.len() == config.action_chunks@.len(),
                chunk_slots@.len() == k,
                forall|j: int|
                    0 <= j < k ==> {
                        &&& same_chunk(
                            (#[trigger] chunk_slots@[j]).spec,
                            config.action_chunks@[j],
                        )
                        &&& chunk_slots@[j].fingerprint == chunk_fingerprints@[j]
                        &&& chunk_slots@[j].inner.latest is None
                        &&& chunk_slots@[j].inner.warned_mismatches@ == Set::<u32>::empty()
                    },
            decreases config.action_chunks@.len() - k,
        {
            chunk_slots.push(ChunkSlot::new(config.action_chunks[k].clone(), chunk_fingerprints[k]));
            k = k + 1;
        }
        let action_schema_fp: u32 = action_fingerprint(config.action_schema.as_slice());
        let state_schema_fp: u32 = schema_fingerprint(config.state_schema.as_slice());
        Portal {
            config,
            all_track_names,
            metrics,
            controller: ControllerState::new(),
            local_identity: None,
            connected: false,
            publishing: false,
            state_publisher: None,
            action_publisher: None,
            chunk_publishers: Vec::new(),
            sync_buffer: None,
            observation: None,
            action: DataSlot::new(),
            state: DataSlot::new(),
            chunk_slots,
            unknown_chunk_fps: HashSet::new(),
            video,
            action_schema_fp,
            state_schema_fp,
        }
    }
}

// ---------------------------------------------------------------------------
// Connecting and disconnecting
// ---------------------------------------------------------------------------

impl Portal {
    /// Whether connecting may begin.
    pub fn check_connect(&self) -> (r: PortalResult<()>)
        ensures
            if self.connected {
                r == Err::<(), PortalError>(PortalError::AlreadyConnected)
            } else {
                r is Ok
            },
    {
        if self.connected {
            Err(PortalError::AlreadyConnected)
        } else {
            Ok(())
        }
    }

    /// The attribute by which the others learn this side's role: key and
    /// value.
    pub fn role_attribute(&self) -> (a: (&'static str, &'static str))
        ensures
            a.0@ == ROLE_ATTR_KEY@,
            a.1@ == (match self.config.role {
                Role::Robot => crate::controller::ROLE_VALUE_ROBOT@,
                Role::Operator => crate::controller::ROLE_VALUE_OPERATOR@,
                Role::Observer => crate::controller::ROLE_VALUE_OBSERVER@,
            }),
    {
        (ROLE_ATTR_KEY, role_value(self.config.role))
    }

    /// What is known of the room before its participants are looked at.
    pub open spec fn room_at_connect(self, attributes: Map<Seq<char>, String>)
        -> crate::controller::ControllerView {
        if self.config.role == Role::Robot {
            crate::controller::seeded(self.controller@, attributes)
        } else {
            self.controller@
        }
    }

    /// What a robot sets up to send and receive.
    pub open spec fn robot_ready(self) -> bool {
        &&& self.publishing
        &&& self.sync_buffer is None
        &&& self.action_publisher is None
        &&& self.chunk_publishers@.len() == 0
        &&& match self.state_publisher {
            Some(p) => self.config.state_schema@.len() > 0 && p@
                == crate::data::fresh_publisher(self.config.state_schema@, DataStream::State),
            None => self.config.state_schema@.len() == 0,
        }
    }

    /// Whether observations are put together, as the settings say.
    pub open spec fn sync_ready(self) -> bool {
        if self.config.observation_sync {
            self.sync_buffer matches Some(b) && b@ == crate::sync_buffer::empty_state(
                track_names(self.config).len(),
            ) && b.setup().names == track_names(self.config) && b.setup().schema
                == self.config.state_schema@ && b.setup().config
                == self.config.sync_settings() && b.setup().stalls == Seq::new(
                track_names(self.config).len(),
                |t: int| self.config.track_stall(track_names(self.config)[t]@),
            )
        } else {
            self.sync_buffer is None
        }
    }

    /// What an observer sets up: it receives, and sends nothing.
    pub open spec fn observer_ready(self) -> bool {
        &&& !self.publishing
        &&& self.state_publisher is None
        &&& self.action_publisher is None
        &&& self.chunk_publishers@.len() == 0
        &&& self.sync_ready()
    }

    /// What an operator sets up to send and receive.
    pub open spec fn operator_ready(self) -> bool {
        &&& !self.publishing
        &&& self.state_publisher is None
        &&& self.sync_ready()
        &&& match self.action_publisher {
            Some(p) => self.config.action_schema@.len() > 0 && p@
                == crate::data::fresh_publisher(self.config.action_schema@, DataStream::Action),
            None => self.config.action_schema@.len() == 0,
        }
        &&& self.chunk_publishers@.len() == self.config.action_chunks@.len()
        &&& forall|i: int|
            0 <= i < self.chunk_publishers@.len() ==> {
                &&& (#[trigger] self.chunk_publishers@[i])@.warned_saturated
                    == Set::<usize>::empty()
                &&& self.chunk_publishers@[i]@.warned_unknown_keys == Set::<Seq<char>>::empty()
            }
    }

    /// Enters the room: reads its own attributes and those of everyone in it,
    /// and sets up what this side sends and receives. Returns what the
    /// application is told.
    pub fn connect(
        &mut self,
        local_identity: String,
        attributes: &NameMap<String>,
        remotes: &[Participant],
    ) -> (notices: Vec<Notice>)
        requires
            old(self).wf(),
            old(self).idle(),
        ensures
            final(self).wf(),
            *final(self) == (Portal {
                controller: final(self).controller,
                local_identity: Some(local_identity),
                publishing: final(self).publishing,
                state_publisher: final(self).state_publisher,
                action_publisher: final(self).action_publisher,
                chunk_publishers: final(self).chunk_publishers,
                sync_buffer: final(self).sync_buffer,
                ..*old(self)
            }),
            ({
                let room = old(self).room_at_connect(attributes@);
                let role = old(self).config.role;
                &&& final(self).controller@ == crate::controller::after_seeing_all(
                    room,
                    role,
                    remotes@,
                )
                &&& notices@.map_values(|n: Notice| n@)
                    == crate::controller::told_on_seeing_all(room, role, remotes@)
                &&& match role {
                    Role::Robot => final(self).robot_ready(),
                    Role::Operator => final(self).operator_ready(),
                    Role::Observer => final(self).observer_ready(),
                }
            }),
    {
        self.local_identity = Some(local_identity);
        let role: Role = self.config.role;
        if role == Role::Robot {
            self.controller.seed_active(attributes);
        }
        let notices: Vec<Notice> = self.controller.classify_all(role, remotes);
        match role {
            Role::Robot => {
                self.setup_robot();
            },
            Role::Operator => {
                self.setup_sync();
                self.setup_operator();
            },
            Role::Observer => {
                self.setup_sync();
            },
        }
        notices
    }

    /// Sets up what a robot sends.
    fn setup_robot(&mut self)
        requires
            old(self).wf(),
            old(self).state_publisher is None,
            old(self).action_publisher is None,
            old(self).chunk_publishers@.len() == 0,
            old(self).sync_buffer is None,
        ensures
            final(self).wf(),
            final(self).robot_ready(),
            *final(self) == (Portal {
                publishing: true,
                state_publisher: final(self).state_publisher,
                ..*old(self)
            }),
    {
        self.publishing = true;
        if self.config.state_schema.len() > 0 {
            self.state_publisher = Some(
                DataPublisher::new(self.config.state_schema.as_slice(), DataStream::State),
            );
        }
    }

    /// Sets up the sync of observations, where it is on.
    fn setup_sync(&mut self)
        requires
            old(self).wf(),
            old(self).sync_buffer is None,
        ensures
            final(self).wf(),
            final(self).sync_ready(),
            *final(self) == (Portal { sync_buffer: final(self).sync_buffer, ..*old(self) }),
    {
        if !self.config.observation_sync {
            return;
        }
        let schema: Vec<FieldSpec> = copy_schema(self.config.state_schema.as_slice());
        self.sync_buffer = Some(
            SyncBuffer::with_stalls(
                self.all_track_names.as_slice(),
                schema,
                self.config.sync_config(),
                self.config.stall_configs(self.all_track_names.as_slice()),
            ),
        );
    }

    /// Sets up what an operator sends.
    fn setup_operator(&mut self)
        requires
            old(self).wf(),
            old(self).sync_ready(),
            !old(self).publishing,
            old(self).state_publisher is None,
            old(self).action_publisher is None,
            old(self).chunk_publishers@.len() == 0,
        ensures
            final(self).wf(),
            final(self).operator_ready(),
            *final(self) == (Portal {
                action_publisher: final(self).action_publisher,
                chunk_publishers: final(self).chunk_publishers,
                ..*old(self)
            }),
    {
        if self.config.action_schema.len() > 0 {
            self.action_publisher = Some(
                DataPublisher::new(self.config.action_schema.as_slice(), DataStream::Action),
            );
        }
        self.chunk_publishers = new_chunk_publishers(self.config.action_chunks.as_slice());
    }

    /// Completes connecting.
    pub fn commit_connect(&mut self)
        requires
            old(self).wf(),
            old(self).local_identity is Some,
        ensures
            final(self).wf(),
            *final(self) == (Portal { connected: true, ..*old(self) }),
    {
        self.connected = true;
    }

    /// Forgets every latest record.
    fn forget_received(&mut self)
        requires
            old(self).wf(),
        ensures
            final(self).wf(),
            final(self).nothing_received(),
            *final(self) == (Portal {
                observation: None,
                action: final(self).action,
                state: final(self).state,
                chunk_slots: final(self).chunk_slots,
                video: final(self).video,
                ..*old(self)
            }),
            only_latest_forgotten(*old(self), *final(self)),
    {
        self.observation = None;
        self.action.clear();
        self.state.clear();
        clear_chunk_slots(&mut self.chunk_slots);
        clear_video(&mut self.video);
    }

    /// Leaves the room: nothing of the connection is kept. Counters, and what
    /// was reported already, are.
    pub fn disconnect(&mut self)
        requires
            old(self).wf(),
        ensures
            final(self).wf(),
            final(self).detached(),
            final(self).config == old(self).config,
            final(self).metrics == old(self).metrics,
            final(self).unknown_chunk_fps == old(self).unknown_chunk_fps,
            only_latest_forgotten(*old(self), *final(self)),
    {
        self.connected = false;
        self.publishing = false;
        self.local_identity = None;
        self.controller.clear();
        self.state_publisher = None;
        self.action_publisher = None;
        self.chunk_publishers = Vec::new();
        self.sync_buffer = None;
        self.forget_received();
    }

    /// Undoes what was set up by a connect that failed half-way, as if it had
    /// never begun.
    pub fn rollback_partial_connect(&mut self)
        requires
            old(self).wf(),
            !old(self).connected,
        ensures
            final(self).wf(),
            final(self).detached(),
            final(self).config == old(self).config,
            final(self).metrics == old(self).metrics,
            final(self).unknown_chunk_fps == old(self).unknown_chunk_fps,
            only_latest_forgotten(*old(self), *final(self)),
    {
        self.disconnect();
    }
}

/// Whether the slots of a portal lost their latest record and nothing else.
pub open spec fn only_latest_forgotten(before: Portal, after: Portal) -> bool {
    &&& after.action.warned_mismatches == before.action.warned_mismatches
    &&& after.state.warned_mismatches == before.state.warned_mismatches
    &&& after.chunk_slots@.len() == before.chunk_slots@.len()
    &&& forall|i: int|
        0 <= i < before.chunk_slots@.len() ==> {
            &&& (#[trigger] after.chunk_slots@[i]).spec == before.chunk_slots@[i].spec
            &&& after.chunk_slots@[i].fingerprint == before.chunk_slots@[i].fingerprint
            &&& after.chunk_slots@[i].inner.warned_mismatches
                == before.chunk_slots@[i].inner.warned_mismatches
        }
}

fn clear_chunk_slots(slots: &mut Vec<ChunkSlot>)
    ensures
        final(slots)@.len() == old(slots)@.len(),
        forall|i: int|
            0 <= i < old(slots)@.len() ==> {
                &&& (#[trigger] final(slots)@[i]).inner.latest is None
                &&& final(slots)@[i].spec == old(slots)@[i].spec
                &&& final(slots)@[i].fingerprint == old(slots)@[i].fingerprint
                &&& final(slots)@[i].inner.warned_mismatches
                    == old(slots)@[i].inner.warned_mismatches
            },
{
    let mut i: usize = 0;
    while i < slots.len()
        invariant
            i <= slots@.len() == old(slots)@.len(),
            forall|j: int|
                0 <= j < i ==> {
                    &&& (#[trigger] slots@[j]).inner.latest is None
                    &&& slots@[j].spec == old(slots)@[j].spec
                    &&& slots@[j].fingerprint == old(slots)@[j].fingerprint
                    &&& slots@[j].inner.warned_mismatches == old(slots)@[j].inner.warned_mismatches
                },
            forall|j: int| i <= j < slots@.len() ==> #[trigger] slots@[j] == old(slots)@[j],
        decreases slots@.len() - i,
    {
        slots[i].clear();
        i = i + 1;
    }
}

fn clear_video(slots: &mut Vec<VideoTrackSlots>)
    ensures
        final(slots)@.len() == old(slots)@.len(),
        forall|i: int|
            0 <= i < old(slots)@.len() ==> (#[trigger] final(slots)@[i]).latest is None,
{
    let mut i: usize = 0;
    while i < slots.len()
        invariant
            i <= slots@.len() == old(slots)@.len(),
            forall|j: int| 0 <= j < i ==> (#[trigger] slots@[j]).latest is None,
        decreases slots@.len() - i,
    {
        slots[i].clear();
        i = i + 1;
    }
}

fn copy_schema(schema: &[FieldSpec]) -> (c: Vec<FieldSpec>)
    ensures
        c@ == schema@,
{
    let mut c: Vec<FieldSpec> = Vec::new();
    let mut i: usize = 0;
    while i < schema.len()
        invariant
            i <= schema@.len(),
            c@ == schema@.take(i as int),
        decreases schema@.len() - i,
    {
        c.push(schema[i].clone());
        i = i + 1;
        assert(c@ =~= schema@.take(i as int));
    }
    assert(schema@.take(i as int) =~= schema@);
    c
}

fn new_chunk_publishers(chunks: &[ChunkSpec]) -> (v: Vec<ChunkPublisher>)
    ensures
        v@.len() == chunks@.len(),
        forall|i: int|
            0 <= i < chunks@.len() ==> {
                &&& same_chunk((#[trigger] v@[i])@.spec, chunks@[i])
                &&& v@[i]@.warned_saturated == Set::<usize>::empty()
                &&& v@[i]@.warned_unknown_keys == Set::<Seq<char>>::empty()
            },
{
    let mut v: Vec<ChunkPublisher> = Vec::new();
    let mut i: usize = 0;
    while i < chunks.len()
        invariant
            i <= chunks@.len(),
            v@.len() == i,
            forall|j: int|
                0 <= j < i ==> {
                    &&& same_chunk((#[trigger] v@[j])@.spec, chunks@[j])
                    &&& v@[j]@.warned_saturated == Set::<usize>::empty()
                    &&& v@[j]@.warned_unknown_keys == Set::<Seq<char>>::empty()
                },
        decreases chunks@.len() - i,
    {
        v.push(ChunkPublisher::new(chunks[i].clone()));
        i = i + 1;
    }
    v
}

// ---------------------------------------------------------------------------
// Sending
// ---------------------------------------------------------------------------

/// The way that the frames of a track are sent.
#[derive(Debug, Clone, Copy, PartialEq, Eq, Structural)]
pub enum VideoRoute {
    /// By the media path.
    Media(usize),
    /// By byte streams.
    Stream(usize),
}

/// Position of a track of the media path, by name.
pub open spec fn media_position(
    tracks: Seq<crate::config::VideoTrackSpec>,
    name: Seq<char>,
) -> Option<int> {
    crate::sync_buffer::track_position(
        tracks.map_values(|t: crate::config::VideoTrackSpec| t.name),
        name,
    )
}

/// Position of a byte-stream track, by name.
pub open spec fn stream_track_position(
    tracks: Seq<crate::config::FrameVideoSpec>,
    name: Seq<char>,
) -> Option<int> {
    crate::sync_buffer::track_position(
        tracks.map_values(|t: crate::config::FrameVideoSpec| t.name),
        name,
    )
}

/// A frame that is ready to be sent.
#[derive(Debug)]
pub enum VideoSend {
    /// By the media path: the track's position and the frame's timestamp.
    Media { index: usize, timestamp_us: u64 },
    /// By a byte stream: the track's position and the payload.
    Stream { index: usize, payload: Vec<u8> },
}

/// What comes of a frame of the media path: it is counted when it fits.
pub open spec fn media_frame_sent(
    before: crate::metrics::MetricsView,
    after: crate::metrics::MetricsView,
    track_name: Seq<char>,
    index: int,
    rgb: Seq<u8>,
    width: u32,
    height: u32,
    timestamp_us: u64,
    r: PortalResult<VideoSend>,
) -> bool {
    if width % 2 != 0 || height % 2 != 0 {
        &&& r == Err::<VideoSend, PortalError>(
            PortalError::InvalidFrameDimensions { width, height },
        )
        &&& after == before
    } else if rgb.len() != width * height * 3 {
        &&& r == Err::<VideoSend, PortalError>(
            PortalError::WrongFrameSize {
                expected: (width * height * 3) as usize,
                got: rgb.len() as usize,
            },
        )
        &&& after == before
    } else {
        &&& r matches Ok(VideoSend::Media { index: i, timestamp_us: ts }) && i == index && ts
            == timestamp_us
        &&& after == (if before.tracks.contains_key(track_name) {
            let t = before.tracks[track_name];
            crate::metrics::MetricsView {
                tracks: before.tracks.insert(
                    track_name,
                    crate::metrics::TrackMetrics {
                        frames_sent: crate::metrics::bumped(t.frames_sent, 1),
                        ..t
                    },
                ),
                ..before
            }
        } else {
            before
        })
    }
}

/// What comes of a frame of the byte-stream path: its payload.
pub open spec fn stream_frame_built(
    spec: crate::config::FrameVideoSpec,
    index: int,
    rgb: Seq<u8>,
    width: u32,
    height: u32,
    timestamp_us: u64,
    r: PortalResult<VideoSend>,
) -> bool {
    match r {
        Ok(VideoSend::Stream { index: i, payload }) => i == index
            && crate::frame_video::payload_built(
            spec.name@,
            spec.codec,
            width,
            height,
            timestamp_us,
            rgb,
            spec.quality,
            Ok(payload),
        ),
        Ok(VideoSend::Media { .. }) => false,
        Err(e) => crate::frame_video::payload_built(
            spec.name@,
            spec.codec,
            width,
            height,
            timestamp_us,
            rgb,
            spec.quality,
            Err(e),
        ),
    }
}

/// An action that is ready to be sent.
#[derive(Debug)]
pub struct ActionSend {
    pub packet: Outgoing,
    /// Whether the action was delivered on this side too.
    pub echoed: bool,
}

/// A chunk that is ready to be encoded and sent.
#[derive(Debug)]
pub struct ChunkSend {
    /// Position of the chunk among the declared ones.
    pub index: usize,
    pub timestamp_us: u64,
    /// Given names that the chunk does not declare, each told once.
    pub unknown_fields: Vec<String>,
    /// Whether the chunk was delivered on this side too.
    pub echoed: bool,
}

impl Portal {
    /// The way that the frames of a track are sent. Only a robot in the room
    /// sends video.
    pub fn video_route(&self, track_name: &str) -> (r: PortalResult<VideoRoute>)
        requires
            self.wf(),
        ensures
            ({
                let media = media_position(self.config.video_tracks@, track_name@);
                let stream = stream_track_position(self.config.frame_video_tracks@, track_name@);
                if self.publishing && media is Some {
                    r matches Ok(VideoRoute::Media(i)) && media == Some(i as int) && i
                        < self.config.video_tracks@.len()
                } else if self.publishing && stream is Some {
                    r matches Ok(VideoRoute::Stream(i)) && stream == Some(i as int) && i
                        < self.config.frame_video_tracks@.len()
                } else if self.config.role != Role::Robot && (media is Some || stream is Some) {
                    r == Err::<VideoRoute, PortalError>(PortalError::WrongRole(self.config.role))
                } else {
                    r matches Err(PortalError::UnknownVideoTrack { name }) && name@ == track_name@
                }
            }),
    {
        let media_names: Vec<String> = self.config.video_track_names();
        let stream_names: Vec<String> = self.config.frame_video_track_names();
        let media: Option<usize> = find_track(media_names.as_slice(), track_name);
        let stream: Option<usize> = find_track(stream_names.as_slice(), track_name);
        if self.publishing {
            match media {
                Some(i) => {
                    return Ok(VideoRoute::Media(i));
                },
                None => {},
            }
            match stream {
                Some(i) => {
                    return Ok(VideoRoute::Stream(i));
                },
                None => {},
            }
        }
        if self.config.role != Role::Robot && (media.is_some() || stream.is_some()) {
            return Err(PortalError::WrongRole(self.config.role));
        }
        Err(PortalError::UnknownVideoTrack { name: track_name.to_owned() })
    }

    /// Prepares a frame of a track. A frame of the media path must have even
    /// dimensions and is handed over as it is; one of the byte-stream path is
    /// encoded.
    pub fn send_video_frame(
        &mut self,
        track_name: &str,
        rgb: &[u8],
        width: u32,
        height: u32,
        timestamp_us: Option<u64>,
        now_us: u64,
    ) -> (r: PortalResult<VideoSend>)
        requires
            old(self).wf(),
            old(self).publishing && media_position(
                old(self).config.video_tracks@,
                track_name@,
            ) is Some && width % 2 == 0 && height % 2 == 0 ==> width * height * 3 <= u32::MAX,
        ensures
            final(self).wf(),
            *final(self) == (Portal { metrics: final(self).metrics, ..*old(self) }),
            ({
                let media = media_position(old(self).config.video_tracks@, track_name@);
                let stream = stream_track_position(
                    old(self).config.frame_video_tracks@,
                    track_name@,
                );
                let ts = match timestamp_us {
                    Some(ts) => ts,
                    None => now_us,
                };
                if old(self).publishing && media is Some {
                    media_frame_sent(
                        old(self).metrics@,
                        final(self).metrics@,
                        track_name@,
                        media->0,
                        rgb@,
                        width,
                        height,
                        ts,
                        r,
                    )
                } else {
                    &&& final(self).metrics == old(self).metrics
                    &&& if old(self).publishing && stream is Some {
                        stream_frame_built(
                            old(self).config.frame_video_tracks@[stream->0],
                            stream->0,
                            rgb@,
                            width,
                            height,
                            ts,
                            r,
                        )
                    } else if old(self).config.role != Role::Robot && (media is Some
                        || stream is Some) {
                        r == Err::<VideoSend, PortalError>(
                            PortalError::WrongRole(old(self).config.role),
                        )
                    } else {
                        r matches Err(PortalError::UnknownVideoTrack { name }) && name@
                            == track_name@
                    }
                }
            }),
    {
        let ts: u64 = timestamp_us.unwrap_or(now_us);
        match self.video_route(track_name) {
            Err(e) => Err(e),
            Ok(VideoRoute::Media(index)) => {
                match check_frame(rgb, width, height) {
                    Ok(_) => {},
                    Err(e) => {
                        return Err(e);
                    },
                }
                match self.metrics.track(track_name) {
                    Some(counters) => {
                        let mut counters = counters;
                        counters.record_sent();
                        self.metrics.set_track(track_name, counters);
                    },
                    None => {},
                }
                Ok(VideoSend::Media { index, timestamp_us: ts })
            },
            Ok(VideoRoute::Stream(index)) => {
                let spec: &crate::config::FrameVideoSpec = &self.config.frame_video_tracks[index];
                match build_frame_payload(
                    spec.name.as_str(),
                    spec.codec,
                    width,
                    height,
                    ts,
                    rgb,
                    spec.quality,
                ) {
                    Ok(payload) => Ok(VideoSend::Stream { index, payload }),
                    Err(e) => Err(e),
                }
            },
        }
    }

    /// The packet of a state. Only a robot in the room sends states.
    pub fn send_state(
        &mut self,
        values: &NameMap<TypedValue>,
        timestamp_us: Option<u64>,
        now_us: u64,
    ) -> (r: PortalResult<Outgoing>)
        requires
            old(self).wf(),
        ensures
            final(self).wf(),
            *final(self) == (Portal {
                state_publisher: final(self).state_publisher,
                ..*old(self)
            }),
            match old(self).state_publisher {
                None => r == Err::<Outgoing, PortalError>(PortalError::WrongRole(Role::Operator))
                    && final(self).state_publisher is None,
                Some(p) => final(self).state_publisher matches Some(q) && match r {
                    Err(e) => q@ == p@ && crate::data::names_first_mismatch(
                        e,
                        p@.schema,
                        values@,
                    ),
                    Ok(out) => crate::data::types_agree(p@.schema, values@)
                        && crate::data::sent_from(p@, q@, values@, None, out)
                        && out.timestamp_us == (match timestamp_us {
                        Some(ts) => ts,
                        None => now_us,
                    }),
                },
            },
    {
        match &mut self.state_publisher {
            None => Err(PortalError::WrongRole(Role::Operator)),
            Some(publisher) => publisher.send_map(values, timestamp_us, now_us, None),
        }
    }

    /// Whether this side is the operator in control.
    pub open spec fn self_active(self) -> bool {
        self.local_identity is Some && crate::controller::opt_text(self.local_identity)
            == self.controller@.active_operator
    }

    /// Whether this side is the operator in control.
    pub fn is_self_active(&self) -> (b: bool)
        ensures
            b == self.self_active(),
    {
        self.controller.is_active(&self.local_identity)
    }

    /// The packet of an action. Only an operator in the room sends actions.
    /// Where this side subscribed to actions and is in control, the action is
    /// delivered here too, with the values that the robot will read.
    pub fn send_action(
        &mut self,
        values: &NameMap<TypedValue>,
        timestamp_us: Option<u64>,
        now_us: u64,
        in_reply_to_ts_us: Option<u64>,
    ) -> (r: PortalResult<ActionSend>)
        requires
            old(self).wf(),
        ensures
            final(self).wf(),
            *final(self) == (Portal {
                action_publisher: final(self).action_publisher,
                action: final(self).action,
                ..*old(self)
            }),
            final(self).action.warned_mismatches == old(self).action.warned_mismatches,
            match old(self).action_publisher {
                None => r == Err::<ActionSend, PortalError>(PortalError::WrongRole(Role::Robot))
                    && *final(self) == *old(self),
                Some(p) => final(self).action_publisher matches Some(q) && match r {
                    Err(e) => {
                        &&& q@ == p@
                        &&& final(self).action == old(self).action
                        &&& crate::data::names_first_mismatch(e, p@.schema, values@)
                    },
                    Ok(send) => {
                        &&& crate::data::types_agree(p@.schema, values@)
                        &&& crate::data::sent_from(
                            p@,
                            q@,
                            values@,
                            in_reply_to_ts_us,
                            send.packet,
                        )
                        &&& send.packet.timestamp_us == (match timestamp_us {
                            Some(ts) => ts,
                            None => now_us,
                        })
                        &&& send.echoed == (old(self).config.action_subscription
                            != ActionSubscription::Off && old(self).self_active())
                        &&& if send.echoed {
                            final(self).action.latest matches Some(a) && crate::data::is_action(
                                a,
                                send.packet.timestamp_us,
                                in_reply_to_ts_us,
                                p@.schema,
                                send.packet.wire_values@,
                                old(self).local_identity->0@,
                                true,
                            )
                        } else {
                            final(self).action == old(self).action
                        }
                    },
                },
            },
    {
        let echo: bool = self.config.action_subscription() && self.is_self_active();
        let packet: Outgoing = match &mut self.action_publisher {
            None => {
                return Err(PortalError::WrongRole(Role::Robot));
            },
            Some(publisher) => match publisher.send_map(
                values,
                timestamp_us,
                now_us,
                in_reply_to_ts_us,
            ) {
                Ok(out) => out,
                Err(e) => {
                    return Err(e);
                },
            },
        };
        if !echo {
            return Ok(ActionSend { packet, echoed: false });
        }
        match &self.local_identity {
            Some(id) => {
                let action: Action = build_action(
                    packet.timestamp_us,
                    in_reply_to_ts_us,
                    self.config.action_schema.as_slice(),
                    packet.wire_values.as_slice(),
                    id.clone(),
                    true,
                );
                self.action.deliver(action);
            },
            None => {},
        }
        Ok(ActionSend { packet, echoed: true })
    }

    /// Prepares a chunk. Only an operator in the room sends chunks. Where
    /// this side subscribed to actions and is in control, the chunk is
    /// delivered here too, its columns cut or filled up to the horizon.
    pub fn send_action_chunk(
        &mut self,
        chunk_name: &str,
        data: &NameMap<Vec<u64>>,
        timestamp_us: Option<u64>,
        now_us: u64,
        in_reply_to_ts_us: Option<u64>,
    ) -> (r: PortalResult<ChunkSend>)
        requires
            old(self).wf(),
        ensures
            final(self).wf(),
            *final(self) == (Portal {
                chunk_publishers: final(self).chunk_publishers,
                chunk_slots: final(self).chunk_slots,
                ..*old(self)
            }),
            ({
                let found = chunk_index(old(self).config.action_chunks@, chunk_name@);
                if found is Some && old(self).chunk_publishers@.len() > 0 {
                    let i = found->0;
                    &&& r matches Ok(send) && send.index == i && chunk_prepared(
                        *old(self),
                        *final(self),
                        i,
                        data@,
                        match timestamp_us {
                            Some(ts) => ts,
                            None => now_us,
                        },
                        in_reply_to_ts_us,
                        send,
                    )
                } else {
                    &&& *final(self) == *old(self)
                    &&& if old(self).config.role != Role::Operator {
                        r == Err::<ChunkSend, PortalError>(PortalError::WrongRole(Role::Robot))
                    } else if found is None {
                        r matches Err(PortalError::UnknownChunk { name }) && name@ == chunk_name@
                    } else {
                        r == Err::<ChunkSend, PortalError>(PortalError::NotConnected)
                    }
                }
            }),
    {
        let found: Option<usize> = find_chunk(self.config.action_chunks.as_slice(), chunk_name);
        if found.is_none() || self.chunk_publishers.len() == 0 {
            let e: PortalError = if self.config.role != Role::Operator {
                PortalError::WrongRole(Role::Robot)
            } else if found.is_none() {
                PortalError::UnknownChunk { name: chunk_name.to_owned() }
            } else {
                PortalError::NotConnected
            };
            return Err(e);
        }
        let index: usize = found.unwrap();
        let ts: u64 = timestamp_us.unwrap_or(now_us);
        let unknown_fields: Vec<String> = self.chunk_publishers[index].warn_unknown_keys(data);
        let echoed: bool = self.config.action_subscription() && self.is_self_active();
        if echoed {
            match &self.local_identity {
                Some(id) => {
                    let spec: &ChunkSpec = &self.config.action_chunks[index];
                    let chunk = ActionChunk {
                        name: spec.name.clone(),
                        horizon: spec.horizon,
                        data: fit_columns(spec, data),
                        timestamp_us: ts,
                        in_reply_to_ts_us,
                        sender: id.clone(),
                    };
                    self.chunk_slots[index].deliver(chunk);
                },
                None => {},
            }
        }
        Ok(ChunkSend { index, timestamp_us: ts, unknown_fields, echoed })
    }

    /// Prepares a chunk whose columns claim their types. A claim of another
    /// type than the declared one is refused; otherwise the chunk is prepared
    /// from the bare values.
    pub fn send_action_columns(
        &mut self,
        chunk_name: &str,
        data: &NameMap<ChunkColumn>,
        timestamp_us: Option<u64>,
        now_us: u64,
        in_reply_to_ts_us: Option<u64>,
    ) -> (r: PortalResult<ChunkSend>)
        requires
            old(self).wf(),
        ensures
            final(self).wf(),
            *final(self) == (Portal {
                chunk_publishers: final(self).chunk_publishers,
                chunk_slots: final(self).chunk_slots,
                ..*old(self)
            }),
            ({
                let found = chunk_index(old(self).config.action_chunks@, chunk_name@);
                let i = found->0;
                let fields = old(self).config.action_chunks@[i].fields@;
                if found is Some && old(self).chunk_publishers@.len() > 0 {
                    if crate::chunks::claims_agree(fields, data@) {
                        &&& r matches Ok(send) && send.index == i && exists|
                            bare: Map<Seq<char>, Vec<u64>>,
                        | #[trigger]
                            crate::chunks::values_of_columns(bare, data@) && chunk_prepared(
                                *old(self),
                                *final(self),
                                i,
                                bare,
                                match timestamp_us {
                                    Some(ts) => ts,
                                    None => now_us,
                                },
                                in_reply_to_ts_us,
                                send,
                            )
                    } else {
                        &&& *final(self) == *old(self)
                        &&& r matches Err(e) && crate::chunks::names_first_false_claim(
                            e,
                            fields,
                            data@,
                        )
                    }
                } else {
                    &&& *final(self) == *old(self)
                    &&& if old(self).config.role != Role::Operator {
                        r == Err::<ChunkSend, PortalError>(PortalError::WrongRole(Role::Robot))
                    } else if found is None {
                        r matches Err(PortalError::UnknownChunk { name }) && name@ == chunk_name@
                    } else {
                        r == Err::<ChunkSend, PortalError>(PortalError::NotConnected)
                    }
                }
            }),
    {
        if self.chunk_publishers.len() > 0 {
            match find_chunk(self.config.action_chunks.as_slice(), chunk_name) {
                Some(index) => match check_claims(
                    self.config.action_chunks[index].fields.as_slice(),
                    data,
                ) {
                    Ok(_) => {},
                    Err(e) => {
                        return Err(e);
                    },
                },
                None => {},
            }
        }
        let bare: NameMap<Vec<u64>> = bare_columns(data);
        self.send_action_chunk(chunk_name, &bare, timestamp_us, now_us, in_reply_to_ts_us)
    }

    /// The values of a chunk that their types could not carry, each told
    /// once.
    pub fn chunk_saturated(&mut self, index: usize, indices: &[usize]) -> (fresh: Vec<
        ChunkPosition,
    >)
        requires
            old(self).wf(),
            index < old(self).chunk_publishers@.len(),
            indices@.len() > 0 ==> old(self).config.action_chunks@[index as int].fields@.len() > 0,
        ensures
            final(self).wf(),
            *final(self) == (Portal {
                chunk_publishers: final(self).chunk_publishers,
                ..*old(self)
            }),
            ({
                let before = old(self).chunk_publishers@[index as int]@;
                &&& final(self).chunk_publishers@ == old(self).chunk_publishers@.update(
                    index as int,
                    final(self).chunk_publishers@[index as int],
                )
                &&& final(self).chunk_publishers@[index as int]@ == (
                crate::chunks::ChunkPublisherView {
                    warned_saturated: crate::data::reported_after(
                        indices@,
                        before.warned_saturated,
                    ),
                    ..before
                })
                &&& fresh@ == crate::data::newly_reported(
                    indices@,
                    before.warned_saturated,
                ).map_values(
                    |i: usize| crate::chunks::chunk_position(i, before.spec.fields@.len()),
                )
            }),
    {
        let fresh: Vec<ChunkPosition> = self.chunk_publishers[index].warn_saturated(indices);
        assert(self.chunk_publishers@ =~= old(self).chunk_publishers@.update(
            index as int,
            self.chunk_publishers@[index as int],
        ));
        fresh
    }
}

/// What comes of a chunk that is prepared.
pub open spec fn chunk_prepared(
    before: Portal,
    after: Portal,
    i: int,
    data: Map<Seq<char>, Vec<u64>>,
    timestamp_us: u64,
    in_reply_to_ts_us: Option<u64>,
    send: ChunkSend,
) -> bool {
    let p = before.chunk_publishers@[i]@;
    let spec = before.config.action_chunks@[i];
    let unknown = crate::name_set::names_in(send.unknown_fields@);
    &&& send.timestamp_us == timestamp_us
    &&& forall|n: Seq<char>| #[trigger]
        unknown.contains(n) <==> crate::data::newly_unknown(
            spec.fields@,
            data,
            p.warned_unknown_keys,
            n,
        )
    &&& forall|a: int, b: int|
        0 <= a < b < send.unknown_fields@.len() ==> #[trigger] send.unknown_fields@[a]@
            != #[trigger] send.unknown_fields@[b]@
    &&& after.chunk_publishers@ == before.chunk_publishers@.update(i, after.chunk_publishers@[i])
    &&& after.chunk_publishers@[i]@ == (crate::chunks::ChunkPublisherView {
        warned_unknown_keys: p.warned_unknown_keys.union(unknown),
        ..p
    })
    &&& send.echoed == (before.config.action_subscription != ActionSubscription::Off
        && before.self_active())
    &&& if send.echoed {
        let slot = after.chunk_slots@[i];
        &&& after.chunk_slots@ == before.chunk_slots@.update(i, slot)
        &&& slot.spec == before.chunk_slots@[i].spec
        &&& slot.fingerprint == before.chunk_slots@[i].fingerprint
        &&& slot.inner.warned_mismatches == before.chunk_slots@[i].inner.warned_mismatches
        &&& slot.inner.latest matches Some(c) && {
            &&& c.name@ == spec.name@
            &&& c.horizon == spec.horizon
            &&& c.data@.map_values(|v: Vec<u64>| v@) == crate::chunks::fitted_columns(
                spec.fields@,
                spec.horizon as nat,
                data,
                spec.fields@.len(),
            )
            &&& c.timestamp_us == timestamp_us
            &&& c.in_reply_to_ts_us == in_reply_to_ts_us
            &&& c.sender@ == before.local_identity->0@
        }
    } else {
        after.chunk_slots == before.chunk_slots
    }
}

// ---------------------------------------------------------------------------
// Control
// ---------------------------------------------------------------------------

/// How the active operator is changed.
#[derive(Debug)]
pub enum SetActive {
    /// The robot publishes the value as its attribute.
    Publish { key: &'static str, value: String },
    /// Any other side asks the robot to, with this payload.
    Ask { method: &'static str, payload: String },
}

impl Portal {
    /// How the active operator is changed from this side. A robot must be
    /// connected.
    pub fn set_active_operator(&self, identity: &Option<String>) -> (r: PortalResult<
        SetActive,
    >)
        ensures
            ({
                let id = crate::controller::identity_text(
                    crate::controller::opt_text(*identity),
                );
                match self.config.role {
                    Role::Robot => if self.local_identity is None {
                        r == Err::<SetActive, PortalError>(PortalError::NotConnected)
                    } else {
                        r matches Ok(SetActive::Publish { key, value }) && key@
                            == ACTIVE_OPERATOR_ATTR_KEY@ && value@ == id
                    },
                    Role::Operator | Role::Observer => r matches Ok(
                        SetActive::Ask { method, payload },
                    )
                        && method@ == crate::controller::SET_ACTIVE_OPERATOR_RPC@ && payload@
                        == id,
                }
            }),
    {
        let value: String = crate::controller::identity_value(identity);
        match self.config.role {
            Role::Robot => if self.local_identity.is_none() {
                Err(PortalError::NotConnected)
            } else {
                Ok(SetActive::Publish { key: ACTIVE_OPERATOR_ATTR_KEY, value })
            },
            Role::Operator | Role::Observer => Ok(
                SetActive::Ask {
                    method: crate::controller::SET_ACTIVE_OPERATOR_RPC,
                    payload: value,
                },
            ),
        }
    }

    /// Takes in how the robot's attribute was published. The pointer moves
    /// only once it was.
    pub fn finish_set_active_operator(
        &mut self,
        identity: Option<String>,
        published: Result<(), String>,
    ) -> (r: PortalResult<Option<Notice>>)
        requires
            old(self).wf(),
        ensures
            final(self).wf(),
            *final(self) == (Portal { controller: final(self).controller, ..*old(self) }),
            match published {
                Ok(_) => {
                    let id = crate::controller::opt_text(identity);
                    &&& final(self).controller@ == (crate::controller::ControllerView {
                        active_operator: id,
                        ..old(self).controller@
                    })
                    &&& r matches Ok(n) && crate::controller::notice_view(n) == (if old(
                        self,
                    ).controller@.active_operator == id {
                        None
                    } else {
                        Some(crate::controller::NoticeView::ActiveOperatorChanged(id))
                    })
                },
                Err(e) => *final(self) == *old(self) && r == Err::<Option<Notice>, PortalError>(
                    PortalError::Room(e),
                ),
            },
    {
        match published {
            Ok(_) => Ok(self.controller.set_active(identity)),
            Err(e) => Err(PortalError::Room(e)),
        }
    }

    /// The participant that a call without a destination goes to. `remotes`
    /// is `None` while not connected.
    pub fn resolve_peer(&self, remotes: &Option<Vec<String>>) -> (r: PortalResult<String>)
        ensures
            match crate::controller::counterpart(self.controller@, self.config.role) {
                Some(id) => r matches Ok(s) && s@ == id,
                None => match *remotes {
                    None => r == Err::<String, PortalError>(PortalError::NotConnected),
                    Some(v) => if v@.len() == 0 {
                        r == Err::<String, PortalError>(PortalError::NoPeer)
                    } else if v@.len() == 1 {
                        r matches Ok(s) && s@ == v@[0]@
                    } else {
                        r == Err::<String, PortalError>(PortalError::AmbiguousPeer)
                    },
                },
            },
    {
        self.controller.resolve_peer(self.config.role, remotes)
    }

    /// The procedure call to make. One without a destination goes to the
    /// participant that this side works with; none is made outside a room.
    pub fn perform_rpc(
        &self,
        destination: Option<String>,
        method: String,
        payload: String,
        response_timeout: Option<Duration>,
        remotes: &Option<Vec<String>>,
    ) -> (r: PortalResult<RpcCall>)
        ensures
            match rpc_target(
                self.controller@,
                self.config.role,
                crate::controller::opt_text(destination),
                *remotes,
            ) {
                Err(e) => r == Err::<RpcCall, PortalError>(e),
                Ok(to) => if self.local_identity is None {
                    r == Err::<RpcCall, PortalError>(PortalError::NotConnected)
                } else {
                    r matches Ok(call) && call.destination_identity@ == to && call.method
                        == method && call.payload == payload && call.response_timeout
                        == response_timeout
                },
            },
    {
        let destination_identity: String = match destination {
            Some(id) => id,
            None => match self.resolve_peer(remotes) {
                Ok(id) => id,
                Err(e) => {
                    return Err(e);
                },
            },
        };
        if self.local_identity.is_none() {
            return Err(PortalError::NotConnected);
        }
        Ok(RpcCall { destination_identity, method, payload, response_timeout })
    }
}

/// A procedure call that is ready to be made.
#[derive(Debug)]
pub struct RpcCall {
    pub destination_identity: String,
    pub method: String,
    pub payload: String,
    /// How long to wait for the reply; `None` leaves it to the transport.
    pub response_timeout: Option<Duration>,
}

/// Where a procedure call goes: to the given participant, else to the one
/// that this side works with, else to the only other one in the room.
pub open spec fn rpc_target(
    c: crate::controller::ControllerView,
    role: Role,
    destination: Option<Seq<char>>,
    remotes: Option<Vec<String>>,
) -> Result<Seq<char>, PortalError> {
    match destination {
        Some(id) => Ok(id),
        None => match crate::controller::counterpart(c, role) {
            Some(id) => Ok(id),
            None => match remotes {
                None => Err(PortalError::NotConnected),
                Some(v) => if v@.len() == 0 {
                    Err(PortalError::NoPeer)
                } else if v@.len() == 1 {
                    Ok(v@[0]@)
                } else {
                    Err(PortalError::AmbiguousPeer)
                },
            },
        },
    }
}

// ---------------------------------------------------------------------------
// Receiving
// ---------------------------------------------------------------------------

/// Something that happens in the room.
#[derive(Debug)]
pub enum RoomEvent {
    /// A remote track can be received.
    TrackSubscribed { track_name: String, is_video: bool },
    /// A packet arrived.
    DataReceived { payload: Vec<u8>, topic: Option<String>, sender: Option<String> },
    /// A remote participant began a byte stream.
    ByteStreamOpened { topic: String },
    ParticipantConnected(Participant),
    ParticipantAttributesChanged(Participant),
    ParticipantDisconnected { identity: String },
    /// The connection was lost and is back.
    Reconnected,
}

/// What is done about something that happened in the room.
#[derive(Debug)]
pub enum RoomReaction {
    Nothing,
    /// Receive the frames of the track.
    ReceiveTrack,
    /// A packet was taken in.
    Data(DataOutcome),
    /// Read the stream as an action chunk.
    ReadChunk,
    /// Read the stream as a frame.
    ReadFrame,
    /// Tell the application.
    Tell(Notice),
}

/// Whether a reaction tells the application this, or does nothing.
pub open spec fn tells(
    reaction: RoomReaction,
    told: Option<crate::controller::NoticeView>,
) -> bool {
    match told {
        Some(n) => reaction matches RoomReaction::Tell(notice) && notice@ == n,
        None => reaction is Nothing,
    }
}

fn reaction_to(notice: Option<Notice>) -> (r: RoomReaction)
    ensures
        tells(r, crate::controller::notice_view(notice)),
{
    match notice {
        Some(n) => RoomReaction::Tell(n),
        None => RoomReaction::Nothing,
    }
}

impl Portal {
    /// Whether a remote track is one that this side receives.
    pub open spec fn wants_track(self, track_name: Seq<char>, is_video: bool) -> bool {
        &&& self.config.role != Role::Robot
        &&& is_video
        &&& media_position(self.config.video_tracks@, track_name) is Some
        &&& self.local_identity is Some
    }

    /// What is done about a byte stream.
    pub open spec fn stream_reaction(self, topic: Seq<char>) -> RoomReaction {
        if topic == ACTION_CHUNK_TOPIC@ {
            if self.config.role != Role::Robot && self.config.action_subscription
                == ActionSubscription::Off {
                RoomReaction::Nothing
            } else {
                RoomReaction::ReadChunk
            }
        } else if topic == FRAME_VIDEO_TOPIC@ && self.config.role != Role::Robot
            && self.config.frame_video_tracks@.len() > 0 && self.local_identity is Some {
            RoomReaction::ReadFrame
        } else {
            RoomReaction::Nothing
        }
    }

    /// Whether a packet on a topic is taken in.
    pub open spec fn takes_packet(self, topic: Seq<char>, sender: Option<Seq<char>>) -> bool {
        topic == ACTION_TOPIC@ ==> crate::controller::gate_passes(
            self.config.role,
            self.config.action_subscription,
            self.controller@.active_operator,
            sender,
        )
    }

    fn on_track_subscribed(&self, track_name: &str, is_video: bool) -> (r: RoomReaction)
        ensures
            r == (if self.wants_track(track_name@, is_video) {
                RoomReaction::ReceiveTrack
            } else {
                RoomReaction::Nothing
            }),
    {
        if self.config.role == Role::Robot || !is_video || self.local_identity.is_none() {
            return RoomReaction::Nothing;
        }
        let names: Vec<String> = self.config.video_track_names();
        match find_track(names.as_slice(), track_name) {
            Some(_) => RoomReaction::ReceiveTrack,
            None => RoomReaction::Nothing,
        }
    }

    fn on_byte_stream_opened(&self, topic: &str) -> (r: RoomReaction)
        ensures
            r == self.stream_reaction(topic@),
    {
        if text::same(topic, ACTION_CHUNK_TOPIC) {
            if self.config.role != Role::Robot && !self.config.action_subscription() {
                RoomReaction::Nothing
            } else {
                RoomReaction::ReadChunk
            }
        } else if text::same(topic, FRAME_VIDEO_TOPIC) && self.config.role != Role::Robot
            && self.config.frame_video_tracks.len() > 0 && self.local_identity.is_some() {
            RoomReaction::ReadFrame
        } else {
            RoomReaction::Nothing
        }
    }

    fn on_data_received(
        &mut self,
        payload: &[u8],
        topic: &str,
        sender: Option<String>,
        now_us: u64,
    ) -> (r: RoomReaction)
        requires
            old(self).wf(),
        ensures
            final(self).wf(),
            packet_handled(
                *old(self),
                *final(self),
                payload@,
                topic@,
                crate::controller::opt_text(sender),
                now_us,
                r,
            ),
    {
        let (from, active): (String, bool) = if text::same(topic, ACTION_TOPIC) {
            match gate_action(
                self.config.role,
                self.config.action_subscription,
                &self.controller,
                sender,
            ) {
                Some(passed) => passed,
                None => {
                    return RoomReaction::Nothing;
                },
            }
        } else {
            ("".to_owned(), false)
        };
        let outcome: DataOutcome = handle_data_received(
            payload,
            topic,
            self.config.role,
            self.config.action_schema.as_slice(),
            self.action_schema_fp,
            self.config.state_schema.as_slice(),
            self.state_schema_fp,
            &mut self.action,
            &mut self.state,
            &mut self.sync_buffer,
            &mut self.metrics,
            now_us,
            from,
            active,
        );
        RoomReaction::Data(outcome)
    }

    /// Takes in something that happened in the room and says what is to be
    /// done about it.
    pub fn handle_room_event(&mut self, event: RoomEvent, now_us: u64) -> (r: RoomReaction)
        requires
            old(self).wf(),
        ensures
            final(self).wf(),
            event_handled(*old(self), *final(self), event, now_us, r),
    {
        let role: Role = self.config.role;
        match event {
            RoomEvent::TrackSubscribed { track_name, is_video } => self.on_track_subscribed(
                track_name.as_str(),
                is_video,
            ),
            RoomEvent::DataReceived { payload, topic, sender } => match topic {
                Some(t) => self.on_data_received(payload.as_slice(), t.as_str(), sender, now_us),
                None => RoomReaction::Nothing,
            },
            RoomEvent::ByteStreamOpened { topic } => self.on_byte_stream_opened(topic.as_str()),
            RoomEvent::ParticipantConnected(p) => reaction_to(
                self.controller.classify_and_update(role, p.identity.as_str(), &p.attributes),
            ),
            RoomEvent::ParticipantAttributesChanged(p) => {
                if is_text(&self.local_identity, p.identity.as_str()) {
                    RoomReaction::Nothing
                } else {
                    reaction_to(
                        self.controller.classify_and_update(
                            role,
                            p.identity.as_str(),
                            &p.attributes,
                        ),
                    )
                }
            },
            RoomEvent::ParticipantDisconnected { identity } => reaction_to(
                self.controller.participant_left(identity.as_str()),
            ),
            RoomEvent::Reconnected => {
                self.on_reconnected();
                RoomReaction::Nothing
            },
        }
    }

    /// Forgets what was received before the connection was lost.
    fn on_reconnected(&mut self)
        requires
            old(self).wf(),
        ensures
            final(self).wf(),
            reconnect_handled(*old(self), *final(self)),
    {
        match &mut self.sync_buffer {
            Some(buffer) => {
                buffer.clear();
            },
            None => {},
        }
        self.forget_received();
        self.controller.clear_for_reconnect();
    }
}

/// What comes of a packet: an action that this side does not want is dropped,
/// other packets are taken in. An action says whether it came from the operator
/// in control.
pub open spec fn packet_handled(
    before: Portal,
    after: Portal,
    payload: Seq<u8>,
    topic: Seq<char>,
    sender: Option<Seq<char>>,
    now_us: u64,
    reaction: RoomReaction,
) -> bool {
    if before.takes_packet(topic, sender) {
        &&& after == (Portal {
            action: after.action,
            state: after.state,
            sync_buffer: after.sync_buffer,
            metrics: after.metrics,
            ..before
        })
        &&& reaction matches RoomReaction::Data(outcome) && crate::data::data_handled(
            payload,
            topic,
            before.config.role,
            before.config.action_schema@,
            before.action_schema_fp,
            before.config.state_schema@,
            before.state_schema_fp,
            (before.action, after.action),
            (before.state, after.state),
            (before.sync_buffer, after.sync_buffer),
            (before.metrics@, after.metrics@),
            now_us,
            if topic == ACTION_TOPIC@ {
                sender->0
            } else {
                ""@
            },
            topic == ACTION_TOPIC@ && sender == before.controller@.active_operator,
            outcome,
        )
    } else {
        after == before && reaction is Nothing
    }
}

/// What is kept over a reconnect: everything but what was received, the
/// waiting frames and states, and who is in the room. The active operator
/// stays in control.
pub open spec fn reconnect_handled(before: Portal, after: Portal) -> bool {
    &&& after == (Portal {
        sync_buffer: after.sync_buffer,
        observation: None,
        action: after.action,
        state: after.state,
        chunk_slots: after.chunk_slots,
        video: after.video,
        controller: after.controller,
        ..before
    })
    &&& after.nothing_received()
    &&& only_latest_forgotten(before, after)
    &&& match before.sync_buffer {
        Some(b) => after.sync_buffer matches Some(a) && a.setup() == b.setup() && a@
            == crate::sync_buffer::empty_state(b.setup().names.len()),
        None => after.sync_buffer is None,
    }
    &&& after.controller@ == (crate::controller::ControllerView {
        active_operator: before.controller@.active_operator,
        ..crate::controller::empty_room()
    })
}

/// What comes of something that happened in the room.
pub open spec fn event_handled(
    before: Portal,
    after: Portal,
    event: RoomEvent,
    now_us: u64,
    reaction: RoomReaction,
) -> bool {
    match event {
        RoomEvent::TrackSubscribed { track_name, is_video } => {
            &&& after == before
            &&& reaction == (if before.wants_track(track_name@, is_video) {
                RoomReaction::ReceiveTrack
            } else {
                RoomReaction::Nothing
            })
        },
        RoomEvent::DataReceived { payload, topic, sender } => match topic {
            Some(t) => packet_handled(
                before,
                after,
                payload@,
                t@,
                crate::controller::opt_text(sender),
                now_us,
                reaction,
            ),
            None => after == before && reaction is Nothing,
        },
        RoomEvent::ByteStreamOpened { topic } => after == before && reaction
            == before.stream_reaction(topic@),
        RoomEvent::ParticipantConnected(p) => seen_handled(before, after, p, reaction),
        RoomEvent::ParticipantAttributesChanged(p) => if crate::controller::opt_text(
            before.local_identity,
        ) == Some(p.identity@) {
            after == before && reaction is Nothing
        } else {
            seen_handled(before, after, p, reaction)
        },
        RoomEvent::ParticipantDisconnected { identity } => {
            &&& after == (Portal { controller: after.controller, ..before })
            &&& after.controller@ == crate::controller::after_leaving(
                before.controller@,
                identity@,
            )
            &&& tells(
                reaction,
                if before.controller@.operators.contains(identity@) {
                    Some(crate::controller::NoticeView::OperatorLeft(identity@))
                } else {
                    None
                },
            )
        },
        RoomEvent::Reconnected => reconnect_handled(before, after) && reaction is Nothing,
    }
}

/// What comes of a participant that is seen.
pub open spec fn seen_handled(
    before: Portal,
    after: Portal,
    p: Participant,
    reaction: RoomReaction,
) -> bool {
    let role = before.config.role;
    &&& after == (Portal { controller: after.controller, ..before })
    &&& after.controller@ == crate::controller::after_seeing(
        before.controller@,
        role,
        p.identity@,
        p.attributes@,
    )
    &&& tells(
        reaction,
        crate::controller::told_on_seeing(
            before.controller@,
            role,
            p.identity@,
            p.attributes@,
        ),
    )
}

impl Portal {
    /// Finds the slot of a chunk payload once it was read to the end. Chunks
    /// of anyone but the operator in control are dropped (`None`), also when
    /// they began while their sender was in control.
    pub fn route_chunk_payload(&mut self, payload: &[u8], sender: &str) -> (route: Option<
        ChunkRoute,
    >)
        requires
            old(self).wf(),
        ensures
            final(self).wf(),
            *final(self) == (Portal {
                unknown_chunk_fps: final(self).unknown_chunk_fps,
                ..*old(self)
            }),
            if old(self).controller@.active_operator != Some(sender@) {
                route is None && final(self).unknown_chunk_fps == old(self).unknown_chunk_fps
            } else {
                route matches Some(x) && crate::chunks::chunk_routed(
                    payload@,
                    old(self).chunk_slots@,
                    old(self).unknown_chunk_fps@,
                    final(self).unknown_chunk_fps@,
                    x,
                )
            },
    {
        if !self.controller.is_active(&Some(sender.to_owned())) {
            return None;
        }
        Some(route_chunk(payload, self.chunk_slots.as_slice(), &mut self.unknown_chunk_fps))
    }

    /// Takes in what was read from a chunk payload that found its slot.
    pub fn accept_chunk_payload(
        &mut self,
        index: usize,
        decoded: Result<(u64, Option<u64>, Vec<Vec<u64>>), DecodeError>,
        now_us: u64,
        sender: String,
    ) -> (outcome: ChunkOutcome)
        requires
            old(self).wf(),
            index < old(self).chunk_slots@.len(),
        ensures
            final(self).wf(),
            *final(self) == (Portal {
                chunk_slots: final(self).chunk_slots,
                metrics: final(self).metrics,
                ..*old(self)
            }),
            final(self).chunk_slots@ == old(self).chunk_slots@.update(
                index as int,
                final(self).chunk_slots@[index as int],
            ),
            crate::chunks::chunk_accepted(
                old(self).chunk_slots@[index as int],
                final(self).chunk_slots@[index as int],
                decoded,
                old(self).metrics@,
                final(self).metrics@,
                now_us,
                sender@,
                outcome,
            ),
    {
        let outcome: ChunkOutcome = accept_chunk(
            &mut self.chunk_slots[index],
            decoded,
            &mut self.metrics,
            now_us,
            sender,
        );
        assert(self.chunk_slots@ =~= old(self).chunk_slots@.update(
            index as int,
            self.chunk_slots@[index as int],
        ));
        outcome
    }

    /// Counts a frame that came by the media path and keeps it as the latest
    /// of its track.
    pub fn video_frame_received(&mut self, track_name: &str, frame: &VideoFrameData, now_us: u64)
        requires
            old(self).wf(),
        ensures
            final(self).wf(),
            *final(self) == (Portal {
                metrics: final(self).metrics,
                video: final(self).video,
                ..*old(self)
            }),
            final(self).metrics@ == (if old(self).metrics@.tracks.contains_key(track_name@) {
                let t = old(self).metrics@.tracks[track_name@];
                crate::metrics::MetricsView {
                    tracks: old(self).metrics@.tracks.insert(
                        track_name@,
                        crate::metrics::TrackMetrics {
                            frames_received: crate::metrics::bumped(t.frames_received, 1),
                            jitter: crate::metrics::jitter_after(
                                t.jitter,
                                frame.timestamp_us,
                                now_us,
                            ),
                            ..t
                        },
                    ),
                    ..old(self).metrics@
                }
            } else {
                old(self).metrics@
            }),
            kept_latest(*old(self), *final(self), track_name@, frame@),
    {
        match self.metrics.track(track_name) {
            Some(counters) => {
                let mut counters = counters;
                counters.record_received(frame.timestamp_us, now_us);
                self.metrics.set_track(track_name, counters);
            },
            None => {},
        }
        self.keep_frame(track_name, frame);
    }

    /// Keeps a frame as the latest of its track.
    pub fn keep_frame(&mut self, track_name: &str, frame: &VideoFrameData)
        requires
            old(self).wf(),
        ensures
            final(self).wf(),
            *final(self) == (Portal { video: final(self).video, ..*old(self) }),
            kept_latest(*old(self), *final(self), track_name@, frame@),
    {
        match find_track(self.all_track_names.as_slice(), track_name) {
            Some(i) => {
                self.video[i].deliver(frame.clone());
                assert(self.video@ =~= old(self).video@.update(i as int, self.video@[i as int]));
            },
            None => {},
        }
    }

    /// Hands a frame to the sync buffer and returns what it made possible.
    pub fn process_frame(&mut self, track_name: &str, frame: Arc<VideoFrameData>) -> (output:
        SyncOutput)
        requires
            old(self).wf(),
        ensures
            final(self).wf(),
            *final(self) == (Portal {
                sync_buffer: final(self).sync_buffer,
                metrics: final(self).metrics,
                ..*old(self)
            }),
            frame_processed(*old(self), *final(self), track_name@, frame, output),
    {
        match &mut self.sync_buffer {
            Some(buffer) => buffer.push_frame(track_name, frame, &mut self.metrics),
            None => SyncOutput::empty(),
        }
    }

    /// Decodes and counts a frame that came by a byte stream. Returns the
    /// position of its track among the byte-stream tracks and the frame.
    pub fn receive_frame_payload(&mut self, payload: Bytes, now_us: u64) -> (r: Result<
        (usize, VideoFrameData),
        FrameFault,
    >)
        requires
            old(self).wf(),
        ensures
            final(self).wf(),
            *final(self) == (Portal { metrics: final(self).metrics, ..*old(self) }),
            crate::frame_video::frame_dispatched(
                crate::payload::bytes_contents(payload),
                old(self).config.frame_video_tracks@,
                now_us,
                old(self).metrics@,
                final(self).metrics@,
                r,
            ),
    {
        dispatch_frame_payload(
            payload,
            self.config.frame_video_tracks.as_slice(),
            now_us,
            &mut self.metrics,
        )
    }

    /// Keeps the newest of the observations that came out as the latest.
    pub fn dispatch(&mut self, observations: Vec<Observation>)
        requires
            old(self).wf(),
        ensures
            final(self).wf(),
            *final(self) == (Portal {
                observation: if observations@.len() > 0 {
                    Some(observations@.last())
                } else {
                    old(self).observation
                },
                ..*old(self)
            }),
    {
        let mut observations = observations;
        match observations.pop() {
            Some(o) => {
                self.observation = Some(o);
            },
            None => {},
        }
    }

    // -----------------------------------------------------------------------
    // Readers
    // -----------------------------------------------------------------------

    /// The latest observation.
    pub fn get_observation(&self) -> (o: Option<&Observation>)
        ensures
            match o {
                Some(x) => self.observation == Some(*x),
                None => self.observation is None,
            },
    {
        match &self.observation {
            Some(o) => Some(o),
            None => None,
        }
    }

    /// The latest observation, where observations are put together here.
    pub fn latest_observation(&self) -> (r: PortalResult<Option<&Observation>>)
        ensures
            if self.config.observation_sync {
                r matches Ok(o) && match o {
                    Some(x) => self.observation == Some(*x),
                    None => self.observation is None,
                }
            } else {
                r == Err::<Option<&Observation>, PortalError>(PortalError::ObservationSyncDisabled)
            },
    {
        if self.config.observation_sync {
            Ok(self.get_observation())
        } else {
            Err(PortalError::ObservationSyncDisabled)
        }
    }

    /// The latest action.
    pub fn get_action(&self) -> (a: Option<&Action>)
        ensures
            match a {
                Some(x) => self.action.latest == Some(*x),
                None => self.action.latest is None,
            },
    {
        self.action.get()
    }

    /// The latest state.
    pub fn get_state(&self) -> (s: Option<&State>)
        ensures
            match s {
                Some(x) => self.state.latest == Some(*x),
                None => self.state.latest is None,
            },
    {
        self.state.get()
    }

    /// The latest frame of a track.
    pub fn get_video_frame(&self, track_name: &str) -> (f: Option<&VideoFrameData>)
        requires
            self.wf(),
        ensures
            match crate::sync_buffer::track_position(self.all_track_names@, track_name@) {
                Some(i) => match f {
                    Some(x) => self.video@[i].latest == Some(*x),
                    None => self.video@[i].latest is None,
                },
                None => f is None,
            },
    {
        match find_track(self.all_track_names.as_slice(), track_name) {
            Some(i) => match &self.video[i].latest {
                Some(x) => Some(x),
                None => None,
            },
            None => None,
        }
    }

    /// The latest chunk of a name.
    pub fn get_action_chunk(&self, chunk_name: &str) -> (c: Option<&ActionChunk>)
        requires
            self.wf(),
        ensures
            match chunk_index(self.config.action_chunks@, chunk_name@) {
                Some(i) => match c {
                    Some(x) => self.chunk_slots@[i].inner.latest == Some(*x),
                    None => self.chunk_slots@[i].inner.latest is None,
                },
                None => c is None,
            },
    {
        match find_chunk(self.config.action_chunks.as_slice(), chunk_name) {
            Some(i) => self.chunk_slots[i].get(),
            None => None,
        }
    }

    /// The declared chunks, in the order of declaration.
    pub fn action_chunks(&self) -> (v: &Vec<ChunkSpec>)
        ensures
            *v == self.config.action_chunks,
    {
        &self.config.action_chunks
    }

    /// The declared state schema.
    pub fn state_schema(&self) -> (v: &Vec<FieldSpec>)
        ensures
            *v == self.config.state_schema,
    {
        &self.config.state_schema
    }

    /// The declared action schema.
    pub fn action_schema(&self) -> (v: &Vec<FieldSpec>)
        ensures
            *v == self.config.action_schema,
    {
        &self.config.action_schema
    }

    /// The identity in the room; `None` while not connected.
    pub fn local_identity(&self) -> (id: Option<&str>)
        ensures
            match id {
                Some(s) => crate::controller::opt_text(self.local_identity) == Some(s@),
                None => self.local_identity is None,
            },
    {
        match &self.local_identity {
            Some(s) => Some(s.as_str()),
            None => None,
        }
    }

    /// The operator in control.
    pub fn active_operator(&self) -> (id: Option<String>)
        ensures
            crate::controller::opt_text(id) == self.controller@.active_operator,
    {
        self.controller.active_operator()
    }

    /// The operators in the room other than this one, in order.
    pub fn operators(&self) -> (v: Vec<String>)
        ensures
            crate::name_set::in_order(v@),
            crate::name_set::names_in(v@) == self.controller@.operators,
    {
        self.controller.operators()
    }

    /// The observers in the room other than this one, in order.
    pub fn observers(&self) -> (v: Vec<String>)
        ensures
            crate::name_set::in_order(v@),
            crate::name_set::names_in(v@) == self.controller@.observers,
    {
        self.controller.observers()
    }

    /// The robot in the room.
    pub fn robot_identity(&self) -> (id: Option<String>)
        ensures
            crate::controller::opt_text(id) == self.controller@.robot_identity,
    {
        self.controller.robot_identity()
    }

    /// The counters since construction or the last reset, and how full the
    /// sync buffer is.
    pub fn metrics(&self) -> (m: PortalMetrics)
        requires
            self.wf(),
        ensures
            match self.sync_buffer {
                Some(b) => crate::metrics::shows(
                    m,
                    self.metrics@,
                    crate::sync_buffer::fill_map(
                        b.setup().names,
                        b@.buffers,
                        b.setup().names.len(),
                    ),
                    b@.states.len(),
                ),
                None => crate::metrics::shows(m, self.metrics@, Map::empty(), 0),
            },
    {
        match &self.sync_buffer {
            Some(b) => self.metrics.snapshot(b.video_fill_snapshot(), b.state_fill()),
            None => self.metrics.snapshot(NameMap::new(), 0),
        }
    }

    /// Starts the counters afresh.
    pub fn reset_metrics(&mut self)
        requires
            old(self).wf(),
        ensures
            final(self).wf(),
            *final(self) == (Portal { metrics: final(self).metrics, ..*old(self) }),
            final(self).metrics@ == crate::metrics::fresh_metrics(
                old(self).metrics@.track_order,
            ),
    {
        self.metrics.reset();
    }
}

/// Whether a frame is now the latest of its track, if the track is declared.
pub open spec fn kept_latest(
    before: Portal,
    after: Portal,
    track_name: Seq<char>,
    frame: crate::types::FrameView,
) -> bool {
    match crate::sync_buffer::track_position(before.all_track_names@, track_name) {
        Some(i) => {
            &&& after.video@ == before.video@.update(i, after.video@[i])
            &&& after.video@[i].latest matches Some(f) && f@ == frame
        },
        None => after.video == before.video,
    }
}

/// What a frame does to the sync buffer, where there is one.
pub open spec fn frame_processed(
    before: Portal,
    after: Portal,
    track_name: Seq<char>,
    frame: Arc<VideoFrameData>,
    output: SyncOutput,
) -> bool {
    match before.sync_buffer {
        None => after == before && output.nothing(),
        Some(b) => after.sync_buffer matches Some(a) && a.setup() == b.setup() && match
            crate::sync_buffer::track_position(b.setup().names, track_name) {
            None => a@ == b@ && after.metrics@ == before.metrics@ && output.nothing(),
            Some(t) => {
                let end = crate::sync_buffer::after_frame(
                    b.setup(),
                    b@,
                    before.metrics@,
                    t,
                    track_name,
                    frame,
                );
                &&& a@ == end.state
                &&& output.observed() == end.observations
                &&& output.dropped() == end.drops
                &&& output.ahead_us@ == end.ahead
                &&& output.evicted == crate::sync_buffer::excess(
                    b@.buffers[t].len() + 1,
                    b.setup().config.video_buffer_size as nat,
                )
                &&& output.overflowed == 0
                &&& after.metrics@ == end.metrics
            },
        },
    }
}

/// No action of anyone but the operator in control changes what the robot
/// holds, and while nobody is in control none does. The same holds of every
/// other side, unless it subscribed to the actions of all.
pub proof fn law_only_the_active_operator_acts(
    before: Portal,
    after: Portal,
    payload: Seq<u8>,
    sender: Option<Seq<char>>,
    now_us: u64,
    reaction: RoomReaction,
)
    requires
        packet_handled(before, after, payload, ACTION_TOPIC@, sender, now_us, reaction),
        sender is None || sender != before.controller@.active_operator,
        before.config.role == Role::Robot || before.config.action_subscription
            != ActionSubscription::All,
    ensures
        after == before,
        reaction is Nothing,
{
}

/// An action that was taken in says whether it came from the operator in
/// control, on whichever side and under whichever subscription.
pub proof fn law_actions_say_who_was_in_control(
    before: Portal,
    after: Portal,
    payload: Seq<u8>,
    sender: Option<Seq<char>>,
    now_us: u64,
    reaction: RoomReaction,
)
    requires
        packet_handled(before, after, payload, ACTION_TOPIC@, sender, now_us, reaction),
        reaction == RoomReaction::Data(DataOutcome::Action),
    ensures
        after.action.latest matches Some(a) && sender == Some(a.sender@) && a.active == (sender
            == before.controller@.active_operator),
{
    reveal_strlit("portal_action");
    reveal_strlit("portal_rtt");
    assert(ACTION_TOPIC@.len() != crate::rtt::RTT_TOPIC@.len());
}

/// A participant that leaves, and a connection that is lost and comes back,
/// do not take control away.
pub proof fn law_control_stays(before: Portal, after: Portal, event: RoomEvent, now_us: u64,
    reaction: RoomReaction)
    requires
        event_handled(before, after, event, now_us, reaction),
        event is ParticipantDisconnected || event is Reconnected,
    ensures
        after.controller@.active_operator == before.controller@.active_operator,
{
}

/// An action that the operator in control sends is the action that the robot
/// gets, as long as both declare the same fields: with the values that the
/// operator was told, its timestamp, and the operator as its sender.
pub proof fn law_actions_reach_the_robot(
    publisher: crate::data::PublisherView,
    publisher_after: crate::data::PublisherView,
    values: Map<Seq<char>, TypedValue>,
    in_reply_to_ts_us: Option<u64>,
    out: Outgoing,
    robot: Portal,
    robot_after: Portal,
    sender: Seq<char>,
    now_us: u64,
    reaction: RoomReaction,
)
    requires
        publisher.stream == DataStream::Action,
        crate::data::sent_from(publisher, publisher_after, values, in_reply_to_ts_us, out),
        robot.wf(),
        robot.config.role == Role::Robot,
        crate::serialization::same_fields(publisher.schema, robot.config.action_schema@),
        robot.controller@.active_operator == Some(sender),
        packet_handled(
            robot,
            robot_after,
            out.payload@,
            ACTION_TOPIC@,
            Some(sender),
            now_us,
            reaction,
        ),
    ensures
        robot_after.action.latest matches Some(a) && crate::data::is_action(
            a,
            out.timestamp_us,
            crate::data::reply_received(in_reply_to_ts_us),
            robot.config.action_schema@,
            out.wire_values@,
            sender,
            true,
        ),
        reaction == RoomReaction::Data(DataOutcome::Action),
{
    reveal_strlit("portal_action");
    reveal_strlit("portal_rtt");
    assert(ACTION_TOPIC@.len() != crate::rtt::RTT_TOPIC@.len());
    let outcome = reaction->Data_0;
    crate::data::law_sent_actions_arrive(
        publisher,
        publisher_after,
        values,
        in_reply_to_ts_us,
        out,
        robot.config.action_schema@,
        robot.action,
        robot_after.action,
        robot.metrics@,
        robot_after.metrics@,
        now_us,
        sender,
        true,
        outcome,
    );
}

/// A state that the robot sends is the state that every other side gets, as
/// long as both declare the same fields, and it goes to the sync buffer with the values
/// that the robot was told.
pub proof fn law_states_reach_the_operator(
    publisher: crate::data::PublisherView,
    publisher_after: crate::data::PublisherView,
    values: Map<Seq<char>, TypedValue>,
    out: Outgoing,
    operator: Portal,
    operator_after: Portal,
    sender: Option<Seq<char>>,
    now_us: u64,
    reaction: RoomReaction,
)
    requires
        publisher.stream == DataStream::State,
        crate::data::sent_from(publisher, publisher_after, values, None, out),
        operator.wf(),
        operator.config.role != Role::Robot,
        crate::serialization::same_fields(publisher.schema, operator.config.state_schema@),
        packet_handled(
            operator,
            operator_after,
            out.payload@,
            crate::data::STATE_TOPIC@,
            sender,
            now_us,
            reaction,
        ),
    ensures
        operator_after.state.latest matches Some(s) && crate::data::is_state(
            s,
            out.timestamp_us,
            operator.config.state_schema@,
            out.wire_values@,
        ),
        reaction matches RoomReaction::Data(DataOutcome::State(output))
            && crate::data::state_buffered(
            operator.sync_buffer,
            operator_after.sync_buffer,
            out.timestamp_us,
            out.wire_values@,
            crate::metrics::received(
                operator.metrics@,
                DataStream::State,
                out.timestamp_us,
                now_us,
            ),
            operator_after.metrics@,
            output,
        ),
{
    reveal_strlit("portal_action");
    reveal_strlit("portal_rtt");
    reveal_strlit("portal_state");
    assert(crate::data::STATE_TOPIC@.len() != crate::rtt::RTT_TOPIC@.len());
    assert(crate::data::STATE_TOPIC@.len() != ACTION_TOPIC@.len());
    let outcome = reaction->Data_0;
    crate::data::law_sent_states_arrive(
        publisher,
        publisher_after,
        values,
        out,
        operator.config.state_schema@,
        operator.state,
        operator_after.state,
        operator.sync_buffer,
        operator_after.sync_buffer,
        operator.metrics@,
        operator_after.metrics@,
        now_us,
        outcome,
    );
}

} // verus!
