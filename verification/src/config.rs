//! Declared schemas and session settings.
use crate::codec::Codec;
use crate::dtype::DType;
use crate::ieee;
use crate::name_map::NameMap;
use crate::text;
use crate::ticks;
use crate::types::{
    ActionSubscription, Role, StallBehavior, StallConfig, SyncConfig, TimeSyncSource,
};
use vstd::prelude::*;

verus! {

/// JPEG quality of an `Mjpeg` track declared without one.
pub const DEFAULT_MJPEG_QUALITY: u8 = 90;

/// Bitrate ceiling of a WebRTC track declared without one, in kilobits per
/// second.
pub const DEFAULT_H264_MAX_BITRATE_KBPS: u32 = 10_000;

/// Bit pattern of the binary32 number 1.5, the default tolerance.
pub const DEFAULT_TOLERANCE: u32 = 0x3fc0_0000;

// ---------------------------------------------------------------------------
// Declarations
// ---------------------------------------------------------------------------

/// One field of a state or action schema.
#[derive(Debug, PartialEq, Eq)]
pub struct FieldSpec {
    pub name: String,
    pub dtype: DType,
}

impl Clone for FieldSpec {
    fn clone(&self) -> (c: Self)
        ensures
            c == *self,
    {
        FieldSpec { name: self.name.clone(), dtype: self.dtype }
    }
}

impl FieldSpec {
    pub fn new(name: String, dtype: DType) -> (f: Self)
        ensures
            f.name == name,
            f.dtype == dtype,
    {
        FieldSpec { name, dtype }
    }
}

impl From<(String, DType)> for FieldSpec {
    fn from(pair: (String, DType)) -> (f: Self) {
        FieldSpec { name: pair.0, dtype: pair.1 }
    }
}

impl vstd::std_specs::convert::FromSpecImpl<(String, DType)> for FieldSpec {
    open spec fn obeys_from_spec() -> bool {
        true
    }

    open spec fn from_spec(pair: (String, DType)) -> Self {
        FieldSpec { name: pair.0, dtype: pair.1 }
    }
}

/// One byte-stream video track: each frame is encoded once by the sender and
/// decoded to RGB by the receiver. The quality counts for `Mjpeg` alone.
#[derive(Debug, PartialEq, Eq)]
pub struct FrameVideoSpec {
    pub name: String,
    pub codec: Codec,
    pub quality: u8,
}

impl Clone for FrameVideoSpec {
    fn clone(&self) -> (c: Self)
        ensures
            c == *self,
    {
        FrameVideoSpec { name: self.name.clone(), codec: self.codec, quality: self.quality }
    }
}

impl FrameVideoSpec {
    pub fn new(name: String, codec: Codec, quality: u8) -> (s: Self)
        ensures
            s.name == name,
            s.codec == codec,
            s.quality == quality,
    {
        FrameVideoSpec { name, codec, quality }
    }
}

/// One WebRTC video track.
#[derive(Debug, PartialEq, Eq)]
pub struct VideoTrackSpec {
    pub name: String,
    pub codec: Codec,
    /// Ceiling of the encoder's rate in kilobits per second. `None` means the
    /// default one.
    pub max_bitrate_kbps: Option<u32>,
    /// Publish several spatial layers.
    pub simulcast: bool,
    /// Mark the source as screen content, so that pressure costs frame rate
    /// instead of resolution.
    pub screencast: bool,
}

impl Clone for VideoTrackSpec {
    fn clone(&self) -> (c: Self)
        ensures
            c == *self,
    {
        VideoTrackSpec {
            name: self.name.clone(),
            codec: self.codec,
            max_bitrate_kbps: self.max_bitrate_kbps,
            simulcast: self.simulcast,
            screencast: self.screencast,
        }
    }
}

impl VideoTrackSpec {
    pub fn new(
        name: String,
        codec: Codec,
        max_bitrate_kbps: Option<u32>,
        simulcast: bool,
        screencast: bool,
    ) -> (s: Self)
        ensures
            s == (VideoTrackSpec { name, codec, max_bitrate_kbps, simulcast, screencast }),
    {
        VideoTrackSpec { name, codec, max_bitrate_kbps, simulcast, screencast }
    }
}

/// Schema of one named action chunk: `horizon` steps of the given fields,
/// published as one packet.
#[derive(Debug, PartialEq, Eq)]
pub struct ChunkSpec {
    pub name: String,
    pub horizon: u32,
    pub fields: Vec<FieldSpec>,
}

impl Clone for ChunkSpec {
    fn clone(&self) -> (c: Self)
        ensures
            c.name == self.name,
            c.horizon == self.horizon,
            c.fields@ == self.fields@,
    {
        let mut fields: Vec<FieldSpec> = Vec::new();
        let mut i: usize = 0;
        while i < self.fields.len()
            invariant
                i <= self.fields@.len(),
                fields@ == self.fields@.take(i as int),
            decreases self.fields@.len() - i,
        {
            fields.push(self.fields[i].clone());
            i = i + 1;
            assert(fields@ =~= self.fields@.take(i as int));
        }
        assert(self.fields@.take(i as int) =~= self.fields@);
        ChunkSpec { name: self.name.clone(), horizon: self.horizon, fields }
    }
}

impl ChunkSpec {
    pub fn new(name: String, horizon: u32, fields: Vec<FieldSpec>) -> (s: Self)
        ensures
            s.name == name,
            s.horizon == horizon,
            s.fields == fields,
    {
        ChunkSpec { name, horizon, fields }
    }
}

// ---------------------------------------------------------------------------
// Session settings
// ---------------------------------------------------------------------------

/// Settings of a session, built up before connecting.
#[derive(Debug)]
pub struct PortalConfig {
    pub session: String,
    pub role: Role,
    pub video_tracks: Vec<VideoTrackSpec>,
    pub frame_video_tracks: Vec<FrameVideoSpec>,
    pub state_schema: Vec<FieldSpec>,
    pub action_schema: Vec<FieldSpec>,
    pub action_chunks: Vec<ChunkSpec>,
    pub state_reliable: bool,
    pub action_reliable: bool,
    pub fps: u32,
    pub slack: u32,
    /// Bit pattern of a binary32 number.
    pub tolerance: u32,
    pub ping_ms: u64,
    pub reuse_stale_frames: bool,
    /// Stall behavior of tracks without one of their own, where it was set.
    pub stall_behavior: Option<StallBehavior>,
    /// Lag budget of tracks without one of their own. `None` derives it from
    /// slack and frame rate.
    pub max_lag_ms: Option<u32>,
    pub track_stall_behavior: NameMap<StallBehavior>,
    pub track_max_lag_ms: NameMap<u32>,
    pub shared_key: Option<Vec<u8>>,
    /// Which received actions an operator or observer is told of.
    pub action_subscription: ActionSubscription,
    /// Whether states and frames are put together to observations.
    pub observation_sync: bool,
    pub time_sync_source: TimeSyncSource,
    /// Shifts this peer's local clock, for tests.
    pub clock_skew_us: i64,
}

/// What a role subscribes to unless told otherwise.
pub open spec fn default_subscription(role: Role) -> ActionSubscription {
    if role == Role::Observer {
        ActionSubscription::Active
    } else {
        ActionSubscription::Off
    }
}

/// The subscription that is switched on or off.
pub open spec fn subscription_of(enable: bool) -> ActionSubscription {
    if enable {
        ActionSubscription::Active
    } else {
        ActionSubscription::Off
    }
}

/// Whether a binary32 pattern is a number above zero.
pub open spec fn positive(ticks: u32) -> bool {
    0 < ticks <= ieee::F32_INF
}

/// Whether a track of this name is among the WebRTC tracks.
pub open spec fn in_video_tracks(tracks: Seq<VideoTrackSpec>, name: Seq<char>) -> bool {
    exists|i: int| 0 <= i < tracks.len() && (#[trigger] tracks[i]).name@ == name
}

/// Whether a track of this name is among the byte-stream tracks.
pub open spec fn in_frame_tracks(tracks: Seq<FrameVideoSpec>, name: Seq<char>) -> bool {
    exists|i: int| 0 <= i < tracks.len() && (#[trigger] tracks[i]).name@ == name
}

/// Whether a chunk of this name is declared.
pub open spec fn in_chunks(chunks: Seq<ChunkSpec>, name: Seq<char>) -> bool {
    exists|i: int| 0 <= i < chunks.len() && (#[trigger] chunks[i]).name@ == name
}

/// Whether track names are unique, and each track is on the path that its
/// codec rides.
pub open spec fn tracks_ok(media: Seq<VideoTrackSpec>, streams: Seq<FrameVideoSpec>) -> bool {
    &&& forall|i: int, j: int|
        0 <= i < j < media.len() ==> (#[trigger] media[i]).name@ != (#[trigger] media[j]).name@
    &&& forall|i: int, j: int|
        0 <= i < j < streams.len() ==> (#[trigger] streams[i]).name@ != (
        #[trigger] streams[j]).name@
    &&& forall|i: int, j: int|
        0 <= i < media.len() && 0 <= j < streams.len() ==> (#[trigger] media[i]).name@ != (
        #[trigger] streams[j]).name@
    &&& forall|i: int| 0 <= i < media.len() ==> (#[trigger] media[i]).codec.on_media_path()
    &&& forall|i: int|
        0 <= i < streams.len() ==> !(#[trigger] streams[i]).codec.on_media_path()
}

/// Whether chunk names are unique, and every chunk has steps.
pub open spec fn chunks_ok(chunks: Seq<ChunkSpec>) -> bool {
    &&& forall|i: int, j: int|
        0 <= i < j < chunks.len() ==> (#[trigger] chunks[i]).name@ != (#[trigger] chunks[j]).name@
    &&& forall|i: int| 0 <= i < chunks.len() ==> (#[trigger] chunks[i]).horizon > 0
}

impl Clone for PortalConfig {
    fn clone(&self) -> (c: Self)
        ensures
            self.wf() ==> c.wf(),
            c.session == self.session,
            c.role == self.role,
            c.video_tracks@ == self.video_tracks@,
            c.frame_video_tracks@ == self.frame_video_tracks@,
            c.state_schema@ == self.state_schema@,
            c.action_schema@ == self.action_schema@,
            c.action_chunks@.len() == self.action_chunks@.len(),
            forall|i: int|
                0 <= i < self.action_chunks@.len() ==> {
                    &&& (#[trigger] c.action_chunks@[i]).name == self.action_chunks@[i].name
                    &&& c.action_chunks@[i].horizon == self.action_chunks@[i].horizon
                    &&& c.action_chunks@[i].fields@ == self.action_chunks@[i].fields@
                },
            c.state_reliable == self.state_reliable,
            c.action_reliable == self.action_reliable,
            c.fps == self.fps,
            c.slack == self.slack,
            c.tolerance == self.tolerance,
            c.ping_ms == self.ping_ms,
            c.reuse_stale_frames == self.reuse_stale_frames,
            c.stall_behavior == self.stall_behavior,
            c.max_lag_ms == self.max_lag_ms,
            c.track_stall_behavior@ == self.track_stall_behavior@,
            c.track_max_lag_ms@ == self.track_max_lag_ms@,
            match (c.shared_key, self.shared_key) {
                (Some(a), Some(b)) => a@ == b@,
                (None, None) => true,
                _ => false,
            },
            c.action_subscription == self.action_subscription,
            c.observation_sync == self.observation_sync,
            c.time_sync_source == self.time_sync_source,
            c.clock_skew_us == self.clock_skew_us,
    {
        let c = PortalConfig {
            session: self.session.clone(),
            role: self.role,
            video_tracks: self.video_tracks.clone(),
            frame_video_tracks: self.frame_video_tracks.clone(),
            state_schema: self.state_schema.clone(),
            action_schema: self.action_schema.clone(),
            action_chunks: self.action_chunks.clone(),
            state_reliable: self.state_reliable,
            action_reliable: self.action_reliable,
            fps: self.fps,
            slack: self.slack,
            tolerance: self.tolerance,
            ping_ms: self.ping_ms,
            reuse_stale_frames: self.reuse_stale_frames,
            stall_behavior: self.stall_behavior,
            max_lag_ms: self.max_lag_ms,
            track_stall_behavior: self.track_stall_behavior.clone(),
            track_max_lag_ms: self.track_max_lag_ms.clone(),
            shared_key: self.shared_key.clone(),
            action_subscription: self.action_subscription,
            observation_sync: self.observation_sync,
            time_sync_source: self.time_sync_source,
            clock_skew_us: self.clock_skew_us,
        };
        assert(c.video_tracks@ =~= self.video_tracks@);
        assert(c.frame_video_tracks@ =~= self.frame_video_tracks@);
        assert(c.state_schema@ =~= self.state_schema@);
        assert(c.action_schema@ =~= self.action_schema@);
        assert(c.track_stall_behavior@ =~= self.track_stall_behavior@);
        assert(c.track_max_lag_ms@ =~= self.track_max_lag_ms@);
        c
    }
}

impl PortalConfig {
    /// Whether a track of this name is declared.
    pub open spec fn declares(self, name: Seq<char>) -> bool {
        in_video_tracks(self.video_tracks@, name) || in_frame_tracks(
            self.frame_video_tracks@,
            name,
        )
    }

    /// What every setter keeps: rates are positive, names are unique, each
    /// track is on the path that its codec rides, and chunks have steps.
    pub open spec fn wf(self) -> bool {
        &&& self.fps > 0
        &&& self.slack > 0
        &&& positive(self.tolerance)
        &&& tracks_ok(self.video_tracks@, self.frame_video_tracks@)
        &&& chunks_ok(self.action_chunks@)
    }

    pub fn new(session: String, role: Role) -> (c: Self)
        ensures
            c.wf(),
            c.session == session,
            c.role == role,
            c.video_tracks@.len() == 0,
            c.frame_video_tracks@.len() == 0,
            c.state_schema@.len() == 0,
            c.action_schema@.len() == 0,
            c.action_chunks@.len() == 0,
            c.state_reliable,
            c.action_reliable,
            c.fps == 30,
            c.slack == 5,
            c.tolerance == DEFAULT_TOLERANCE,
            c.ping_ms == 1000,
            !c.reuse_stale_frames,
            c.stall_behavior is None,
            c.max_lag_ms is None,
            c.track_stall_behavior@ == Map::<Seq<char>, StallBehavior>::empty(),
            c.track_max_lag_ms@ == Map::<Seq<char>, u32>::empty(),
            c.shared_key is None,
            c.action_subscription == default_subscription(role),
            c.observation_sync == (role == Role::Operator),
            c.time_sync_source == TimeSyncSource::Portal,
            c.clock_skew_us == 0,
    {
        PortalConfig {
            session,
            role,
            video_tracks: Vec::new(),
            frame_video_tracks: Vec::new(),
            state_schema: Vec::new(),
            action_schema: Vec::new(),
            action_chunks: Vec::new(),
            state_reliable: true,
            action_reliable: true,
            fps: 30,
            slack: 5,
            tolerance: DEFAULT_TOLERANCE,
            ping_ms: 1000,
            reuse_stale_frames: false,
            stall_behavior: None,
            max_lag_ms: None,
            track_stall_behavior: NameMap::new(),
            track_max_lag_ms: NameMap::new(),
            shared_key: None,
            action_subscription: match role {
                Role::Observer => ActionSubscription::Active,
                Role::Robot | Role::Operator => ActionSubscription::Off,
            },
            observation_sync: role == Role::Operator,
            time_sync_source: TimeSyncSource::Portal,
            clock_skew_us: 0,
        }
    }

    /// Whether a track of this name is declared.
    pub fn has_track(&self, name: &str) -> (b: bool)
        ensures
            b == self.declares(name@),
    {
        let mut i: usize = 0;
        while i < self.video_tracks.len()
            invariant
                i <= self.video_tracks@.len(),
                forall|j: int| 0 <= j < i ==> (#[trigger] self.video_tracks@[j]).name@ != name@,
            decreases self.video_tracks@.len() - i,
        {
            if text::same(self.video_tracks[i].name.as_str(), name) {
                return true;
            }
            i = i + 1;
        }
        let mut k: usize = 0;
        while k < self.frame_video_tracks.len()
            invariant
                k <= self.frame_video_tracks@.len(),
                forall|j: int|
                    0 <= j < k ==> (#[trigger] self.frame_video_tracks@[j]).name@ != name@,
            decreases self.frame_video_tracks@.len() - k,
        {
            if text::same(self.frame_video_tracks[k].name.as_str(), name) {
                return true;
            }
            k = k + 1;
        }
        false
    }

    /// Whether a chunk of this name is declared.
    pub fn has_chunk(&self, name: &str) -> (b: bool)
        ensures
            b == in_chunks(self.action_chunks@, name@),
    {
        let mut i: usize = 0;
        while i < self.action_chunks.len()
            invariant
                i <= self.action_chunks@.len(),
                forall|j: int| 0 <= j < i ==> (#[trigger] self.action_chunks@[j]).name@ != name@,
            decreases self.action_chunks@.len() - i,
        {
            if text::same(self.action_chunks[i].name.as_str(), name) {
                return true;
            }
            i = i + 1;
        }
        false
    }

    /// Declares a video track. The codec picks the encoding and the
    /// transport. WebRTC codecs heed the bitrate ceiling and the two toggles,
    /// which default to off; byte-stream codecs heed none of them, and
    /// `Mjpeg` alone heeds the quality.
    pub fn add_video(
        &mut self,
        name: String,
        codec: Codec,
        quality: u8,
        max_bitrate_kbps: Option<u32>,
        simulcast: Option<bool>,
        screencast: Option<bool>,
    )
        requires
            !old(self).declares(name@),
            codec == Codec::Mjpeg ==> 1 <= quality <= 100,
            codec.on_media_path() ==> (max_bitrate_kbps matches Some(kbps) ==> kbps > 0),
        ensures
            old(self).wf() ==> final(self).wf(),
            if codec.on_media_path() {
                &&& final(self).video_tracks@ == old(self).video_tracks@.push(
                    VideoTrackSpec {
                        name,
                        codec,
                        max_bitrate_kbps,
                        simulcast: simulcast == Some(true),
                        screencast: screencast == Some(true),
                    },
                )
                &&& *final(self) == (PortalConfig {
                    video_tracks: final(self).video_tracks,
                    ..*old(self)
                })
            } else {
                &&& final(self).frame_video_tracks@ == old(self).frame_video_tracks@.push(
                    FrameVideoSpec { name, codec, quality },
                )
                &&& *final(self) == (PortalConfig {
                    frame_video_tracks: final(self).frame_video_tracks,
                    ..*old(self)
                })
            },
    {
        let ghost before = *self;
        if codec.is_webrtc() {
            self.video_tracks.push(
                VideoTrackSpec::new(
                    name,
                    codec,
                    max_bitrate_kbps,
                    simulcast.unwrap_or(false),
                    screencast.unwrap_or(false),
                ),
            );
        } else {
            self.frame_video_tracks.push(FrameVideoSpec::new(name, codec, quality));
        }
        proof {
            assert forall|i: int| 0 <= i < before.video_tracks@.len() implies (
            #[trigger] before.video_tracks@[i]).name@ != name@ by {}
            assert forall|i: int| 0 <= i < before.frame_video_tracks@.len() implies (
            #[trigger] before.frame_video_tracks@[i]).name@ != name@ by {}
        }
    }

    /// Declares state fields behind those declared before. Their order must
    /// be the same on both peers.
    pub fn add_state_typed(&mut self, schema: Vec<FieldSpec>)
        ensures
            old(self).wf() ==> final(self).wf(),
            final(self).state_schema@ == old(self).state_schema@ + schema@,
            *final(self) == (PortalConfig { state_schema: final(self).state_schema, ..*old(self) }),
    {
        let mut schema = schema;
        self.state_schema.append(&mut schema);
    }

    /// Declares action fields behind those declared before. Their order must
    /// be the same on both peers.
    pub fn add_action_typed(&mut self, schema: Vec<FieldSpec>)
        ensures
            old(self).wf() ==> final(self).wf(),
            final(self).action_schema@ == old(self).action_schema@ + schema@,
            *final(self) == (PortalConfig {
                action_schema: final(self).action_schema,
                ..*old(self)
            }),
    {
        let mut schema = schema;
        self.action_schema.append(&mut schema);
    }

    /// Declares an action chunk.
    pub fn add_action_chunk(&mut self, name: String, horizon: u32, fields: Vec<FieldSpec>)
        requires
            horizon > 0,
            !in_chunks(old(self).action_chunks@, name@),
        ensures
            old(self).wf() ==> final(self).wf(),
            final(self).action_chunks@ == old(self).action_chunks@.push(
                ChunkSpec { name, horizon, fields },
            ),
            *final(self) == (PortalConfig {
                action_chunks: final(self).action_chunks,
                ..*old(self)
            }),
    {
        let ghost before = *self;
        self.action_chunks.push(ChunkSpec::new(name, horizon, fields));
        proof {
            assert forall|i: int| 0 <= i < before.action_chunks@.len() implies (
            #[trigger] before.action_chunks@[i]).name@ != name@ by {}
        }
    }

    /// Observation rate in Hz.
    pub fn set_fps(&mut self, fps: u32)
        requires
            fps > 0,
        ensures
            old(self).wf() ==> final(self).wf(),
            *final(self) == (PortalConfig { fps, ..*old(self) }),
    {
        self.fps = fps;
    }

    /// How far a state may reach when matching a frame, in intervals of the
    /// observation rate: the bit pattern of a binary32 number above zero.
    pub fn set_tolerance(&mut self, ticks: u32)
        requires
            positive(ticks),
        ensures
            old(self).wf() ==> final(self).wf(),
            *final(self) == (PortalConfig { tolerance: ticks, ..*old(self) }),
    {
        self.tolerance = ticks;
    }

    /// Headroom of the pipeline, in intervals of the observation rate: the
    /// size of the frame and state queues.
    pub fn set_slack(&mut self, ticks: u32)
        requires
            ticks > 0,
        ensures
            old(self).wf() ==> final(self).wf(),
            *final(self) == (PortalConfig { slack: ticks, ..*old(self) }),
    {
        self.slack = ticks;
    }

    pub fn set_state_reliable(&mut self, reliable: bool)
        ensures
            old(self).wf() ==> final(self).wf(),
            *final(self) == (PortalConfig { state_reliable: reliable, ..*old(self) }),
    {
        self.state_reliable = reliable;
    }

    pub fn set_action_reliable(&mut self, reliable: bool)
        ensures
            old(self).wf() ==> final(self).wf(),
            *final(self) == (PortalConfig { action_reliable: reliable, ..*old(self) }),
    {
        self.action_reliable = reliable;
    }

    /// Interval of pings. Zero turns them off on this side.
    pub fn set_ping_ms(&mut self, ms: u64)
        ensures
            old(self).wf() ==> final(self).wf(),
            *final(self) == (PortalConfig { ping_ms: ms, ..*old(self) }),
    {
        self.ping_ms = ms;
    }

    /// Short for `Freeze` without waiting. An explicit stall behavior or lag
    /// budget wins over it.
    pub fn set_reuse_stale_frames(&mut self, enable: bool)
        ensures
            old(self).wf() ==> final(self).wf(),
            *final(self) == (PortalConfig { reuse_stale_frames: enable, ..*old(self) }),
    {
        self.reuse_stale_frames = enable;
    }

    /// How a moment is resolved when a track goes silent past its lag budget.
    /// Counts for every track without a behavior of its own.
    pub fn set_stall_behavior(&mut self, behavior: StallBehavior)
        ensures
            old(self).wf() ==> final(self).wf(),
            *final(self) == (PortalConfig { stall_behavior: Some(behavior), ..*old(self) }),
    {
        self.stall_behavior = Some(behavior);
    }

    /// How far the fastest stream may run past a moment before it is resolved
    /// without a silent track, in milliseconds of sender time.
    pub fn set_max_lag_ms(&mut self, ms: u32)
        ensures
            old(self).wf() ==> final(self).wf(),
            *final(self) == (PortalConfig { max_lag_ms: Some(ms), ..*old(self) }),
    {
        self.max_lag_ms = Some(ms);
    }

    /// Stall behavior of one track.
    pub fn set_track_stall_behavior(&mut self, track: String, behavior: StallBehavior)
        ensures
            old(self).wf() ==> final(self).wf(),
            final(self).track_stall_behavior@ == old(self).track_stall_behavior@.insert(
                track@,
                behavior,
            ),
            *final(self) == (PortalConfig {
                track_stall_behavior: final(self).track_stall_behavior,
                ..*old(self)
            }),
    {
        self.track_stall_behavior.insert(track, behavior);
    }

    /// Lag budget of one track.
    pub fn set_track_max_lag_ms(&mut self, track: String, ms: u32)
        ensures
            old(self).wf() ==> final(self).wf(),
            final(self).track_max_lag_ms@ == old(self).track_max_lag_ms@.insert(track@, ms),
            *final(self) == (PortalConfig {
                track_max_lag_ms: final(self).track_max_lag_ms,
                ..*old(self)
            }),
    {
        self.track_max_lag_ms.insert(track, ms);
    }

    /// Whether the operator also receives the actions that are carried out.
    pub fn set_action_subscription(&mut self, enable: bool)
        ensures
            old(self).wf() ==> final(self).wf(),
            *final(self) == (PortalConfig {
                action_subscription: subscription_of(enable),
                ..*old(self)
            }),
    {
        self.action_subscription = if enable {
            ActionSubscription::Active
        } else {
            ActionSubscription::Off
        };
    }

    /// Which received actions an operator or observer is told of.
    pub fn set_action_subscription_mode(&mut self, mode: ActionSubscription)
        ensures
            old(self).wf() ==> final(self).wf(),
            *final(self) == (PortalConfig { action_subscription: mode, ..*old(self) }),
    {
        self.action_subscription = mode;
    }

    /// Whether states and frames are put together to observations.
    pub fn set_observation_sync(&mut self, enable: bool)
        ensures
            old(self).wf() ==> final(self).wf(),
            *final(self) == (PortalConfig { observation_sync: enable, ..*old(self) }),
    {
        self.observation_sync = enable;
    }

    /// Where the time comes from.
    pub fn set_time_sync_source(&mut self, source: TimeSyncSource)
        ensures
            old(self).wf() ==> final(self).wf(),
            *final(self) == (PortalConfig { time_sync_source: source, ..*old(self) }),
    {
        self.time_sync_source = source;
    }

    /// Shifts this peer's local clock, for tests.
    pub fn set_clock_skew_us(&mut self, skew_us: i64)
        ensures
            old(self).wf() ==> final(self).wf(),
            *final(self) == (PortalConfig { clock_skew_us: skew_us, ..*old(self) }),
    {
        self.clock_skew_us = skew_us;
    }

    /// Key for end-to-end encryption, the same on both peers.
    pub fn set_e2ee_key(&mut self, key: Vec<u8>)
        ensures
            old(self).wf() ==> final(self).wf(),
            *final(self) == (PortalConfig { shared_key: Some(key), ..*old(self) }),
    {
        self.shared_key = Some(key);
    }

    // -----------------------------------------------------------------------
    // Stall handling
    // -----------------------------------------------------------------------

    /// Stall handling of a track without settings of its own.
    pub open spec fn base_stall(self) -> StallConfig {
        StallConfig {
            behavior: match self.stall_behavior {
                Some(b) => b,
                None => if self.reuse_stale_frames {
                    StallBehavior::Freeze
                } else {
                    StallBehavior::Drop
                },
            },
            max_lag_us: Some(
                match self.max_lag_ms {
                    Some(ms) => (ms * 1000) as u64,
                    None => if self.reuse_stale_frames {
                        0
                    } else {
                        (self.slack * 1_000_000 / (if self.fps == 0 {
                            1
                        } else {
                            self.fps as int
                        })) as u64
                    },
                },
            ),
        }
    }

    /// Stall handling of a track.
    pub open spec fn track_stall(self, track: Seq<char>) -> StallConfig {
        StallConfig {
            behavior: if self.track_stall_behavior@.contains_key(track) {
                self.track_stall_behavior@[track]
            } else {
                self.base_stall().behavior
            },
            max_lag_us: if self.track_max_lag_ms@.contains_key(track) {
                Some((self.track_max_lag_ms@[track] * 1000) as u64)
            } else {
                self.base_stall().max_lag_us
            },
        }
    }

    /// Stall handling of a track without settings of its own: the behavior
    /// and budget that were set, else what reuse stands for, else to drop at
    /// the point where the queue of states would have overflowed.
    pub fn default_stall(&self) -> (s: StallConfig)
        ensures
            s == self.base_stall(),
    {
        let behavior: StallBehavior = match self.stall_behavior {
            Some(b) => b,
            None => if self.reuse_stale_frames {
                StallBehavior::Freeze
            } else {
                StallBehavior::Drop
            },
        };
        let max_lag_us: u64 = match self.max_lag_ms {
            Some(ms) => ms as u64 * 1000,
            None => if self.reuse_stale_frames {
                0
            } else if self.fps == 0 {
                self.slack as u64 * 1_000_000
            } else {
                self.slack as u64 * 1_000_000 / self.fps as u64
            },
        };
        StallConfig { max_lag_us: Some(max_lag_us), behavior }
    }

    /// Stall handling of a track, its own settings over the defaults.
    pub fn stall_for(&self, track: &str) -> (s: StallConfig)
        ensures
            s == self.track_stall(track@),
    {
        let base: StallConfig = self.default_stall();
        StallConfig {
            behavior: match self.track_stall_behavior.get(track) {
                Some(b) => *b,
                None => base.behavior,
            },
            max_lag_us: match self.track_max_lag_ms.get(track) {
                Some(ms) => Some(*ms as u64 * 1000),
                None => base.max_lag_us,
            },
        }
    }

    /// Stall handling of every track, in the given order.
    pub fn stall_configs(&self, track_names: &[String]) -> (v: Vec<StallConfig>)
        ensures
            v@ == Seq::new(track_names@.len(), |i: int| self.track_stall(track_names@[i]@)),
    {
        let mut v: Vec<StallConfig> = Vec::new();
        let mut i: usize = 0;
        while i < track_names.len()
            invariant
                i <= track_names@.len(),
                v@ == Seq::new(i as nat, |j: int| self.track_stall(track_names@[j]@)),
            decreases track_names@.len() - i,
        {
            v.push(self.stall_for(track_names[i].as_str()));
            i = i + 1;
            assert(v@ =~= Seq::new(i as nat, |j: int| self.track_stall(track_names@[j]@)));
        }
        v
    }

    /// Settings of the sync buffer.
    pub open spec fn sync_settings(self) -> SyncConfig {
        SyncConfig {
            video_buffer_size: self.slack,
            state_buffer_size: self.slack,
            search_range_us: ticks::search_range(self.tolerance, self.fps),
            reuse_stale_frames: self.base_stall() == (StallConfig {
                max_lag_us: Some(0),
                behavior: StallBehavior::Freeze,
            }),
            default_stall: self.base_stall(),
        }
    }

    /// Settings of the sync buffer, with the search range that the tolerance
    /// and the observation rate give. Frames are reused right away when that
    /// is how every stall is to be resolved.
    pub fn sync_config(&self) -> (s: SyncConfig)
        requires
            self.wf(),
        ensures
            s == self.sync_settings(),
    {
        let default_stall: StallConfig = self.default_stall();
        let at_once: bool = match default_stall.max_lag_us {
            Some(lag) => lag == 0,
            None => false,
        };
        SyncConfig {
            video_buffer_size: self.slack,
            state_buffer_size: self.slack,
            search_range_us: ticks::search_range_us(self.tolerance, self.fps),
            reuse_stale_frames: at_once && default_stall.behavior == StallBehavior::Freeze,
            default_stall,
        }
    }

    // -----------------------------------------------------------------------
    // Readers
    // -----------------------------------------------------------------------

    /// Names of the WebRTC tracks, in the order of their declaration.
    pub fn video_track_names(&self) -> (v: Vec<String>)
        ensures
            v@ == self.video_tracks@.map_values(|t: VideoTrackSpec| t.name),
    {
        let mut v: Vec<String> = Vec::new();
        let mut i: usize = 0;
        while i < self.video_tracks.len()
            invariant
                i <= self.video_tracks@.len(),
                v@ == self.video_tracks@.take(i as int).map_values(|t: VideoTrackSpec| t.name),
            decreases self.video_tracks@.len() - i,
        {
            v.push(self.video_tracks[i].name.clone());
            i = i + 1;
            assert(v@ =~= self.video_tracks@.take(i as int).map_values(
                |t: VideoTrackSpec| t.name,
            ));
        }
        assert(self.video_tracks@.take(i as int) =~= self.video_tracks@);
        v
    }

    /// Names of the byte-stream tracks, in the order of their declaration.
    pub fn frame_video_track_names(&self) -> (v: Vec<String>)
        ensures
            v@ == self.frame_video_tracks@.map_values(|t: FrameVideoSpec| t.name),
    {
        let mut v: Vec<String> = Vec::new();
        let mut i: usize = 0;
        while i < self.frame_video_tracks.len()
            invariant
                i <= self.frame_video_tracks@.len(),
                v@ == self.frame_video_tracks@.take(i as int).map_values(
                    |t: FrameVideoSpec| t.name,
                ),
            decreases self.frame_video_tracks@.len() - i,
        {
            v.push(self.frame_video_tracks[i].name.clone());
            i = i + 1;
            assert(v@ =~= self.frame_video_tracks@.take(i as int).map_values(
                |t: FrameVideoSpec| t.name,
            ));
        }
        assert(self.frame_video_tracks@.take(i as int) =~= self.frame_video_tracks@);
        v
    }

    /// Names of the state fields in order.
    pub fn state_fields(&self) -> (v: Vec<String>)
        ensures
            v@ == self.state_schema@.map_values(|f: FieldSpec| f.name),
    {
        field_names(self.state_schema.as_slice())
    }

    /// Names of the action fields in order.
    pub fn action_fields(&self) -> (v: Vec<String>)
        ensures
            v@ == self.action_schema@.map_values(|f: FieldSpec| f.name),
    {
        field_names(self.action_schema.as_slice())
    }

    pub fn video_tracks(&self) -> (v: &Vec<VideoTrackSpec>)
        ensures
            *v == self.video_tracks,
    {
        &self.video_tracks
    }

    pub fn frame_video_tracks(&self) -> (v: &Vec<FrameVideoSpec>)
        ensures
            *v == self.frame_video_tracks,
    {
        &self.frame_video_tracks
    }

    pub fn state_schema(&self) -> (v: &Vec<FieldSpec>)
        ensures
            *v == self.state_schema,
    {
        &self.state_schema
    }

    pub fn action_schema(&self) -> (v: &Vec<FieldSpec>)
        ensures
            *v == self.action_schema,
    {
        &self.action_schema
    }

    pub fn action_chunks(&self) -> (v: &Vec<ChunkSpec>)
        ensures
            *v == self.action_chunks,
    {
        &self.action_chunks
    }

    pub fn session(&self) -> (s: &str)
        ensures
            s@ == self.session@,
    {
        self.session.as_str()
    }

    pub fn role(&self) -> (r: Role)
        ensures
            r == self.role,
    {
        self.role
    }

    pub fn fps(&self) -> (n: u32)
        ensures
            n == self.fps,
    {
        self.fps
    }

    pub fn slack(&self) -> (n: u32)
        ensures
            n == self.slack,
    {
        self.slack
    }

    pub fn tolerance(&self) -> (ticks: u32)
        ensures
            ticks == self.tolerance,
    {
        self.tolerance
    }

    pub fn ping_ms(&self) -> (ms: u64)
        ensures
            ms == self.ping_ms,
    {
        self.ping_ms
    }

    pub fn state_reliable(&self) -> (b: bool)
        ensures
            b == self.state_reliable,
    {
        self.state_reliable
    }

    pub fn action_reliable(&self) -> (b: bool)
        ensures
            b == self.action_reliable,
    {
        self.action_reliable
    }

    pub fn reuse_stale_frames(&self) -> (b: bool)
        ensures
            b == self.reuse_stale_frames,
    {
        self.reuse_stale_frames
    }

    pub fn time_sync_source(&self) -> (s: TimeSyncSource)
        ensures
            s == self.time_sync_source,
    {
        self.time_sync_source
    }

    pub fn clock_skew_us(&self) -> (t: i64)
        ensures
            t == self.clock_skew_us,
    {
        self.clock_skew_us
    }

    pub fn action_subscription(&self) -> (b: bool)
        ensures
            b == (self.action_subscription != ActionSubscription::Off),
    {
        self.action_subscription != ActionSubscription::Off
    }

    pub fn action_subscription_mode(&self) -> (m: ActionSubscription)
        ensures
            m == self.action_subscription,
    {
        self.action_subscription
    }

    pub fn observation_sync(&self) -> (b: bool)
        ensures
            b == self.observation_sync,
    {
        self.observation_sync
    }

    /// Whether a key for end-to-end encryption has been set.
    pub fn has_e2ee_key(&self) -> (b: bool)
        ensures
            b == self.shared_key is Some,
    {
        self.shared_key.is_some()
    }
}

fn field_names(schema: &[FieldSpec]) -> (v: Vec<String>)
    ensures
        v@ == schema@.map_values(|f: FieldSpec| f.name),
{
    let mut v: Vec<String> = Vec::new();
    let mut i: usize = 0;
    while i < schema.len()
        invariant
            i <= schema@.len(),
            v@ == schema@.take(i as int).map_values(|f: FieldSpec| f.name),
        decreases schema@.len() - i,
    {
        v.push(schema[i].name.clone());
        i = i + 1;
        assert(v@ =~= schema@.take(i as int).map_values(|f: FieldSpec| f.name));
    }
    assert(schema@.take(i as int) =~= schema@);
    v
}

/// Settings of one track leave every other track at what it had.
pub proof fn law_track_settings_are_independent(
    before: PortalConfig,
    after: PortalConfig,
    track: Seq<char>,
    behavior: StallBehavior,
    other: Seq<char>,
)
    requires
        after == (PortalConfig { track_stall_behavior: after.track_stall_behavior, ..before }),
        after.track_stall_behavior@ == before.track_stall_behavior@.insert(track, behavior),
        other != track,
    ensures
        after.track_stall(other) == before.track_stall(other),
        after.track_stall(track).behavior == behavior,
        after.track_stall(track).max_lag_us == before.track_stall(track).max_lag_us,
        after.base_stall() == before.base_stall(),
{
}

/// The budget of one track leaves every other track at what it had.
pub proof fn law_track_budgets_are_independent(
    before: PortalConfig,
    after: PortalConfig,
    track: Seq<char>,
    ms: u32,
    other: Seq<char>,
)
    requires
        after == (PortalConfig { track_max_lag_ms: after.track_max_lag_ms, ..before }),
        after.track_max_lag_ms@ == before.track_max_lag_ms@.insert(track, ms),
        other != track,
    ensures
        after.track_stall(other) == before.track_stall(other),
        after.track_stall(track).max_lag_us == Some((ms * 1000) as u64),
        after.track_stall(track).behavior == before.track_stall(track).behavior,
        after.base_stall() == before.base_stall(),
{
}

/// A behavior or a budget that was set counts, whether frames are reused or
/// not.
pub proof fn law_explicit_settings_win(c: PortalConfig)
    ensures
        c.stall_behavior matches Some(b) ==> c.base_stall().behavior == b,
        c.max_lag_ms matches Some(ms) ==> c.base_stall().max_lag_us == Some((ms * 1000) as u64),
{
}

/// Reuse of stale frames is the same as freezing without waiting, as long as
/// neither a behavior nor a budget is set.
pub proof fn law_reuse_is_freeze_at_once(c: PortalConfig)
    requires
        c.reuse_stale_frames,
        c.stall_behavior is None,
        c.max_lag_ms is None,
    ensures
        c.base_stall() == (StallConfig { max_lag_us: Some(0), behavior: StallBehavior::Freeze }),
{
}

} // verus!
