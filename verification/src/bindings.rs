//! Records that cross the boundary to other languages, and the conversions
//! between them and the library's own types.
//!
//! Numbers cross as binary64 patterns; the other side knows the schema.
use crate::codec::Codec;
use crate::config::{self, FrameVideoSpec};
use crate::config_file;
use crate::dtype;
use crate::error::{self, joined};
use crate::metrics::{self, PolicyMetrics, RttMetrics, SyncMetrics, TimeSyncMetrics};
use crate::name_map::NameMap;
use crate::payload::bytes_as_slice;
use crate::rpc;
use crate::text;
use crate::types::{self, TypedValue, VideoFrameData};
use vstd::prelude::*;

verus! {

// ---------------------------------------------------------------------------
// Enumerations
// ---------------------------------------------------------------------------

/// Which received actions an operator is told of: no one's, the active
/// operator's, or every operator's.
#[derive(Debug, Clone, Copy, PartialEq, Eq, Structural)]
pub enum ActionSubscription {
    Off,
    Active,
    All,
}

/// The library's setting.
pub fn subscription_to_core(s: ActionSubscription) -> (c: types::ActionSubscription)
    ensures
        c == (match s {
            ActionSubscription::Off => types::ActionSubscription::Off,
            ActionSubscription::Active => types::ActionSubscription::Active,
            ActionSubscription::All => types::ActionSubscription::All,
        }),
{
    match s {
        ActionSubscription::Off => types::ActionSubscription::Off,
        ActionSubscription::Active => types::ActionSubscription::Active,
        ActionSubscription::All => types::ActionSubscription::All,
    }
}

/// The library's setting as it crosses.
pub fn subscription_from_core(c: types::ActionSubscription) -> (s: ActionSubscription)
    ensures
        s == (match c {
            types::ActionSubscription::Off => ActionSubscription::Off,
            types::ActionSubscription::Active => ActionSubscription::Active,
            types::ActionSubscription::All => ActionSubscription::All,
        }),
{
    match c {
        types::ActionSubscription::Off => ActionSubscription::Off,
        types::ActionSubscription::Active => ActionSubscription::Active,
        types::ActionSubscription::All => ActionSubscription::All,
    }
}

/// Role of a participant as the other side names it.
#[derive(Debug, Clone, Copy, PartialEq, Eq, Structural)]
pub enum Role {
    Robot,
    Operator,
    Observer,
}

impl Role {
    /// Name of the role, for error messages.
    pub open spec fn name(self) -> Seq<char> {
        match self {
            Role::Robot => "Robot"@,
            Role::Operator => "Operator"@,
            Role::Observer => "Observer"@,
        }
    }

    /// Name of the role.
    pub fn variant_name(self) -> (s: &'static str)
        ensures
            s@ == self.name(),
    {
        match self {
            Role::Robot => "Robot",
            Role::Operator => "Operator",
            Role::Observer => "Observer",
        }
    }
}

/// The library's role.
pub fn role_to_core(r: Role) -> (c: types::Role)
    ensures
        c == (match r {
            Role::Robot => types::Role::Robot,
            Role::Operator => types::Role::Operator,
            Role::Observer => types::Role::Observer,
        }),
{
    match r {
        Role::Robot => types::Role::Robot,
        Role::Operator => types::Role::Operator,
        Role::Observer => types::Role::Observer,
    }
}

impl From<types::Role> for Role {
    fn from(r: types::Role) -> (b: Self) {
        match r {
            types::Role::Robot => Role::Robot,
            types::Role::Operator => Role::Operator,
            types::Role::Observer => Role::Observer,
        }
    }
}

impl vstd::std_specs::convert::FromSpecImpl<types::Role> for Role {
    open spec fn obeys_from_spec() -> bool {
        true
    }

    open spec fn from_spec(r: types::Role) -> Self {
        match r {
            types::Role::Robot => Role::Robot,
            types::Role::Operator => Role::Operator,
            types::Role::Observer => Role::Observer,
        }
    }
}

/// Codec of a video track.
#[derive(Debug, Clone, Copy, PartialEq, Eq, Structural)]
pub enum VideoCodec {
    H264,
    Vp8,
    Vp9,
    Av1,
    H265,
    Raw,
    Png,
    Mjpeg,
}

/// The library's codec.
pub open spec fn codec_in(c: VideoCodec) -> Codec {
    match c {
        VideoCodec::H264 => Codec::H264,
        VideoCodec::Vp8 => Codec::Vp8,
        VideoCodec::Vp9 => Codec::Vp9,
        VideoCodec::Av1 => Codec::Av1,
        VideoCodec::H265 => Codec::H265,
        VideoCodec::Raw => Codec::Raw,
        VideoCodec::Png => Codec::Png,
        VideoCodec::Mjpeg => Codec::Mjpeg,
    }
}

/// The codec that crosses.
pub open spec fn codec_out(c: Codec) -> VideoCodec {
    match c {
        Codec::H264 => VideoCodec::H264,
        Codec::Vp8 => VideoCodec::Vp8,
        Codec::Vp9 => VideoCodec::Vp9,
        Codec::Av1 => VideoCodec::Av1,
        Codec::H265 => VideoCodec::H265,
        Codec::Raw => VideoCodec::Raw,
        Codec::Png => VideoCodec::Png,
        Codec::Mjpeg => VideoCodec::Mjpeg,
    }
}

impl From<VideoCodec> for Codec {
    fn from(c: VideoCodec) -> (r: Self) {
        match c {
            VideoCodec::H264 => Codec::H264,
            VideoCodec::Vp8 => Codec::Vp8,
            VideoCodec::Vp9 => Codec::Vp9,
            VideoCodec::Av1 => Codec::Av1,
            VideoCodec::H265 => Codec::H265,
            VideoCodec::Raw => Codec::Raw,
            VideoCodec::Png => Codec::Png,
            VideoCodec::Mjpeg => Codec::Mjpeg,
        }
    }
}

impl vstd::std_specs::convert::FromSpecImpl<VideoCodec> for Codec {
    open spec fn obeys_from_spec() -> bool {
        true
    }

    open spec fn from_spec(c: VideoCodec) -> Self {
        codec_in(c)
    }
}

impl From<Codec> for VideoCodec {
    fn from(c: Codec) -> (r: Self) {
        match c {
            Codec::H264 => VideoCodec::H264,
            Codec::Vp8 => VideoCodec::Vp8,
            Codec::Vp9 => VideoCodec::Vp9,
            Codec::Av1 => VideoCodec::Av1,
            Codec::H265 => VideoCodec::H265,
            Codec::Raw => VideoCodec::Raw,
            Codec::Png => VideoCodec::Png,
            Codec::Mjpeg => VideoCodec::Mjpeg,
        }
    }
}

impl vstd::std_specs::convert::FromSpecImpl<Codec> for VideoCodec {
    open spec fn obeys_from_spec() -> bool {
        true
    }

    open spec fn from_spec(c: Codec) -> Self {
        codec_out(c)
    }
}

/// Declared type of a field.
#[derive(Debug, Clone, Copy, PartialEq, Eq, Structural)]
pub enum DType {
    F64,
    F32,
    I32,
    I16,
    I8,
    U32,
    U16,
    U8,
    Bool,
}

/// The library's type.
pub open spec fn dtype_in(d: DType) -> dtype::DType {
    match d {
        DType::F64 => dtype::DType::F64,
        DType::F32 => dtype::DType::F32,
        DType::I32 => dtype::DType::I32,
        DType::I16 => dtype::DType::I16,
        DType::I8 => dtype::DType::I8,
        DType::U32 => dtype::DType::U32,
        DType::U16 => dtype::DType::U16,
        DType::U8 => dtype::DType::U8,
        DType::Bool => dtype::DType::Bool,
    }
}

/// The type that crosses.
pub open spec fn dtype_out(d: dtype::DType) -> DType {
    match d {
        dtype::DType::F64 => DType::F64,
        dtype::DType::F32 => DType::F32,
        dtype::DType::I32 => DType::I32,
        dtype::DType::I16 => DType::I16,
        dtype::DType::I8 => DType::I8,
        dtype::DType::U32 => DType::U32,
        dtype::DType::U16 => DType::U16,
        dtype::DType::U8 => DType::U8,
        dtype::DType::Bool => DType::Bool,
    }
}

impl From<DType> for dtype::DType {
    fn from(d: DType) -> (r: Self) {
        match d {
            DType::F64 => dtype::DType::F64,
            DType::F32 => dtype::DType::F32,
            DType::I32 => dtype::DType::I32,
            DType::I16 => dtype::DType::I16,
            DType::I8 => dtype::DType::I8,
            DType::U32 => dtype::DType::U32,
            DType::U16 => dtype::DType::U16,
            DType::U8 => dtype::DType::U8,
            DType::Bool => dtype::DType::Bool,
        }
    }
}

impl vstd::std_specs::convert::FromSpecImpl<DType> for dtype::DType {
    open spec fn obeys_from_spec() -> bool {
        true
    }

    open spec fn from_spec(d: DType) -> Self {
        dtype_in(d)
    }
}

impl From<dtype::DType> for DType {
    fn from(d: dtype::DType) -> (r: Self) {
        match d {
            dtype::DType::F64 => DType::F64,
            dtype::DType::F32 => DType::F32,
            dtype::DType::I32 => DType::I32,
            dtype::DType::I16 => DType::I16,
            dtype::DType::I8 => DType::I8,
            dtype::DType::U32 => DType::U32,
            dtype::DType::U16 => DType::U16,
            dtype::DType::U8 => DType::U8,
            dtype::DType::Bool => DType::Bool,
        }
    }
}

impl vstd::std_specs::convert::FromSpecImpl<dtype::DType> for DType {
    open spec fn obeys_from_spec() -> bool {
        true
    }

    open spec fn from_spec(d: dtype::DType) -> Self {
        dtype_out(d)
    }
}

/// Codecs and types are the same on both sides of the boundary: crossing it
/// and coming back changes nothing.
pub proof fn law_crossing_keeps_codecs_and_types(
    c: Codec,
    v: VideoCodec,
    d: dtype::DType,
    b: DType,
)
    ensures
        codec_in(codec_out(c)) == c,
        codec_out(codec_in(v)) == v,
        dtype_in(dtype_out(d)) == d,
        dtype_out(dtype_in(b)) == b,
{
}

/// Where the pixels of a frame came from.
#[derive(Debug, Clone, Copy, PartialEq, Eq, Structural)]
pub enum FrameSource {
    Live,
    Stale,
    Omitted,
}

/// The source that crosses.
pub open spec fn source_out(s: types::FrameSource) -> FrameSource {
    match s {
        types::FrameSource::Live => FrameSource::Live,
        types::FrameSource::Stale => FrameSource::Stale,
        types::FrameSource::Omitted => FrameSource::Omitted,
    }
}

impl From<types::FrameSource> for FrameSource {
    fn from(s: types::FrameSource) -> (r: Self) {
        match s {
            types::FrameSource::Live => FrameSource::Live,
            types::FrameSource::Stale => FrameSource::Stale,
            types::FrameSource::Omitted => FrameSource::Omitted,
        }
    }
}

impl vstd::std_specs::convert::FromSpecImpl<types::FrameSource> for FrameSource {
    open spec fn obeys_from_spec() -> bool {
        true
    }

    open spec fn from_spec(s: types::FrameSource) -> Self {
        source_out(s)
    }
}

/// How a moment is resolved when a track goes silent.
#[derive(Debug, Clone, Copy, PartialEq, Eq, Structural)]
pub enum StallBehavior {
    Drop,
    Freeze,
    Omit,
}

/// The library's stall behavior.
pub open spec fn stall_in(b: StallBehavior) -> types::StallBehavior {
    match b {
        StallBehavior::Drop => types::StallBehavior::Drop,
        StallBehavior::Freeze => types::StallBehavior::Freeze,
        StallBehavior::Omit => types::StallBehavior::Omit,
    }
}

impl From<StallBehavior> for types::StallBehavior {
    fn from(b: StallBehavior) -> (r: Self) {
        match b {
            StallBehavior::Drop => types::StallBehavior::Drop,
            StallBehavior::Freeze => types::StallBehavior::Freeze,
            StallBehavior::Omit => types::StallBehavior::Omit,
        }
    }
}

impl vstd::std_specs::convert::FromSpecImpl<StallBehavior> for types::StallBehavior {
    open spec fn obeys_from_spec() -> bool {
        true
    }

    open spec fn from_spec(b: StallBehavior) -> Self {
        stall_in(b)
    }
}

// ---------------------------------------------------------------------------
// Declarations
// ---------------------------------------------------------------------------

/// One declared field.
#[derive(Debug, Clone)]
pub struct FieldSpec {
    pub name: String,
    pub dtype: DType,
}

/// A schema as it crosses.
pub fn schema_from_core(schema: &[config::FieldSpec]) -> (v: Vec<FieldSpec>)
    ensures
        v@.len() == schema@.len(),
        forall|i: int|
            0 <= i < schema@.len() ==> (#[trigger] v@[i]).name@ == schema@[i].name@ && v@[i].dtype
                == dtype_out(schema@[i].dtype),
{
    let mut v: Vec<FieldSpec> = Vec::new();
    let mut i: usize = 0;
    while i < schema.len()
        invariant
            i <= schema@.len(),
            v@.len() == i,
            forall|k: int|
                0 <= k < i ==> (#[trigger] v@[k]).name@ == schema@[k].name@ && v@[k].dtype
                    == dtype_out(schema@[k].dtype),
        decreases schema@.len() - i,
    {
        v.push(FieldSpec { name: schema[i].name.clone(), dtype: DType::from(schema[i].dtype) });
        i = i + 1;
    }
    v
}

/// One declared video track, whatever its transport. The quality counts for
/// `Mjpeg` alone and reads as zero on every other codec.
#[derive(Debug, Clone)]
pub struct VideoTrackSpec {
    pub name: String,
    pub codec: VideoCodec,
    pub quality: u8,
    pub max_bitrate_kbps: Option<u32>,
    pub simulcast: bool,
    pub screencast: bool,
}

/// A track of the media path as it crosses.
pub fn videotrackspec_from_core(s: &config::VideoTrackSpec) -> (t: VideoTrackSpec)
    ensures
        t.name@ == s.name@,
        t.codec == codec_out(s.codec),
        t.quality == 0,
        t.max_bitrate_kbps == s.max_bitrate_kbps,
        t.simulcast == s.simulcast,
        t.screencast == s.screencast,
{
    VideoTrackSpec {
        name: s.name.clone(),
        codec: VideoCodec::from(s.codec),
        quality: 0,
        max_bitrate_kbps: s.max_bitrate_kbps,
        simulcast: s.simulcast,
        screencast: s.screencast,
    }
}

/// A byte-stream track as it crosses.
pub fn framevideospec_from_core(s: &FrameVideoSpec) -> (t: VideoTrackSpec)
    ensures
        t.name@ == s.name@,
        t.codec == codec_out(s.codec),
        t.quality == (if s.codec == Codec::Mjpeg {
            s.quality
        } else {
            0
        }),
        t.max_bitrate_kbps is None,
        !t.simulcast,
        !t.screencast,
{
    VideoTrackSpec {
        name: s.name.clone(),
        codec: VideoCodec::from(s.codec),
        quality: if s.codec == Codec::Mjpeg {
            s.quality
        } else {
            0
        },
        max_bitrate_kbps: None,
        simulcast: false,
        screencast: false,
    }
}

/// Declares a video track in a session, together with its own stall settings
/// where it has any.
pub fn add_video(
    cfg: &mut config::PortalConfig,
    name: String,
    codec: VideoCodec,
    quality: u8,
    max_bitrate_kbps: Option<u32>,
    simulcast: Option<bool>,
    screencast: Option<bool>,
    stall_behavior: Option<StallBehavior>,
    max_lag_ms: Option<u32>,
)
    requires
        !old(cfg).declares(name@),
        codec == VideoCodec::Mjpeg ==> 1 <= quality <= 100,
        codec_in(codec).on_media_path() ==> (max_bitrate_kbps matches Some(kbps) ==> kbps > 0),
    ensures
        old(cfg).wf() ==> final(cfg).wf(),
        if codec_in(codec).on_media_path() {
            &&& final(cfg).video_tracks@.len() == old(cfg).video_tracks@.len() + 1
            &&& final(cfg).video_tracks@.drop_last() == old(cfg).video_tracks@
            &&& ({
                let t = final(cfg).video_tracks@.last();
                &&& t.name@ == name@
                &&& t.codec == codec_in(codec)
                &&& t.max_bitrate_kbps == max_bitrate_kbps
                &&& t.simulcast == (simulcast == Some(true))
                &&& t.screencast == (screencast == Some(true))
            })
            &&& final(cfg).frame_video_tracks == old(cfg).frame_video_tracks
        } else {
            &&& final(cfg).frame_video_tracks@.len() == old(cfg).frame_video_tracks@.len() + 1
            &&& final(cfg).frame_video_tracks@.drop_last() == old(cfg).frame_video_tracks@
            &&& ({
                let t = final(cfg).frame_video_tracks@.last();
                &&& t.name@ == name@
                &&& t.codec == codec_in(codec)
                &&& t.quality == quality
            })
            &&& final(cfg).video_tracks == old(cfg).video_tracks
        },
        final(cfg).track_stall_behavior@ == (match stall_behavior {
            Some(b) => old(cfg).track_stall_behavior@.insert(name@, stall_in(b)),
            None => old(cfg).track_stall_behavior@,
        }),
        final(cfg).track_max_lag_ms@ == (match max_lag_ms {
            Some(ms) => old(cfg).track_max_lag_ms@.insert(name@, ms),
            None => old(cfg).track_max_lag_ms@,
        }),
        *final(cfg) == (config::PortalConfig {
            video_tracks: final(cfg).video_tracks,
            frame_video_tracks: final(cfg).frame_video_tracks,
            track_stall_behavior: final(cfg).track_stall_behavior,
            track_max_lag_ms: final(cfg).track_max_lag_ms,
            ..*old(cfg)
        }),
{
    cfg.add_video(
        name.clone(),
        Codec::from(codec),
        quality,
        max_bitrate_kbps,
        simulcast,
        screencast,
    );
    assert(cfg.video_tracks@.len() > old(cfg).video_tracks@.len() ==> cfg.video_tracks@.drop_last()
        =~= old(cfg).video_tracks@);
    assert(cfg.frame_video_tracks@.len() > old(cfg).frame_video_tracks@.len()
        ==> cfg.frame_video_tracks@.drop_last() =~= old(cfg).frame_video_tracks@);
    match stall_behavior {
        Some(b) => {
            cfg.set_track_stall_behavior(name.clone(), types::StallBehavior::from(b));
        },
        None => {},
    }
    match max_lag_ms {
        Some(ms) => {
            cfg.set_track_max_lag_ms(name, ms);
        },
        None => {},
    }
}

// ---------------------------------------------------------------------------
// Records
// ---------------------------------------------------------------------------

/// Decoded video frame: packed RGB24.
#[derive(Debug, Clone)]
pub struct VideoFrame {
    pub width: u32,
    pub height: u32,
    pub data: Vec<u8>,
    pub timestamp_us: u64,
    pub source: FrameSource,
}

/// Whether a frame crossed as it was.
pub open spec fn same_frame(v: VideoFrame, f: types::FrameView) -> bool {
    &&& v.width == f.width
    &&& v.height == f.height
    &&& v.data@ == f.data
    &&& v.timestamp_us == f.timestamp_us
    &&& v.source == source_out(f.source)
}

/// A frame as it crosses, with its own copy of the pixels.
pub fn frame_from_core(f: &VideoFrameData) -> (v: VideoFrame)
    ensures
        same_frame(v, f@),
{
    let mut data: Vec<u8> = Vec::new();
    data.extend_from_slice(bytes_as_slice(&f.data));
    assert(data@ =~= f@.data);
    VideoFrame {
        width: f.width,
        height: f.height,
        data,
        timestamp_us: f.timestamp_us,
        source: FrameSource::from(f.source),
    }
}

/// A state with its frames.
#[derive(Debug, Clone)]
pub struct Observation {
    pub timestamp_us: u64,
    pub state: NameMap<u64>,
    pub frames: NameMap<VideoFrame>,
}

/// A copy of named numbers.
fn copy_numbers(m: &NameMap<u64>) -> (c: NameMap<u64>)
    ensures
        c@ == m@,
{
    let c: NameMap<u64> = m.clone();
    assert(c@ =~= m@);
    c
}

/// Frames as they cross, by track.
fn frames_from_core(frames: &NameMap<VideoFrameData>) -> (out: NameMap<VideoFrame>)
    ensures
        out@.dom() == frames@.dom(),
        forall|n: Seq<char>| #[trigger]
            frames@.contains_key(n) ==> same_frame(out@[n], frames@[n]@),
{
    let entries: &Vec<(String, VideoFrameData)> = frames.entries();
    let mut out: NameMap<VideoFrame> = NameMap::new();
    let mut i: usize = 0;
    assert(entries@.take(0).len() == 0);
    assert(out@.dom() =~= crate::name_map::entries_map(entries@.take(0)).dom());
    while i < entries.len()
        invariant
            i <= entries@.len(),
            out@.dom() == crate::name_map::entries_map(entries@.take(i as int)).dom(),
            forall|n: Seq<char>| #[trigger]
                out@.contains_key(n) ==> same_frame(
                    out@[n],
                    crate::name_map::entries_map(entries@.take(i as int))[n]@,
                ),
        decreases entries@.len() - i,
    {
        let frame: VideoFrame = frame_from_core(&entries[i].1);
        out.insert(entries[i].0.clone(), frame);
        i = i + 1;
        proof {
            let front = entries@.take(i as int);
            assert(front.drop_last() =~= entries@.take(i - 1));
            assert(front.last() == entries@[i - 1]);
            assert(out@.dom() =~= crate::name_map::entries_map(front).dom());
        }
    }
    assert(entries@.take(i as int) =~= entries@);
    out
}

/// An observation as it crosses.
pub fn observation_from_core(o: &types::Observation) -> (b: Observation)
    ensures
        b.timestamp_us == o.timestamp_us,
        b.state@ == o.raw_state@,
        b.frames@.dom() == o.frames@.dom(),
        forall|n: Seq<char>| #[trigger]
            o.frames@.contains_key(n) ==> same_frame(b.frames@[n], o.frames@[n]@),
{
    Observation {
        timestamp_us: o.timestamp_us,
        state: copy_numbers(&o.raw_state),
        frames: frames_from_core(&o.frames),
    }
}

/// An action.
#[derive(Debug, Clone)]
pub struct Action {
    pub values: NameMap<u64>,
    pub timestamp_us: u64,
    pub in_reply_to_ts_us: Option<u64>,
    pub sender: String,
    /// Whether the sender was the active operator.
    pub active: bool,
}

/// An action as it crosses.
pub fn action_from_core(a: &types::Action) -> (b: Action)
    ensures
        b.active == a.active,
        b.values@ == a.raw_values@,
        b.timestamp_us == a.timestamp_us,
        b.in_reply_to_ts_us == a.in_reply_to_ts_us,
        b.sender@ == a.sender@,
{
    Action {
        values: copy_numbers(&a.raw_values),
        timestamp_us: a.timestamp_us,
        in_reply_to_ts_us: a.in_reply_to_ts_us,
        sender: a.sender.clone(),
        active: a.active,
    }
}

/// A state.
#[derive(Debug, Clone)]
pub struct State {
    pub values: NameMap<u64>,
    pub timestamp_us: u64,
}

/// A state as it crosses.
pub fn state_from_core(s: &types::State) -> (b: State)
    ensures
        b.values@ == s.raw_values@,
        b.timestamp_us == s.timestamp_us,
{
    State { values: copy_numbers(&s.raw_values), timestamp_us: s.timestamp_us }
}

/// A dropped state as it crosses: every value widened.
pub fn dropped_from_core(d: &NameMap<TypedValue>) -> (b: NameMap<u64>)
    ensures
        b@ == d@.map_values(|v: TypedValue| v.widened()),
{
    let entries: &Vec<(String, TypedValue)> = d.entries();
    let mut b: NameMap<u64> = NameMap::new();
    let mut i: usize = 0;
    assert(entries@.take(0).len() == 0);
    assert(b@ =~= crate::name_map::entries_map(entries@.take(0)).map_values(
        |v: TypedValue| v.widened(),
    ));
    while i < entries.len()
        invariant
            i <= entries@.len(),
            b@ == crate::name_map::entries_map(entries@.take(i as int)).map_values(
                |v: TypedValue| v.widened(),
            ),
        decreases entries@.len() - i,
    {
        b.insert(entries[i].0.clone(), entries[i].1.as_f64());
        i = i + 1;
        proof {
            let front = entries@.take(i as int);
            assert(front.drop_last() =~= entries@.take(i - 1));
            assert(front.last() == entries@[i - 1]);
            assert(b@ =~= crate::name_map::entries_map(front).map_values(
                |v: TypedValue| v.widened(),
            ));
        }
    }
    assert(entries@.take(i as int) =~= entries@);
    b
}

/// The type that a schema declares for a name: that of the first field of the
/// name, and binary64 for a name that it does not declare.
pub open spec fn declared_type(schema: Seq<config::FieldSpec>, name: Seq<char>) -> dtype::DType
    decreases schema.len(),
{
    if schema.len() == 0 {
        dtype::DType::F64
    } else if schema[0].name@ == name {
        schema[0].dtype
    } else {
        declared_type(schema.skip(1), name)
    }
}

fn find_type(schema: &[config::FieldSpec], name: &str) -> (d: dtype::DType)
    ensures
        d == declared_type(schema@, name@),
{
    let mut i: usize = 0;
    assert(schema@.skip(0) =~= schema@);
    while i < schema.len()
        invariant
            i <= schema@.len(),
            declared_type(schema@, name@) == declared_type(schema@.skip(i as int), name@),
        decreases schema@.len() - i,
    {
        proof {
            assert(schema@.skip(i as int)[0] == schema@[i as int]);
            assert(schema@.skip(i as int).skip(1) =~= schema@.skip(i + 1));
        }
        if text::same(schema[i].name.as_str(), name) {
            return schema[i].dtype;
        }
        i = i + 1;
    }
    dtype::DType::F64
}

/// Numbers from the other side as values of the declared types. A name that
/// the schema does not declare stays, as binary64, so that it is reported
/// when it is sent.
pub fn f64_to_typed(values: &NameMap<u64>, schema: &[config::FieldSpec]) -> (typed: NameMap<
    TypedValue,
>)
    ensures
        typed@.dom() == values@.dom(),
        forall|n: Seq<char>| #[trigger]
            values@.contains_key(n) ==> typed@[n] == types::typed_value(
                values@[n],
                declared_type(schema@, n),
            ),
{
    let entries: &Vec<(String, u64)> = values.entries();
    let mut typed: NameMap<TypedValue> = NameMap::new();
    let mut i: usize = 0;
    assert(entries@.take(0).len() == 0);
    assert(typed@.dom() =~= crate::name_map::entries_map(entries@.take(0)).dom());
    while i < entries.len()
        invariant
            i <= entries@.len(),
            typed@.dom() == crate::name_map::entries_map(entries@.take(i as int)).dom(),
            forall|n: Seq<char>| #[trigger]
                typed@.contains_key(n) ==> typed@[n] == types::typed_value(
                    crate::name_map::entries_map(entries@.take(i as int))[n],
                    declared_type(schema@, n),
                ),
        decreases entries@.len() - i,
    {
        let name: &str = entries[i].0.as_str();
        let dtype: dtype::DType = find_type(schema, name);
        typed.insert(entries[i].0.clone(), TypedValue::from_f64(entries[i].1, dtype));
        i = i + 1;
        proof {
            let front = entries@.take(i as int);
            assert(front.drop_last() =~= entries@.take(i - 1));
            assert(front.last() == entries@[i - 1]);
            assert(typed@.dom() =~= crate::name_map::entries_map(front).dom());
        }
    }
    assert(entries@.take(i as int) =~= entries@);
    typed
}

/// Numbers from the other side never disagree with the declared types: what
/// was converted by a schema can be sent by it.
pub proof fn law_converted_values_can_be_sent(
    values: Map<Seq<char>, u64>,
    typed: Map<Seq<char>, TypedValue>,
    schema: Seq<config::FieldSpec>,
)
    requires
        typed.dom() == values.dom(),
        forall|n: Seq<char>| #[trigger]
            values.contains_key(n) ==> typed[n] == types::typed_value(
                values[n],
                declared_type(schema, n),
            ),
        forall|i: int, j: int|
            0 <= i < j < schema.len() ==> (#[trigger] schema[i]).name@ != (
            #[trigger] schema[j]).name@,
    ensures
        crate::data::types_agree(schema, typed),
{
    assert forall|i: int| 0 <= i < schema.len() implies crate::data::field_agrees(
        #[trigger] schema[i],
        typed,
    ) by {
        lemma_declared(schema, i);
        if typed.contains_key(schema[i].name@) {
            assert(values.contains_key(schema[i].name@));
        }
    }
}

proof fn lemma_declared(schema: Seq<config::FieldSpec>, i: int)
    requires
        0 <= i < schema.len(),
        forall|a: int, b: int|
            0 <= a < b < schema.len() ==> (#[trigger] schema[a]).name@ != (
            #[trigger] schema[b]).name@,
    ensures
        declared_type(schema, schema[i].name@) == schema[i].dtype,
    decreases schema.len(),
{
    if i > 0 {
        assert(schema[0].name@ != schema[i].name@);
        let rest = schema.skip(1);
        assert forall|a: int, b: int| 0 <= a < b < rest.len() implies (
        #[trigger] rest[a]).name@ != (#[trigger] rest[b]).name@ by {
            assert(schema[a + 1].name@ != schema[b + 1].name@);
        }
        lemma_declared(rest, i - 1);
        assert(rest[i - 1] == schema[i]);
    }
}

// ---------------------------------------------------------------------------
// Metrics
// ---------------------------------------------------------------------------

/// What was sent and received.
#[derive(Debug, Clone, Default)]
pub struct TransportMetrics {
    pub frames_sent: NameMap<u64>,
    pub frames_received: NameMap<u64>,
    pub frames_dropped_publisher_full: NameMap<u64>,
    pub bytes_sent: NameMap<u64>,
    pub bytes_received: NameMap<u64>,
    pub states_sent: u64,
    pub states_received: u64,
    pub actions_sent: u64,
    pub actions_received: u64,
    pub frame_jitter_us: NameMap<u64>,
    pub state_jitter_us: u64,
    pub action_jitter_us: u64,
}

/// How full the sync buffer is.
#[derive(Debug, Clone, Default)]
pub struct BufferMetrics {
    pub video_fill: NameMap<u64>,
    pub state_fill: u64,
    pub evictions: NameMap<u64>,
}

/// Snapshot of a session.
#[derive(Debug, Clone, Default)]
pub struct PortalMetrics {
    pub sync: SyncMetrics,
    pub transport: TransportMetrics,
    pub buffers: BufferMetrics,
    pub rtt: RttMetrics,
    pub time_sync: TimeSyncMetrics,
    pub policy: PolicyMetrics,
}

fn fill_from_core(fill: &NameMap<usize>) -> (b: NameMap<u64>)
    ensures
        b@ == fill@.map_values(|n: usize| n as u64),
{
    let entries: &Vec<(String, usize)> = fill.entries();
    let mut b: NameMap<u64> = NameMap::new();
    let mut i: usize = 0;
    assert(entries@.take(0).len() == 0);
    assert(b@ =~= crate::name_map::entries_map(entries@.take(0)).map_values(
        |n: usize| n as u64,
    ));
    while i < entries.len()
        invariant
            i <= entries@.len(),
            b@ == crate::name_map::entries_map(entries@.take(i as int)).map_values(
                |n: usize| n as u64,
            ),
        decreases entries@.len() - i,
    {
        b.insert(entries[i].0.clone(), entries[i].1 as u64);
        i = i + 1;
        proof {
            let front = entries@.take(i as int);
            assert(front.drop_last() =~= entries@.take(i - 1));
            assert(front.last() == entries@[i - 1]);
            assert(b@ =~= crate::name_map::entries_map(front).map_values(|n: usize| n as u64));
        }
    }
    assert(entries@.take(i as int) =~= entries@);
    b
}

/// A snapshot as it crosses, together with that of the clock.
pub fn metrics_from_core(m: metrics::PortalMetrics, time_sync: TimeSyncMetrics) -> (b:
    PortalMetrics)
    ensures
        b.sync == m.sync,
        b.rtt == m.rtt,
        b.policy == m.policy,
        b.time_sync == time_sync,
        b.time_sync.source == time_sync.source,
        b.time_sync.measured_offset_us == time_sync.measured_offset_us,
        b.transport.frames_sent == m.transport.frames_sent,
        b.transport.frames_received == m.transport.frames_received,
        b.transport.frames_dropped_publisher_full == m.transport.frames_dropped_publisher_full,
        b.transport.bytes_sent == m.transport.bytes_sent,
        b.transport.bytes_received == m.transport.bytes_received,
        b.transport.states_sent == m.transport.states_sent,
        b.transport.states_received == m.transport.states_received,
        b.transport.actions_sent == m.transport.actions_sent,
        b.transport.actions_received == m.transport.actions_received,
        b.transport.frame_jitter_us == m.transport.frame_jitter_us,
        b.transport.state_jitter_us == m.transport.state_jitter_us,
        b.transport.action_jitter_us == m.transport.action_jitter_us,
        b.buffers.video_fill@ == m.buffers.video_fill@.map_values(|n: usize| n as u64),
        b.buffers.state_fill == m.buffers.state_fill,
        b.buffers.evictions == m.buffers.evictions,
{
    let video_fill: NameMap<u64> = fill_from_core(&m.buffers.video_fill);
    PortalMetrics {
        sync: m.sync,
        transport: TransportMetrics {
            frames_sent: m.transport.frames_sent,
            frames_received: m.transport.frames_received,
            frames_dropped_publisher_full: m.transport.frames_dropped_publisher_full,
            bytes_sent: m.transport.bytes_sent,
            bytes_received: m.transport.bytes_received,
            states_sent: m.transport.states_sent,
            states_received: m.transport.states_received,
            actions_sent: m.transport.actions_sent,
            actions_received: m.transport.actions_received,
            frame_jitter_us: m.transport.frame_jitter_us,
            state_jitter_us: m.transport.state_jitter_us,
            action_jitter_us: m.transport.action_jitter_us,
        },
        buffers: BufferMetrics {
            video_fill,
            state_fill: m.buffers.state_fill as u64,
            evictions: m.buffers.evictions,
        },
        rtt: m.rtt,
        time_sync,
        policy: m.policy,
    }
}

// ---------------------------------------------------------------------------
// Errors
// ---------------------------------------------------------------------------

/// Failures that the other side is told.
#[derive(Debug)]
pub enum PortalError {
    Room(String),
    AlreadyConnected,
    NotConnected,
    NoPeer,
    AmbiguousPeer,
    UnknownVideoTrack(String),
    UnknownChunk(String),
    WrongFrameSize { expected: u64, got: u64 },
    InvalidFrameDimensions { width: u32, height: u32 },
    Deserialization(String),
    Codec(String),
    WrongRole(Role),
    ObservationSyncDisabled,
    DtypeMismatch { field: String, expected: DType, got: String },
    Rpc { code: u32, message: String, data: Option<String> },
}

impl PortalError {
    /// The text that describes the failure to a person on the other side.
    pub open spec fn text(self) -> Seq<char> {
        match self {
            PortalError::Room(m) => "room error: "@ + m@,
            PortalError::AlreadyConnected => "portal is already connected"@,
            PortalError::NotConnected => "portal is not connected"@,
            PortalError::NoPeer => "no peer in the room"@,
            PortalError::AmbiguousPeer => {
                "room has multiple remote participants; pass destination explicitly"@
            },
            PortalError::UnknownVideoTrack(name) => "unknown video track: "@ + name@,
            PortalError::UnknownChunk(name) => "unknown action chunk: "@ + name@,
            PortalError::WrongFrameSize { expected, got } => "wrong frame size: expected "@
                + text::decimal(expected as nat) + " bytes, got "@ + text::decimal(got as nat),
            PortalError::InvalidFrameDimensions { width, height } => {
                "invalid frame dimensions: "@ + text::decimal(width as nat) + "x"@ + text::decimal(
                    height as nat,
                ) + " (must both be even)"@
            },
            PortalError::Deserialization(m) => "deserialization error: "@ + m@,
            PortalError::Codec(m) => "frame codec error: "@ + m@,
            PortalError::WrongRole(role) => "operation not available for role "@ + role.name(),
            PortalError::ObservationSyncDisabled => "observation sync is off on this peer"@,
            PortalError::DtypeMismatch { field, expected, got } => "field '"@ + field@
                + "' declared as "@ + dtype_in(expected).name() + " but sent as "@ + got@,
            PortalError::Rpc { code, message, .. } => "rpc error "@ + text::decimal(code as nat)
                + ": "@ + message@,
        }
    }

    /// The failure in words.
    pub fn describe(&self) -> (s: String)
        ensures
            s@ == self.text(),
    {
        match self {
            PortalError::Room(m) => joined("room error: ", m.as_str()),
            PortalError::AlreadyConnected => "portal is already connected".to_owned(),
            PortalError::NotConnected => "portal is not connected".to_owned(),
            PortalError::NoPeer => "no peer in the room".to_owned(),
            PortalError::AmbiguousPeer => {
                "room has multiple remote participants; pass destination explicitly".to_owned()
            },
            PortalError::UnknownVideoTrack(name) => joined(
                "unknown video track: ",
                name.as_str(),
            ),
            PortalError::UnknownChunk(name) => joined("unknown action chunk: ", name.as_str()),
            PortalError::WrongFrameSize { expected, got } => {
                let mut s: String = "wrong frame size: expected ".to_owned();
                text::append_decimal(&mut s, *expected as u128);
                s.append(" bytes, got ");
                text::append_decimal(&mut s, *got as u128);
                s
            },
            PortalError::InvalidFrameDimensions { width, height } => {
                let mut s: String = "invalid frame dimensions: ".to_owned();
                text::append_decimal(&mut s, *width as u128);
                s.append("x");
                text::append_decimal(&mut s, *height as u128);
                s.append(" (must both be even)");
                s
            },
            PortalError::Deserialization(m) => joined("deserialization error: ", m.as_str()),
            PortalError::Codec(m) => joined("frame codec error: ", m.as_str()),
            PortalError::WrongRole(role) => joined(
                "operation not available for role ",
                role.variant_name(),
            ),
            PortalError::ObservationSyncDisabled => {
                "observation sync is off on this peer".to_owned()
            },
            PortalError::DtypeMismatch { field, expected, got } => {
                let mut s: String = joined("field '", field.as_str());
                s.append("' declared as ");
                s.append(dtype::DType::from(*expected).variant_name());
                s.append(" but sent as ");
                s.append(got.as_str());
                s
            },
            PortalError::Rpc { code, message, .. } => describe_rpc(*code, message.as_str()),
        }
    }
}

/// A failed procedure call in words.
fn describe_rpc(code: u32, message: &str) -> (s: String)
    ensures
        s@ == "rpc error "@ + text::decimal(code as nat) + ": "@ + message@,
{
    let mut s: String = "rpc error ".to_owned();
    text::append_decimal(&mut s, code as u128);
    s.append(": ");
    s.append(message);
    s
}

/// Whether a failure crossed as it was.
pub open spec fn same_error(b: PortalError, e: error::PortalError) -> bool {
    match e {
        error::PortalError::Room(s) => b == PortalError::Room(s),
        error::PortalError::AlreadyConnected => b is AlreadyConnected,
        error::PortalError::NotConnected => b is NotConnected,
        error::PortalError::NoPeer => b is NoPeer,
        error::PortalError::AmbiguousPeer => b is AmbiguousPeer,
        error::PortalError::UnknownVideoTrack { name } => b == PortalError::UnknownVideoTrack(
            name,
        ),
        error::PortalError::UnknownChunk { name } => b == PortalError::UnknownChunk(name),
        error::PortalError::WrongFrameSize { expected, got } => b == (
        PortalError::WrongFrameSize { expected: expected as u64, got: got as u64 }),
        error::PortalError::InvalidFrameDimensions { width, height } => b == (
        PortalError::InvalidFrameDimensions { width, height }),
        error::PortalError::Deserialization(s) => b == PortalError::Deserialization(s),
        error::PortalError::Codec(s) => b == PortalError::Codec(s),
        error::PortalError::WrongRole(r) => b matches PortalError::WrongRole(x) && x == (
        match r {
            types::Role::Robot => Role::Robot,
            types::Role::Operator => Role::Operator,
            types::Role::Observer => Role::Observer,
        }),
        error::PortalError::ObservationSyncDisabled => b is ObservationSyncDisabled,
        error::PortalError::DtypeMismatch { field, expected, got } => b matches
            PortalError::DtypeMismatch { field: f, expected: x, got: g } && f == field && x
            == dtype_out(expected) && g@ == got@,
        error::PortalError::Rpc(r) => b == (PortalError::Rpc {
            code: r.code,
            message: r.message,
            data: r.data,
        }),
    }
}

/// A failure as it crosses.
pub fn error_from_core(e: error::PortalError) -> (b: PortalError)
    ensures
        same_error(b, e),
{
    match e {
        error::PortalError::Room(s) => PortalError::Room(s),
        error::PortalError::AlreadyConnected => PortalError::AlreadyConnected,
        error::PortalError::NotConnected => PortalError::NotConnected,
        error::PortalError::NoPeer => PortalError::NoPeer,
        error::PortalError::AmbiguousPeer => PortalError::AmbiguousPeer,
        error::PortalError::UnknownVideoTrack { name } => PortalError::UnknownVideoTrack(name),
        error::PortalError::UnknownChunk { name } => PortalError::UnknownChunk(name),
        error::PortalError::WrongFrameSize { expected, got } => PortalError::WrongFrameSize {
            expected: expected as u64,
            got: got as u64,
        },
        error::PortalError::InvalidFrameDimensions { width, height } => {
            PortalError::InvalidFrameDimensions { width, height }
        },
        error::PortalError::Deserialization(s) => PortalError::Deserialization(s),
        error::PortalError::Codec(s) => PortalError::Codec(s),
        error::PortalError::WrongRole(r) => PortalError::WrongRole(Role::from(r)),
        error::PortalError::ObservationSyncDisabled => PortalError::ObservationSyncDisabled,
        error::PortalError::DtypeMismatch { field, expected, got } => {
            PortalError::DtypeMismatch {
                field,
                expected: DType::from(expected),
                got: got.to_owned(),
            }
        },
        error::PortalError::Rpc(r) => PortalError::Rpc {
            code: r.code,
            message: r.message,
            data: r.data,
        },
    }
}

/// Failures of reading a configuration file that the other side is told.
#[derive(Debug)]
pub enum ConfigFileError {
    Parse(String),
    Io(String),
    UnsupportedVersion { got: u32, supported: u32 },
    Invalid(String),
}

impl From<config_file::ConfigFileError> for ConfigFileError {
    fn from(e: config_file::ConfigFileError) -> (b: Self) {
        match e {
            config_file::ConfigFileError::Parse(m) => ConfigFileError::Parse(m),
            config_file::ConfigFileError::Io(m) => ConfigFileError::Io(m),
            config_file::ConfigFileError::UnsupportedVersion { got, supported } => {
                ConfigFileError::UnsupportedVersion { got, supported }
            },
            config_file::ConfigFileError::Invalid(m) => ConfigFileError::Invalid(m),
        }
    }
}

impl vstd::std_specs::convert::FromSpecImpl<config_file::ConfigFileError> for ConfigFileError {
    open spec fn obeys_from_spec() -> bool {
        true
    }

    open spec fn from_spec(e: config_file::ConfigFileError) -> Self {
        match e {
            config_file::ConfigFileError::Parse(m) => ConfigFileError::Parse(m),
            config_file::ConfigFileError::Io(m) => ConfigFileError::Io(m),
            config_file::ConfigFileError::UnsupportedVersion { got, supported } => {
                ConfigFileError::UnsupportedVersion { got, supported }
            },
            config_file::ConfigFileError::Invalid(m) => ConfigFileError::Invalid(m),
        }
    }
}

/// Failure of a procedure call.
#[derive(Debug)]
pub enum RpcError {
    Error { code: u32, message: String, data: Option<String> },
}

impl RpcError {
    /// The failure in words: its code and message.
    pub fn describe(&self) -> (s: String)
        ensures
            match *self {
                RpcError::Error { code, message, .. } => s@ == "rpc error "@ + text::decimal(
                    code as nat,
                ) + ": "@ + message@,
            },
    {
        match self {
            RpcError::Error { code, message, .. } => describe_rpc(*code, message.as_str()),
        }
    }
}

impl From<rpc::RpcError> for RpcError {
    fn from(e: rpc::RpcError) -> (r: Self) {
        RpcError::Error { code: e.code, message: e.message, data: e.data }
    }
}

impl vstd::std_specs::convert::FromSpecImpl<rpc::RpcError> for RpcError {
    open spec fn obeys_from_spec() -> bool {
        true
    }

    open spec fn from_spec(e: rpc::RpcError) -> Self {
        RpcError::Error { code: e.code, message: e.message, data: e.data }
    }
}

impl From<RpcError> for rpc::RpcError {
    fn from(e: RpcError) -> (r: Self) {
        match e {
            RpcError::Error { code, message, data } => rpc::RpcError { code, message, data },
        }
    }
}

impl vstd::std_specs::convert::FromSpecImpl<RpcError> for rpc::RpcError {
    open spec fn obeys_from_spec() -> bool {
        true
    }

    open spec fn from_spec(e: RpcError) -> Self {
        match e {
            RpcError::Error { code, message, data } => rpc::RpcError { code, message, data },
        }
    }
}

} // verus!
