//! Session settings read from a configuration file.
//!
//! The file describes what both peers share: schemas, tracks and sync
//! settings. Session, role and key are given when it is loaded.
use crate::codec::Codec;
use crate::config::{ChunkSpec, FieldSpec, FrameVideoSpec, PortalConfig, VideoTrackSpec, DEFAULT_MJPEG_QUALITY};
use crate::dtype::DType;
use crate::error::joined;
use crate::ieee;
use crate::text;
use crate::types::Role;
use vstd::prelude::*;

verus! {

/// The version of the file format that is understood.
pub const SUPPORTED_VERSION: u32 = 1;

#[derive(Debug)]
pub enum ConfigFileError {
    /// The text is not a file of the expected shape.
    Parse(String),
    /// The file could not be read.
    Io(String),
    /// The file has another version.
    UnsupportedVersion { got: u32, supported: u32 },
    /// The file asks for something impossible.
    Invalid(String),
}

impl ConfigFileError {
    /// The text that describes the error to a person.
    pub open spec fn text(self) -> Seq<char> {
        match self {
            ConfigFileError::Parse(m) => "yaml parse error: "@ + m@,
            ConfigFileError::Io(m) => "io error: "@ + m@,
            ConfigFileError::UnsupportedVersion { got, supported } => {
                "unsupported config-file version "@ + crate::text::decimal(got as nat)
                    + "; this build supports version "@ + crate::text::decimal(supported as nat)
            },
            ConfigFileError::Invalid(m) => "invalid config: "@ + m@,
        }
    }

    /// The error in words.
    pub fn describe(&self) -> (s: String)
        ensures
            s@ == self.text(),
    {
        match self {
            ConfigFileError::Parse(m) => joined("yaml parse error: ", m.as_str()),
            ConfigFileError::Io(m) => joined("io error: ", m.as_str()),
            ConfigFileError::UnsupportedVersion { got, supported } => {
                let mut s: String = "unsupported config-file version ".to_owned();
                crate::text::append_decimal(&mut s, *got as u128);
                s.append("; this build supports version ");
                crate::text::append_decimal(&mut s, *supported as u128);
                s
            },
            ConfigFileError::Invalid(m) => joined("invalid config: ", m.as_str()),
        }
    }
}

/// One video track in a file.
#[derive(Debug)]
pub struct VideoEntry {
    pub name: String,
    pub codec: Codec,
    pub quality: Option<u8>,
}

/// One field in a file.
#[derive(Debug)]
pub struct FieldEntry {
    pub name: String,
    pub dtype: DType,
}

/// One action chunk in a file.
#[derive(Debug)]
pub struct ChunkEntry {
    pub name: String,
    pub horizon: u32,
    pub fields: Vec<FieldEntry>,
}

/// A file, once its text has been parsed. What it leaves out keeps the
/// default.
#[derive(Debug)]
pub struct ConfigFileV1 {
    pub version: u32,
    pub fps: Option<u32>,
    pub slack: Option<u32>,
    /// Bit pattern of a binary32 number.
    pub tolerance: Option<u32>,
    pub state_reliable: Option<bool>,
    pub action_reliable: Option<bool>,
    pub reuse_stale_frames: Option<bool>,
    pub ping_ms: Option<u64>,
    pub action_subscription: Option<bool>,
    pub videos: Vec<VideoEntry>,
    pub state: Vec<FieldEntry>,
    pub action: Vec<FieldEntry>,
    pub action_chunks: Vec<ChunkEntry>,
}

// ---------------------------------------------------------------------------
// Names in a file
// ---------------------------------------------------------------------------

/// The small letter of an ASCII capital; any other character is its own.
pub open spec fn ascii_small(c: char) -> char {
    if 'A' <= c && c <= 'Z' {
        (c as u32 + 32) as char
    } else {
        c
    }
}

/// Text with ASCII capitals made small.
pub open spec fn small(s: Seq<char>) -> Seq<char> {
    s.map_values(|c: char| ascii_small(c))
}

fn same_letter(c: char, lower: char) -> (b: bool)
    ensures
        b == (ascii_small(c) == lower),
{
    let code: u32 = c as u32;
    let folded: u32 = if 65 <= code && code <= 90 {
        code + 32
    } else {
        code
    };
    folded == lower as u32
}

/// Whether `s` is `lower` but for ASCII capitals.
fn reads_as(s: &str, lower: &str) -> (b: bool)
    ensures
        b == (small(s@) == lower@),
{
    let n: usize = lower.unicode_len();
    if s.unicode_len() != n {
        return false;
    }
    let mut i: usize = 0;
    while i < n
        invariant
            n == s@.len() == lower@.len(),
            i <= n,
            forall|j: int| 0 <= j < i ==> ascii_small(#[trigger] s@[j]) == lower@[j],
        decreases n - i,
    {
        if !same_letter(s.get_char(i), lower.get_char(i)) {
            proof {
                assert(small(s@)[i as int] != lower@[i as int]);
            }
            return false;
        }
        i = i + 1;
    }
    assert(small(s@) =~= lower@);
    true
}

/// The codec that a name in a file stands for.
pub open spec fn named_codec(name: Seq<char>) -> Option<Codec> {
    if small(name) == "h264"@ {
        Some(Codec::H264)
    } else if small(name) == "raw"@ {
        Some(Codec::Raw)
    } else if small(name) == "png"@ {
        Some(Codec::Png)
    } else if small(name) == "mjpeg"@ {
        Some(Codec::Mjpeg)
    } else {
        None
    }
}

/// The codec of a name, in capitals or not; `None` for an unknown one.
pub fn codec_from_name(name: &str) -> (c: Option<Codec>)
    ensures
        c == named_codec(name@),
{
    if reads_as(name, "h264") {
        Some(Codec::H264)
    } else if reads_as(name, "raw") {
        Some(Codec::Raw)
    } else if reads_as(name, "png") {
        Some(Codec::Png)
    } else if reads_as(name, "mjpeg") {
        Some(Codec::Mjpeg)
    } else {
        None
    }
}

/// The type that a name in a file stands for.
pub open spec fn named_dtype(name: Seq<char>) -> Option<DType> {
    if small(name) == "f64"@ {
        Some(DType::F64)
    } else if small(name) == "f32"@ {
        Some(DType::F32)
    } else if small(name) == "i32"@ {
        Some(DType::I32)
    } else if small(name) == "i16"@ {
        Some(DType::I16)
    } else if small(name) == "i8"@ {
        Some(DType::I8)
    } else if small(name) == "u32"@ {
        Some(DType::U32)
    } else if small(name) == "u16"@ {
        Some(DType::U16)
    } else if small(name) == "u8"@ {
        Some(DType::U8)
    } else if small(name) == "bool"@ {
        Some(DType::Bool)
    } else {
        None
    }
}

/// The type of a name, in capitals or not; `None` for an unknown one.
pub fn dtype_from_name(name: &str) -> (d: Option<DType>)
    ensures
        d == named_dtype(name@),
{
    if reads_as(name, "f64") {
        Some(DType::F64)
    } else if reads_as(name, "f32") {
        Some(DType::F32)
    } else if reads_as(name, "i32") {
        Some(DType::I32)
    } else if reads_as(name, "i16") {
        Some(DType::I16)
    } else if reads_as(name, "i8") {
        Some(DType::I8)
    } else if reads_as(name, "u32") {
        Some(DType::U32)
    } else if reads_as(name, "u16") {
        Some(DType::U16)
    } else if reads_as(name, "u8") {
        Some(DType::U8)
    } else if reads_as(name, "bool") {
        Some(DType::Bool)
    } else {
        None
    }
}

// ---------------------------------------------------------------------------
// Validation
// ---------------------------------------------------------------------------

/// Whether an earlier track has the name of track `i`.
pub open spec fn video_repeats(videos: Seq<VideoEntry>, i: int) -> bool {
    exists|j: int| 0 <= j < i && (#[trigger] videos[j]).name@ == videos[i].name@
}

/// Quality of a track, the default of its codec where the file has none.
pub open spec fn quality_of(v: VideoEntry) -> u8 {
    match v.quality {
        Some(q) => q,
        None => if v.codec == Codec::Mjpeg {
            DEFAULT_MJPEG_QUALITY
        } else {
            0
        },
    }
}

/// What is wrong with track `i`.
pub open spec fn video_problem(videos: Seq<VideoEntry>, i: int) -> Option<Seq<char>> {
    if video_repeats(videos, i) {
        Some("duplicate video track '"@ + videos[i].name@ + "'"@)
    } else if videos[i].codec == Codec::Mjpeg && !(1 <= quality_of(videos[i]) <= 100) {
        Some(
            "video '"@ + videos[i].name@ + "': mjpeg quality must be in 1..=100, got "@
                + text::decimal(quality_of(videos[i]) as nat),
        )
    } else {
        None
    }
}

/// What is wrong with the first faulty track from `i` on.
pub open spec fn videos_problem(videos: Seq<VideoEntry>, i: int) -> Option<Seq<char>>
    decreases videos.len() - i,
{
    if i >= videos.len() {
        None
    } else {
        match video_problem(videos, i) {
            Some(p) => Some(p),
            None => videos_problem(videos, i + 1),
        }
    }
}

/// Whether an earlier chunk has the name of chunk `i`.
pub open spec fn chunk_repeats(chunks: Seq<ChunkEntry>, i: int) -> bool {
    exists|j: int| 0 <= j < i && (#[trigger] chunks[j]).name@ == chunks[i].name@
}

/// What is wrong with chunk `i`.
pub open spec fn chunk_problem(chunks: Seq<ChunkEntry>, i: int) -> Option<Seq<char>> {
    if chunk_repeats(chunks, i) {
        Some("duplicate action chunk '"@ + chunks[i].name@ + "'"@)
    } else if chunks[i].horizon == 0 {
        Some("action chunk '"@ + chunks[i].name@ + "' horizon must be > 0"@)
    } else {
        None
    }
}

/// What is wrong with the first faulty chunk from `i` on.
pub open spec fn chunks_problem(chunks: Seq<ChunkEntry>, i: int) -> Option<Seq<char>>
    decreases chunks.len() - i,
{
    if i >= chunks.len() {
        None
    } else {
        match chunk_problem(chunks, i) {
            Some(p) => Some(p),
            None => chunks_problem(chunks, i + 1),
        }
    }
}

/// The first thing wrong with a file.
pub open spec fn problem(file: ConfigFileV1) -> Option<Seq<char>> {
    match videos_problem(file.videos@, 0) {
        Some(p) => Some(p),
        None => if file.fps == Some(0u32) {
            Some("fps must be > 0"@)
        } else if file.slack == Some(0u32) {
            Some("slack must be > 0"@)
        } else if file.tolerance matches Some(t) && !crate::config::positive(t) {
            Some("tolerance must be > 0"@)
        } else {
            chunks_problem(file.action_chunks@, 0)
        },
    }
}

fn repeats_video(videos: &Vec<VideoEntry>, i: usize) -> (b: bool)
    requires
        i < videos@.len(),
    ensures
        b == video_repeats(videos@, i as int),
{
    let mut j: usize = 0;
    while j < i
        invariant
            j <= i < videos@.len(),
            forall|k: int| 0 <= k < j ==> (#[trigger] videos@[k]).name@ != videos@[i as int].name@,
        decreases i - j,
    {
        if text::same(videos[j].name.as_str(), videos[i].name.as_str()) {
            return true;
        }
        j = j + 1;
    }
    false
}

fn repeats_chunk(chunks: &Vec<ChunkEntry>, i: usize) -> (b: bool)
    requires
        i < chunks@.len(),
    ensures
        b == chunk_repeats(chunks@, i as int),
{
    let mut j: usize = 0;
    while j < i
        invariant
            j <= i < chunks@.len(),
            forall|k: int| 0 <= k < j ==> (#[trigger] chunks@[k]).name@ != chunks@[i as int].name@,
        decreases i - j,
    {
        if text::same(chunks[j].name.as_str(), chunks[i].name.as_str()) {
            return true;
        }
        j = j + 1;
    }
    false
}

fn entry_quality(v: &VideoEntry) -> (q: u8)
    ensures
        q == quality_of(*v),
{
    match v.quality {
        Some(q) => q,
        None => if v.codec == Codec::Mjpeg {
            DEFAULT_MJPEG_QUALITY
        } else {
            0
        },
    }
}

/// Looks for anything that the setters would refuse.
pub fn validate(file: &ConfigFileV1) -> (r: Result<(), ConfigFileError>)
    ensures
        match r {
            Ok(_) => problem(*file) is None,
            Err(e) => e matches ConfigFileError::Invalid(m) && problem(*file) == Some(m@),
        },
{
    let mut i: usize = 0;
    while i < file.videos.len()
        invariant
            i <= file.videos@.len(),
            videos_problem(file.videos@, 0) == videos_problem(file.videos@, i as int),
        decreases file.videos@.len() - i,
    {
        if repeats_video(&file.videos, i) {
            let mut m: String = "duplicate video track '".to_owned();
            m.append(file.videos[i].name.as_str());
            m.append("'");
            return Err(ConfigFileError::Invalid(m));
        }
        if file.videos[i].codec == Codec::Mjpeg {
            let q: u8 = entry_quality(&file.videos[i]);
            if q < 1 || q > 100 {
                let mut m: String = "video '".to_owned();
                m.append(file.videos[i].name.as_str());
                m.append("': mjpeg quality must be in 1..=100, got ");
                text::append_decimal(&mut m, q as u128);
                return Err(ConfigFileError::Invalid(m));
            }
        }
        i = i + 1;
    }
    match file.fps {
        Some(fps) => {
            if fps == 0 {
                return Err(ConfigFileError::Invalid("fps must be > 0".to_owned()));
            }
        },
        None => {},
    }
    match file.slack {
        Some(slack) => {
            if slack == 0 {
                return Err(ConfigFileError::Invalid("slack must be > 0".to_owned()));
            }
        },
        None => {},
    }
    match file.tolerance {
        Some(t) => {
            if t == 0 || t > ieee::F32_INF {
                return Err(ConfigFileError::Invalid("tolerance must be > 0".to_owned()));
            }
        },
        None => {},
    }
    let mut k: usize = 0;
    while k < file.action_chunks.len()
        invariant
            k <= file.action_chunks@.len(),
            problem(*file) == chunks_problem(file.action_chunks@, 0),
            chunks_problem(file.action_chunks@, 0) == chunks_problem(
                file.action_chunks@,
                k as int,
            ),
        decreases file.action_chunks@.len() - k,
    {
        if repeats_chunk(&file.action_chunks, k) {
            let mut m: String = "duplicate action chunk '".to_owned();
            m.append(file.action_chunks[k].name.as_str());
            m.append("'");
            return Err(ConfigFileError::Invalid(m));
        }
        if file.action_chunks[k].horizon == 0 {
            let mut m: String = "action chunk '".to_owned();
            m.append(file.action_chunks[k].name.as_str());
            m.append("' horizon must be > 0");
            return Err(ConfigFileError::Invalid(m));
        }
        k = k + 1;
    }
    Ok(())
}

// ---------------------------------------------------------------------------
// Loading
// ---------------------------------------------------------------------------

/// WebRTC tracks among the first `n` tracks of a file.
pub open spec fn media_tracks(videos: Seq<VideoEntry>, n: nat) -> Seq<VideoTrackSpec>
    decreases n,
{
    if n == 0 {
        Seq::empty()
    } else {
        let rest = media_tracks(videos, (n - 1) as nat);
        let v = videos[n - 1];
        if v.codec.on_media_path() {
            rest.push(
                VideoTrackSpec {
                    name: v.name,
                    codec: v.codec,
                    max_bitrate_kbps: None,
                    simulcast: false,
                    screencast: false,
                },
            )
        } else {
            rest
        }
    }
}

/// Byte-stream tracks among the first `n` tracks of a file.
pub open spec fn stream_tracks(videos: Seq<VideoEntry>, n: nat) -> Seq<FrameVideoSpec>
    decreases n,
{
    if n == 0 {
        Seq::empty()
    } else {
        let rest = stream_tracks(videos, (n - 1) as nat);
        let v = videos[n - 1];
        if v.codec.on_media_path() {
            rest
        } else {
            rest.push(FrameVideoSpec { name: v.name, codec: v.codec, quality: quality_of(v) })
        }
    }
}

/// A schema of a file.
pub open spec fn schema_of(fields: Seq<FieldEntry>) -> Seq<FieldSpec> {
    fields.map_values(|f: FieldEntry| FieldSpec { name: f.name, dtype: f.dtype })
}

fn field_specs(fields: &Vec<FieldEntry>) -> (v: Vec<FieldSpec>)
    ensures
        v@ == schema_of(fields@),
{
    let mut v: Vec<FieldSpec> = Vec::new();
    let mut i: usize = 0;
    while i < fields.len()
        invariant
            i <= fields@.len(),
            v@ == schema_of(fields@.take(i as int)),
        decreases fields@.len() - i,
    {
        v.push(FieldSpec::new(fields[i].name.clone(), fields[i].dtype));
        i = i + 1;
        assert(v@ =~= schema_of(fields@.take(i as int)));
    }
    assert(fields@.take(i as int) =~= fields@);
    v
}

/// A track of the first `n` entries was declared under the name of one of
/// them.
proof fn lemma_declared_names(videos: Seq<VideoEntry>, n: nat, name: Seq<char>)
    requires
        n <= videos.len(),
        forall|j: int| 0 <= j < n ==> (#[trigger] videos[j]).name@ != name,
    ensures
        !crate::config::in_video_tracks(media_tracks(videos, n), name),
        !crate::config::in_frame_tracks(stream_tracks(videos, n), name),
    decreases n,
{
    if n > 0 {
        lemma_declared_names(videos, (n - 1) as nat, name);
        let m = media_tracks(videos, n);
        let s = stream_tracks(videos, n);
        let m0 = media_tracks(videos, (n - 1) as nat);
        let s0 = stream_tracks(videos, (n - 1) as nat);
        assert(videos[n - 1].name@ != name);
        assert forall|i: int| 0 <= i < m.len() implies (#[trigger] m[i]).name@ != name by {
            if i < m0.len() {
                assert(m0[i].name@ != name);
            }
        }
        assert forall|i: int| 0 <= i < s.len() implies (#[trigger] s[i]).name@ != name by {
            if i < s0.len() {
                assert(s0[i].name@ != name);
            }
        }
    }
}

proof fn lemma_videos_clean(videos: Seq<VideoEntry>, from: int, i: int)
    requires
        0 <= from <= i < videos.len(),
        videos_problem(videos, from) is None,
    ensures
        video_problem(videos, i) is None,
    decreases i - from,
{
    if from < i {
        lemma_videos_clean(videos, from + 1, i);
    }
}

proof fn lemma_chunks_clean(chunks: Seq<ChunkEntry>, from: int, i: int)
    requires
        0 <= from <= i < chunks.len(),
        chunks_problem(chunks, from) is None,
    ensures
        chunk_problem(chunks, i) is None,
    decreases i - from,
{
    if from < i {
        lemma_chunks_clean(chunks, from + 1, i);
    }
}

/// Declares the tracks of a file.
fn declare_tracks(c: &mut PortalConfig, videos: &Vec<VideoEntry>)
    requires
        old(c).wf(),
        old(c).video_tracks@.len() == 0,
        old(c).frame_video_tracks@.len() == 0,
        videos_problem(videos@, 0) is None,
    ensures
        final(c).wf(),
        final(c).video_tracks@ == media_tracks(videos@, videos@.len()),
        final(c).frame_video_tracks@ == stream_tracks(videos@, videos@.len()),
        *final(c) == (PortalConfig {
            video_tracks: final(c).video_tracks,
            frame_video_tracks: final(c).frame_video_tracks,
            ..*old(c)
        }),
{
    let mut i: usize = 0;
    proof {
        assert(c.video_tracks@ =~= media_tracks(videos@, 0));
        assert(c.frame_video_tracks@ =~= stream_tracks(videos@, 0));
    }
    while i < videos.len()
        invariant
            i <= videos@.len(),
            videos_problem(videos@, 0) is None,
            c.wf(),
            *c == (PortalConfig {
                video_tracks: c.video_tracks,
                frame_video_tracks: c.frame_video_tracks,
                ..*old(c)
            }),
            c.video_tracks@ == media_tracks(videos@, i as nat),
            c.frame_video_tracks@ == stream_tracks(videos@, i as nat),
        decreases videos@.len() - i,
    {
        let quality: u8 = entry_quality(&videos[i]);
        proof {
            lemma_videos_clean(videos@, 0, i as int);
            assert(!video_repeats(videos@, i as int));
            lemma_declared_names(videos@, i as nat, videos@[i as int].name@);
        }
        c.add_video(videos[i].name.clone(), videos[i].codec, quality, None, None, None);
        i = i + 1;
    }
}

/// Whether a declared chunk is that of a file.
pub open spec fn chunk_matches(declared: ChunkSpec, entry: ChunkEntry) -> bool {
    &&& declared.name == entry.name
    &&& declared.horizon == entry.horizon
    &&& declared.fields@ == schema_of(entry.fields@)
}

/// Declares the chunks of a file.
fn declare_chunks(c: &mut PortalConfig, chunks: &Vec<ChunkEntry>)
    requires
        old(c).wf(),
        old(c).action_chunks@.len() == 0,
        chunks_problem(chunks@, 0) is None,
    ensures
        final(c).wf(),
        final(c).action_chunks@.len() == chunks@.len(),
        forall|i: int|
            0 <= i < chunks@.len() ==> chunk_matches(
                #[trigger] final(c).action_chunks@[i],
                chunks@[i],
            ),
        *final(c) == (PortalConfig { action_chunks: final(c).action_chunks, ..*old(c) }),
{
    let mut k: usize = 0;
    while k < chunks.len()
        invariant
            k <= chunks@.len(),
            chunks_problem(chunks@, 0) is None,
            c.wf(),
            *c == (PortalConfig { action_chunks: c.action_chunks, ..*old(c) }),
            c.action_chunks@.len() == k,
            forall|j: int|
                0 <= j < k ==> chunk_matches(#[trigger] c.action_chunks@[j], chunks@[j]),
        decreases chunks@.len() - k,
    {
        proof {
            lemma_chunks_clean(chunks@, 0, k as int);
            assert(!chunk_repeats(chunks@, k as int));
            let name = chunks@[k as int].name@;
            assert forall|j: int| 0 <= j < c.action_chunks@.len() implies (
            #[trigger] c.action_chunks@[j]).name@ != name by {
                assert(chunk_matches(c.action_chunks@[j], chunks@[j]));
                assert(chunks@[j].name@ != name);
            }
        }
        c.add_action_chunk(
            chunks[k].name.clone(),
            chunks[k].horizon,
            field_specs(&chunks[k].fields),
        );
        k = k + 1;
    }
}

/// Applies the settings of a file that are not declarations.
fn apply_settings(c: &mut PortalConfig, file: &ConfigFileV1)
    requires
        old(c).wf(),
        problem(*file) is None,
    ensures
        final(c).wf(),
        *final(c) == (PortalConfig {
            fps: file.fps.unwrap_or(old(c).fps),
            slack: file.slack.unwrap_or(old(c).slack),
            tolerance: file.tolerance.unwrap_or(old(c).tolerance),
            state_reliable: file.state_reliable.unwrap_or(old(c).state_reliable),
            action_reliable: file.action_reliable.unwrap_or(old(c).action_reliable),
            reuse_stale_frames: file.reuse_stale_frames.unwrap_or(old(c).reuse_stale_frames),
            ping_ms: file.ping_ms.unwrap_or(old(c).ping_ms),
            action_subscription: match file.action_subscription {
                Some(enable) => crate::config::subscription_of(enable),
                None => old(c).action_subscription,
            },
            ..*old(c)
        }),
{
    c.set_fps(file.fps.unwrap_or(c.fps));
    c.set_slack(file.slack.unwrap_or(c.slack));
    c.set_tolerance(file.tolerance.unwrap_or(c.tolerance));
    c.set_state_reliable(file.state_reliable.unwrap_or(c.state_reliable));
    c.set_action_reliable(file.action_reliable.unwrap_or(c.action_reliable));
    c.set_reuse_stale_frames(file.reuse_stale_frames.unwrap_or(c.reuse_stale_frames));
    c.set_ping_ms(file.ping_ms.unwrap_or(c.ping_ms));
    match file.action_subscription {
        Some(enable) => c.set_action_subscription(enable),
        None => {},
    }
}

impl PortalConfig {
    /// Settings that a parsed file stands for, for a session and a role.
    pub fn from_file(file: &ConfigFileV1, session: String, role: Role) -> (r: Result<
        PortalConfig,
        ConfigFileError,
    >)
        ensures
            match r {
                Ok(c) => {
                    &&& file.version == SUPPORTED_VERSION
                    &&& problem(*file) is None
                    &&& c.wf()
                    &&& c.session == session
                    &&& c.role == role
                    &&& c.video_tracks@ == media_tracks(file.videos@, file.videos@.len())
                    &&& c.frame_video_tracks@ == stream_tracks(file.videos@, file.videos@.len())
                    &&& c.state_schema@ == schema_of(file.state@)
                    &&& c.action_schema@ == schema_of(file.action@)
                    &&& c.action_chunks@.len() == file.action_chunks@.len()
                    &&& forall|i: int|
                        0 <= i < c.action_chunks@.len() ==> chunk_matches(
                            #[trigger] c.action_chunks@[i],
                            file.action_chunks@[i],
                        )
                    &&& c.fps == file.fps.unwrap_or(30)
                    &&& c.slack == file.slack.unwrap_or(5)
                    &&& c.tolerance == file.tolerance.unwrap_or(
                        crate::config::DEFAULT_TOLERANCE,
                    )
                    &&& c.state_reliable == file.state_reliable.unwrap_or(true)
                    &&& c.action_reliable == file.action_reliable.unwrap_or(true)
                    &&& c.reuse_stale_frames == file.reuse_stale_frames.unwrap_or(false)
                    &&& c.ping_ms == file.ping_ms.unwrap_or(1000)
                    &&& c.action_subscription == (match file.action_subscription {
                        Some(enable) => crate::config::subscription_of(enable),
                        None => crate::config::default_subscription(role),
                    })
                    &&& c.observation_sync == (role == Role::Operator)
                    &&& c.time_sync_source == crate::types::TimeSyncSource::Portal
                    &&& c.clock_skew_us == 0
                    &&& c.stall_behavior is None
                    &&& c.max_lag_ms is None
                    &&& c.track_stall_behavior@
                        == Map::<Seq<char>, crate::types::StallBehavior>::empty()
                    &&& c.track_max_lag_ms@ == Map::<Seq<char>, u32>::empty()
                    &&& c.shared_key is None
                },
                Err(ConfigFileError::UnsupportedVersion { got, supported }) => file.version
                    != SUPPORTED_VERSION && got == file.version && supported == SUPPORTED_VERSION,
                Err(ConfigFileError::Invalid(m)) => file.version == SUPPORTED_VERSION && problem(
                    *file,
                ) == Some(m@),
                Err(_) => false,
            },
            r is Ok ==> file.version == 1,
            r matches Err(ConfigFileError::UnsupportedVersion { got, supported }) ==> got
                == file.version && got != 1 && supported == 1,
    {
        if file.version != SUPPORTED_VERSION {
            return Err(
                ConfigFileError::UnsupportedVersion {
                    got: file.version,
                    supported: SUPPORTED_VERSION,
                },
            );
        }
        match validate(file) {
            Ok(_) => {},
            Err(e) => {
                return Err(e);
            },
        }
        let mut c: PortalConfig = PortalConfig::new(session, role);
        declare_tracks(&mut c, &file.videos);
        c.add_state_typed(field_specs(&file.state));
        c.add_action_typed(field_specs(&file.action));
        proof {
            assert(c.state_schema@ =~= schema_of(file.state@));
            assert(c.action_schema@ =~= schema_of(file.action@));
        }
        declare_chunks(&mut c, &file.action_chunks);
        apply_settings(&mut c, file);
        Ok(c)
    }
}

/// Loading a file for two sides gives settings that agree on everything but
/// the role and the session.
pub proof fn law_file_is_shared(a: PortalConfig, b: PortalConfig, file: ConfigFileV1)
    requires
        a.video_tracks@ == media_tracks(file.videos@, file.videos@.len()),
        b.video_tracks@ == media_tracks(file.videos@, file.videos@.len()),
        a.frame_video_tracks@ == stream_tracks(file.videos@, file.videos@.len()),
        b.frame_video_tracks@ == stream_tracks(file.videos@, file.videos@.len()),
        a.state_schema@ == schema_of(file.state@),
        b.state_schema@ == schema_of(file.state@),
        a.action_schema@ == schema_of(file.action@),
        b.action_schema@ == schema_of(file.action@),
    ensures
        a.video_tracks@ == b.video_tracks@,
        a.frame_video_tracks@ == b.frame_video_tracks@,
        crate::serialization::fingerprint_of(a.state_schema@)
            == crate::serialization::fingerprint_of(b.state_schema@),
        crate::serialization::fingerprint_of(a.action_schema@)
            == crate::serialization::fingerprint_of(b.action_schema@),
{
}

} // verus!
