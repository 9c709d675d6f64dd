//! Frames of the byte-stream path: one self-contained payload per frame.
//!
//! A payload is a version byte, a codec byte, width and height (two bytes
//! each), the timestamp (eight bytes), the length of the track name (two
//! bytes), the name in UTF-8 and the encoded frame, all little-endian.
use crate::codec::{append_bytes, decode_frame, encode_frame_into, Codec, CodecError, DecodedFrame};
use crate::config::FrameVideoSpec;
use crate::data::SendOutcome;
use crate::error::{PortalError, PortalResult};
use crate::metrics::MetricsRegistry;
use crate::payload::{bytes_as_slice, bytes_slice_from};
use crate::text;
use crate::types::{FrameSource, VideoFrameData};
use crate::wire;
use bytes::Bytes;
use vstd::arithmetic::power2::*;
use vstd::prelude::*;

verus! {

/// Topic of the byte streams that carry frames.
pub const FRAME_VIDEO_TOPIC: &'static str = "portal_frame_video";

/// Bytes that the transport puts into one chunk of a byte stream.
pub const BYTE_STREAM_CHUNK_SIZE: usize = 15_000;

/// Version of the payload layout. Payloads of other versions are ignored.
pub const WIRE_VERSION: u8 = 1;

/// Bytes before the track name.
pub const HEADER_FIXED_LEN: usize = 16;

/// Capacity of the send queue of a track. A frame that does not fit is
/// dropped.
pub const PUBLISH_QUEUE_CAP: usize = 60;

/// Longest track name in bytes.
pub const TRACK_NAME_MAX: usize = 256;

/// Number of a byte-stream codec.
pub open spec fn id_of(c: Codec) -> u8 {
    if c == Codec::Raw {
        0
    } else if c == Codec::Png {
        1
    } else {
        2
    }
}

/// Number of a byte-stream codec in a payload.
pub fn codec_id(c: Codec) -> (id: u8)
    requires
        !c.on_media_path(),
    ensures
        id == id_of(c),
{
    match c {
        Codec::Raw => 0,
        Codec::Png => 1,
        _ => 2,
    }
}

/// The byte-stream codec of a number.
pub open spec fn codec_of(id: u8) -> Option<Codec> {
    if id == 0 {
        Some(Codec::Raw)
    } else if id == 1 {
        Some(Codec::Png)
    } else if id == 2 {
        Some(Codec::Mjpeg)
    } else {
        None
    }
}

/// The byte-stream codec of a number in a payload.
pub fn codec_from_id(id: u8) -> (c: Option<Codec>)
    ensures
        c == codec_of(id),
{
    match id {
        0 => Some(Codec::Raw),
        1 => Some(Codec::Png),
        2 => Some(Codec::Mjpeg),
        _ => None,
    }
}

// ---------------------------------------------------------------------------
// Writing
// ---------------------------------------------------------------------------

/// What stands before the encoded frame.
pub open spec fn frame_header(
    name: Seq<char>,
    codec: Codec,
    width: u32,
    height: u32,
    timestamp_us: u64,
) -> Seq<u8> {
    let utf8 = vstd::utf8::encode_utf8(name);
    seq![WIRE_VERSION, id_of(codec)] + wire::le_bytes(width as nat, 2) + wire::le_bytes(
        height as nat,
        2,
    ) + wire::le_bytes(timestamp_us as nat, 8) + wire::le_bytes(utf8.len(), 2) + utf8
}

/// Text of the error for dimensions that a payload cannot hold.
pub open spec fn oversized_text(width: u32, height: u32) -> Seq<char> {
    "frame_video dimensions "@ + text::decimal(width as nat) + "x"@ + text::decimal(
        height as nat,
    ) + " exceed u16 max ("@ + text::decimal(65535) + ")"@
}

/// Text of the error for a name that a payload does not take.
pub open spec fn long_name_text(len: nat) -> Seq<char> {
    "frame_video track name too long: "@ + text::decimal(len) + " bytes (max "@ + text::decimal(
        256,
    ) + ")"@
}

/// What comes of building the payload of a frame.
pub open spec fn payload_built(
    track_name: Seq<char>,
    codec: Codec,
    width: u32,
    height: u32,
    timestamp_us: u64,
    rgb: Seq<u8>,
    quality: u8,
    r: PortalResult<Vec<u8>>,
) -> bool {
    let name_len = vstd::utf8::encode_utf8(track_name).len();
    let header = frame_header(track_name, codec, width, height, timestamp_us);
    if width > 65535 || height > 65535 {
        r matches Err(PortalError::Codec(m)) && m@ == oversized_text(width, height)
    } else if name_len > TRACK_NAME_MAX {
        r matches Err(PortalError::Codec(m)) && m@ == long_name_text(name_len)
    } else if !crate::codec::fits(rgb, width, height) {
        r matches Err(PortalError::Codec(m)) && m@ == crate::codec::misfit(
            rgb,
            width,
            height,
        ).text()
    } else {
        match crate::codec::encoded(rgb, width, height, codec, quality) {
            Some(body) => r matches Ok(payload) && payload@ == header + body
                && crate::codec::reads_back(body, rgb, width, height, codec),
            None => r matches Err(PortalError::Codec(_)),
        }
    }
}

/// Builds the payload of a frame.
pub fn build_frame_payload(
    track_name: &str,
    codec: Codec,
    width: u32,
    height: u32,
    timestamp_us: u64,
    rgb: &[u8],
    quality: u8,
) -> (r: PortalResult<Vec<u8>>)
    requires
        !codec.on_media_path(),
    ensures
        payload_built(track_name@, codec, width, height, timestamp_us, rgb@, quality, r),
{
    if width > 65535 || height > 65535 {
        let mut m: String = "frame_video dimensions ".to_owned();
        text::append_decimal(&mut m, width as u128);
        m.append("x");
        text::append_decimal(&mut m, height as u128);
        m.append(" exceed u16 max (");
        text::append_decimal(&mut m, 65535);
        m.append(")");
        return Err(PortalError::Codec(m));
    }
    let name: &[u8] = track_name.as_bytes();
    if name.len() > TRACK_NAME_MAX {
        let mut m: String = "frame_video track name too long: ".to_owned();
        text::append_decimal(&mut m, name.len() as u128);
        m.append(" bytes (max ");
        text::append_decimal(&mut m, 256);
        m.append(")");
        return Err(PortalError::Codec(m));
    }
    let mut buf: Vec<u8> = Vec::new();
    buf.push(WIRE_VERSION);
    buf.push(codec_id(codec));
    assert(buf@ =~= seq![WIRE_VERSION, id_of(codec)]);
    wire::put_le(&mut buf, width as u64, 2);
    wire::put_le(&mut buf, height as u64, 2);
    wire::put_le(&mut buf, timestamp_us, 8);
    wire::put_le(&mut buf, name.len() as u64, 2);
    append_bytes(&mut buf, name);
    let ghost header = buf@;
    assert(header == frame_header(track_name@, codec, width, height, timestamp_us));
    match encode_frame_into(&mut buf, rgb, width, height, codec, quality) {
        Ok(_) => {
            proof {
                let body = crate::codec::encoded(rgb@, width, height, codec, quality)->0;
                assert(buf@.skip(header.len() as int) =~= body);
            }
            Ok(buf)
        },
        Err(e) => Err(PortalError::Codec(e.describe())),
    }
}

// ---------------------------------------------------------------------------
// Reading
// ---------------------------------------------------------------------------

/// What stands before the encoded frame in a payload.
#[derive(Debug)]
pub struct DeserializedHeader<'a> {
    pub codec: Codec,
    pub width: u32,
    pub height: u32,
    pub timestamp_us: u64,
    pub track_name: &'a str,
    /// Where the encoded frame starts.
    pub payload_offset: usize,
}

/// `std::str::from_utf8`: the text of valid UTF-8, and nothing for other
/// bytes.
#[verifier::external_body]
fn text_from_utf8(bytes: &[u8]) -> (s: Option<&str>)
    ensures
        match s {
            Some(t) => vstd::utf8::valid_utf8(bytes@) && vstd::utf8::encode_utf8(t@) == bytes@,
            None => !vstd::utf8::valid_utf8(bytes@),
        },
{
    std::str::from_utf8(bytes).ok()
}

/// Length of the track name in a payload.
pub open spec fn name_len_of(payload: Seq<u8>) -> nat {
    wire::le_value(payload.subrange(14, 16))
}

/// Bytes of the track name in a payload.
pub open spec fn name_bytes_of(payload: Seq<u8>) -> Seq<u8> {
    payload.subrange(16, 16 + name_len_of(payload) as int)
}

/// What is wrong with a payload.
pub open spec fn header_fault(payload: Seq<u8>) -> Option<Seq<char>> {
    if payload.len() < HEADER_FIXED_LEN {
        Some("frame_video payload shorter than fixed header"@)
    } else if payload[0] != WIRE_VERSION {
        Some("frame_video payload has unknown version"@)
    } else if codec_of(payload[1]) is None {
        Some("unknown codec id"@)
    } else if name_len_of(payload) > TRACK_NAME_MAX {
        Some("frame_video track name exceeds 256-byte cap"@)
    } else if payload.len() < 16 + name_len_of(payload) {
        Some("frame_video payload truncated mid-header"@)
    } else if !vstd::utf8::valid_utf8(name_bytes_of(payload)) {
        Some("track name not valid utf-8"@)
    } else {
        None
    }
}

/// Reads what stands before the encoded frame.
pub fn deserialize_frame(bytes: &[u8]) -> (r: Result<DeserializedHeader<'_>, &'static str>)
    ensures
        match r {
            Ok(h) => {
                &&& header_fault(bytes@) is None
                &&& Some(h.codec) == codec_of(bytes@[1])
                &&& h.width == wire::le_value(bytes@.subrange(2, 4))
                &&& h.height == wire::le_value(bytes@.subrange(4, 6))
                &&& h.timestamp_us == wire::le_value(bytes@.subrange(6, 14))
                &&& vstd::utf8::encode_utf8(h.track_name@) == name_bytes_of(bytes@)
                &&& h.payload_offset == 16 + name_len_of(bytes@)
                &&& h.payload_offset <= bytes@.len()
            },
            Err(e) => header_fault(bytes@) == Some(e@),
        },
{
    if bytes.len() < HEADER_FIXED_LEN {
        return Err("frame_video payload shorter than fixed header");
    }
    if bytes[0] != WIRE_VERSION {
        return Err("frame_video payload has unknown version");
    }
    let codec: Codec = match codec_from_id(bytes[1]) {
        Some(c) => c,
        None => {
            return Err("unknown codec id");
        },
    };
    proof {
        lemma2_to64();
    }
    let width: u32 = wire::get_le(bytes, 2, 2) as u32;
    let height: u32 = wire::get_le(bytes, 4, 2) as u32;
    let timestamp_us: u64 = wire::get_le(bytes, 6, 8);
    let name_len: usize = wire::get_le(bytes, 14, 2) as usize;
    if name_len > TRACK_NAME_MAX {
        return Err("frame_video track name exceeds 256-byte cap");
    }
    let payload_offset: usize = HEADER_FIXED_LEN + name_len;
    if bytes.len() < payload_offset {
        return Err("frame_video payload truncated mid-header");
    }
    let name: &[u8] = vstd::slice::slice_subrange(bytes, HEADER_FIXED_LEN, payload_offset);
    match text_from_utf8(name) {
        Some(track_name) => Ok(
            DeserializedHeader { codec, width, height, timestamp_us, track_name, payload_offset },
        ),
        None => Err("track name not valid utf-8"),
    }
}

/// A payload reads back as it was built: its header names the codec,
/// dimensions, timestamp and track, and what follows is the encoded frame.
pub proof fn law_frame_payload_round_trip(
    name: Seq<char>,
    codec: Codec,
    width: u32,
    height: u32,
    timestamp_us: u64,
    body: Seq<u8>,
)
    requires
        !codec.on_media_path(),
        width <= 65535,
        height <= 65535,
        vstd::utf8::encode_utf8(name).len() <= TRACK_NAME_MAX,
    ensures
        ({
            let p = frame_header(name, codec, width, height, timestamp_us) + body;
            &&& header_fault(p) is None
            &&& codec_of(p[1]) == Some(codec)
            &&& wire::le_value(p.subrange(2, 4)) == width
            &&& wire::le_value(p.subrange(4, 6)) == height
            &&& wire::le_value(p.subrange(6, 14)) == timestamp_us
            &&& name_bytes_of(p) == vstd::utf8::encode_utf8(name)
            &&& p.skip(16 + name_len_of(p) as int) == body
        }),
{
    lemma2_to64();
    let utf8 = vstd::utf8::encode_utf8(name);
    let p = frame_header(name, codec, width, height, timestamp_us) + body;
    wire::law_le_round_trip(width as nat, 2);
    wire::law_le_round_trip(height as nat, 2);
    wire::law_le_round_trip(timestamp_us as nat, 8);
    wire::law_le_round_trip(utf8.len(), 2);
    assert(p.subrange(2, 4) =~= wire::le_bytes(width as nat, 2));
    assert(p.subrange(4, 6) =~= wire::le_bytes(height as nat, 2));
    assert(p.subrange(6, 14) =~= wire::le_bytes(timestamp_us as nat, 8));
    assert(p.subrange(14, 16) =~= wire::le_bytes(utf8.len(), 2));
    assert(p.subrange(16, 16 + utf8.len() as int) =~= utf8);
    assert(p.skip(16 + utf8.len() as int) =~= body);
    vstd::utf8::encode_utf8_valid_utf8(name);
}

// ---------------------------------------------------------------------------
// Receiving
// ---------------------------------------------------------------------------

/// Why a received payload was dropped.
#[derive(Debug)]
pub enum FrameFault {
    BadHeader(&'static str),
    UndeclaredTrack,
    CodecMismatch { declared: Codec, got: Codec },
    Undecodable(CodecError),
}

/// Position of a byte-stream track, by name.
pub open spec fn stream_position(tracks: Seq<FrameVideoSpec>, name: Seq<char>) -> Option<int>
    decreases tracks.len(),
{
    if tracks.len() == 0 {
        None
    } else if tracks.last().name@ == name {
        Some(tracks.len() - 1)
    } else {
        stream_position(tracks.drop_last(), name)
    }
}

fn find_stream(tracks: &[FrameVideoSpec], name: &str) -> (t: Option<usize>)
    ensures
        match t {
            Some(i) => i < tracks@.len() && stream_position(tracks@, name@) == Some(i as int)
                && tracks@[i as int].name@ == name@,
            None => stream_position(tracks@, name@) is None,
        },
{
    let mut i: usize = tracks.len();
    assert(tracks@.take(i as int) =~= tracks@);
    while i > 0
        invariant
            i <= tracks@.len(),
            stream_position(tracks@.take(i as int), name@) == stream_position(tracks@, name@),
        decreases i,
    {
        proof {
            let front = tracks@.take(i as int);
            assert(front.drop_last() =~= tracks@.take(i - 1));
            assert(front.last() == tracks@[i - 1]);
        }
        if text::same(tracks[i - 1].name.as_str(), name) {
            return Some(i - 1);
        }
        i = i - 1;
    }
    assert(tracks@.take(0).len() == 0);
    None
}

/// The track name in a payload whose header is sound.
pub open spec fn payload_track(payload: Seq<u8>) -> Seq<char> {
    vstd::utf8::decode_utf8(name_bytes_of(payload))
}

/// The encoded frame in a payload whose header is sound.
pub open spec fn payload_body(payload: Seq<u8>) -> Seq<u8> {
    payload.skip(16 + name_len_of(payload) as int)
}

/// The counters once a payload arrived on a track.
pub open spec fn frame_counted(
    m: crate::metrics::MetricsView,
    name: Seq<char>,
    send_ts_us: u64,
    recv_ts_us: u64,
    wire_len: nat,
) -> crate::metrics::MetricsView {
    if m.tracks.contains_key(name) {
        let t = m.tracks[name];
        crate::metrics::MetricsView {
            tracks: m.tracks.insert(
                name,
                crate::metrics::TrackMetrics {
                    frames_received: crate::metrics::bumped(t.frames_received, 1),
                    bytes_received: crate::metrics::bumped(t.bytes_received, wire_len as u64),
                    jitter: crate::metrics::jitter_after(t.jitter, send_ts_us, recv_ts_us),
                    ..t
                },
            ),
            ..m
        }
    } else {
        m
    }
}

/// What comes of a payload: the frame of a declared track, or why it was
/// dropped.
pub open spec fn frame_dispatched(
    p: Seq<u8>,
    tracks: Seq<FrameVideoSpec>,
    recv_ts_us: u64,
    metrics_before: crate::metrics::MetricsView,
    metrics_after: crate::metrics::MetricsView,
    r: Result<(usize, VideoFrameData), FrameFault>,
) -> bool {
    match r {
        Ok((t, frame)) => {
            let codec = codec_of(p[1])->0;
            let width = wire::le_value(p.subrange(2, 4)) as u32;
            let height = wire::le_value(p.subrange(4, 6)) as u32;
            let ts = wire::le_value(p.subrange(6, 14)) as u64;
            &&& header_fault(p) is None
            &&& stream_position(tracks, payload_track(p)) == Some(t as int)
            &&& t < tracks.len()
            &&& tracks[t as int].codec == codec
            &&& frame.timestamp_us == ts
            &&& frame.source == FrameSource::Live
            &&& metrics_after == frame_counted(
                metrics_before,
                payload_track(p),
                ts,
                recv_ts_us,
                p.len(),
            )
            &&& if codec == Codec::Raw {
                crate::codec::fits(payload_body(p), width, height) && frame.width == width
                    && frame.height == height && frame@.data == payload_body(p)
            } else {
                &&& crate::codec::payload_dimensions(payload_body(p), codec) == Some(
                    (frame.width, frame.height),
                )
                &&& crate::codec::dimensions_agree(
                    frame.width,
                    frame.height,
                    width,
                    height,
                )
                &&& frame@.data.len() == crate::codec::rgb_len(frame.width, frame.height)
                &&& codec == Codec::Png ==> crate::codec::png_picture(payload_body(p))
                    == Some((frame.width, frame.height, frame@.data))
            }
        },
        Err(fault) => {
            &&& metrics_after == metrics_before
            &&& match fault {
                FrameFault::BadHeader(m) => header_fault(p) == Some(m@),
                FrameFault::UndeclaredTrack => header_fault(p) is None && stream_position(
                    tracks,
                    payload_track(p),
                ) is None,
                FrameFault::CodecMismatch { declared, got } => {
                    &&& header_fault(p) is None
                    &&& codec_of(p[1]) == Some(got)
                    &&& stream_position(tracks, payload_track(p)) matches Some(t)
                        && tracks[t].codec == declared
                    &&& declared != got
                },
                FrameFault::Undecodable(e) => {
                    &&& header_fault(p) is None
                    &&& stream_position(tracks, payload_track(p)) matches Some(t)
                        && Some(tracks[t].codec) == codec_of(p[1])
                    &&& undecodable(
                        payload_body(p),
                        codec_of(p[1])->0,
                        wire::le_value(p.subrange(2, 4)) as u32,
                        wire::le_value(p.subrange(4, 6)) as u32,
                        e,
                    )
                },
            }
        },
    }
}

/// Handles one received payload: checks its header against the declared
/// tracks, decodes the frame and counts it. Returns the position of the
/// track and the frame.
pub fn dispatch_frame_payload(
    payload: Bytes,
    tracks: &[FrameVideoSpec],
    recv_ts_us: u64,
    metrics: &mut MetricsRegistry,
) -> (r: Result<(usize, VideoFrameData), FrameFault>)
    requires
        old(metrics).wf(),
    ensures
        final(metrics).wf(),
        frame_dispatched(
            crate::payload::bytes_contents(payload),
            tracks@,
            recv_ts_us,
            old(metrics)@,
            final(metrics)@,
            r,
        ),
{
    let slice: &[u8] = bytes_as_slice(&payload);
    let wire_len: usize = slice.len();
    let header: DeserializedHeader<'_> = match deserialize_frame(slice) {
        Ok(h) => h,
        Err(e) => {
            return Err(FrameFault::BadHeader(e));
        },
    };
    proof {
        vstd::utf8::encode_utf8_decode_utf8(header.track_name@);
        lemma2_to64();
        lemma_small_le(slice@, 2, 4);
        lemma_small_le(slice@, 4, 6);
    }
    let t: usize = match find_stream(tracks, header.track_name) {
        Some(t) => t,
        None => {
            return Err(FrameFault::UndeclaredTrack);
        },
    };
    if header.codec != tracks[t].codec {
        return Err(
            FrameFault::CodecMismatch { declared: tracks[t].codec, got: header.codec },
        );
    }
    let body: Bytes = bytes_slice_from(&payload, header.payload_offset);
    let decoded: DecodedFrame = match decode_frame(
        body,
        header.codec,
        header.width,
        header.height,
    ) {
        Ok(d) => d,
        Err(e) => {
            return Err(FrameFault::Undecodable(e));
        },
    };
    match metrics.track(header.track_name) {
        Some(counters) => {
            let mut counters = counters;
            counters.record_received_bytes(header.timestamp_us, recv_ts_us, wire_len);
            metrics.set_track(header.track_name, counters);
        },
        None => {},
    }
    Ok(
        (
            t,
            VideoFrameData {
                width: decoded.width,
                height: decoded.height,
                data: decoded.rgb,
                timestamp_us: header.timestamp_us,
                source: FrameSource::Live,
            },
        ),
    )
}

/// Whether `e` is the reason why an encoded frame does not decode.
pub open spec fn undecodable(
    body: Seq<u8>,
    codec: Codec,
    width: u32,
    height: u32,
    e: CodecError,
) -> bool {
    if codec == Codec::Raw {
        !crate::codec::fits(body, width, height) && e == crate::codec::misfit(body, width, height)
    } else {
        match crate::codec::payload_dimensions(body, codec) {
            None => e is DecodeFailed,
            Some((w, h)) => !crate::codec::dimensions_agree(w, h, width, height) && e == (
            CodecError::DimensionMismatch {
                decoded_width: w,
                decoded_height: h,
                declared_width: width,
                declared_height: height,
            }),
        }
    }
}

proof fn lemma_small_le(s: Seq<u8>, from: int, to: int)
    requires
        0 <= from <= to <= s.len(),
        to - from == 2,
    ensures
        wire::le_value(s.subrange(from, to)) <= 65535,
{
    lemma2_to64();
    wire::law_le_bytes_of_value(s.subrange(from, to));
}

/// The counters of a track once a payload was handed to its send queue.
pub open spec fn send_counted(
    t: crate::metrics::TrackMetrics,
    outcome: SendOutcome,
    payload_len: nat,
) -> crate::metrics::TrackMetrics {
    match outcome {
        SendOutcome::Queued => crate::metrics::TrackMetrics {
            frames_sent: crate::metrics::bumped(t.frames_sent, 1),
            bytes_sent: crate::metrics::bumped(t.bytes_sent, payload_len as u64),
            ..t
        },
        SendOutcome::Full => crate::metrics::TrackMetrics {
            frames_dropped_publisher_full: crate::metrics::bumped(
                t.frames_dropped_publisher_full,
                1,
            ),
            ..t
        },
        SendOutcome::Closed => t,
    }
}

/// Counts a payload that was handed to the send queue of its track.
pub fn record_send(
    track_name: &str,
    outcome: SendOutcome,
    payload_len: usize,
    metrics: &mut MetricsRegistry,
)
    requires
        old(metrics).wf(),
    ensures
        final(metrics).wf(),
        final(metrics)@ == (if old(metrics)@.tracks.contains_key(track_name@) {
            crate::metrics::MetricsView {
                tracks: old(metrics)@.tracks.insert(
                    track_name@,
                    send_counted(
                        old(metrics)@.tracks[track_name@],
                        outcome,
                        payload_len as nat,
                    ),
                ),
                ..old(metrics)@
            }
        } else {
            old(metrics)@
        }),
{
    match metrics.track(track_name) {
        Some(counters) => {
            let mut counters = counters;
            match outcome {
                SendOutcome::Queued => {
                    counters.record_sent_bytes(payload_len);
                },
                SendOutcome::Full => {
                    counters.record_dropped_publisher_full();
                },
                SendOutcome::Closed => {},
            }
            metrics.set_track(track_name, counters);
        },
        None => {},
    }
}

/// A frame that was built for a declared track arrives: on the same track,
/// with the same dimensions and timestamp, and, uncompressed or as PNG, with
/// the same bytes.
pub proof fn law_frames_arrive(
    name: Seq<char>,
    codec: Codec,
    width: u32,
    height: u32,
    timestamp_us: u64,
    rgb: Seq<u8>,
    quality: u8,
    payload: Vec<u8>,
    tracks: Seq<FrameVideoSpec>,
    recv_ts_us: u64,
    metrics_before: crate::metrics::MetricsView,
    metrics_after: crate::metrics::MetricsView,
    r: Result<(usize, VideoFrameData), FrameFault>,
)
    requires
        !codec.on_media_path(),
        rgb.len() <= crate::codec::DECODE_LIMIT,
        payload_built(name, codec, width, height, timestamp_us, rgb, quality, Ok(payload)),
        stream_position(tracks, name) matches Some(t) && tracks[t].codec == codec,
        frame_dispatched(
            payload@,
            tracks,
            recv_ts_us,
            metrics_before,
            metrics_after,
            r,
        ),
    ensures
        r matches Ok((t, frame)) && stream_position(tracks, name) == Some(t as int) && frame@ == (
        crate::types::FrameView {
            width,
            height,
            data: frame@.data,
            timestamp_us,
            source: FrameSource::Live,
        }) && frame@.data.len() == rgb.len() && (codec == Codec::Raw || codec == Codec::Png
            ==> frame@.data == rgb),
{
    match crate::codec::encoded(rgb, width, height, codec, quality) {
        Some(body) => {
            law_frame_payload_round_trip(name, codec, width, height, timestamp_us, body);
            vstd::utf8::encode_utf8_decode_utf8(name);
        },
        None => {},
    }
}

} // verus!
