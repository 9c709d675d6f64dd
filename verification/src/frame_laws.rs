//! What frames hold on the wire and what becomes of them, stated over their
//! bytes and dimensions.
use crate::codec::{Codec, CodecError};
use crate::config::FrameVideoSpec;
use crate::data::SendOutcome;
use crate::error::{PortalError, PortalResult};
use crate::frame_video::FrameFault;
use crate::metrics::{MetricsView, TrackMetrics};
use crate::metrics_laws::went_up;
use crate::types::{FrameSource, VideoFrameData};
use crate::video::RecvOverflow;
use std::sync::Arc;
use vstd::prelude::*;

verus! {

// ---------------------------------------------------------------------------
// Pictures
// ---------------------------------------------------------------------------

/// A buffer is a picture of the given size exactly where neither side is zero
/// and it holds three bytes for every pixel. Where it is not, the error says
/// so: of the dimensions where they are none of a picture, of the two numbers
/// of bytes otherwise.
pub proof fn law_pictures_have_three_bytes_a_pixel(rgb: Seq<u8>, width: u32, height: u32)
    requires
        rgb.len() <= usize::MAX,
    ensures
        crate::codec::rgb_len(width, height) == width * height * 3,
        crate::codec::fits(rgb, width, height) <==> width > 0 && height > 0 && rgb.len() == width
            * height * 3,
        !crate::codec::fits(rgb, width, height) ==> {
            let e = crate::codec::misfit(rgb, width, height);
            &&& width == 0 || height == 0 || width * height * 3 > usize::MAX ==> e == (
            CodecError::InvalidDimensions { width, height })
            &&& width > 0 && height > 0 && width * height * 3 <= usize::MAX ==> (
            e matches CodecError::WrongRgbSize { width: w, height: h, expected, got } && w == width
                && h == height && expected == width * height * 3 && got == rgb.len())
        },
{
}

/// An encoded frame is taken to be as large as the picture, and an eighth of
/// it for Motion JPEG, as far as sizes go.
pub proof fn law_sizes_are_estimated(width: u32, height: u32, codec: Codec)
    ensures
        width * height * 3 <= usize::MAX && codec != Codec::Mjpeg
            ==> crate::codec::size_estimate(width, height, codec) == width * height * 3,
        width * height * 3 <= usize::MAX && codec == Codec::Mjpeg
            ==> crate::codec::size_estimate(width, height, codec) == width * height * 3 / 8,
        width * height * 3 > usize::MAX && codec != Codec::Mjpeg
            ==> crate::codec::size_estimate(width, height, codec) == usize::MAX,
        width * height * 3 > usize::MAX && codec == Codec::Mjpeg
            ==> crate::codec::size_estimate(width, height, codec) == usize::MAX as nat / 8,
{
}

/// Raw frames are the picture itself, PNG frames its PNG file, and Motion
/// JPEG frames its JPEG file at the given quality, which takes sides of up to
/// 65535. The three ride the byte-stream path, and no other codec does.
pub proof fn law_codecs_encode_as_they_say(
    rgb: Seq<u8>,
    width: u32,
    height: u32,
    quality: u8,
    codec: Codec,
)
    ensures
        crate::codec::encoded(rgb, width, height, Codec::Raw, quality) == Some(rgb),
        crate::codec::encoded(rgb, width, height, Codec::Png, quality) == crate::codec::png_file(
            rgb,
            width,
            height,
        ),
        width <= 65535 && height <= 65535 ==> crate::codec::encoded(
            rgb,
            width,
            height,
            Codec::Mjpeg,
            quality,
        ) == Some(crate::codec::jpeg_file(rgb, width, height, quality)),
        width > 65535 || height > 65535 ==> crate::codec::encoded(
            rgb,
            width,
            height,
            Codec::Mjpeg,
            quality,
        ) is None,
        codec.on_media_path() <==> codec == Codec::H264 || codec == Codec::Vp8 || codec
            == Codec::Vp9 || codec == Codec::Av1 || codec == Codec::H265,
{
}

/// Declared dimensions are taken for any where both are zero; otherwise they
/// have to be the decoded ones. What a PNG or a JPEG file is of is what its
/// decoder says.
pub proof fn law_dimensions_have_to_agree(
    width: u32,
    height: u32,
    dw: u32,
    dh: u32,
    file: Seq<u8>,
)
    ensures
        dw == 0 && dh == 0 ==> crate::codec::dimensions_agree(width, height, dw, dh),
        dw != 0 || dh != 0 ==> (crate::codec::dimensions_agree(width, height, dw, dh) <==> width
            == dw && height == dh),
        crate::codec::png_picture(file) is None ==> crate::codec::payload_dimensions(
            file,
            Codec::Png,
        ) is None,
        crate::codec::png_picture(file) matches Some((w, h, pixels))
            ==> crate::codec::payload_dimensions(file, Codec::Png) == Some((w, h)),
        crate::codec::payload_dimensions(file, Codec::Mjpeg) == crate::codec::jpeg_dimensions(
            file,
        ),
{
}

// ---------------------------------------------------------------------------
// Payloads
// ---------------------------------------------------------------------------

/// Raw, PNG and Motion JPEG frames are told by a zero, a one and a two, both
/// ways; no other number stands for a codec.
pub proof fn law_codecs_are_numbered(c: Codec, id: u8)
    ensures
        crate::frame_video::id_of(Codec::Raw) == 0,
        crate::frame_video::id_of(Codec::Png) == 1,
        crate::frame_video::id_of(Codec::Mjpeg) == 2,
        !c.on_media_path() ==> crate::frame_video::codec_of(crate::frame_video::id_of(c)) == Some(
            c,
        ),
        crate::frame_video::codec_of(id) is Some <==> id <= 2,
        crate::frame_video::codec_of(id) matches Some(d) ==> crate::frame_video::id_of(d) == id
            && !d.on_media_path(),
{
}

/// A payload starts with a one, the number of the codec, width and height in
/// two bytes each, the timestamp in eight, the length of the name in two and
/// the name.
pub proof fn law_frame_headers_are_laid_out(
    name: Seq<char>,
    codec: Codec,
    width: u32,
    height: u32,
    ts: u64,
)
    ensures
        ({
            let utf8 = vstd::utf8::encode_utf8(name);
            let h = crate::frame_video::frame_header(name, codec, width, height, ts);
            &&& h.len() == 16 + utf8.len()
            &&& h[0] == 1
            &&& codec == Codec::Raw ==> h[1] == 0
            &&& codec == Codec::Png ==> h[1] == 1
            &&& codec == Codec::Mjpeg ==> h[1] == 2
            &&& h.subrange(2, 4) == crate::wire::le_bytes(width as nat, 2)
            &&& h.subrange(4, 6) == crate::wire::le_bytes(height as nat, 2)
            &&& h.subrange(6, 14) == crate::wire::le_bytes(ts as nat, 8)
            &&& h.subrange(14, 16) == crate::wire::le_bytes(utf8.len(), 2)
            &&& h.skip(16) == utf8
        }),
{
    let utf8 = vstd::utf8::encode_utf8(name);
    let h = crate::frame_video::frame_header(name, codec, width, height, ts);
    crate::wire::law_le_bytes_are_digits(width as nat, 2, 0);
    crate::wire::law_le_bytes_are_digits(height as nat, 2, 0);
    crate::wire::law_le_bytes_are_digits(ts as nat, 8, 0);
    crate::wire::law_le_bytes_are_digits(utf8.len(), 2, 0);
    assert(h.subrange(2, 4) =~= crate::wire::le_bytes(width as nat, 2));
    assert(h.subrange(4, 6) =~= crate::wire::le_bytes(height as nat, 2));
    assert(h.subrange(6, 14) =~= crate::wire::le_bytes(ts as nat, 8));
    assert(h.subrange(14, 16) =~= crate::wire::le_bytes(utf8.len(), 2));
    assert(h.skip(16) =~= utf8);
}

/// A payload is built exactly where the sides fit two bytes each, the name
/// takes at most 256 bytes, the buffer is a picture of the given size and the
/// encoder takes it: the header, and behind it what the encoder wrote.
pub proof fn law_payloads_are_header_and_frame(
    name: Seq<char>,
    codec: Codec,
    width: u32,
    height: u32,
    ts: u64,
    rgb: Seq<u8>,
    quality: u8,
    r: PortalResult<Vec<u8>>,
)
    requires
        rgb.len() <= usize::MAX,
        crate::frame_video::payload_built(name, codec, width, height, ts, rgb, quality, r),
    ensures
        r is Ok <==> {
            &&& width <= 65535 && height <= 65535
            &&& vstd::utf8::encode_utf8(name).len() <= 256
            &&& width > 0 && height > 0 && rgb.len() == width * height * 3
            &&& crate::codec::encoded(rgb, width, height, codec, quality) is Some
        },
        r matches Ok(p) ==> p@ == crate::frame_video::frame_header(name, codec, width, height, ts)
            + crate::codec::encoded(rgb, width, height, codec, quality)->0,
        r matches Err(e) ==> e is Codec,
        width > 65535 || height > 65535 ==> (r matches Err(PortalError::Codec(m)) && m@
            == crate::frame_video::oversized_text(width, height)),
        width <= 65535 && height <= 65535 && vstd::utf8::encode_utf8(name).len() > 256 ==> (
        r matches Err(PortalError::Codec(m)) && m@ == crate::frame_video::long_name_text(
            vstd::utf8::encode_utf8(name).len(),
        )),
        width <= 65535 && height <= 65535 && vstd::utf8::encode_utf8(name).len() <= 256 && !(width
            > 0 && height > 0 && rgb.len() == width * height * 3) ==> (
        r matches Err(PortalError::Codec(m)) && m@ == crate::codec::misfit(
            rgb,
            width,
            height,
        ).text()),
{
    law_pictures_have_three_bytes_a_pixel(rgb, width, height);
}

/// A header is sound exactly where the payload has its sixteen bytes, starts
/// with a one, has the number of a codec, and the name has at most 256 bytes,
/// is all there and is text.
pub proof fn law_headers_are_checked(p: Seq<u8>, name_len: int)
    requires
        p.len() >= 16 ==> name_len == p[14] + 0x100 * p[15],
    ensures
        crate::frame_video::header_fault(p) is None <==> {
            &&& p.len() >= 16
            &&& p[0] == 1
            &&& p[1] <= 2
            &&& name_len <= 256
            &&& p.len() >= 16 + name_len
            &&& vstd::utf8::valid_utf8(p.subrange(16, 16 + name_len))
        },
        crate::frame_video::header_fault(p) is None ==> {
            &&& crate::frame_video::payload_track(p) == vstd::utf8::decode_utf8(
                p.subrange(16, 16 + name_len),
            )
            &&& crate::frame_video::payload_body(p) == p.skip(16 + name_len)
        },
        ({
            let fault = crate::frame_video::header_fault(p);
            let whole = p.len() >= 16;
            let known = whole && p[0] == 1;
            let coded = known && p[1] <= 2;
            let named = coded && name_len <= 256;
            &&& !whole ==> fault == Some("frame_video payload shorter than fixed header"@)
            &&& whole && !known ==> fault == Some("frame_video payload has unknown version"@)
            &&& known && !coded ==> fault == Some("unknown codec id"@)
            &&& coded && !named ==> fault == Some("frame_video track name exceeds 256-byte cap"@)
            &&& named && p.len() < 16 + name_len ==> fault == Some(
                "frame_video payload truncated mid-header"@,
            )
            &&& named && p.len() >= 16 + name_len && !vstd::utf8::valid_utf8(
                p.subrange(16, 16 + name_len),
            ) ==> fault == Some("track name not valid utf-8"@)
        }),
{
    if p.len() >= 16 {
        let b = p.subrange(14, 16);
        reveal_with_fuel(crate::wire::le_value, 3);
        assert(crate::wire::le_value(b) == b[0] + 0x100 * b[1]);
    }
}

proof fn lemma_stream_position(tracks: Seq<FrameVideoSpec>, name: Seq<char>)
    ensures
        match crate::frame_video::stream_position(tracks, name) {
            Some(t) => 0 <= t < tracks.len() && tracks[t].name@ == name && forall|u: int|
                t < u < tracks.len() ==> (#[trigger] tracks[u]).name@ != name,
            None => forall|u: int| 0 <= u < tracks.len() ==> (#[trigger] tracks[u]).name@ != name,
        },
    decreases tracks.len(),
{
    if tracks.len() > 0 && tracks.last().name@ != name {
        let front = tracks.drop_last();
        lemma_stream_position(front, name);
        match crate::frame_video::stream_position(front, name) {
            Some(t) => {
                assert(front[t] == tracks[t]);
                assert forall|u: int| t < u < tracks.len() implies (#[trigger] tracks[u]).name@
                    != name by {
                    if u < tracks.len() - 1 {
                        assert(front[u] == tracks[u]);
                    }
                }
            },
            None => {
                assert forall|u: int| 0 <= u < tracks.len() implies (#[trigger] tracks[u]).name@
                    != name by {
                    if u < tracks.len() - 1 {
                        assert(front[u] == tracks[u]);
                    }
                }
            },
        }
    }
}

/// A payload is for the track of its name; it is for none exactly where no
/// track has the name.
pub proof fn law_payloads_go_by_name(tracks: Seq<FrameVideoSpec>, name: Seq<char>, t: int)
    requires
        0 <= t < tracks.len(),
    ensures
        tracks[t].name@ == name && (forall|u: int|
            t < u < tracks.len() ==> (#[trigger] tracks[u]).name@ != name)
            <==> crate::frame_video::stream_position(tracks, name) == Some(t),
        crate::frame_video::stream_position(tracks, name) is None <==> forall|u: int|
            0 <= u < tracks.len() ==> (#[trigger] tracks[u]).name@ != name,
{
    lemma_stream_position(tracks, name);
    match crate::frame_video::stream_position(tracks, name) {
        Some(p) => {
            if tracks[t].name@ == name && (forall|u: int|
                t < u < tracks.len() ==> (#[trigger] tracks[u]).name@ != name) {
                if p > t {
                    assert(tracks[p].name@ != name);
                }
                if p < t {
                    assert(tracks[t].name@ != name);
                }
            }
        },
        None => {},
    }
}

/// A payload with a sound header on a declared track of its codec, whose frame
/// decodes to what the header says, is delivered live as of its own time; a
/// raw one as it stands. It counts as one more frame and its bytes on that
/// track, and feeds the track's jitter. A payload that is dropped for any
/// reason counts nothing.
pub proof fn law_frames_are_delivered_as_they_say(
    p: Seq<u8>,
    tracks: Seq<FrameVideoSpec>,
    recv_ts_us: u64,
    m: MetricsView,
    n: MetricsView,
    r: Result<(usize, VideoFrameData), FrameFault>,
)
    requires
        p.len() <= usize::MAX,
        crate::frame_video::frame_dispatched(p, tracks, recv_ts_us, m, n, r),
    ensures
        r is Err ==> n == m,
        r matches Err(FrameFault::BadHeader(_)) <==> crate::frame_video::header_fault(p) is Some,
        r matches Err(FrameFault::UndeclaredTrack) <==> crate::frame_video::header_fault(p) is None
            && forall|u: int|
            0 <= u < tracks.len() ==> (#[trigger] tracks[u]).name@
                != crate::frame_video::payload_track(p),
        r matches Err(FrameFault::CodecMismatch { declared, got }) ==> declared != got
            && crate::frame_video::id_of(got) == p[1],
        r matches Ok((t, frame)) ==> {
            let name = crate::frame_video::payload_track(p);
            let body = crate::frame_video::payload_body(p);
            let width = crate::wire::le_value(p.subrange(2, 4));
            let height = crate::wire::le_value(p.subrange(4, 6));
            &&& t < tracks.len()
            &&& tracks[t as int].name@ == name
            &&& crate::frame_video::id_of(tracks[t as int].codec) == p[1]
            &&& frame.timestamp_us == crate::wire::le_value(p.subrange(6, 14))
            &&& frame.source == FrameSource::Live
            &&& frame@.data.len() == frame.width * frame.height * 3
            &&& width != 0 || height != 0 || p[1] == 0 ==> frame.width == width && frame.height
                == height
            &&& p[1] == 0 ==> frame@.data == body && body.len() == width * height * 3
            &&& !m.tracks.contains_key(name) ==> n == m
            &&& m.tracks.contains_key(name) ==> {
                let a: TrackMetrics = m.tracks[name];
                let b: TrackMetrics = n.tracks[name];
                &&& n == (MetricsView { tracks: n.tracks, ..m })
                &&& went_up(a.frames_received, b.frames_received, 1)
                &&& went_up(a.bytes_received, b.bytes_received, p.len() as u64)
                &&& b.jitter == crate::metrics::jitter_after(
                    a.jitter,
                    frame.timestamp_us,
                    recv_ts_us,
                )
                &&& b == (TrackMetrics {
                    frames_received: b.frames_received,
                    bytes_received: b.bytes_received,
                    jitter: b.jitter,
                    ..a
                })
                &&& forall|k: Seq<char>|
                    k != name ==> (#[trigger] n.tracks.contains_key(k) <==> m.tracks.contains_key(
                        k,
                    )) && n.tracks[k] == m.tracks[k]
            }
        },
{
    lemma_stream_position(tracks, crate::frame_video::payload_track(p));
    if p.len() >= 16 {
        crate::wire::law_le_bytes_of_value(p.subrange(2, 4));
        crate::wire::law_le_bytes_of_value(p.subrange(4, 6));
        crate::wire::law_le_bytes_of_value(p.subrange(6, 14));
        vstd::arithmetic::power2::lemma2_to64();
        law_codecs_are_numbered(Codec::Raw, p[1]);
        if p[1] <= 2 {
            law_codecs_are_numbered(crate::frame_video::codec_of(p[1])->0, p[1]);
        }
    }
}

/// A payload is delivered exactly where its header is sound, the track of its
/// name has its codec, and its frame decodes: a raw one to a picture of the
/// size in the header, any other to one whose size the header says or leaves
/// open.
pub proof fn law_payloads_that_decode_are_delivered(
    p: Seq<u8>,
    tracks: Seq<FrameVideoSpec>,
    recv_ts_us: u64,
    m: MetricsView,
    n: MetricsView,
    r: Result<(usize, VideoFrameData), FrameFault>,
    t: int,
    width: u32,
    height: u32,
)
    requires
        p.len() <= usize::MAX,
        crate::frame_video::frame_dispatched(p, tracks, recv_ts_us, m, n, r),
        crate::frame_video::header_fault(p) is None,
        width == p[2] + 0x100 * p[3],
        height == p[4] + 0x100 * p[5],
        0 <= t < tracks.len(),
        tracks[t].name@ == crate::frame_video::payload_track(p),
        forall|u: int| t < u < tracks.len() ==> (#[trigger] tracks[u]).name@ != tracks[t].name@,
    ensures
        ({
            let body = crate::frame_video::payload_body(p);
            let same = !tracks[t].codec.on_media_path() && crate::frame_video::id_of(
                tracks[t].codec,
            ) == p[1];
            &&& r is Ok && p[1] == 0 <==> p[1] == 0 && same && width > 0 && height > 0
                && body.len() == width * height * 3
            &&& r is Ok && p[1] == 1 <==> p[1] == 1 && same && crate::codec::png_picture(body)
                is Some && ((width == 0 && height == 0) || ((crate::codec::png_picture(body)->0).0
                == width && (crate::codec::png_picture(body)->0).1 == height))
            &&& r is Ok && p[1] == 2 <==> p[1] == 2 && same && crate::codec::jpeg_dimensions(
                body,
            ) is Some && ((width == 0 && height == 0) || crate::codec::jpeg_dimensions(body)
                == Some((width, height)))
            &&& !same ==> (r matches Err(FrameFault::CodecMismatch { .. }))
        }),
{
    law_payloads_go_by_name(tracks, crate::frame_video::payload_track(p), t);
    let a = p.subrange(2, 4);
    let b = p.subrange(4, 6);
    reveal_with_fuel(crate::wire::le_value, 3);
    assert(crate::wire::le_value(a) == a[0] + 0x100 * a[1]);
    assert(crate::wire::le_value(b) == b[0] + 0x100 * b[1]);
    law_pictures_have_three_bytes_a_pixel(crate::frame_video::payload_body(p), width, height);
    law_codecs_are_numbered(tracks[t].codec, p[1]);
}

/// A frame that does not decode is refused for the reason that holds: a raw
/// one for its size, any other because its decoder refused it or because of
/// the two sizes.
pub proof fn law_undecodable_frames_say_why(
    body: Seq<u8>,
    codec: Codec,
    width: u32,
    height: u32,
    e: CodecError,
)
    requires
        body.len() <= usize::MAX,
        crate::frame_video::undecodable(body, codec, width, height, e),
    ensures
        codec == Codec::Raw ==> !(width > 0 && height > 0 && body.len() == width * height * 3)
            && e == crate::codec::misfit(body, width, height),
        codec == Codec::Png && crate::codec::png_picture(body) is None ==> e is DecodeFailed,
        codec == Codec::Mjpeg && crate::codec::jpeg_dimensions(body) is None ==> e is DecodeFailed,
        codec == Codec::Png && crate::codec::png_picture(body) is Some ==> (
        e matches CodecError::DimensionMismatch {
            decoded_width,
            decoded_height,
            declared_width,
            declared_height,
        } && declared_width == width && declared_height == height && decoded_width
            == (crate::codec::png_picture(body)->0).0 && decoded_height
            == (crate::codec::png_picture(body)->0).1),
{
    law_pictures_have_three_bytes_a_pixel(body, width, height);
}

/// A payload decodes exactly where it is a picture: a raw one where it has
/// the bytes of the declared size, a PNG or JPEG file where its decoder reads
/// it and its size is the declared one or none is declared. It decodes to
/// that size, a raw one to itself and a PNG file to its picture.
pub proof fn law_pictures_decode(
    payload: Seq<u8>,
    codec: Codec,
    width: u32,
    height: u32,
    r: crate::codec::CodecResult<crate::codec::DecodedFrame>,
)
    requires
        payload.len() <= usize::MAX,
        codec == Codec::Raw || codec == Codec::Png || codec == Codec::Mjpeg,
        crate::codec::frame_decoded(payload, codec, width, height, r),
    ensures
        codec == Codec::Raw ==> (r is Ok <==> width > 0 && height > 0 && payload.len() == width
            * height * 3),
        codec == Codec::Raw ==> (r matches Ok(f) ==> f.width == width && f.height == height
            && crate::payload::bytes_contents(f.rgb) == payload),
        codec == Codec::Png ==> (r is Ok <==> crate::codec::png_picture(payload) is Some && ((width
            == 0 && height == 0) || ((crate::codec::png_picture(payload)->0).0 == width
            && (crate::codec::png_picture(payload)->0).1 == height))),
        codec == Codec::Png ==> (r matches Ok(f) ==> crate::codec::png_picture(payload) == Some(
            (f.width, f.height, crate::payload::bytes_contents(f.rgb)),
        )),
        codec == Codec::Mjpeg ==> (r is Ok <==> crate::codec::jpeg_dimensions(payload) is Some && (
        (width == 0 && height == 0) || crate::codec::jpeg_dimensions(payload) == Some(
            (width, height),
        ))),
        codec == Codec::Mjpeg ==> (r matches Ok(f) ==> crate::codec::jpeg_dimensions(payload)
            == Some((f.width, f.height)) && crate::payload::bytes_contents(f.rgb).len() == f.width
            * f.height * 3),
{
    law_pictures_have_three_bytes_a_pixel(payload, width, height);
}

/// A payload that joins the send queue counts as a frame sent with its bytes,
/// one that finds it full as a frame dropped, and one that finds it closed as
/// nothing.
pub proof fn law_sending_is_counted(t: TrackMetrics, payload_len: nat)
    requires
        payload_len <= u64::MAX,
    ensures
        ({
            let queued = crate::frame_video::send_counted(t, SendOutcome::Queued, payload_len);
            let full = crate::frame_video::send_counted(t, SendOutcome::Full, payload_len);
            &&& went_up(t.frames_sent, queued.frames_sent, 1)
            &&& went_up(t.bytes_sent, queued.bytes_sent, payload_len as u64)
            &&& queued == (TrackMetrics {
                frames_sent: queued.frames_sent,
                bytes_sent: queued.bytes_sent,
                ..t
            })
            &&& went_up(
                t.frames_dropped_publisher_full,
                full.frames_dropped_publisher_full,
                1,
            )
            &&& full == (TrackMetrics {
                frames_dropped_publisher_full: full.frames_dropped_publisher_full,
                ..t
            })
            &&& crate::frame_video::send_counted(t, SendOutcome::Closed, payload_len) == t
        }),
{
}

// ---------------------------------------------------------------------------
// Waiting frames
// ---------------------------------------------------------------------------

/// A frame is put behind the frames that wait; the oldest one leaves exactly
/// where there is no room. There is always room for one.
pub proof fn law_frames_wait_in_order(
    queue: Seq<Arc<VideoFrameData>>,
    frame: Arc<VideoFrameData>,
    capacity: nat,
)
    ensures
        queue.len() < capacity || queue.len() == 0 ==> crate::video::queued(queue, frame, capacity)
            == queue.push(frame) && !crate::video::overflows(queue, capacity),
        queue.len() >= capacity && queue.len() > 0 ==> crate::video::queued(
            queue,
            frame,
            capacity,
        ) == queue.push(frame).skip(1) && crate::video::overflows(queue, capacity),
{
    assert(queue.len() > 0 ==> queue.skip(1).push(frame) =~= queue.push(frame).skip(1));
}

/// A warning about dropped frames is due for the first one, and from five
/// seconds after the last warning on.
pub proof fn law_warnings_are_five_seconds_apart(o: RecvOverflow, now_us: u64)
    ensures
        o.last_warn_us is None ==> crate::video::warning_due(o, now_us),
        o.last_warn_us matches Some(t) ==> (crate::video::warning_due(o, now_us) <==> now_us >= t
            + 5_000_000),
        crate::sync_buffer::sum_held(o.dropped_total, 1) == o.dropped_total + 1 || (o.dropped_total
            == u64::MAX && crate::sync_buffer::sum_held(o.dropped_total, 1) == u64::MAX),
{
}

} // verus!
