//! Frame codecs of the byte-stream path.
//!
//! Pictures are packed RGB24. PNG and JPEG are done by the `image` crate.
use crate::payload::{bytes_as_slice, bytes_clone, bytes_from_vec};
use crate::text;
use bytes::Bytes;
use image::codecs::jpeg::JpegEncoder;
use image::codecs::png::{CompressionType, FilterType, PngEncoder};
use image::{ExtendedColorType, ImageEncoder, ImageError, ImageFormat, ImageReader};
use std::io::Cursor;
use vstd::prelude::*;

verus! {

/// Codec of a video track. It also picks the transport: the WebRTC codecs
/// ride the media path and are encoded there, every other one rides a
/// reliable byte stream and is encoded here.
#[derive(Debug, Clone, Copy, PartialEq, Eq, Structural)]
pub enum Codec {
    /// WebRTC H.264, lossy, best-effort delivery.
    H264,
    /// WebRTC VP8, lossy.
    Vp8,
    /// WebRTC VP9, lossy.
    Vp9,
    /// WebRTC AV1, lossy.
    Av1,
    /// WebRTC H.265, lossy.
    H265,
    /// Uncompressed RGB24.
    Raw,
    /// PNG, lossless.
    Png,
    /// Motion JPEG, lossy; every frame stands alone.
    Mjpeg,
}

impl Codec {
    /// Whether the codec rides the WebRTC media path.
    pub open spec fn on_media_path(self) -> bool {
        self != Codec::Raw && self != Codec::Png && self != Codec::Mjpeg
    }

    /// Whether the codec rides the WebRTC media path. The others ride the
    /// byte-stream path.
    pub fn is_webrtc(self) -> (b: bool)
        ensures
            b == self.on_media_path(),
    {
        match self {
            Codec::H264 | Codec::Vp8 | Codec::Vp9 | Codec::Av1 | Codec::H265 => true,
            Codec::Raw | Codec::Png | Codec::Mjpeg => false,
        }
    }
}

/// Decoded frame: RGB24 bytes and their dimensions.
#[derive(Debug)]
pub struct DecodedFrame {
    pub rgb: Bytes,
    pub width: u32,
    pub height: u32,
}

impl Clone for DecodedFrame {
    fn clone(&self) -> (c: Self)
        ensures
            crate::payload::bytes_contents(c.rgb) == crate::payload::bytes_contents(self.rgb),
            c.width == self.width,
            c.height == self.height,
    {
        DecodedFrame { rgb: bytes_clone(&self.rgb), width: self.width, height: self.height }
    }
}

#[derive(Debug)]
pub enum CodecError {
    /// A dimension is zero, or the picture does not fit in memory.
    InvalidDimensions { width: u32, height: u32 },
    /// The buffer does not fit the dimensions.
    WrongRgbSize { width: u32, height: u32, expected: usize, got: usize },
    EncodeFailed(String),
    DecodeFailed(String),
    /// The picture has other dimensions than were declared.
    DimensionMismatch {
        decoded_width: u32,
        decoded_height: u32,
        declared_width: u32,
        declared_height: u32,
    },
}

pub type CodecResult<T> = Result<T, CodecError>;

impl CodecError {
    /// The text that describes the error to a person.
    pub open spec fn text(self) -> Seq<char> {
        match self {
            CodecError::InvalidDimensions { width, height } => "invalid frame dimensions: "@
                + text::decimal(width as nat) + "x"@ + text::decimal(height as nat),
            CodecError::WrongRgbSize { width, height, expected, got } => {
                "wrong RGB buffer size for "@ + text::decimal(width as nat) + "x"@
                    + text::decimal(height as nat) + ": expected "@ + text::decimal(
                    expected as nat,
                ) + " bytes, got "@ + text::decimal(got as nat)
            },
            CodecError::EncodeFailed(m) => "encode failed: "@ + m@,
            CodecError::DecodeFailed(m) => "decode failed: "@ + m@,
            CodecError::DimensionMismatch {
                decoded_width,
                decoded_height,
                declared_width,
                declared_height,
            } => "decoded dimensions "@ + text::decimal(decoded_width as nat) + "x"@
                + text::decimal(decoded_height as nat) + " disagree with declared "@
                + text::decimal(declared_width as nat) + "x"@ + text::decimal(
                declared_height as nat,
            ),
        }
    }

    /// The error in words.
    pub fn describe(&self) -> (s: String)
        ensures
            s@ == self.text(),
    {
        match self {
            CodecError::InvalidDimensions { width, height } => {
                let mut s: String = "invalid frame dimensions: ".to_owned();
                text::append_decimal(&mut s, *width as u128);
                s.append("x");
                text::append_decimal(&mut s, *height as u128);
                s
            },
            CodecError::WrongRgbSize { width, height, expected, got } => {
                let mut s: String = "wrong RGB buffer size for ".to_owned();
                text::append_decimal(&mut s, *width as u128);
                s.append("x");
                text::append_decimal(&mut s, *height as u128);
                s.append(": expected ");
                text::append_decimal(&mut s, *expected as u128);
                s.append(" bytes, got ");
                text::append_decimal(&mut s, *got as u128);
                s
            },
            CodecError::EncodeFailed(m) => {
                let mut s: String = "encode failed: ".to_owned();
                s.append(m.as_str());
                s
            },
            CodecError::DecodeFailed(m) => {
                let mut s: String = "decode failed: ".to_owned();
                s.append(m.as_str());
                s
            },
            CodecError::DimensionMismatch {
                decoded_width,
                decoded_height,
                declared_width,
                declared_height,
            } => {
                let mut s: String = "decoded dimensions ".to_owned();
                text::append_decimal(&mut s, *decoded_width as u128);
                s.append("x");
                text::append_decimal(&mut s, *decoded_height as u128);
                s.append(" disagree with declared ");
                text::append_decimal(&mut s, *declared_width as u128);
                s.append("x");
                text::append_decimal(&mut s, *declared_height as u128);
                s
            },
        }
    }
}

/// Bytes of a packed RGB24 picture.
pub open spec fn rgb_len(width: u32, height: u32) -> nat {
    width as nat * height as nat * 3
}

/// Whether dimensions are those of a picture: neither is zero, and its bytes
/// can be counted.
pub open spec fn valid_dimensions(width: u32, height: u32) -> bool {
    width != 0 && height != 0 && rgb_len(width, height) <= usize::MAX
}

/// Whether `rgb` is a picture of the given dimensions.
pub open spec fn fits(rgb: Seq<u8>, width: u32, height: u32) -> bool {
    valid_dimensions(width, height) && rgb.len() == rgb_len(width, height)
}

/// The error for a buffer that does not fit.
pub open spec fn misfit(rgb: Seq<u8>, width: u32, height: u32) -> CodecError {
    if !valid_dimensions(width, height) {
        CodecError::InvalidDimensions { width, height }
    } else {
        CodecError::WrongRgbSize {
            width,
            height,
            expected: rgb_len(width, height) as usize,
            got: rgb.len() as usize,
        }
    }
}

fn rgb_size(width: u32, height: u32) -> (n: u128)
    ensures
        n == rgb_len(width, height),
{
    proof {
        assert(width as nat * height as nat <= 0xffff_ffff * 0xffff_ffff) by (nonlinear_arith)
            requires
                width <= 0xffff_ffff,
                height <= 0xffff_ffff,
        ;
    }
    width as u128 * height as u128 * 3
}

/// Checks that a buffer is a picture of the given dimensions.
fn check_rgb(rgb: &[u8], width: u32, height: u32) -> (r: CodecResult<()>)
    ensures
        match r {
            Ok(_) => fits(rgb@, width, height),
            Err(e) => !fits(rgb@, width, height) && e == misfit(rgb@, width, height),
        },
{
    if width == 0 || height == 0 {
        return Err(CodecError::InvalidDimensions { width, height });
    }
    let expected: u128 = rgb_size(width, height);
    if expected > usize::MAX as u128 {
        return Err(CodecError::InvalidDimensions { width, height });
    }
    if rgb.len() as u128 != expected {
        return Err(
            CodecError::WrongRgbSize { width, height, expected: expected as usize, got: rgb.len() },
        );
    }
    Ok(())
}

/// Estimate of the encoded size.
pub open spec fn size_estimate(width: u32, height: u32, codec: Codec) -> nat {
    let raw = if rgb_len(width, height) > usize::MAX {
        usize::MAX as nat
    } else {
        rgb_len(width, height)
    };
    if codec == Codec::Mjpeg {
        raw / 8
    } else {
        raw
    }
}

/// Rough estimate of the encoded size, for capacity hints: exact for `Raw`,
/// the same for `Png`, an eighth of it for `Mjpeg`.
pub fn estimated_encoded_size(width: u32, height: u32, codec: Codec) -> (n: usize)
    requires
        !codec.on_media_path(),
    ensures
        n == size_estimate(width, height, codec),
{
    let full: u128 = rgb_size(width, height);
    let raw: usize = if full > usize::MAX as u128 {
        usize::MAX
    } else {
        full as usize
    };
    match codec {
        Codec::Mjpeg => raw / 8,
        _ => raw,
    }
}

// ---------------------------------------------------------------------------
// The `image` crate
// ---------------------------------------------------------------------------

/// `image::ImageError`, of which only the text is used.
#[verifier::external_type_specification]
#[verifier::external_body]
pub struct ExImageError(image::ImageError);

/// PNG file of a picture, as the encoder writes it; `None` when it refuses.
pub uninterp spec fn png_file(rgb: Seq<u8>, width: u32, height: u32) -> Option<Seq<u8>>;

/// Picture in a PNG file, as the decoder reads it; `None` when it refuses.
pub uninterp spec fn png_picture(file: Seq<u8>) -> Option<(u32, u32, Seq<u8>)>;

/// JPEG file of a picture at a quality, as the encoder writes it.
pub uninterp spec fn jpeg_file(rgb: Seq<u8>, width: u32, height: u32, quality: u8) -> Seq<u8>;

/// Dimensions of the picture in a JPEG file; `None` when the decoder refuses
/// the file.
pub uninterp spec fn jpeg_dimensions(file: Seq<u8>) -> Option<(u32, u32)>;

/// Largest picture, in bytes, that the decoders read: they refuse to allocate
/// more than 512 MiB for one.
pub const DECODE_LIMIT: usize = 0x2000_0000;

/// `PngEncoder::write_image` of `image`, with fast compression and adaptive
/// filters. It panics when the buffer does not fit the dimensions. PNG is
/// lossless: a file that was written reads back as the same picture, up to the
/// largest that the decoder reads.
#[verifier::external_body]
fn png_encode(rgb: &[u8], width: u32, height: u32) -> (r: Result<Vec<u8>, ImageError>)
    requires
        fits(rgb@, width, height),
    ensures
        match r {
            Ok(file) => png_file(rgb@, width, height) == Some(file@) && (rgb@.len() <= DECODE_LIMIT
                ==> png_picture(file@) == Some((width, height, rgb@))),
            Err(_) => png_file(rgb@, width, height) is None,
        },
{
    let mut out = Vec::new();
    PngEncoder::new_with_quality(&mut out, CompressionType::Fast, FilterType::Adaptive)
        .write_image(rgb, width, height, ExtendedColorType::Rgb8)?;
    Ok(out)
}

/// `JpegEncoder::encode` of `image` at a quality. It panics when the buffer
/// does not fit the dimensions. Of dimensions that are not zero it refuses those
/// over 65535. A file that was written reads back as a picture of the same
/// dimensions, up to the largest that the decoder reads.
#[verifier::external_body]
fn jpeg_encode(rgb: &[u8], width: u32, height: u32, quality: u8) -> (r: Result<
    Vec<u8>,
    ImageError,
>)
    requires
        fits(rgb@, width, height),
    ensures
        match r {
            Ok(file) => width <= 65535 && height <= 65535 && file@ == jpeg_file(
                rgb@,
                width,
                height,
                quality,
            ) && (rgb@.len() <= DECODE_LIMIT ==> jpeg_dimensions(file@) == Some((width, height))),
            Err(_) => width > 65535 || height > 65535,
        },
{
    let mut out = Vec::new();
    JpegEncoder::new_with_quality(&mut out, quality)
        .encode(rgb, width, height, ExtendedColorType::Rgb8)?;
    Ok(out)
}

/// `ImageReader::decode` of `image` on a PNG file, as RGB24: width, height
/// and three bytes for every pixel.
#[verifier::external_body]
fn png_decode(file: &[u8]) -> (r: Result<(u32, u32, Vec<u8>), ImageError>)
    ensures
        match r {
            Ok(p) => png_picture(file@) == Some((p.0, p.1, p.2@)) && p.2@.len() == rgb_len(
                p.0,
                p.1,
            ),
            Err(_) => png_picture(file@) is None,
        },
{
    let picture = ImageReader::with_format(Cursor::new(file), ImageFormat::Png)
        .decode()?
        .into_rgb8();
    let (width, height) = picture.dimensions();
    Ok((width, height, picture.into_raw()))
}

/// `ImageReader::decode` of `image` on a JPEG file, as RGB24: width, height
/// and three bytes for every pixel. Of the pixels themselves nothing is
/// claimed: the decoder picks its arithmetic by the processor.
#[verifier::external_body]
fn jpeg_decode(file: &[u8]) -> (r: Result<(u32, u32, Vec<u8>), ImageError>)
    ensures
        match r {
            Ok(p) => jpeg_dimensions(file@) == Some((p.0, p.1)) && p.2@.len() == rgb_len(
                p.0,
                p.1,
            ),
            Err(_) => jpeg_dimensions(file@) is None,
        },
{
    let picture = ImageReader::with_format(Cursor::new(file), ImageFormat::Jpeg)
        .decode()?
        .into_rgb8();
    let (width, height) = picture.dimensions();
    Ok((width, height, picture.into_raw()))
}

// ---------------------------------------------------------------------------
// Encoding
// ---------------------------------------------------------------------------

/// What a frame is encoded as; `None` when the encoder refuses it.
pub open spec fn encoded(
    rgb: Seq<u8>,
    width: u32,
    height: u32,
    codec: Codec,
    quality: u8,
) -> Option<Seq<u8>> {
    match codec {
        Codec::Png => png_file(rgb, width, height),
        Codec::Mjpeg => if width <= 65535 && height <= 65535 {
            Some(jpeg_file(rgb, width, height, quality))
        } else {
            None
        },
        _ => Some(rgb),
    }
}

/// What is certain of reading a payload back, for a picture that the decoders
/// read: a PNG file holds the picture, a JPEG file one of its dimensions.
pub open spec fn reads_back(
    payload: Seq<u8>,
    rgb: Seq<u8>,
    width: u32,
    height: u32,
    codec: Codec,
) -> bool {
    rgb.len() <= DECODE_LIMIT ==> {
        &&& codec == Codec::Png ==> png_picture(payload) == Some((width, height, rgb))
        &&& codec == Codec::Mjpeg ==> jpeg_dimensions(payload) == Some((width, height))
    }
}

/// Encodes an RGB24 frame. The quality is in `1..=100` for `Mjpeg` and has no
/// effect on the others.
pub fn encode_frame(rgb: &[u8], width: u32, height: u32, codec: Codec, quality: u8) -> (r:
    CodecResult<Vec<u8>>)
    requires
        !codec.on_media_path(),
    ensures
        match r {
            Ok(payload) => fits(rgb@, width, height) && encoded(
                rgb@,
                width,
                height,
                codec,
                quality,
            ) == Some(payload@) && reads_back(payload@, rgb@, width, height, codec),
            Err(e) => if fits(rgb@, width, height) {
                e is EncodeFailed && encoded(rgb@, width, height, codec, quality) is None
            } else {
                e == misfit(rgb@, width, height)
            },
        },
{
    let mut out: Vec<u8> = Vec::new();
    match encode_frame_into(&mut out, rgb, width, height, codec, quality) {
        Ok(_) => {
            proof {
                if let Some(p) = encoded(rgb@, width, height, codec, quality) {
                    assert(Seq::<u8>::empty() + p =~= p);
                }
            }
            Ok(out)
        },
        Err(e) => Err(e),
    }
}

/// Appends every byte of `more`.
pub(crate) fn append_bytes(out: &mut Vec<u8>, more: &[u8])
    ensures
        final(out)@ == old(out)@ + more@,
{
    out.extend_from_slice(more);
    assert(out@ =~= old(out)@ + more@);
}

/// Encodes an RGB24 frame behind what is already in `out`.
pub fn encode_frame_into(
    out: &mut Vec<u8>,
    rgb: &[u8],
    width: u32,
    height: u32,
    codec: Codec,
    quality: u8,
) -> (r: CodecResult<()>)
    requires
        !codec.on_media_path(),
    ensures
        match r {
            Ok(_) => fits(rgb@, width, height) && (encoded(
                rgb@,
                width,
                height,
                codec,
                quality,
            ) matches Some(p) && final(out)@ == old(out)@ + p && reads_back(
                p,
                rgb@,
                width,
                height,
                codec,
            )),
            Err(e) => final(out)@ == old(out)@ && if fits(rgb@, width, height) {
                e is EncodeFailed && encoded(rgb@, width, height, codec, quality) is None
            } else {
                e == misfit(rgb@, width, height)
            },
        },
{
    match check_rgb(rgb, width, height) {
        Ok(_) => {},
        Err(e) => {
            return Err(e);
        },
    }
    match codec {
        Codec::Png => match png_encode(rgb, width, height) {
            Ok(file) => {
                append_bytes(out, file.as_slice());
                Ok(())
            },
            Err(e) => Err(CodecError::EncodeFailed(e.to_string())),
        },
        Codec::Mjpeg => match jpeg_encode(rgb, width, height, quality) {
            Ok(file) => {
                append_bytes(out, file.as_slice());
                Ok(())
            },
            Err(e) => Err(CodecError::EncodeFailed(e.to_string())),
        },
        _ => {
            append_bytes(out, rgb);
            Ok(())
        },
    }
}

// ---------------------------------------------------------------------------
// Decoding
// ---------------------------------------------------------------------------

/// Whether decoded dimensions agree with the declared ones. Two zeros declare
/// nothing.
pub open spec fn dimensions_agree(width: u32, height: u32, dw: u32, dh: u32) -> bool {
    (dw == 0 && dh == 0) || (width == dw && height == dh)
}

/// Takes a decoded picture, unless its dimensions disagree with the declared
/// ones.
pub fn accept_picture(
    width: u32,
    height: u32,
    rgb: Vec<u8>,
    declared_width: u32,
    declared_height: u32,
) -> (r: CodecResult<DecodedFrame>)
    ensures
        match r {
            Ok(f) => dimensions_agree(width, height, declared_width, declared_height) && f.width
                == width && f.height == height && crate::payload::bytes_contents(f.rgb) == rgb@,
            Err(e) => !dimensions_agree(width, height, declared_width, declared_height) && e == (
            CodecError::DimensionMismatch {
                decoded_width: width,
                decoded_height: height,
                declared_width,
                declared_height,
            }),
        },
{
    if (declared_width != 0 || declared_height != 0) && (width != declared_width || height
        != declared_height) {
        return Err(
            CodecError::DimensionMismatch {
                decoded_width: width,
                decoded_height: height,
                declared_width,
                declared_height,
            },
        );
    }
    Ok(DecodedFrame { rgb: bytes_from_vec(rgb), width, height })
}

/// Dimensions of the picture in a payload; `None` when the decoder refuses
/// the payload.
pub open spec fn payload_dimensions(payload: Seq<u8>, codec: Codec) -> Option<(u32, u32)> {
    if codec == Codec::Png {
        match png_picture(payload) {
            Some(p) => Some((p.0, p.1)),
            None => None,
        }
    } else {
        jpeg_dimensions(payload)
    }
}

/// What decoding a payload gives.
pub open spec fn frame_decoded(
    payload: Seq<u8>,
    codec: Codec,
    declared_width: u32,
    declared_height: u32,
    r: CodecResult<DecodedFrame>,
) -> bool {
    if codec == Codec::Raw {
        match r {
            Ok(f) => fits(payload, declared_width, declared_height)
                && crate::payload::bytes_contents(f.rgb) == payload && f.width == declared_width
                && f.height == declared_height,
            Err(e) => !fits(payload, declared_width, declared_height) && e == misfit(
                payload,
                declared_width,
                declared_height,
            ),
        }
    } else {
        match payload_dimensions(payload, codec) {
            None => r matches Err(e) && e is DecodeFailed,
            Some((w, h)) => match r {
                Ok(f) => {
                    &&& dimensions_agree(w, h, declared_width, declared_height)
                    &&& f.width == w && f.height == h
                    &&& crate::payload::bytes_contents(f.rgb).len() == rgb_len(w, h)
                    &&& codec == Codec::Png ==> png_picture(payload) == Some(
                        (w, h, crate::payload::bytes_contents(f.rgb)),
                    )
                },
                Err(e) => !dimensions_agree(w, h, declared_width, declared_height) && e == (
                CodecError::DimensionMismatch {
                    decoded_width: w,
                    decoded_height: h,
                    declared_width,
                    declared_height,
                }),
            },
        }
    }
}

/// Decodes a payload to RGB24. A `Raw` payload has the declared dimensions
/// and is handed back untouched; the others carry their own, which must agree
/// with the declared ones unless those are both zero.
pub fn decode_frame(bytes: Bytes, codec: Codec, declared_width: u32, declared_height: u32) -> (r:
    CodecResult<DecodedFrame>)
    requires
        !codec.on_media_path(),
    ensures
        frame_decoded(
            crate::payload::bytes_contents(bytes),
            codec,
            declared_width,
            declared_height,
            r,
        ),
        codec == Codec::Raw ==> (r matches Ok(f) ==> f.rgb == bytes),
{
    let decoded: Result<(u32, u32, Vec<u8>), ImageError> = match codec {
        Codec::Png => png_decode(bytes_as_slice(&bytes)),
        Codec::Mjpeg => jpeg_decode(bytes_as_slice(&bytes)),
        _ => {
            return match check_rgb(bytes_as_slice(&bytes), declared_width, declared_height) {
                Ok(_) => Ok(
                    DecodedFrame { rgb: bytes, width: declared_width, height: declared_height },
                ),
                Err(e) => Err(e),
            };
        },
    };
    match decoded {
        Ok((width, height, rgb)) => accept_picture(
            width,
            height,
            rgb,
            declared_width,
            declared_height,
        ),
        Err(e) => Err(CodecError::DecodeFailed(e.to_string())),
    }
}

/// A frame that was encoded is decoded: a `Raw` or `Png` one to the same
/// picture, an `Mjpeg` one to a picture of the same dimensions. That holds
/// under the dimensions that it was encoded with, and for the formats that
/// carry their own also where none are declared. Under any others it is
/// refused as a mismatch.
pub proof fn law_frames_read_back(
    rgb: Seq<u8>,
    width: u32,
    height: u32,
    codec: Codec,
    quality: u8,
    payload: Seq<u8>,
    declared_width: u32,
    declared_height: u32,
    r: CodecResult<DecodedFrame>,
)
    requires
        !codec.on_media_path(),
        fits(rgb, width, height),
        rgb.len() <= DECODE_LIMIT,
        encoded(rgb, width, height, codec, quality) == Some(payload),
        reads_back(payload, rgb, width, height, codec),
        frame_decoded(payload, codec, declared_width, declared_height, r),
    ensures
        declared_width == width && declared_height == height || codec != Codec::Raw
            && declared_width == 0 && declared_height == 0 ==> (r matches Ok(f) && f.width == width
            && f.height == height && if codec == Codec::Mjpeg {
            crate::payload::bytes_contents(f.rgb).len() == rgb.len()
        } else {
            crate::payload::bytes_contents(f.rgb) == rgb
        }),
        codec != Codec::Raw && !dimensions_agree(width, height, declared_width, declared_height)
            ==> r == Err::<DecodedFrame, CodecError>(
            CodecError::DimensionMismatch {
                decoded_width: width,
                decoded_height: height,
                declared_width,
                declared_height,
            },
        ),
{
}

} // verus!
