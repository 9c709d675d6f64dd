//! What messages tell a person: which words, and which numbers and names in
//! which place.
use crate::bindings as out;
use crate::codec::CodecError;
use crate::config_file::ConfigFileError;
use crate::dtype::DType;
use crate::error::PortalError;
use crate::rpc::RpcError;
use crate::serialization::DecodeError;
use crate::text::decimal;
use vstd::prelude::*;

verus! {

/// A message about a number of bytes tells the expected number first and the
/// number that came behind it.
pub proof fn law_lengths_are_told(e: DecodeError, expected: nat, got: nat)
    ensures
        crate::serialization::wrong_length(e, expected, got) ==> (
        e matches DecodeError::Malformed(PortalError::Deserialization(m)) && m@ == "expected "@
            + decimal(expected) + " bytes, got "@ + decimal(got)),
        crate::serialization::short_state(e, got) ==> (
        e matches DecodeError::Malformed(PortalError::Deserialization(m)) && m@
            == "packet shorter than "@ + decimal(12) + "-byte header: got "@ + decimal(got)),
        crate::serialization::short_action(e, got) ==> (
        e matches DecodeError::Malformed(PortalError::Deserialization(m)) && m@
            == "action packet shorter than "@ + decimal(20) + "-byte header: got "@ + decimal(
            got,
        )),
{
}

/// A message about a value that is cut short tells its type, the bytes that
/// it needs and those that came.
pub proof fn law_short_values_are_told(d: DType, got: nat)
    ensures
        d.too_short_text(got) == "dtype "@ + d.name() + " needs "@ + decimal(d.width())
            + " bytes, got "@ + decimal(got),
{
}

/// A message about a frame that a payload cannot hold tells its two sides, or
/// the bytes of its track's name.
pub proof fn law_payload_limits_are_told(width: u32, height: u32, len: nat)
    ensures
        crate::frame_video::oversized_text(width, height) == "frame_video dimensions "@ + decimal(
            width as nat,
        ) + "x"@ + decimal(height as nat) + " exceed u16 max ("@ + decimal(65535) + ")"@,
        crate::frame_video::long_name_text(len) == "frame_video track name too long: "@ + decimal(
            len,
        ) + " bytes (max "@ + decimal(256) + ")"@,
{
}

/// A message about a picture tells its sides and sizes, the declared or
/// expected ones in their place.
pub proof fn law_picture_errors_are_told(e: CodecError)
    ensures
        e matches CodecError::InvalidDimensions { width, height } ==> e.text()
            == "invalid frame dimensions: "@ + decimal(width as nat) + "x"@ + decimal(
            height as nat,
        ),
        e matches CodecError::WrongRgbSize { width, height, expected, got } ==> e.text()
            == "wrong RGB buffer size for "@ + decimal(width as nat) + "x"@ + decimal(
            height as nat,
        ) + ": expected "@ + decimal(expected as nat) + " bytes, got "@ + decimal(got as nat),
        e matches CodecError::EncodeFailed(m) ==> e.text() == "encode failed: "@ + m@,
        e matches CodecError::DecodeFailed(m) ==> e.text() == "decode failed: "@ + m@,
        e matches CodecError::DimensionMismatch {
            decoded_width,
            decoded_height,
            declared_width,
            declared_height,
        } ==> e.text() == "decoded dimensions "@ + decimal(decoded_width as nat) + "x"@ + decimal(
            decoded_height as nat,
        ) + " disagree with declared "@ + decimal(declared_width as nat) + "x"@ + decimal(
            declared_height as nat,
        ),
{
}

/// A message about the session tells the name, the numbers or the types that
/// it is about, each in its place.
pub proof fn law_session_errors_are_told(e: PortalError)
    ensures
        e matches PortalError::Room(m) ==> e.text() == "room error: "@ + m@,
        e matches PortalError::UnknownVideoTrack { name } ==> e.text() == "unknown video track: "@
            + name@,
        e matches PortalError::UnknownChunk { name } ==> e.text() == "unknown action chunk: "@
            + name@,
        e matches PortalError::WrongFrameSize { expected, got } ==> e.text()
            == "wrong frame size: expected "@ + decimal(expected as nat) + " bytes, got "@
            + decimal(got as nat),
        e matches PortalError::InvalidFrameDimensions { width, height } ==> e.text()
            == "invalid frame dimensions: width="@ + decimal(width as nat) + ", height="@
            + decimal(height as nat) + " (must both be even)"@,
        e matches PortalError::Deserialization(m) ==> e.text() == "deserialization error: "@ + m@,
        e matches PortalError::Codec(m) ==> e.text() == "frame codec error: "@ + m@,
        e matches PortalError::WrongRole(role) ==> e.text() == "operation not available for role "@
            + crate::error::role_name(role),
        e matches PortalError::DtypeMismatch { field, expected, got } ==> e.text() == "field '"@
            + field@ + "' declared as "@ + expected.name() + " but sent as "@ + got@
            + "; use the matching TypedValue variant or redeclare the dtype"@,
        e matches PortalError::Rpc(r) ==> e.text() == "rpc error "@ + decimal(r.code as nat)
            + ": "@ + r.message@,
{
}

/// On the other side of the boundary the same is told of a failure, in the
/// words used there.
pub proof fn law_failures_are_told_across(e: out::PortalError)
    ensures
        e matches out::PortalError::Room(m) ==> e.text() == "room error: "@ + m@,
        e matches out::PortalError::UnknownVideoTrack(name) ==> e.text()
            == "unknown video track: "@ + name@,
        e matches out::PortalError::UnknownChunk(name) ==> e.text() == "unknown action chunk: "@
            + name@,
        e matches out::PortalError::WrongFrameSize { expected, got } ==> e.text()
            == "wrong frame size: expected "@ + decimal(expected as nat) + " bytes, got "@
            + decimal(got as nat),
        e matches out::PortalError::InvalidFrameDimensions { width, height } ==> e.text()
            == "invalid frame dimensions: "@ + decimal(width as nat) + "x"@ + decimal(
            height as nat,
        ) + " (must both be even)"@,
        e matches out::PortalError::DtypeMismatch { field, expected, got } ==> e.text()
            == "field '"@ + field@ + "' declared as "@ + out::dtype_in(expected).name()
            + " but sent as "@ + got@,
        e matches out::PortalError::Rpc { code, message, data } ==> e.text() == "rpc error "@
            + decimal(code as nat) + ": "@ + message@,
{
}

/// A message about a file tells what was wrong, or the version that it has and
/// the one that is understood.
pub proof fn law_file_errors_are_told(e: ConfigFileError, r: RpcError)
    ensures
        e matches ConfigFileError::Parse(m) ==> e.text() == "yaml parse error: "@ + m@,
        e matches ConfigFileError::Io(m) ==> e.text() == "io error: "@ + m@,
        e matches ConfigFileError::Invalid(m) ==> e.text() == "invalid config: "@ + m@,
        e matches ConfigFileError::UnsupportedVersion { got, supported } ==> e.text()
            == "unsupported config-file version "@ + decimal(got as nat)
            + "; this build supports version "@ + decimal(supported as nat),
        r.text() == "rpc error "@ + decimal(r.code as nat) + ": "@ + r.message@,
{
}

} // verus!
