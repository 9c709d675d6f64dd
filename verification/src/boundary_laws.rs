//! What crosses the boundary to other languages, and that it keeps its
//! meaning.
use crate::bindings as out;
use crate::codec::Codec;
use crate::config::FieldSpec;
use crate::dtype::DType;
use crate::error::PortalError;
use crate::types;
use vstd::prelude::*;

verus! {

/// A codec has the same name on both sides.
pub proof fn law_codecs_keep_their_names(c: out::VideoCodec, d: Codec)
    ensures
        out::codec_in(c) == Codec::H264 <==> c == out::VideoCodec::H264,
        out::codec_in(c) == Codec::Vp8 <==> c == out::VideoCodec::Vp8,
        out::codec_in(c) == Codec::Vp9 <==> c == out::VideoCodec::Vp9,
        out::codec_in(c) == Codec::Av1 <==> c == out::VideoCodec::Av1,
        out::codec_in(c) == Codec::H265 <==> c == out::VideoCodec::H265,
        out::codec_in(c) == Codec::Raw <==> c == out::VideoCodec::Raw,
        out::codec_in(c) == Codec::Png <==> c == out::VideoCodec::Png,
        out::codec_in(c) == Codec::Mjpeg <==> c == out::VideoCodec::Mjpeg,
        out::codec_in(out::codec_out(d)) == d,
{
}

/// A type has the same name on both sides.
pub proof fn law_types_keep_their_names(d: out::DType, e: DType)
    ensures
        out::dtype_in(d) == DType::F64 <==> d == out::DType::F64,
        out::dtype_in(d) == DType::F32 <==> d == out::DType::F32,
        out::dtype_in(d) == DType::I32 <==> d == out::DType::I32,
        out::dtype_in(d) == DType::I16 <==> d == out::DType::I16,
        out::dtype_in(d) == DType::I8 <==> d == out::DType::I8,
        out::dtype_in(d) == DType::U32 <==> d == out::DType::U32,
        out::dtype_in(d) == DType::U16 <==> d == out::DType::U16,
        out::dtype_in(d) == DType::U8 <==> d == out::DType::U8,
        out::dtype_in(d) == DType::Bool <==> d == out::DType::Bool,
        out::dtype_in(out::dtype_out(e)) == e,
{
}

/// Where a frame comes from, and what a silent track does, have the same name
/// on both sides.
pub proof fn law_sources_and_behaviors_keep_their_names(
    s: types::FrameSource,
    b: out::StallBehavior,
)
    ensures
        out::source_out(s) == out::FrameSource::Live <==> s == types::FrameSource::Live,
        out::source_out(s) == out::FrameSource::Stale <==> s == types::FrameSource::Stale,
        out::source_out(s) == out::FrameSource::Omitted <==> s == types::FrameSource::Omitted,
        out::stall_in(b) == types::StallBehavior::Drop <==> b == out::StallBehavior::Drop,
        out::stall_in(b) == types::StallBehavior::Freeze <==> b == out::StallBehavior::Freeze,
        out::stall_in(b) == types::StallBehavior::Omit <==> b == out::StallBehavior::Omit,
{
}

/// A frame crosses with its size, its bytes, its time and where it comes
/// from.
pub proof fn law_frames_cross_unchanged(v: out::VideoFrame, f: types::FrameView)
    requires
        out::same_frame(v, f),
    ensures
        v.width == f.width && v.height == f.height,
        v.data@ == f.data,
        v.timestamp_us == f.timestamp_us,
        v.source == out::FrameSource::Live <==> f.source == types::FrameSource::Live,
        v.source == out::FrameSource::Stale <==> f.source == types::FrameSource::Stale,
        v.source == out::FrameSource::Omitted <==> f.source == types::FrameSource::Omitted,
{
}

/// A number is taken at the type of the first field that has its name, and as
/// binary64 where none has it.
pub proof fn law_the_first_field_of_a_name_counts(schema: Seq<FieldSpec>, name: Seq<char>, k: int)
    ensures
        (forall|i: int| 0 <= i < schema.len() ==> (#[trigger] schema[i]).name@ != name)
            ==> out::declared_type(schema, name) == DType::F64,
        0 <= k < schema.len() && schema[k].name@ == name && (forall|i: int|
            0 <= i < k ==> (#[trigger] schema[i]).name@ != name) ==> out::declared_type(
            schema,
            name,
        ) == schema[k].dtype,
    decreases schema.len(),
{
    if schema.len() > 0 {
        let rest = schema.skip(1);
        law_the_first_field_of_a_name_counts(rest, name, k - 1);
        if forall|i: int| 0 <= i < schema.len() ==> (#[trigger] schema[i]).name@ != name {
            assert(schema[0].name@ != name);
            assert forall|i: int| 0 <= i < rest.len() implies (#[trigger] rest[i]).name@
                != name by {
                assert(rest[i] == schema[i + 1]);
            }
        }
        if 0 < k < schema.len() && schema[k].name@ == name && (forall|i: int|
            0 <= i < k ==> (#[trigger] schema[i]).name@ != name) {
            assert(schema[0].name@ != name);
            assert(rest[k - 1] == schema[k]);
            assert forall|i: int| 0 <= i < k - 1 implies (#[trigger] rest[i]).name@ != name by {
                assert(rest[i] == schema[i + 1]);
            }
        }
    }
}

/// A failure crosses as the same failure, with all that it tells.
pub proof fn law_failures_cross_unchanged(b: out::PortalError, e: PortalError)
    requires
        out::same_error(b, e),
    ensures
        e matches PortalError::Room(m) ==> b == out::PortalError::Room(m),
        e is AlreadyConnected ==> b is AlreadyConnected,
        e is NotConnected ==> b is NotConnected,
        e is NoPeer ==> b is NoPeer,
        e is AmbiguousPeer ==> b is AmbiguousPeer,
        e matches PortalError::UnknownVideoTrack { name } ==> b
            == out::PortalError::UnknownVideoTrack(name),
        e matches PortalError::UnknownChunk { name } ==> b == out::PortalError::UnknownChunk(name),
        e matches PortalError::WrongFrameSize { expected, got } ==> (
        b matches out::PortalError::WrongFrameSize { expected: x, got: g } && x == expected && g
            == got),
        e matches PortalError::InvalidFrameDimensions { width, height } ==> (
        b matches out::PortalError::InvalidFrameDimensions { width: w, height: h } && w == width
            && h == height),
        e matches PortalError::Deserialization(m) ==> b == out::PortalError::Deserialization(m),
        e matches PortalError::Codec(m) ==> b == out::PortalError::Codec(m),
        e is ObservationSyncDisabled ==> b is ObservationSyncDisabled,
        e matches PortalError::WrongRole(r) ==> (b matches out::PortalError::WrongRole(x) && (x
            == out::Role::Robot <==> r == types::Role::Robot) && (x == out::Role::Operator <==> r
            == types::Role::Operator) && (x == out::Role::Observer <==> r
            == types::Role::Observer)),
        e matches PortalError::DtypeMismatch { field, expected, got } ==> (
        b matches out::PortalError::DtypeMismatch { field: f, expected: x, got: g } && f == field
            && out::dtype_in(x) == expected && g@ == got@),
        e matches PortalError::Rpc(r) ==> (
        b matches out::PortalError::Rpc { code, message, data } && code == r.code && message
            == r.message && data == r.data),
{
}

/// A role has the same name on both sides, and the name that messages give it.
pub proof fn law_roles_keep_their_names(r: types::Role)
    ensures
        ({
            let s = <out::Role as vstd::std_specs::convert::FromSpec<types::Role>>::from_spec(r);
            &&& s == out::Role::Robot <==> r == types::Role::Robot
            &&& s == out::Role::Operator <==> r == types::Role::Operator
            &&& s == out::Role::Observer <==> r == types::Role::Observer
            &&& s.name() == crate::error::role_name(r)
        }),
        crate::error::role_name(types::Role::Robot) == "Robot"@,
        crate::error::role_name(types::Role::Operator) == "Operator"@,
        crate::error::role_name(types::Role::Observer) == "Observer"@,
{
}

/// The error of a file and that of a call cross as they are, and the latter
/// comes back as it was.
pub proof fn law_other_failures_cross_unchanged(
    e: crate::config_file::ConfigFileError,
    r: crate::rpc::RpcError,
)
    ensures
        ({
            let f = <out::ConfigFileError as vstd::std_specs::convert::FromSpec<
                crate::config_file::ConfigFileError,
            >>::from_spec(e);
            &&& e matches crate::config_file::ConfigFileError::Parse(m) ==> f
                == out::ConfigFileError::Parse(m)
            &&& e matches crate::config_file::ConfigFileError::Io(m) ==> f
                == out::ConfigFileError::Io(m)
            &&& e matches crate::config_file::ConfigFileError::Invalid(m) ==> f
                == out::ConfigFileError::Invalid(m)
            &&& e matches crate::config_file::ConfigFileError::UnsupportedVersion {
                got,
                supported,
            } ==> f == (out::ConfigFileError::UnsupportedVersion { got, supported })
        }),
        ({
            let s = <out::RpcError as vstd::std_specs::convert::FromSpec<
                crate::rpc::RpcError,
            >>::from_spec(r);
            &&& s == (out::RpcError::Error { code: r.code, message: r.message, data: r.data })
            &&& <crate::rpc::RpcError as vstd::std_specs::convert::FromSpec<
                out::RpcError,
            >>::from_spec(s) == r
        }),
{
}

} // verus!
