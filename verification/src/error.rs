//! Failures that the portal reports to its callers.
use crate::dtype::DType;
use crate::rpc::RpcError;
use crate::text;
use crate::types::Role;
use vstd::prelude::*;

verus! {

pub type PortalResult<T> = Result<T, PortalError>;

#[allow(inconsistent_fields)]
#[derive(Debug)]
pub enum PortalError {
    /// The room transport failed.
    Room(String),
    /// The portal is already connected.
    AlreadyConnected,
    /// The portal is not connected.
    NotConnected,
    /// There is no peer in the room.
    NoPeer,
    /// The room has several remote participants and none has been identified
    /// as the peer yet; the destination must be given explicitly.
    AmbiguousPeer,
    /// No video track of this name was declared.
    UnknownVideoTrack { name: String },
    /// No action chunk of this name was declared.
    UnknownChunk { name: String },
    /// A frame's byte count does not fit its dimensions.
    WrongFrameSize { expected: usize, got: usize },
    /// Width and height must both be even.
    InvalidFrameDimensions { width: u32, height: u32 },
    /// A packet could not be read.
    Deserialization(String),
    /// A frame could not be encoded or decoded.
    Codec(String),
    /// The operation is not available for this role.
    WrongRole(Role),
    /// Observations are not put together on this side.
    ObservationSyncDisabled,
    /// A field was declared as one type and sent as another.
    DtypeMismatch { field: String, expected: DType, got: &'static str },
    /// A remote procedure call failed.
    Rpc(RpcError),
}

/// Name of a role, for error messages.
pub open spec fn role_name(role: Role) -> Seq<char> {
    match role {
        Role::Robot => "Robot"@,
        Role::Operator => "Operator"@,
        Role::Observer => "Observer"@,
    }
}

impl PortalError {
    /// The text that describes the error to a person.
    pub open spec fn text(self) -> Seq<char> {
        match self {
            PortalError::Room(m) => "room error: "@ + m@,
            PortalError::AlreadyConnected => "portal is already connected"@,
            PortalError::NotConnected => "portal is not connected"@,
            PortalError::NoPeer => "no peer in the room"@,
            PortalError::AmbiguousPeer => {
                "room has multiple remote participants and no peer has been identified yet; pass destination explicitly"@
            },
            PortalError::UnknownVideoTrack { name } => "unknown video track: "@ + name@,
            PortalError::UnknownChunk { name } => "unknown action chunk: "@ + name@,
            PortalError::WrongFrameSize { expected, got } => "wrong frame size: expected "@
                + text::decimal(expected as nat) + " bytes, got "@ + text::decimal(got as nat),
            PortalError::InvalidFrameDimensions { width, height } => {
                "invalid frame dimensions: width="@ + text::decimal(width as nat) + ", height="@
                    + text::decimal(height as nat) + " (must both be even)"@
            },
            PortalError::Deserialization(m) => "deserialization error: "@ + m@,
            PortalError::Codec(m) => "frame codec error: "@ + m@,
            PortalError::WrongRole(role) => "operation not available for role "@ + role_name(role),
            PortalError::ObservationSyncDisabled => "observation sync is off on this peer"@,
            PortalError::DtypeMismatch { field, expected, got } => "field '"@ + field@
                + "' declared as "@ + expected.name() + " but sent as "@ + got@
                + "; use the matching TypedValue variant or redeclare the dtype"@,
            PortalError::Rpc(e) => e.text(),
        }
    }

    /// The error in words.
    pub fn describe(&self) -> (s: String)
        ensures
            s@ == self.text(),
    {
        match self {
            PortalError::Room(m) => joined("room error: ", m.as_str()),
            PortalError::AlreadyConnected => "portal is already connected".to_owned(),
            PortalError::NotConnected => "portal is not connected".to_owned(),
            PortalError::NoPeer => "no peer in the room".to_owned(),
            PortalError::AmbiguousPeer => {
                "room has multiple remote participants and no peer has been identified yet; pass destination explicitly".to_owned()
            },
            PortalError::UnknownVideoTrack { name } => joined(
                "unknown video track: ",
                name.as_str(),
            ),
            PortalError::UnknownChunk { name } => joined("unknown action chunk: ", name.as_str()),
            PortalError::WrongFrameSize { expected, got } => {
                let mut s: String = "wrong frame size: expected ".to_owned();
                text::append_decimal(&mut s, *expected as u128);
                s.append(" bytes, got ");
                text::append_decimal(&mut s, *got as u128);
                s
            },
            PortalError::InvalidFrameDimensions { width, height } => {
                let mut s: String = "invalid frame dimensions: width=".to_owned();
                text::append_decimal(&mut s, *width as u128);
                s.append(", height=");
                text::append_decimal(&mut s, *height as u128);
                s.append(" (must both be even)");
                s
            },
            PortalError::Deserialization(m) => joined("deserialization error: ", m.as_str()),
            PortalError::Codec(m) => joined("frame codec error: ", m.as_str()),
            PortalError::WrongRole(role) => joined(
                "operation not available for role ",
                match role {
                    Role::Robot => "Robot",
                    Role::Operator => "Operator",
                    Role::Observer => "Observer",
                },
            ),
            PortalError::ObservationSyncDisabled => {
                "observation sync is off on this peer".to_owned()
            },
            PortalError::DtypeMismatch { field, expected, got } => {
                let mut s: String = joined("field '", field.as_str());
                s.append("' declared as ");
                s.append(expected.variant_name());
                s.append(" but sent as ");
                s.append(got);
                s.append("; use the matching TypedValue variant or redeclare the dtype");
                s
            },
            PortalError::Rpc(e) => e.describe(),
        }
    }
}

/// Two pieces of text as one.
pub(crate) fn joined(a: &str, b: &str) -> (s: String)
    ensures
        s@ == a@ + b@,
{
    let mut s: String = a.to_owned();
    s.append(b);
    s
}

} // verus!
