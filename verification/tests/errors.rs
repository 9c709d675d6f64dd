use livekit_portal::dtype::DType;
use livekit_portal::error::PortalError;
use livekit_portal::rpc::RpcError;
use livekit_portal::types::Role;

#[test]
fn errors_in_words() {
    let cases = [
        (PortalError::Room("x".to_string()), "room error: x"),
        (PortalError::AlreadyConnected, "portal is already connected"),
        (PortalError::NotConnected, "portal is not connected"),
        (PortalError::NoPeer, "no peer in the room"),
        (
            PortalError::AmbiguousPeer,
            "room has multiple remote participants and no peer has been identified yet; pass \
             destination explicitly",
        ),
        (PortalError::UnknownVideoTrack { name: "t".to_string() }, "unknown video track: t"),
        (PortalError::UnknownChunk { name: "c".to_string() }, "unknown action chunk: c"),
        (
            PortalError::WrongFrameSize { expected: 12, got: 5 },
            "wrong frame size: expected 12 bytes, got 5",
        ),
        (
            PortalError::InvalidFrameDimensions { width: 3, height: 10 },
            "invalid frame dimensions: width=3, height=10 (must both be even)",
        ),
        (PortalError::Deserialization("d".to_string()), "deserialization error: d"),
        (PortalError::Codec("c".to_string()), "frame codec error: c"),
        (PortalError::WrongRole(Role::Robot), "operation not available for role Robot"),
        (PortalError::WrongRole(Role::Observer), "operation not available for role Observer"),
        (PortalError::ObservationSyncDisabled, "observation sync is off on this peer"),
        (
            PortalError::DtypeMismatch {
                field: "f".to_string(),
                expected: DType::Bool,
                got: "F32",
            },
            "field 'f' declared as Bool but sent as F32; use the matching TypedValue variant or \
             redeclare the dtype",
        ),
        (
            PortalError::Rpc(RpcError::new(42, "m".to_string(), None)),
            "rpc error 42: m",
        ),
    ];
    for (e, text) in cases {
        assert_eq!(e.describe(), text);
    }
}
