//! Video, state and action portal between a robot and its operators.
pub mod arrival_laws;
pub mod bindings;
pub mod boundary_laws;
pub mod chunk_laws;
pub mod chunks;
pub mod clock;
pub mod clock_laws;
pub mod codec;
pub mod config;
pub mod config_file;
pub mod config_file_laws;
pub mod config_laws;
pub mod controller;
pub mod data;
pub mod dtype;
pub mod error;
pub mod fingerprint_laws;
pub mod frame_laws;
pub mod frame_video;
pub mod history;
pub mod ieee;
pub mod keypoint;
pub mod match_laws;
pub mod message_laws;
pub mod metrics;
pub mod metrics_laws;
pub mod name_laws;
pub mod name_map;
pub mod name_set;
pub mod number_laws;
pub mod payload;
pub mod picture_laws;
pub mod placeholder;
pub mod portal;
pub mod portal_laws;
pub mod room_laws;
pub mod rpc;
pub mod rtt;
pub mod serialization;
pub mod stream_laws;
pub mod sync_buffer;
pub mod sync_laws;
pub mod text;
pub mod ticks;
pub mod types;
pub mod value_laws;
pub mod video;
pub mod wire;

pub use codec::Codec;
pub use config::{
    ChunkSpec, FieldSpec, FrameVideoSpec, PortalConfig, VideoTrackSpec,
    DEFAULT_H264_MAX_BITRATE_KBPS,
};
pub use config_file::ConfigFileError;
pub use controller::{ACTIVE_OPERATOR_ATTR_KEY, ROLE_ATTR_KEY, SET_ACTIVE_OPERATOR_RPC};
pub use dtype::DType;
pub use error::{PortalError, PortalResult};
pub use frame_video::BYTE_STREAM_CHUNK_SIZE;
pub use metrics::{
    BufferMetrics, PolicyMetrics, PortalMetrics, RttMetrics, SyncMetrics, TransportMetrics,
};
pub use portal::Portal;
pub use rpc::{RpcError, RpcInvocationData};
pub use types::{
    Action, ActionChunk, ActionSubscription, ChunkColumn, FrameSource, Observation, Role,
    StallBehavior, StallConfig, State, SyncConfig, TimeSyncSource, TypedValue, VideoFrameData,
};
