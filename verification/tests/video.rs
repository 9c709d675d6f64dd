use std::sync::Arc;

use bytes::Bytes;
use livekit_portal::error::PortalError;
use livekit_portal::types::{FrameSource, VideoFrameData};
use livekit_portal::video::{
    check_frame, max_bitrate_bps, ChannelPoll, FrameChannel, RecvOverflow, VideoTrackSlots,
    RECV_DROP_WARN_INTERVAL_US,
};

fn frame(ts: u64) -> Arc<VideoFrameData> {
    Arc::new(VideoFrameData {
        width: 2,
        height: 2,
        data: Bytes::from_static(&[0u8; 12]),
        timestamp_us: ts,
        source: FrameSource::Live,
    })
}

fn next(ch: &mut FrameChannel) -> Option<u64> {
    match ch.poll() {
        ChannelPoll::Frame(f) => Some(f.timestamp_us),
        ChannelPoll::Empty | ChannelPoll::Closed => None,
    }
}

/// Frames flow through in FIFO order when the consumer keeps up.
#[test]
fn channel_fifo_order() {
    let mut ch = FrameChannel::new(4);
    assert!(!ch.push(frame(1)));
    assert!(!ch.push(frame(2)));
    assert_eq!(next(&mut ch), Some(1));
    assert_eq!(next(&mut ch), Some(2));
}

/// At capacity, `push` drops the oldest frame and reports it, keeping the
/// freshest `capacity` frames.
#[test]
fn channel_drops_oldest_when_full() {
    let mut ch = FrameChannel::new(2);
    assert!(!ch.push(frame(1)));
    assert!(!ch.push(frame(2)));
    // Ring full; this evicts frame(1).
    assert!(ch.push(frame(3)));
    // Survivors are the two freshest, oldest-first.
    assert_eq!(next(&mut ch), Some(2));
    assert_eq!(next(&mut ch), Some(3));
}

/// After close, a consumer drains what remains and then finds the end.
#[test]
fn channel_close_drains_then_ends() {
    let mut ch = FrameChannel::new(4);
    ch.push(frame(1));
    ch.close();
    assert_eq!(next(&mut ch), Some(1));
    assert!(matches!(ch.poll(), ChannelPoll::Closed));
}

#[test]
fn an_open_channel_is_only_empty() {
    let mut ch = FrameChannel::new(4);
    assert!(matches!(ch.poll(), ChannelPoll::Empty));
    ch.push(frame(42));
    assert_eq!(next(&mut ch), Some(42));
    assert!(matches!(ch.poll(), ChannelPoll::Empty));
    ch.close();
    assert!(matches!(ch.poll(), ChannelPoll::Closed));
}

#[test]
fn many_pushes_keep_the_newest() {
    let mut ch = FrameChannel::new(3);
    for ts in 0..100 {
        ch.push(frame(ts));
    }
    let rest: Vec<u64> = std::iter::from_fn(|| next(&mut ch)).collect();
    assert_eq!(rest, vec![97, 98, 99]);
}

#[test]
fn media_frames_have_even_dimensions() {
    assert!(matches!(
        check_frame(&[0u8; 9], 3, 1),
        Err(PortalError::InvalidFrameDimensions { width: 3, height: 1 })
    ));
    assert!(matches!(
        check_frame(&[0u8; 5], 2, 2),
        Err(PortalError::WrongFrameSize { expected: 12, got: 5 })
    ));
    assert!(check_frame(&[0u8; 12], 2, 2).is_ok());
}

#[test]
fn bitrate_has_a_default() {
    assert_eq!(max_bitrate_bps(None), 10_000_000);
    assert_eq!(max_bitrate_bps(Some(1_500)), 1_500_000);
}

#[test]
fn overflow_warnings_keep_their_distance() {
    let mut o = RecvOverflow::default();
    assert_eq!(o.note_drop(1_000), Some(1));
    assert_eq!(o.note_drop(1_001), None);
    assert_eq!(o.note_drop(1_000 + RECV_DROP_WARN_INTERVAL_US - 1), None);
    assert_eq!(o.note_drop(1_000 + RECV_DROP_WARN_INTERVAL_US), Some(4));
}

#[test]
fn slots_hold_one_frame() {
    let mut s = VideoTrackSlots::new();
    assert!(s.latest.is_none());
    s.deliver((*frame(1)).clone());
    s.deliver((*frame(2)).clone());
    assert_eq!(s.latest.as_ref().unwrap().timestamp_us, 2);
    assert_eq!(s.latest.as_ref().unwrap().data.len(), 12);
    s.clear();
    assert!(s.latest.is_none());
}
