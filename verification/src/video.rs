//! The media path: frames that are handed to the media transport, and frames
//! that come from it.
use crate::config::DEFAULT_H264_MAX_BITRATE_KBPS;
use crate::error::{PortalError, PortalResult};
use crate::types::VideoFrameData;
use std::collections::VecDeque;
use std::sync::Arc;
use vstd::prelude::*;

verus! {

// ---------------------------------------------------------------------------
// Sending
// ---------------------------------------------------------------------------

/// Checks that a buffer is a packed RGB24 picture with even dimensions. The
/// media path halves both for its chroma planes.
pub fn check_frame(rgb: &[u8], width: u32, height: u32) -> (r: PortalResult<()>)
    requires
        width % 2 == 0 && height % 2 == 0 ==> width * height * 3 <= u32::MAX,
    ensures
        if width % 2 != 0 || height % 2 != 0 {
            r == Err::<(), PortalError>(PortalError::InvalidFrameDimensions { width, height })
        } else if rgb@.len() != width * height * 3 {
            r == Err::<(), PortalError>(
                PortalError::WrongFrameSize {
                    expected: (width * height * 3) as usize,
                    got: rgb@.len() as usize,
                },
            )
        } else {
            r is Ok
        },
{
    if width % 2 != 0 || height % 2 != 0 {
        return Err(PortalError::InvalidFrameDimensions { width, height });
    }
    assert(width * height <= width * height * 3) by (nonlinear_arith)
        requires
            width >= 0,
            height >= 0,
    ;
    let expected: usize = (width * height * 3) as usize;
    if rgb.len() != expected {
        return Err(PortalError::WrongFrameSize { expected, got: rgb.len() });
    }
    Ok(())
}

/// Upper limit of the encoder in bits per second: that of the track, or the
/// default.
pub fn max_bitrate_bps(max_bitrate_kbps: Option<u32>) -> (bps: u64)
    ensures
        bps == 1_000 * (match max_bitrate_kbps {
            Some(kbps) => kbps,
            None => DEFAULT_H264_MAX_BITRATE_KBPS,
        }),
        max_bitrate_kbps is None ==> bps == 10_000_000,
{
    max_bitrate_kbps.unwrap_or(DEFAULT_H264_MAX_BITRATE_KBPS) as u64 * 1_000
}

// ---------------------------------------------------------------------------
// Receiving
// ---------------------------------------------------------------------------

/// Frames that wait between receiving and processing.
pub const RECV_CHANNEL_CAPACITY: usize = 8;

/// Shortest time between two warnings about dropped frames.
pub const RECV_DROP_WARN_INTERVAL_US: u64 = 5_000_000;

/// The latest frame of a track.
#[derive(Debug)]
pub struct VideoTrackSlots {
    pub latest: Option<VideoFrameData>,
}

impl VideoTrackSlots {
    pub fn new() -> (s: Self)
        ensures
            s.latest is None,
    {
        VideoTrackSlots { latest: None }
    }

    /// Keeps a frame as the latest.
    pub fn deliver(&mut self, frame: VideoFrameData)
        ensures
            final(self).latest == Some(frame),
    {
        self.latest = Some(frame);
    }

    /// Forgets the latest frame.
    pub fn clear(&mut self)
        ensures
            final(self).latest is None,
    {
        self.latest = None;
    }
}

/// Bounded queue between receiving and processing. When it is full the oldest
/// frame leaves, so that receiving never waits and the newest frames get
/// through.
#[derive(Debug)]
pub struct FrameChannel {
    queue: VecDeque<Arc<VideoFrameData>>,
    closed: bool,
    capacity: usize,
}

/// What a frame channel holds.
#[verifier::ext_equal]
pub struct FrameChannelState {
    pub queue: Seq<Arc<VideoFrameData>>,
    pub closed: bool,
    pub capacity: nat,
}

/// Whether the oldest frame leaves when another one comes.
pub open spec fn overflows(queue: Seq<Arc<VideoFrameData>>, capacity: nat) -> bool {
    queue.len() >= capacity && queue.len() > 0
}

/// The queue once a frame came.
pub open spec fn queued(
    queue: Seq<Arc<VideoFrameData>>,
    frame: Arc<VideoFrameData>,
    capacity: nat,
) -> Seq<Arc<VideoFrameData>> {
    if overflows(queue, capacity) {
        queue.skip(1).push(frame)
    } else {
        queue.push(frame)
    }
}

/// What the consumer finds.
#[derive(Debug)]
pub enum ChannelPoll {
    /// The oldest frame.
    Frame(Arc<VideoFrameData>),
    /// Nothing yet.
    Empty,
    /// Nothing, and nothing will come.
    Closed,
}

impl View for FrameChannel {
    type V = FrameChannelState;

    closed spec fn view(&self) -> FrameChannelState {
        FrameChannelState {
            queue: self.queue@,
            closed: self.closed,
            capacity: self.capacity as nat,
        }
    }
}

impl FrameChannel {
    pub fn new(capacity: usize) -> (c: Self)
        ensures
            c@ == (FrameChannelState {
                queue: Seq::empty(),
                closed: false,
                capacity: capacity as nat,
            }),
    {
        FrameChannel { queue: VecDeque::new(), closed: false, capacity }
    }

    /// Puts a frame into the queue. Returns whether the oldest one left for
    /// it.
    pub fn push(&mut self, frame: Arc<VideoFrameData>) -> (dropped: bool)
        ensures
            final(self)@ == (FrameChannelState {
                queue: queued(old(self)@.queue, frame, old(self)@.capacity),
                ..old(self)@
            }),
            dropped == overflows(old(self)@.queue, old(self)@.capacity),
    {
        let dropped: bool = self.queue.len() >= self.capacity && self.queue.len() > 0;
        if dropped {
            let _ = self.queue.pop_front();
        }
        self.queue.push_back(frame);
        proof {
            assert(self.queue@ =~= queued(old(self)@.queue, frame, old(self)@.capacity));
        }
        dropped
    }

    /// Says that no more frames will come.
    pub fn close(&mut self)
        ensures
            final(self)@ == (FrameChannelState { closed: true, ..old(self)@ }),
    {
        self.closed = true;
    }

    /// Takes the oldest frame. A closed channel is emptied before it ends.
    pub fn poll(&mut self) -> (p: ChannelPoll)
        ensures
            if old(self)@.queue.len() > 0 {
                &&& p == ChannelPoll::Frame(old(self)@.queue[0])
                &&& final(self)@ == (FrameChannelState {
                    queue: old(self)@.queue.skip(1),
                    ..old(self)@
                })
            } else {
                &&& final(self)@ == old(self)@
                &&& p == (if old(self)@.closed {
                    ChannelPoll::Closed
                } else {
                    ChannelPoll::Empty
                })
            },
    {
        match self.queue.pop_front() {
            Some(frame) => {
                assert(self.queue@ =~= old(self)@.queue.skip(1));
                ChannelPoll::Frame(frame)
            },
            None => if self.closed {
                ChannelPoll::Closed
            } else {
                ChannelPoll::Empty
            },
        }
    }
}

/// The queue once frames came one after the other and none was taken.
pub open spec fn queued_all(frames: Seq<Arc<VideoFrameData>>, capacity: nat) -> Seq<
    Arc<VideoFrameData>,
>
    decreases frames.len(),
{
    if frames.len() == 0 {
        Seq::empty()
    } else {
        queued(queued_all(frames.drop_last(), capacity), frames.last(), capacity)
    }
}

/// However many frames come, the newest ones wait in the order in which they
/// came, as many as there is room for.
pub proof fn law_channel_keeps_the_newest(frames: Seq<Arc<VideoFrameData>>, capacity: nat)
    requires
        capacity > 0,
    ensures
        queued_all(frames, capacity) == frames.skip(
            if frames.len() > capacity {
                frames.len() - capacity
            } else {
                0
            },
        ),
    decreases frames.len(),
{
    if frames.len() > 0 {
        law_channel_keeps_the_newest(frames.drop_last(), capacity);
        assert(frames =~= frames.drop_last().push(frames.last()));
    }
    assert(queued_all(frames, capacity) =~= frames.skip(
        if frames.len() > capacity {
            frames.len() - capacity
        } else {
            0
        },
    ));
}

/// Counts dropped frames and keeps warnings about them apart.
#[derive(Debug, Clone, Copy, PartialEq, Eq, Structural)]
pub struct RecvOverflow {
    pub dropped_total: u64,
    /// Local time of the last warning.
    pub last_warn_us: Option<u64>,
}

impl Default for RecvOverflow {
    fn default() -> (o: Self)
        ensures
            o.dropped_total == 0,
            o.last_warn_us is None,
    {
        RecvOverflow { dropped_total: 0, last_warn_us: None }
    }
}

/// Whether a warning is due.
pub open spec fn warning_due(o: RecvOverflow, now_us: u64) -> bool {
    o.last_warn_us matches Some(t) ==> now_us - t >= RECV_DROP_WARN_INTERVAL_US
}

impl RecvOverflow {
    /// Counts a dropped frame. Returns the number of frames dropped so far
    /// where a warning is due: for the first one, then at most once per
    /// interval.
    pub fn note_drop(&mut self, now_us: u64) -> (warn: Option<u64>)
        ensures
            final(self).dropped_total == crate::sync_buffer::sum_held(
                old(self).dropped_total,
                1,
            ),
            if warning_due(*old(self), now_us) {
                &&& warn == Some(final(self).dropped_total)
                &&& final(self).last_warn_us == Some(now_us)
            } else {
                &&& warn is None
                &&& final(self).last_warn_us == old(self).last_warn_us
            },
    {
        self.dropped_total = self.dropped_total.saturating_add(1);
        let due: bool = match self.last_warn_us {
            Some(t) => now_us >= t && now_us - t >= RECV_DROP_WARN_INTERVAL_US,
            None => true,
        };
        if due {
            self.last_warn_us = Some(now_us);
            Some(self.dropped_total)
        } else {
            None
        }
    }
}

} // verus!
