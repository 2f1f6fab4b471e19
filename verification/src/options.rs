//! Frame-domain thresholds of the segment state machine, derived from the
//! duration-valued options.

use core::time::Duration;
use vstd::prelude::*;

use crate::time::{duration_as_millis, duration_millis};

verus! {

/// Length of one analysis frame shift in milliseconds.
pub const FRAME_SHIFT_MS: u128 = 10;

/// Whole 10 ms frames in `ms` milliseconds, saturating at `u32::MAX`.
pub open spec fn frames_of_millis(ms: u128) -> u32 {
    if ms / FRAME_SHIFT_MS > u32::MAX as u128 {
        u32::MAX
    } else {
        (ms / FRAME_SHIFT_MS) as u32
    }
}

/// A time of `samples / 16` whole milliseconds (such as the start or end of
/// a segment) converts back to `samples / 160` frames, saturating at
/// `u32::MAX`: segment times and frame counts agree.
pub proof fn lemma_sample_time_frames(samples: u64)
    ensures
        frames_of_millis((samples / 16) as u128) == (if samples / 160 > u32::MAX {
            u32::MAX as int
        } else {
            (samples / 160) as int
        }),
{
    assert((samples / 16) / 10 == samples / 160) by (nonlinear_arith);
}

/// Whole 10 ms frames in a duration, saturating at `u32::MAX`.
pub open spec fn frames_of(d: Duration) -> u32 {
    frames_of_millis(duration_millis(d))
}

/// Convert a `Duration` to whole 10 ms frames; partial frames are
/// truncated and the count saturates at `u32::MAX`.
pub fn duration_to_frames(d: Duration) -> (frames: u32)
    ensures
        frames == frames_of(d),
{
    let ms: u128 = duration_as_millis(&d);
    let frames: u128 = ms / FRAME_SHIFT_MS;
    if frames > u32::MAX as u128 {
        u32::MAX
    } else {
        frames as u32
    }
}

/// The thresholds the segment state machine reads, all in 10 ms frames.
#[derive(Debug, Clone, Copy, PartialEq, Eq, Structural)]
pub struct FrameConfig {
    /// Size of the trailing smoothing window applied to raw probabilities.
    pub smooth_window_size: u32,
    /// Frames by which a segment start is padded backwards.
    pub pad_start_frames: u32,
    /// Consecutive speech frames needed before a segment opens.
    pub min_speech_frames: u32,
    /// Consecutive silence frames needed before an open segment closes.
    pub min_silence_frames: u32,
    /// Speech frames after which an open segment is force-split, if any.
    pub max_speech_frames: Option<u32>,
}

impl FrameConfig {
    /// Derive the frame thresholds from the duration-valued options.
    ///
    /// The start padding is never shorter than the smoothing window, so
    /// it is raised to `smooth_window_size` when its duration is shorter.
    pub fn from_durations(
        smooth_window_size: u32,
        pad_start: Duration,
        min_speech: Duration,
        min_silence: Duration,
        max_speech: Option<Duration>,
    ) -> (c: Self)
        ensures
            c.smooth_window_size == smooth_window_size,
            c.pad_start_frames == (if frames_of(pad_start) >= smooth_window_size {
                frames_of(pad_start)
            } else {
                smooth_window_size
            }),
            c.min_speech_frames == frames_of(min_speech),
            c.min_silence_frames == frames_of(min_silence),
            c.max_speech_frames == (match max_speech {
                Some(d) => Some(frames_of(d)),
                None => None,
            }),
    {
        let pad: u32 = duration_to_frames(pad_start);
        let pad_start_frames: u32 = if pad >= smooth_window_size {
            pad
        } else {
            smooth_window_size
        };
        let max_speech_frames = match max_speech {
            Some(d) => Some(duration_to_frames(d)),
            None => None,
        };
        FrameConfig {
            smooth_window_size,
            pad_start_frames,
            min_speech_frames: duration_to_frames(min_speech),
            min_silence_frames: duration_to_frames(min_silence),
            max_speech_frames,
        }
    }

    /// Effective smoothing-window length: the configured size, at least one.
    pub fn effective_smooth_window(&self) -> (n: u32)
        ensures
            n == (if self.smooth_window_size >= 1 { self.smooth_window_size } else { 1 }),
    {
        if self.smooth_window_size >= 1 {
            self.smooth_window_size
        } else {
            1
        }
    }
}

} // verus!
