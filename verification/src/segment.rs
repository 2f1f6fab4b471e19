//! Closed speech segments on the absolute sample timeline.

use core::ops::Range;
use core::time::Duration;
use vstd::prelude::*;

use crate::time::{duration_from_parts, duration_millis, duration_new};

verus! {

/// Sample rate every segment is referenced against (16 kHz).
pub const SAMPLE_RATE_HZ: u64 = 16_000;

/// Nanoseconds spanned by one sample at 16 kHz.
pub const NANOS_PER_SAMPLE: u64 = 62_500;

/// The exact `Duration` of `samples` samples at 16 kHz: whole seconds,
/// plus the remaining samples expressed in nanoseconds.
pub open spec fn samples_to_duration(samples: u64) -> Duration {
    duration_from_parts(
        samples / SAMPLE_RATE_HZ,
        ((samples % SAMPLE_RATE_HZ) * NANOS_PER_SAMPLE) as u32,
    )
}

/// Abstract value of a segment: its two sample boundaries.
pub struct SegmentView {
    pub start: u64,
    pub end: u64,
}

/// One closed continuous human-speech window on the stream timeline.
///
/// `start_sample` is inclusive and `end_sample` exclusive.
#[derive(Debug, Clone, Copy, PartialEq, Eq, Structural)]
pub struct SpeechSegment {
    start_sample: u64,
    end_sample: u64,
}

impl View for SpeechSegment {
    type V = SegmentView;

    closed spec fn view(&self) -> SegmentView {
        SegmentView { start: self.start_sample, end: self.end_sample }
    }
}

/// Converts a sample count into the exact `Duration` it spans at 16 kHz.
fn samples_duration(samples: u64) -> (d: Duration)
    ensures
        d == samples_to_duration(samples),
        duration_millis(d) == samples / 16,
{
    let secs: u64 = samples / SAMPLE_RATE_HZ;
    let rem: u64 = samples % SAMPLE_RATE_HZ;
    let nanos: u64 = rem * NANOS_PER_SAMPLE;
    proof {
        lemma_samples_millis(samples);
    }
    duration_new(secs, nanos as u32)
}

/// Whole seconds plus the remainder in nanoseconds comes to `samples / 16`
/// whole milliseconds (one millisecond is 16 samples at 16 kHz).
proof fn lemma_samples_millis(samples: u64)
    ensures
        (samples / SAMPLE_RATE_HZ) * 1000 + ((samples % SAMPLE_RATE_HZ) * NANOS_PER_SAMPLE)
            / 1_000_000 == samples / 16,
{
    let q = samples / 16_000;
    let r = samples % 16_000;
    assert(samples == 16_000 * q + r && r < 16_000) by (nonlinear_arith)
        requires
            q == samples / 16_000,
            r == samples % 16_000,
    ;
    assert((r * 62_500) / 1_000_000 == r / 16) by (nonlinear_arith)
        requires
            r < 16_000,
    ;
    assert((16_000 * q + r) / 16 == 1000 * q + r / 16) by (nonlinear_arith)
        requires
            r < 16_000,
            q >= 0,
    ;
}

/// `v` as a `usize`, or `usize::MAX` when it does not fit.
fn saturate_to_usize(v: u64) -> (r: usize)
    ensures
        r == (if v <= usize::MAX { v as usize } else { usize::MAX }),
{
    if v <= usize::MAX as u64 {
        v as usize
    } else {
        usize::MAX
    }
}

impl SpeechSegment {
    /// The sample rate every segment is referenced against.
    pub const SAMPLE_RATE_HZ: u32 = 16_000;

    /// The segment with the given sample bounds.
    pub closed spec fn spec_new(start_sample: u64, end_sample: u64) -> SpeechSegment {
        SpeechSegment { start_sample, end_sample }
    }

    /// The bounds of a segment built by `spec_new` are the ones it was given.
    pub proof fn lemma_spec_new(start_sample: u64, end_sample: u64)
        ensures
            Self::spec_new(start_sample, end_sample)@.start == start_sample,
            Self::spec_new(start_sample, end_sample)@.end == end_sample,
    {
    }

    /// Construct a segment from absolute sample indices (`end_sample` exclusive).
    pub fn new(start_sample: u64, end_sample: u64) -> (s: Self)
        ensures
            s == Self::spec_new(start_sample, end_sample),
            s@.start == start_sample,
            s@.end == end_sample,
    {
        SpeechSegment { start_sample, end_sample }
    }

    /// Absolute sample index where the segment starts (inclusive).
    pub fn start_sample(&self) -> (r: u64)
        ensures
            r == self@.start,
    {
        self.start_sample
    }

    /// Absolute sample index where the segment ends (exclusive).
    pub fn end_sample(&self) -> (r: u64)
        ensures
            r == self@.end,
    {
        self.end_sample
    }

    /// Number of samples spanned by this segment; zero when the end does
    /// not lie after the start.
    pub fn sample_count(&self) -> (r: u64)
        ensures
            r == (if self@.end >= self@.start { self@.end - self@.start } else { 0 }),
    {
        self.end_sample.saturating_sub(self.start_sample)
    }

    /// Start time of the segment.
    pub fn start(&self) -> (d: Duration)
        ensures
            d == samples_to_duration(self@.start),
            duration_millis(d) == self@.start / 16,
    {
        samples_duration(self.start_sample)
    }

    /// End time of the segment.
    pub fn end(&self) -> (d: Duration)
        ensures
            d == samples_to_duration(self@.end),
            duration_millis(d) == self@.end / 16,
    {
        samples_duration(self.end_sample)
    }

    /// Duration of the segment.
    pub fn duration(&self) -> (d: Duration)
        ensures
            d == samples_to_duration(
                if self@.end >= self@.start { (self@.end - self@.start) as u64 } else { 0 },
            ),
            duration_millis(d) == (if self@.end >= self@.start {
                (self@.end - self@.start) as u64
            } else {
                0
            }) / 16,
    {
        samples_duration(self.sample_count())
    }

    /// `Range<u64>` covering the segment.
    pub fn range(&self) -> (r: Range<u64>)
        ensures
            r.start == self@.start,
            r.end == self@.end,
    {
        self.start_sample..self.end_sample
    }

    /// `Range<usize>` for slicing a PCM buffer. On 64-bit targets this is
    /// the identity; where `usize` is narrower, bounds above `usize::MAX`
    /// saturate to `usize::MAX`.
    pub fn range_usize(&self) -> (r: Range<usize>)
        ensures
            r.start == (if self@.start <= usize::MAX { self@.start as usize } else { usize::MAX }),
            r.end == (if self@.end <= usize::MAX { self@.end as usize } else { usize::MAX }),
    {
        saturate_to_usize(self.start_sample)..saturate_to_usize(self.end_sample)
    }
}

} // verus!
