//! The segment side of the streaming engine: the state machine, the queue
//! of closed segments awaiting delivery, and the end-of-stream flag.

use vstd::prelude::*;

use crate::detector::{
    lemma_step, splits_leave_room, Detector, DetectorView, FrameDecision, FRAME_SHIFT_SAMPLES,
};
use crate::options::FrameConfig;
use crate::segment::SpeechSegment;

verus! {

/// Queued segments are well formed and in stream order, none overlapping
/// the next (ends are exclusive), and none reaching past the frame after
/// the most recent closing.
pub open spec fn queue_ordered(q: Seq<SpeechSegment>, last_end: Option<u64>) -> bool {
    &&& forall|i: int| 0 <= i < q.len() ==> (#[trigger] q[i])@.start <= q[i]@.end
    &&& forall|i: int, j: int|
        0 <= i < j < q.len() ==> (#[trigger] q[i])@.end <= (#[trigger] q[j])@.start
    &&& (q.len() > 0 ==> last_end is Some)
    &&& forall|i: int|
        0 <= i < q.len() ==> (#[trigger] q[i])@.end <= (last_end.unwrap() + 1) * FRAME_SHIFT_SAMPLES
}

/// Abstract state of the segment stream.
pub struct StreamView {
    /// The state machine.
    pub detector: DetectorView,
    /// Closed segments not yet handed out, oldest first.
    pub pending: Seq<SpeechSegment>,
    /// Whether end of stream was signalled.
    pub finished: bool,
}

impl StreamView {
    /// A fresh stream with `config`.
    pub open spec fn initial(config: FrameConfig) -> StreamView {
        StreamView {
            detector: DetectorView::initial(config),
            pending: Seq::empty(),
            finished: false,
        }
    }

    /// Invariant of every reachable stream.
    pub open spec fn wf(self) -> bool {
        &&& self.detector.inv()
        &&& queue_ordered(self.pending, self.detector.last_end)
    }

    /// The queue after the oldest pending segment, if any, was handed out.
    pub open spec fn popped(self) -> Seq<SpeechSegment> {
        if self.pending.len() > 0 {
            self.pending.drop_first()
        } else {
            self.pending
        }
    }
}

/// Queued segments never reach past the audio consumed so far: each ends
/// at or before `frame_count * 160` samples, starts no later than it ends,
/// and no queued segment overlaps a later one.
pub proof fn lemma_pending_within_frames(v: StreamView)
    requires
        v.wf(),
    ensures
        forall|i: int|
            0 <= i < v.pending.len() ==> (#[trigger] v.pending[i])@.start <= v.pending[i]@.end
                && v.pending[i]@.end <= v.detector.frame_cnt * FRAME_SHIFT_SAMPLES,
        forall|i: int, j: int|
            0 <= i < j < v.pending.len() ==> (#[trigger] v.pending[i])@.end
                <= (#[trigger] v.pending[j])@.start,
{
    assert forall|i: int| 0 <= i < v.pending.len() implies (#[trigger] v.pending[i])@.start
        <= v.pending[i]@.end && v.pending[i]@.end <= v.detector.frame_cnt * FRAME_SHIFT_SAMPLES by {
        assert(queue_ordered(v.pending, v.detector.last_end));
        let le = v.detector.last_end.unwrap();
        assert(le + 1 <= v.detector.frame_cnt);
        assert((le + 1) * FRAME_SHIFT_SAMPLES <= v.detector.frame_cnt * FRAME_SHIFT_SAMPLES);
    }
}

/// Closed segments awaiting delivery, fed by the segment state machine.
#[derive(Debug)]
pub struct SegmentStream {
    detector: Detector,
    pending: std::collections::VecDeque<SpeechSegment>,
    finished: bool,
}

impl View for SegmentStream {
    type V = StreamView;

    closed spec fn view(&self) -> StreamView {
        StreamView { detector: self.detector@, pending: self.pending@, finished: self.finished }
    }
}

impl SegmentStream {
    /// A fresh stream: state machine in `Silence`, empty queue, not finished.
    pub fn new(config: FrameConfig) -> (s: Self)
        ensures
            s@ == StreamView::initial(config),
            s@.wf(),
    {
        SegmentStream {
            detector: Detector::new(config),
            pending: std::collections::VecDeque::new(),
            finished: false,
        }
    }

    /// Feed one frame's speech classification. A segment closed by this
    /// frame is appended to the queue.
    pub fn push_decision(&mut self, is_speech: bool) -> (d: FrameDecision)
        requires
            old(self)@.wf(),
            old(self)@.detector.can_run(1),
        ensures
            final(self)@.wf(),
            (final(self)@.detector, d@) == old(self)@.detector.step(is_speech),
            d@.frames_bounded(),
            final(self)@.finished == old(self)@.finished,
            !d@.closes_segment() ==> final(self)@.pending == old(self)@.pending,
            d@.closes_segment() ==> {
                &&& final(self)@.pending.len() == old(self)@.pending.len() + 1
                &&& final(self)@.pending.drop_last() == old(self)@.pending
                &&& final(self)@.pending.last()@.start == d@.start_frame.unwrap()
                    * FRAME_SHIFT_SAMPLES
                &&& final(self)@.pending.last()@.end == d@.end_frame.unwrap() * FRAME_SHIFT_SAMPLES
                &&& (splits_leave_room(old(self)@.detector.config)
                    ==> final(self)@.pending.last()@.start < final(self)@.pending.last()@.end)
            },
    {
        let ghost v = self@;
        proof {
            lemma_step(v.detector, is_speech);
        }
        let d = self.detector.push_decision(is_speech);
        match d.closed_segment() {
            Some(seg) => {
                self.pending.push_back(seg);
                proof {
                    let q = self@.pending;
                    let e = d@.end_frame.unwrap();
                    let s = d@.start_frame.unwrap();
                    assert(q.drop_last() =~= v.pending);
                    assert(s * FRAME_SHIFT_SAMPLES <= e * FRAME_SHIFT_SAMPLES);
                    if splits_leave_room(v.detector.config) {
                        assert(s * FRAME_SHIFT_SAMPLES < e * FRAME_SHIFT_SAMPLES);
                    }
                    assert forall|i: int| 0 <= i < v.pending.len() implies (#[trigger] q[i])@.end
                        <= s * FRAME_SHIFT_SAMPLES by {
                        assert(q[i] == v.pending[i]);
                        let le = v.detector.last_end.unwrap();
                        assert(le + 1 <= s);
                        assert((le + 1) * FRAME_SHIFT_SAMPLES <= s * FRAME_SHIFT_SAMPLES);
                    }
                    assert forall|i: int| 0 <= i < q.len() implies (#[trigger] q[i])@.end <= (
                    self@.detector.last_end.unwrap() + 1) * FRAME_SHIFT_SAMPLES by {
                        if i < v.pending.len() {
                            assert(q[i] == v.pending[i]);
                            let le = v.detector.last_end.unwrap();
                            assert(le < e);
                            assert((le + 1) * FRAME_SHIFT_SAMPLES <= (e + 1) * FRAME_SHIFT_SAMPLES);
                        }
                    }
                    assert(queue_ordered(q, self@.detector.last_end));
                }
            },
            None => {
                proof {
                    let q = self@.pending;
                    if d@.is_speech_end {
                        assert(d@.closes_segment());
                    }
                    assert(self@.detector.last_end == v.detector.last_end);
                }
            },
        }
        d
    }

    /// Hand out the oldest pending segment, if any.
    pub fn next_segment(&mut self) -> (seg: Option<SpeechSegment>)
        requires
            old(self)@.wf(),
        ensures
            final(self)@.wf(),
            final(self)@.detector == old(self)@.detector,
            final(self)@.finished == old(self)@.finished,
            final(self)@.pending == old(self)@.popped(),
            seg == (if old(self)@.pending.len() > 0 {
                Some(old(self)@.pending[0])
            } else {
                None::<SpeechSegment>
            }),
    {
        let ghost v = self@;
        let seg = self.pending.pop_front();
        proof {
            let q = self@.pending;
            if v.pending.len() > 0 {
                assert(q =~= v.pending.drop_first());
                assert forall|i: int, j: int| 0 <= i < j < q.len() implies (#[trigger] q[i])@.end
                    <= (#[trigger] q[j])@.start by {
                    assert(q[i] == v.pending[i + 1]);
                    assert(q[j] == v.pending[j + 1]);
                }
                assert forall|i: int| 0 <= i < q.len() implies (#[trigger] q[i])@.start
                    <= q[i]@.end by {
                    assert(q[i] == v.pending[i + 1]);
                }
                assert forall|i: int| 0 <= i < q.len() implies (#[trigger] q[i])@.end <= (
                v.detector.last_end.unwrap() + 1) * FRAME_SHIFT_SAMPLES by {
                    assert(q[i] == v.pending[i + 1]);
                }
            }
        }
        seg
    }

    /// Signal end of stream: close the open segment, if any, append it to
    /// the queue, then hand out the oldest pending segment.
    pub fn finish(&mut self) -> (seg: Option<SpeechSegment>)
        requires
            old(self)@.wf(),
        ensures
            final(self)@.wf(),
            final(self)@.finished,
            final(self)@.detector == old(self)@.detector.finish().0,
            ({
                let trailing = old(self)@.detector.finish().1;
                let queued: Seq<SpeechSegment> = match trailing {
                    Some((s, e)) => old(self)@.pending.push(
                        SpeechSegment::spec_new((s * FRAME_SHIFT_SAMPLES) as u64, (e * FRAME_SHIFT_SAMPLES) as u64),
                    ),
                    None => old(self)@.pending,
                };
                &&& seg == (if queued.len() > 0 {
                    Some(queued[0])
                } else {
                    None::<SpeechSegment>
                })
                &&& final(self)@.pending == (if queued.len() > 0 {
                    queued.drop_first()
                } else {
                    queued
                })
            }),
    {
        let ghost v = self@;
        self.finished = true;
        let trailing = self.detector.finish_active();
        match trailing {
            Some(seg) => {
                self.pending.push_back(seg);
                proof {
                    let q = self@.pending;
                    let (s, e) = v.detector.finish().1.unwrap();
                    assert(seg == SpeechSegment::spec_new(
                        (s * FRAME_SHIFT_SAMPLES) as u64,
                        (e * FRAME_SHIFT_SAMPLES) as u64,
                    ));
                    SpeechSegment::lemma_spec_new(
                        (s * FRAME_SHIFT_SAMPLES) as u64,
                        (e * FRAME_SHIFT_SAMPLES) as u64,
                    );
                    assert(s < e);
                    assert(s * FRAME_SHIFT_SAMPLES <= e * FRAME_SHIFT_SAMPLES);
                    assert forall|i: int| 0 <= i < v.pending.len() implies (#[trigger] q[i])@.end
                        <= s * FRAME_SHIFT_SAMPLES by {
                        assert(q[i] == v.pending[i]);
                        let le = v.detector.last_end.unwrap();
                        assert(le + 1 <= s);
                        assert((le + 1) * FRAME_SHIFT_SAMPLES <= s * FRAME_SHIFT_SAMPLES);
                    }
                    assert forall|i: int| 0 <= i < q.len() implies (#[trigger] q[i])@.end <= (
                    self@.detector.last_end.unwrap() + 1) * FRAME_SHIFT_SAMPLES by {
                        if i < v.pending.len() {
                            assert(q[i] == v.pending[i]);
                            let le = v.detector.last_end.unwrap();
                            assert(le < e);
                            assert((le + 1) * FRAME_SHIFT_SAMPLES <= e * FRAME_SHIFT_SAMPLES);
                        }
                    }
                    assert(queue_ordered(q, self@.detector.last_end));
                }
            },
            None => {},
        }
        self.next_segment()
    }

    /// Return to the freshly constructed state, keeping the thresholds.
    pub fn reset(&mut self)
        ensures
            final(self)@ == StreamView::initial(old(self)@.detector.config),
            final(self)@.wf(),
    {
        self.detector.reset();
        self.pending.clear();
        self.finished = false;
    }

    /// Replace the thresholds; all other state is kept.
    pub fn set_config(&mut self, config: FrameConfig)
        requires
            old(self)@.wf(),
        ensures
            final(self)@ == (StreamView {
                detector: DetectorView { config, ..old(self)@.detector },
                ..old(self)@
            }),
            final(self)@.wf(),
    {
        self.detector.set_config(config);
    }

    /// The thresholds currently in use.
    pub fn config(&self) -> (c: &FrameConfig)
        ensures
            *c == self@.detector.config,
    {
        self.detector.config()
    }

    /// Frames consumed since construction or the last reset.
    pub fn frame_count(&self) -> (n: u64)
        ensures
            n == self@.detector.frame_cnt,
    {
        self.detector.frame_count()
    }

    /// Whether a segment is currently open.
    pub fn is_active(&self) -> (r: bool)
        ensures
            r == self@.detector.is_active(),
    {
        self.detector.is_active()
    }

    /// Whether end of stream was signalled.
    pub fn is_finished(&self) -> (r: bool)
        ensures
            r == self@.finished,
    {
        self.finished
    }

    /// Number of closed segments awaiting delivery.
    pub fn pending_segments(&self) -> (n: usize)
        ensures
            n == self@.pending.len(),
    {
        self.pending.len()
    }

    /// Whether one more frame can be fed without a counter overflowing.
    pub fn has_headroom(&self) -> (r: bool)
        ensures
            r == self@.detector.can_run(1),
    {
        self.detector.has_headroom()
    }
}

} // verus!
