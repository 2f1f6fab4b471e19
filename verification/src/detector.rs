//! The segment state machine: turns per-frame speech decisions into
//! segment openings, closings and closed [`SpeechSegment`]s.
//!
//! Frames are counted from 0 on the way out; internally the frame
//! counter is the number of frames seen so far.

use vstd::prelude::*;

use crate::options::FrameConfig;
use crate::segment::SpeechSegment;

verus! {

/// Samples between successive 10 ms frame starts.
pub const FRAME_SHIFT_SAMPLES: u64 = 160;

/// Largest frame count whose sample offset (`frames * 160`) fits in a `u64`.
pub const MAX_FRAMES: u64 = 115_292_150_460_684_697;

/// The four states of the segment state machine.
#[derive(Debug, Clone, Copy, PartialEq, Eq, Structural)]
pub enum VadState {
    Silence,
    PossibleSpeech,
    Speech,
    PossibleSilence,
}

/// `a - b`, or zero when `b > a`.
pub open spec fn sat_sub(a: u64, b: u64) -> u64 {
    if a >= b { (a - b) as u64 } else { 0 }
}

/// `a + b`, or `u64::MAX` when the sum does not fit.
pub open spec fn sat_add(a: u64, b: u64) -> u64 {
    if a + b <= u64::MAX { (a + b) as u64 } else { u64::MAX }
}

/// Abstract value of one frame's decision.
pub struct DecisionView {
    /// 0-based index of the frame.
    pub frame_index: u64,
    /// Whether the frame was classified as speech.
    pub is_speech: bool,
    /// Whether a segment opened on this frame.
    pub is_speech_start: bool,
    /// Whether a segment closed on this frame.
    pub is_speech_end: bool,
    /// 0-based frame of the most recent segment opening, if any.
    pub start_frame: Option<u64>,
    /// 0-based frame of the segment closing on this frame, if any.
    pub end_frame: Option<u64>,
}

impl DecisionView {
    /// Every frame index this decision carries can be turned into a
    /// sample offset without overflow.
    pub open spec fn frames_bounded(self) -> bool {
        &&& self.frame_index < MAX_FRAMES
        &&& (self.start_frame matches Some(s) ==> s <= MAX_FRAMES)
        &&& (self.end_frame matches Some(e) ==> e <= MAX_FRAMES)
    }

    /// Whether this frame closes a segment whose bounds are both known.
    pub open spec fn closes_segment(self) -> bool {
        self.is_speech_end && self.start_frame is Some && self.end_frame is Some
    }
}

/// One frame's decision, as returned by [`Detector::push_decision`].
#[derive(Debug, Clone, Copy, PartialEq, Eq, Structural)]
pub struct FrameDecision {
    frame_index: u64,
    is_speech: bool,
    is_speech_start: bool,
    is_speech_end: bool,
    start_frame: Option<u64>,
    end_frame: Option<u64>,
}

impl View for FrameDecision {
    type V = DecisionView;

    closed spec fn view(&self) -> DecisionView {
        DecisionView {
            frame_index: self.frame_index,
            is_speech: self.is_speech,
            is_speech_start: self.is_speech_start,
            is_speech_end: self.is_speech_end,
            start_frame: self.start_frame,
            end_frame: self.end_frame,
        }
    }
}

impl FrameDecision {
    /// 0-based frame index.
    pub fn frame_index(&self) -> (r: u64)
        ensures
            r == self@.frame_index,
    {
        self.frame_index
    }

    /// Whether the frame was classified as speech.
    pub fn is_speech(&self) -> (r: bool)
        ensures
            r == self@.is_speech,
    {
        self.is_speech
    }

    /// Whether this frame opened a new segment.
    pub fn is_speech_start(&self) -> (r: bool)
        ensures
            r == self@.is_speech_start,
    {
        self.is_speech_start
    }

    /// Whether this frame closed an open segment.
    pub fn is_speech_end(&self) -> (r: bool)
        ensures
            r == self@.is_speech_end,
    {
        self.is_speech_end
    }

    /// 0-based frame index of the most recent segment opening, if any.
    pub fn speech_start_frame(&self) -> (r: Option<u64>)
        ensures
            r == self@.start_frame,
    {
        self.start_frame
    }

    /// 0-based frame index of the segment closing on this frame, if any.
    pub fn speech_end_frame(&self) -> (r: Option<u64>)
        ensures
            r == self@.end_frame,
    {
        self.end_frame
    }

    /// The segment this frame closes, in samples, or `None` when the frame
    /// closes nothing.
    pub fn closed_segment(&self) -> (seg: Option<SpeechSegment>)
        requires
            self@.frames_bounded(),
        ensures
            seg is Some <==> self@.closes_segment(),
            seg matches Some(s) ==> {
                &&& s@.start == self@.start_frame.unwrap() * FRAME_SHIFT_SAMPLES
                &&& s@.end == self@.end_frame.unwrap() * FRAME_SHIFT_SAMPLES
            },
    {
        if !self.is_speech_end {
            return None;
        }
        match (self.start_frame, self.end_frame) {
            (Some(s), Some(e)) => {
                assert(s * FRAME_SHIFT_SAMPLES <= u64::MAX) by (nonlinear_arith)
                    requires
                        s <= MAX_FRAMES,
                ;
                assert(e * FRAME_SHIFT_SAMPLES <= u64::MAX) by (nonlinear_arith)
                    requires
                        e <= MAX_FRAMES,
                ;
                Some(SpeechSegment::new(s * FRAME_SHIFT_SAMPLES, e * FRAME_SHIFT_SAMPLES))
            },
            _ => None,
        }
    }
}

/// Abstract state of the segment state machine.
pub struct DetectorView {
    /// Thresholds in frames.
    pub config: FrameConfig,
    /// Current state.
    pub state: VadState,
    /// Count of frames in the current speech run.
    pub speech_cnt: u32,
    /// Count of frames in the current silence run.
    pub silence_cnt: u32,
    /// A force-split just fired: the next frame reopens a segment.
    pub hit_max_speech: bool,
    /// 0-based frame of the open segment's start, while one is open.
    pub last_start: Option<u64>,
    /// 0-based frame of the most recent segment closing.
    pub last_end: Option<u64>,
    /// Number of frames seen since construction or the last reset.
    pub frame_cnt: u64,
}

/// The decision produced for a frame.
pub open spec fn decision(
    frame_index: u64,
    is_speech: bool,
    is_speech_start: bool,
    is_speech_end: bool,
    start_frame: Option<u64>,
    end_frame: Option<u64>,
) -> DecisionView {
    DecisionView { frame_index, is_speech, is_speech_start, is_speech_end, start_frame, end_frame }
}

/// Force-splitting, if enabled, needs at least two speech frames; under
/// such thresholds every closed segment is non-empty.
pub open spec fn splits_leave_room(config: FrameConfig) -> bool {
    match config.max_speech_frames {
        Some(m) => m >= 2,
        None => true,
    }
}

impl DetectorView {
    /// A freshly constructed (or reset) state machine with `config`.
    pub open spec fn initial(config: FrameConfig) -> DetectorView {
        DetectorView {
            config,
            state: VadState::Silence,
            speech_cnt: 0,
            silence_cnt: 0,
            hit_max_speech: false,
            last_start: None,
            last_end: None,
            frame_cnt: 0,
        }
    }

    /// Inside a segment: in `Speech` or `PossibleSilence`.
    pub open spec fn is_active(self) -> bool {
        self.state == VadState::Speech || self.state == VadState::PossibleSilence
    }

    /// Room for `n` more frames without any counter overflowing.
    pub open spec fn can_run(self, n: nat) -> bool {
        &&& self.frame_cnt + n <= MAX_FRAMES
        &&& self.speech_cnt + n <= u32::MAX
        &&& self.silence_cnt + n <= u32::MAX
    }

    /// Relations between the fields that every reachable state satisfies.
    pub open spec fn inv(self) -> bool {
        &&& self.frame_cnt <= MAX_FRAMES
        &&& self.speech_cnt <= self.frame_cnt
        &&& self.silence_cnt <= self.frame_cnt
        &&& (self.last_end matches Some(e) ==> e < self.frame_cnt)
        &&& (self.last_start matches Some(s) ==> {
            &&& s < self.frame_cnt
            &&& (self.last_end matches Some(e) ==> e < s)
        })
        &&& (self.hit_max_speech ==> {
            &&& self.speech_cnt == 0
            &&& self.state == VadState::Speech
            &&& self.last_start is None
            &&& self.last_end == Some((self.frame_cnt - 1) as u64)
        })
        &&& (self.is_active() && !self.hit_max_speech ==> self.last_start is Some)
        &&& (!self.is_active() ==> self.last_start is None && !self.hit_max_speech)
    }

    /// The padded start of a segment that opens on the current frame:
    /// `speech_cnt` speech frames back, then `pad_start_frames` more, but
    /// never before frame 0 nor at or before the previous segment's end.
    /// `frame_cnt` and `speech_cnt` already count the current frame.
    pub open spec fn padded_start(self) -> u64 {
        let raw = sat_sub(
            sat_add(sat_sub(self.frame_cnt, self.speech_cnt as u64), 1),
            self.config.pad_start_frames as u64,
        );
        let lower: int = match self.last_end {
            Some(e) => e + 1,
            None => 0,
        };
        let one_based: int = if raw >= 1 {
            if raw >= lower + 1 { raw as int } else { lower + 1 }
        } else {
            if 1 >= lower + 1 { 1 } else { lower + 1 }
        };
        (one_based - 1) as u64
    }

    /// Whether the speech run has reached the force-split length.
    pub open spec fn reaches_max(self) -> bool {
        match self.config.max_speech_frames {
            Some(m) => self.speech_cnt >= m,
            None => false,
        }
    }

    /// State after a force-split on frame `cur`.
    pub open spec fn force_split(self, cur: u64) -> DetectorView {
        DetectorView {
            hit_max_speech: true,
            speech_cnt: 0,
            last_end: Some(cur),
            last_start: None,
            ..self
        }
    }

    /// One frame of the state machine: the next state and the frame's
    /// decision, given whether the frame was classified as speech.
    pub open spec fn step(self, is_speech: bool) -> (DetectorView, DecisionView) {
        let cur = self.frame_cnt;
        let rearmed = self.hit_max_speech;
        let a = DetectorView {
            frame_cnt: (self.frame_cnt + 1) as u64,
            hit_max_speech: false,
            last_start: if rearmed { Some(cur) } else { self.last_start },
            ..self
        };
        let keep = decision(cur, is_speech, rearmed, false, a.last_start, None);
        let close = decision(cur, is_speech, rearmed, true, a.last_start, Some(cur));
        match self.state {
            VadState::Silence => {
                if is_speech {
                    (
                        DetectorView {
                            state: VadState::PossibleSpeech,
                            speech_cnt: (a.speech_cnt + 1) as u32,
                            ..a
                        },
                        keep,
                    )
                } else {
                    (
                        DetectorView {
                            silence_cnt: (a.silence_cnt + 1) as u32,
                            speech_cnt: 0,
                            ..a
                        },
                        keep,
                    )
                }
            },
            VadState::PossibleSpeech => {
                if is_speech {
                    let b = DetectorView { speech_cnt: (a.speech_cnt + 1) as u32, ..a };
                    if b.speech_cnt >= b.config.min_speech_frames {
                        let s = b.padded_start();
                        (
                            DetectorView {
                                state: VadState::Speech,
                                last_start: Some(s),
                                silence_cnt: 0,
                                ..b
                            },
                            decision(cur, is_speech, true, false, Some(s), None),
                        )
                    } else {
                        (b, keep)
                    }
                } else {
                    (
                        DetectorView {
                            state: VadState::Silence,
                            silence_cnt: 1,
                            speech_cnt: 0,
                            ..a
                        },
                        keep,
                    )
                }
            },
            VadState::Speech => {
                let b = DetectorView { speech_cnt: (a.speech_cnt + 1) as u32, ..a };
                if is_speech {
                    let c = DetectorView { silence_cnt: 0, ..b };
                    if c.reaches_max() {
                        (c.force_split(cur), close)
                    } else {
                        (c, keep)
                    }
                } else {
                    (
                        DetectorView {
                            state: VadState::PossibleSilence,
                            silence_cnt: (b.silence_cnt + 1) as u32,
                            ..b
                        },
                        keep,
                    )
                }
            },
            VadState::PossibleSilence => {
                let b = DetectorView { speech_cnt: (a.speech_cnt + 1) as u32, ..a };
                if is_speech {
                    let c = DetectorView { state: VadState::Speech, silence_cnt: 0, ..b };
                    if c.reaches_max() {
                        (c.force_split(cur), close)
                    } else {
                        (c, keep)
                    }
                } else {
                    let c = DetectorView { silence_cnt: (b.silence_cnt + 1) as u32, ..b };
                    if c.silence_cnt >= c.config.min_silence_frames {
                        (
                            DetectorView {
                                state: VadState::Silence,
                                last_end: Some(cur),
                                last_start: None,
                                speech_cnt: 0,
                                ..c
                            },
                            close,
                        )
                    } else {
                        (c, keep)
                    }
                }
            },
        }
    }

    /// End of stream: the state after closing an open segment at the
    /// current frame count, and that segment's bounds in frames
    /// (end exclusive). Nothing changes, and nothing is returned, when no
    /// segment is open, nor when a force-split fired on the last frame and
    /// the segment it reopens has not started yet.
    pub open spec fn finish(self) -> (DetectorView, Option<(u64, u64)>) {
        if !self.is_active() {
            (self, None)
        } else {
            match self.last_start {
                None => (self, None),
                Some(s) => (
                    DetectorView {
                        state: VadState::Silence,
                        last_start: None,
                        last_end: Some(sat_sub(self.frame_cnt, 1)),
                        speech_cnt: 0,
                        silence_cnt: 0,
                        ..self
                    },
                    Some((s, self.frame_cnt)),
                ),
            }
        }
    }
}

/// Runs the state machine over a sequence of per-frame speech decisions,
/// returning the final state and one decision per frame.
pub open spec fn run(v: DetectorView, frames: Seq<bool>) -> (DetectorView, Seq<DecisionView>)
    decreases frames.len(),
{
    if frames.len() == 0 {
        (v, Seq::empty())
    } else {
        let (w, d) = v.step(frames[0]);
        let (last, ds) = run(w, frames.drop_first());
        (last, seq![d] + ds)
    }
}

/// The streaming segment state machine.
#[derive(Debug)]
pub struct Detector {
    config: FrameConfig,
    state: VadState,
    speech_cnt: u32,
    silence_cnt: u32,
    hit_max_speech: bool,
    last_speech_start_frame: Option<u64>,
    last_speech_end_frame: Option<u64>,
    frame_cnt: u64,
}

impl View for Detector {
    type V = DetectorView;

    closed spec fn view(&self) -> DetectorView {
        DetectorView {
            config: self.config,
            state: self.state,
            speech_cnt: self.speech_cnt,
            silence_cnt: self.silence_cnt,
            hit_max_speech: self.hit_max_speech,
            last_start: self.last_speech_start_frame,
            last_end: self.last_speech_end_frame,
            frame_cnt: self.frame_cnt,
        }
    }
}

/// A single step keeps the invariant, and tells where its segment bounds lie.
pub proof fn lemma_step(v: DetectorView, is_speech: bool)
    requires
        v.inv(),
        v.can_run(1),
    ensures
        ({
            let (w, d) = v.step(is_speech);
            &&& w.inv()
            &&& w.config == v.config
            &&& w.frame_cnt == v.frame_cnt + 1
            &&& w.speech_cnt <= v.speech_cnt + 1
            &&& w.silence_cnt <= v.silence_cnt + 1
            &&& d.frame_index == v.frame_cnt
            &&& d.is_speech == is_speech
            &&& d.frames_bounded()
            &&& (d.is_speech_end ==> {
                &&& d.end_frame == Some(v.frame_cnt)
                &&& d.start_frame matches Some(s) && s <= v.frame_cnt && (v.last_end matches Some(
                    e,
                ) ==> e < s)
                &&& (splits_leave_room(v.config) ==> d.start_frame.unwrap() < v.frame_cnt)
                &&& w.last_end == Some(v.frame_cnt)
            })
            &&& (!d.is_speech_end ==> d.end_frame is None && w.last_end == v.last_end)
        }),
{
    let cur = v.frame_cnt;
    if v.state == VadState::PossibleSpeech && is_speech {
        let a = DetectorView {
            frame_cnt: (v.frame_cnt + 1) as u64,
            hit_max_speech: false,
            last_start: v.last_start,
            ..v
        };
        let b = DetectorView { speech_cnt: (a.speech_cnt + 1) as u32, ..a };
        let s = b.padded_start();
        assert(s <= cur);
        assert(v.last_end matches Some(e) ==> e < s);
    }
}


/// Segments come out in stream order and never overlap. Over any run of
/// frames: frames are numbered consecutively from the current frame
/// count; every frame that closes a segment closes one whose start is
/// known, lies at or before the closing frame, and lies after the most
/// recent closing before the run; when force-splitting is off or needs at
/// least two speech frames, the start lies strictly before the closing
/// frame, so the segment is non-empty; and any two closings in the run are
/// ordered: the earlier segment ends before the later one starts.
pub proof fn lemma_segments_ordered(v: DetectorView, frames: Seq<bool>)
    requires
        v.inv(),
        v.can_run(frames.len()),
    ensures
        ({
            let (w, ds) = run(v, frames);
            &&& ds.len() == frames.len()
            &&& w.inv()
            &&& w.config == v.config
            &&& w.frame_cnt == v.frame_cnt + frames.len()
            &&& forall|i: int|
                0 <= i < ds.len() ==> #[trigger] ds[i].frame_index == v.frame_cnt + i
                    && ds[i].is_speech == frames[i]
            &&& forall|i: int|
                0 <= i < ds.len() && #[trigger] ds[i].is_speech_end ==> {
                    &&& ds[i].closes_segment()
                    &&& ds[i].end_frame == Some(ds[i].frame_index)
                    &&& ds[i].start_frame.unwrap() <= ds[i].frame_index
                    &&& (v.last_end matches Some(e) ==> e < ds[i].start_frame.unwrap())
                    &&& (splits_leave_room(v.config) ==> ds[i].start_frame.unwrap()
                        < ds[i].frame_index)
                }
            &&& forall|i: int, j: int|
                0 <= i < j < ds.len() && #[trigger] ds[i].is_speech_end
                    && #[trigger] ds[j].is_speech_end ==> ds[i].end_frame.unwrap()
                    < ds[j].start_frame.unwrap()
        }),
    decreases frames.len(),
{
    if frames.len() > 0 {
        let (w, d) = v.step(frames[0]);
        lemma_step(v, frames[0]);
        let rest = frames.drop_first();
        lemma_segments_ordered(w, rest);
        let (last, ds1) = run(w, rest);
        let ds = seq![d] + ds1;
        assert(run(v, frames) == (last, ds));
        assert forall|i: int| 0 <= i < ds.len() implies #[trigger] ds[i].frame_index == v.frame_cnt
            + i && ds[i].is_speech == frames[i] by {
            if i == 0 {
                assert(ds[0] == d);
            } else {
                assert(ds[i] == ds1[i - 1]);
                assert(ds1[i - 1].frame_index == w.frame_cnt + (i - 1));
                assert(rest[i - 1] == frames[i]);
            }
        }
        assert forall|i: int| 0 <= i < ds.len() && #[trigger] ds[i].is_speech_end implies {
            &&& ds[i].closes_segment()
            &&& ds[i].end_frame == Some(ds[i].frame_index)
            &&& ds[i].start_frame.unwrap() <= ds[i].frame_index
            &&& (v.last_end matches Some(e) ==> e < ds[i].start_frame.unwrap())
            &&& (splits_leave_room(v.config) ==> ds[i].start_frame.unwrap() < ds[i].frame_index)
        } by {
            if i > 0 {
                assert(ds[i] == ds1[i - 1]);
            }
        }
        assert forall|i: int, j: int|
            0 <= i < j < ds.len() && #[trigger] ds[i].is_speech_end
                && #[trigger] ds[j].is_speech_end implies ds[i].end_frame.unwrap()
            < ds[j].start_frame.unwrap() by {
            assert(ds[j] == ds1[j - 1]);
            if i > 0 {
                assert(ds[i] == ds1[i - 1]);
            }
        }
    }
}

/// Feeding frames in two batches is the same as feeding them in one: the
/// run over `a + b` ends where the run over `b` from the end of the run
/// over `a` ends, and its decisions are those of the two runs in order.
pub proof fn lemma_run_concat(v: DetectorView, a: Seq<bool>, b: Seq<bool>)
    ensures
        ({
            let (va, da) = run(v, a);
            let (vb, db) = run(va, b);
            run(v, a + b) == (vb, da + db)
        }),
    decreases a.len(),
{
    if a.len() > 0 {
        let (w, d) = v.step(a[0]);
        lemma_run_concat(w, a.drop_first(), b);
        assert((a + b).drop_first() =~= a.drop_first() + b);
        assert((a + b)[0] == a[0]);
        let (va1, da1) = run(w, a.drop_first());
        let (vb, db) = run(va1, b);
        assert(seq![d] + (da1 + db) =~= (seq![d] + da1) + db);
    } else {
        assert(a + b =~= b);
        let (vb, db) = run(v, b);
        assert(Seq::<DecisionView>::empty() + db =~= db);
    }
}

impl Detector {
    /// A detector in `Silence` with every counter at zero.
    pub fn new(config: FrameConfig) -> (d: Self)
        ensures
            d@ == DetectorView::initial(config),
            d@.inv(),
    {
        Detector {
            config,
            state: VadState::Silence,
            speech_cnt: 0,
            silence_cnt: 0,
            hit_max_speech: false,
            last_speech_start_frame: None,
            last_speech_end_frame: None,
            frame_cnt: 0,
        }
    }

    /// The thresholds currently in use.
    pub fn config(&self) -> (c: &FrameConfig)
        ensures
            *c == self@.config,
    {
        &self.config
    }

    /// Replace the thresholds; the in-flight state is kept.
    pub fn set_config(&mut self, config: FrameConfig)
        ensures
            final(self)@ == (DetectorView { config, ..old(self)@ }),
    {
        self.config = config;
    }

    /// Return to the freshly constructed state, keeping the thresholds.
    pub fn reset(&mut self)
        ensures
            final(self)@ == DetectorView::initial(old(self)@.config),
    {
        self.state = VadState::Silence;
        self.speech_cnt = 0;
        self.silence_cnt = 0;
        self.hit_max_speech = false;
        self.last_speech_start_frame = None;
        self.last_speech_end_frame = None;
        self.frame_cnt = 0;
    }

    /// Whether a segment is currently open (`Speech` or `PossibleSilence`).
    pub fn is_active(&self) -> (r: bool)
        ensures
            r == self@.is_active(),
    {
        match self.state {
            VadState::Speech | VadState::PossibleSilence => true,
            _ => false,
        }
    }

    /// The current state.
    pub fn state(&self) -> (s: VadState)
        ensures
            s == self@.state,
    {
        self.state
    }

    /// Frames consumed since construction or the last reset.
    pub fn frame_count(&self) -> (n: u64)
        ensures
            n == self@.frame_cnt,
    {
        self.frame_cnt
    }

    /// Whether one more frame can be pushed without a counter overflowing.
    pub fn has_headroom(&self) -> (r: bool)
        ensures
            r == self@.can_run(1),
    {
        self.frame_cnt < MAX_FRAMES && self.speech_cnt < u32::MAX && self.silence_cnt < u32::MAX
    }

    /// The padded start frame for a segment opening on the current frame.
    fn padded_speech_start(&self) -> (s: u64)
        requires
            self@.inv(),
            self@.frame_cnt >= 1,
        ensures
            s == self@.padded_start(),
    {
        let pad = self.config.pad_start_frames as u64;
        let raw = self.frame_cnt.saturating_sub(self.speech_cnt as u64).saturating_add(1).saturating_sub(
            pad,
        );
        let lower: u64 = match self.last_speech_end_frame {
            Some(e) => e + 1,
            None => 0,
        };
        let one_based = if raw >= 1 {
            if raw >= lower + 1 {
                raw
            } else {
                lower + 1
            }
        } else {
            if 1 >= lower + 1 {
                1
            } else {
                lower + 1
            }
        };
        one_based - 1
    }

    /// Record a force-split, or a closing, on the current frame.
    fn close_segment(&mut self, cur: u64)
        ensures
            final(self)@ == (DetectorView {
                last_end: Some(cur),
                last_start: None,
                ..old(self)@
            }),
    {
        self.last_speech_end_frame = Some(cur);
        self.last_speech_start_frame = None;
    }

    /// Push one frame's speech classification. Returns the frame's
    /// decision; a segment closes on this frame exactly when the
    /// decision's `is_speech_end` is set.
    pub fn push_decision(&mut self, is_speech: bool) -> (d: FrameDecision)
        requires
            old(self)@.inv(),
            old(self)@.can_run(1),
        ensures
            (final(self)@, d@) == old(self)@.step(is_speech),
            final(self)@.inv(),
            d@.frames_bounded(),
    {
        proof {
            lemma_step(self@, is_speech);
        }
        let cur = self.frame_cnt;
        self.frame_cnt = self.frame_cnt + 1;
        let mut is_speech_start = false;
        let mut is_speech_end = false;
        let mut start_frame: Option<u64> = self.last_speech_start_frame;
        let mut end_frame: Option<u64> = None;

        if self.hit_max_speech {
            is_speech_start = true;
            self.last_speech_start_frame = Some(cur);
            start_frame = Some(cur);
            self.hit_max_speech = false;
        }
        let max_speech = self.config.max_speech_frames;

        match self.state {
            VadState::Silence => {
                if is_speech {
                    self.state = VadState::PossibleSpeech;
                    self.speech_cnt = self.speech_cnt + 1;
                } else {
                    self.silence_cnt = self.silence_cnt + 1;
                    self.speech_cnt = 0;
                }
            },
            VadState::PossibleSpeech => {
                if is_speech {
                    self.speech_cnt = self.speech_cnt + 1;
                    if self.speech_cnt >= self.config.min_speech_frames {
                        let new_start = self.padded_speech_start();
                        self.state = VadState::Speech;
                        is_speech_start = true;
                        self.last_speech_start_frame = Some(new_start);
                        start_frame = Some(new_start);
                        self.silence_cnt = 0;
                    }
                } else {
                    self.state = VadState::Silence;
                    self.silence_cnt = 1;
                    self.speech_cnt = 0;
                }
            },
            VadState::Speech => {
                self.speech_cnt = self.speech_cnt + 1;
                if is_speech {
                    self.silence_cnt = 0;
                    if let Some(max) = max_speech {
                        if self.speech_cnt >= max {
                            self.hit_max_speech = true;
                            self.speech_cnt = 0;
                            is_speech_end = true;
                            end_frame = Some(cur);
                            start_frame = self.last_speech_start_frame;
                            self.close_segment(cur);
                        }
                    }
                } else {
                    self.state = VadState::PossibleSilence;
                    self.silence_cnt = self.silence_cnt + 1;
                }
            },
            VadState::PossibleSilence => {
                self.speech_cnt = self.speech_cnt + 1;
                if is_speech {
                    self.state = VadState::Speech;
                    self.silence_cnt = 0;
                    if let Some(max) = max_speech {
                        if self.speech_cnt >= max {
                            self.hit_max_speech = true;
                            self.speech_cnt = 0;
                            is_speech_end = true;
                            end_frame = Some(cur);
                            start_frame = self.last_speech_start_frame;
                            self.close_segment(cur);
                        }
                    }
                } else {
                    self.silence_cnt = self.silence_cnt + 1;
                    if self.silence_cnt >= self.config.min_silence_frames {
                        self.state = VadState::Silence;
                        is_speech_end = true;
                        end_frame = Some(cur);
                        start_frame = self.last_speech_start_frame;
                        self.close_segment(cur);
                        self.speech_cnt = 0;
                    }
                }
            },
        }

        FrameDecision {
            frame_index: cur,
            is_speech,
            is_speech_start,
            is_speech_end,
            start_frame,
            end_frame,
        }
    }

    /// End of stream: if a segment is open, close it at the current frame
    /// count and return it in samples; otherwise return `None`.
    pub fn finish_active(&mut self) -> (seg: Option<SpeechSegment>)
        requires
            old(self)@.inv(),
        ensures
            final(self)@ == old(self)@.finish().0,
            final(self)@.inv(),
            seg is Some <==> old(self)@.finish().1 is Some,
            seg matches Some(s) ==> {
                &&& s@.start == old(self)@.finish().1.unwrap().0 * FRAME_SHIFT_SAMPLES
                &&& s@.end == old(self)@.finish().1.unwrap().1 * FRAME_SHIFT_SAMPLES
                &&& s == SpeechSegment::spec_new(
                    (old(self)@.finish().1.unwrap().0 * FRAME_SHIFT_SAMPLES) as u64,
                    (old(self)@.finish().1.unwrap().1 * FRAME_SHIFT_SAMPLES) as u64,
                )
            },
    {
        if !self.is_active() {
            return None;
        }
        let start = match self.last_speech_start_frame {
            Some(s) => s,
            None => return None,
        };
        self.last_speech_start_frame = None;
        let end = self.frame_cnt;
        self.state = VadState::Silence;
        self.last_speech_end_frame = Some(end.saturating_sub(1));
        self.speech_cnt = 0;
        self.silence_cnt = 0;
        assert(start * FRAME_SHIFT_SAMPLES <= u64::MAX) by (nonlinear_arith)
            requires
                start <= MAX_FRAMES,
        ;
        assert(end * FRAME_SHIFT_SAMPLES <= u64::MAX) by (nonlinear_arith)
            requires
                end <= MAX_FRAMES,
        ;
        Some(SpeechSegment::new(start * FRAME_SHIFT_SAMPLES, end * FRAME_SHIFT_SAMPLES))
    }
}

} // verus!
