//! What the segment state machine does, stated over the per-frame speech
//! classifications fed to it and the decisions it returns: when segments
//! open, where their padded starts lie, when they close on silence, when
//! they are force-split, and what end of stream flushes.

use vstd::prelude::*;

use crate::detector::{lemma_run_concat, lemma_segments_ordered, run, DecisionView, DetectorView, VadState};
use crate::options::FrameConfig;

verus! {

/// Number of consecutive frames equal to `value` ending at frame `i`
/// (zero when frame `i` differs or lies outside `frames`).
pub open spec fn streak(frames: Seq<bool>, i: int, value: bool) -> nat
    decreases i,
{
    if i < 0 || i >= frames.len() || frames[i] != value {
        0
    } else if i == 0 {
        1
    } else {
        1 + streak(frames, i - 1, value)
    }
}

/// The most recent frame before frame `i` on which a segment closed.
pub open spec fn last_close(ds: Seq<DecisionView>, i: int) -> Option<u64>
    decreases i,
{
    if i <= 0 {
        None
    } else if ds[i - 1].is_speech_end {
        Some((i - 1) as u64)
    } else {
        last_close(ds, i - 1)
    }
}

/// No segment closes on frames `a .. b` (`b` excluded).
pub open spec fn no_close(ds: Seq<DecisionView>, a: int, b: int) -> bool {
    forall|j: int| a <= j < b ==> !(#[trigger] ds[j].is_speech_end)
}

/// Frame `i` opens a segment because a speech run reached the minimum,
/// rather than reopening right after a force-split (a closing on a
/// speech frame).
pub open spec fn opens_by_speech(frames: Seq<bool>, ds: Seq<DecisionView>, i: int) -> bool {
    ds[i].is_speech_start && !(i > 0 && ds[i - 1].is_speech_end && frames[i - 1])
}

/// A run returns one decision per frame.
pub proof fn lemma_run_len(v: DetectorView, frames: Seq<bool>)
    ensures
        run(v, frames).1.len() == frames.len(),
    decreases frames.len(),
{
    if frames.len() > 0 {
        let (w, d) = v.step(frames[0]);
        lemma_run_len(w, frames.drop_first());
    }
}

/// The decision on frame `i` of a run, and the state after it, come from
/// one step on the state reached after the first `i` frames.
pub proof fn lemma_run_prefix(v: DetectorView, frames: Seq<bool>, i: int)
    requires
        0 <= i < frames.len(),
    ensures
        ({
            let s = run(v, frames.take(i)).0;
            &&& run(v, frames).1[i] == s.step(frames[i]).1
            &&& run(v, frames.take(i + 1)).0 == s.step(frames[i]).0
        }),
{
    let s = run(v, frames.take(i)).0;
    lemma_run_concat(v, frames.take(i), frames.skip(i));
    assert(frames.take(i) + frames.skip(i) =~= frames);
    lemma_run_len(v, frames.take(i));
    let rest = frames.skip(i);
    let (w, d) = s.step(rest[0]);
    assert(rest[0] == frames[i]);
    let (last, ds1) = run(w, rest.drop_first());
    assert(run(s, rest) == (last, seq![d] + ds1));
    let da = run(v, frames.take(i)).1;
    assert((da + (seq![d] + ds1))[i] == d);
    lemma_run_concat(v, frames.take(i), seq![frames[i]]);
    assert(frames.take(i) + seq![frames[i]] =~= frames.take(i + 1));
    let one = seq![frames[i]];
    assert(one.drop_first() =~= Seq::<bool>::empty());
    assert(run(w, one.drop_first()) == (w, Seq::<DecisionView>::empty()));
    assert(run(s, one).0 == w);
}

/// What the state reached after the first `i` frames of a run from a fresh
/// detector records about those frames and the decisions made on them.
pub open spec fn history(
    c: FrameConfig,
    frames: Seq<bool>,
    ds: Seq<DecisionView>,
    i: int,
    s: DetectorView,
) -> bool {
    &&& s.inv()
    &&& s.config == c
    &&& s.frame_cnt == i
    &&& (s.state == VadState::Silence ==> s.speech_cnt == 0 && (i == 0 || !frames[i - 1]))
    &&& (s.state == VadState::PossibleSpeech ==> s.speech_cnt == streak(frames, i - 1, true)
        && s.speech_cnt >= 1)
    &&& (s.state == VadState::Speech ==> s.silence_cnt == 0 && i >= 1 && frames[i - 1])
    &&& (s.state == VadState::PossibleSilence ==> s.silence_cnt == streak(frames, i - 1, false)
        && s.silence_cnt >= 1)
    &&& (s.hit_max_speech <==> (i > 0 && ds[i - 1].is_speech_end && frames[i - 1]))
    &&& s.last_end == last_close(ds, i)
    &&& forall|a: int|
        0 <= a < i && #[trigger] ds[a].is_speech_start && no_close(ds, a, i) ==> {
            &&& s.is_active()
            &&& !s.hit_max_speech
            &&& s.speech_cnt >= i - a
            &&& s.last_start == ds[a].start_frame
        }
    &&& (s.is_active() && !s.hit_max_speech ==> exists|a: int|
        0 <= a < i && #[trigger] ds[a].is_speech_start && no_close(ds, a, i) && s.last_start
            == ds[a].start_frame)
}

/// The history holds after every prefix of a run from a fresh detector.
pub proof fn lemma_history(c: FrameConfig, frames: Seq<bool>, i: int)
    requires
        DetectorView::initial(c).can_run(frames.len()),
        0 <= i <= frames.len(),
    ensures
        history(
            c,
            frames,
            run(DetectorView::initial(c), frames).1,
            i,
            run(DetectorView::initial(c), frames.take(i)).0,
        ),
    decreases i,
{
    let init = DetectorView::initial(c);
    let ds = run(init, frames).1;
    if i == 0 {
        assert(frames.take(0) =~= Seq::<bool>::empty());
    } else {
        let k = i - 1;
        lemma_history(c, frames, k);
        let s = run(init, frames.take(k)).0;
        lemma_run_prefix(init, frames, k);
        let x = frames[k];
        let (w, d) = s.step(x);
        assert(ds[k] == d);
        assert(run(init, frames.take(i)).0 == w);
        lemma_segments_ordered(init, frames.take(i));
        assert(s.can_run(1));
        crate::detector::lemma_step(s, x);
        assert(w.hit_max_speech <==> (d.is_speech_end && x));
        assert(w.last_end == last_close(ds, i));
        if k > 0 {
            assert(streak(frames, k, x) == 1 + streak(frames, k - 1, x));
        } else {
            assert(streak(frames, k, x) == 1);
        }
        assert(streak(frames, k, !x) == 0);
        if k > 0 && frames[k - 1] != x {
            assert(streak(frames, k - 1, x) == 0);
        }
        assert forall|a: int|
            0 <= a < i && #[trigger] ds[a].is_speech_start && no_close(ds, a, i) implies {
            &&& w.is_active()
            &&& !w.hit_max_speech
            &&& w.speech_cnt >= i - a
            &&& w.last_start == ds[a].start_frame
        } by {
            assert(!ds[k].is_speech_end);
            if a < k {
                assert(no_close(ds, a, k));
            }
        }
        if w.is_active() && !w.hit_max_speech {
            if d.is_speech_start {
                assert(!d.is_speech_end);
                assert(no_close(ds, k, i));
                assert(ds[k].is_speech_start && w.last_start == ds[k].start_frame);
            } else {
                let a0 = choose|a: int|
                    0 <= a < k && #[trigger] ds[a].is_speech_start && no_close(ds, a, k)
                        && s.last_start == ds[a].start_frame;
                assert(no_close(ds, a0, i));
                assert(ds[a0].is_speech_start && w.last_start == ds[a0].start_frame);
            }
        }
    }
}

/// Opening a segment. Over any frames fed to a fresh detector: a frame
/// that opens a segment (other than the reopening right after a
/// force-split) ends a run of consecutive speech frames at least
/// `min_speech_frames` long, and at least two long; and the segment starts
/// `pad_start_frames` frames before the first frame of that run, but never
/// before frame 0 and never at or before the frame on which the previous
/// segment closed.
pub proof fn lemma_opening(c: FrameConfig, frames: Seq<bool>, i: int)
    requires
        DetectorView::initial(c).can_run(frames.len()),
        0 <= i < frames.len(),
    ensures
        ({
            let ds = run(DetectorView::initial(c), frames).1;
            let k = streak(frames, i, true);
            let padded: int = i + 1 - k - c.pad_start_frames;
            let lower: int = match last_close(ds, i) {
                Some(e) => e + 1,
                None => 0,
            };
            opens_by_speech(frames, ds, i) ==> {
                &&& k >= c.min_speech_frames
                &&& k >= 2
                &&& ds[i].start_frame == Some(
                    (if padded > lower {
                        padded
                    } else {
                        lower
                    }) as u64,
                )
            }
        }),
{
    let init = DetectorView::initial(c);
    let ds = run(init, frames).1;
    lemma_history(c, frames, i);
    let s = run(init, frames.take(i)).0;
    lemma_run_prefix(init, frames, i);
    let x = frames[i];
    let (w, d) = s.step(x);
    assert(ds[i] == d);
    assert(s.can_run(1));
    if opens_by_speech(frames, ds, i) {
        assert(!s.hit_max_speech);
        assert(s.state == VadState::PossibleSpeech && x);
        if i > 0 {
            assert(streak(frames, i, true) == 1 + streak(frames, i - 1, true));
        } else {
            assert(streak(frames, i, true) == 1);
        }
    }
}

/// Closing on silence. Over any frames fed to a fresh detector: a segment
/// closes on a non-speech frame only when that frame ends a run of
/// consecutive non-speech frames at least `min_silence_frames` long, and
/// at least two long; a segment closes on a speech frame only when
/// force-splitting is enabled.
pub proof fn lemma_silence_close(c: FrameConfig, frames: Seq<bool>, i: int)
    requires
        DetectorView::initial(c).can_run(frames.len()),
        0 <= i < frames.len(),
    ensures
        ({
            let ds = run(DetectorView::initial(c), frames).1;
            &&& (ds[i].is_speech_end && !frames[i]) ==> streak(frames, i, false)
                >= c.min_silence_frames && streak(frames, i, false) >= 2
            &&& (ds[i].is_speech_end && frames[i]) ==> c.max_speech_frames is Some
        }),
{
    let init = DetectorView::initial(c);
    let ds = run(init, frames).1;
    lemma_history(c, frames, i);
    let s = run(init, frames.take(i)).0;
    lemma_run_prefix(init, frames, i);
    let x = frames[i];
    let (w, d) = s.step(x);
    assert(ds[i] == d);
    assert(s.can_run(1));
    if d.is_speech_end && !x {
        assert(s.state == VadState::PossibleSilence);
        assert(i > 0);
        assert(streak(frames, i, false) == 1 + streak(frames, i - 1, false));
    }
}

/// Silence closes an open segment. Over any frames fed to a fresh
/// detector: once a segment has opened on frame `a` and not closed since,
/// a non-speech frame that ends a run of at least `min_silence_frames`
/// (and at least two) consecutive non-speech frames closes it.
pub proof fn lemma_silence_closes(c: FrameConfig, frames: Seq<bool>, a: int, i: int)
    requires
        DetectorView::initial(c).can_run(frames.len()),
        0 <= a < i < frames.len(),
    ensures
        ({
            let ds = run(DetectorView::initial(c), frames).1;
            (ds[a].is_speech_start && no_close(ds, a, i) && !frames[i] && streak(frames, i, false)
                >= c.min_silence_frames && streak(frames, i, false) >= 2) ==> ds[i].is_speech_end
        }),
{
    let init = DetectorView::initial(c);
    let ds = run(init, frames).1;
    lemma_history(c, frames, i);
    let s = run(init, frames.take(i)).0;
    lemma_run_prefix(init, frames, i);
    let x = frames[i];
    let (w, d) = s.step(x);
    assert(ds[i] == d);
    assert(s.can_run(1));
    if ds[a].is_speech_start && no_close(ds, a, i) && !x && streak(frames, i, false)
        >= c.min_silence_frames && streak(frames, i, false) >= 2 {
        assert(streak(frames, i, false) == 1 + streak(frames, i - 1, false));
        assert(!frames[i - 1]);
        assert(s.is_active());
        assert(s.state == VadState::PossibleSilence);
    }
}

/// Force-splitting. Over any frames fed to a fresh detector, with
/// `max_speech_frames == Some(m)`: a segment that opened on frame `a` and
/// has not closed by speech frame `b` has `b - a + 1 < m`; every frame
/// since the opening, speech or not, counts towards `m`, so no segment
/// stays open over a speech frame `m - 1` or more frames past its opening.
pub proof fn lemma_force_split(c: FrameConfig, frames: Seq<bool>, a: int, b: int)
    requires
        DetectorView::initial(c).can_run(frames.len()),
        0 <= a < b < frames.len(),
    ensures
        ({
            let ds = run(DetectorView::initial(c), frames).1;
            (ds[a].is_speech_start && no_close(ds, a, b + 1) && frames[b]) ==> match c.max_speech_frames {
                Some(m) => b - a + 1 < m,
                None => true,
            }
        }),
{
    let init = DetectorView::initial(c);
    let ds = run(init, frames).1;
    lemma_history(c, frames, b);
    let s = run(init, frames.take(b)).0;
    lemma_run_prefix(init, frames, b);
    let x = frames[b];
    let (w, d) = s.step(x);
    assert(ds[b] == d);
    assert(s.can_run(1));
    if ds[a].is_speech_start && no_close(ds, a, b + 1) && x {
        assert(no_close(ds, a, b));
        assert(!ds[b].is_speech_end);
        assert(s.is_active());
        assert(s.speech_cnt >= b - a);
    }
}

/// End of stream flushes the open segment. Over any frames fed to a fresh
/// detector: when a segment opened on frame `a` and has not closed since,
/// finishing returns that segment, from its start frame to the frame
/// count, and leaves the detector in `Silence`.
pub proof fn lemma_finish_flushes(c: FrameConfig, frames: Seq<bool>, a: int)
    requires
        DetectorView::initial(c).can_run(frames.len()),
        0 <= a < frames.len(),
    ensures
        ({
            let (s, ds) = run(DetectorView::initial(c), frames);
            (ds[a].is_speech_start && no_close(ds, a, frames.len() as int)) ==> {
                &&& ds[a].start_frame is Some
                &&& s.finish().1 == Some((ds[a].start_frame.unwrap(), frames.len() as u64))
                &&& s.finish().0.state == VadState::Silence
            }
        }),
{
    let init = DetectorView::initial(c);
    let n = frames.len() as int;
    lemma_history(c, frames, n);
    assert(frames.take(n) =~= frames);
}

/// No segment is open before frame `i`: every earlier opening was followed
/// by a closing before `i`.
pub open spec fn none_open(ds: Seq<DecisionView>, i: int) -> bool {
    forall|a: int| 0 <= a < i && #[trigger] ds[a].is_speech_start ==> !no_close(ds, a, i)
}

/// Speech opens a segment. Over any frames fed to a fresh detector: when
/// no segment is open and no force-split just fired, a speech frame that
/// ends a run of at least `min_speech_frames` (and at least two)
/// consecutive speech frames opens a segment.
pub proof fn lemma_opening_happens(c: FrameConfig, frames: Seq<bool>, i: int)
    requires
        DetectorView::initial(c).can_run(frames.len()),
        0 <= i < frames.len(),
    ensures
        ({
            let ds = run(DetectorView::initial(c), frames).1;
            (none_open(ds, i) && !(i > 0 && ds[i - 1].is_speech_end && frames[i - 1]) && frames[i]
                && streak(frames, i, true) >= c.min_speech_frames && streak(frames, i, true) >= 2)
                ==> ds[i].is_speech_start
        }),
{
    let init = DetectorView::initial(c);
    let ds = run(init, frames).1;
    lemma_history(c, frames, i);
    let s = run(init, frames.take(i)).0;
    lemma_run_prefix(init, frames, i);
    let x = frames[i];
    let (w, d) = s.step(x);
    assert(ds[i] == d);
    assert(s.can_run(1));
    if none_open(ds, i) && !(i > 0 && ds[i - 1].is_speech_end && frames[i - 1]) && x && streak(
        frames,
        i,
        true,
    ) >= c.min_speech_frames && streak(frames, i, true) >= 2 {
        assert(!s.hit_max_speech);
        if s.is_active() {
            let a0 = choose|a: int|
                0 <= a < i && #[trigger] ds[a].is_speech_start && no_close(ds, a, i)
                    && s.last_start == ds[a].start_frame;
            assert(!no_close(ds, a0, i));
        }
        assert(streak(frames, i, true) == 1 + streak(frames, i - 1, true));
        assert(frames[i - 1]);
        assert(s.state == VadState::PossibleSpeech);
    }
}

/// End of stream returns a segment only when one is open. Over any frames
/// fed to a fresh detector: if finishing returns a segment, some frame
/// opened a segment that has not closed since, and the returned segment
/// starts at that opening's start frame and ends at the frame count.
pub proof fn lemma_finish_only_open(c: FrameConfig, frames: Seq<bool>)
    requires
        DetectorView::initial(c).can_run(frames.len()),
    ensures
        ({
            let (s, ds) = run(DetectorView::initial(c), frames);
            s.finish().1 is Some ==> exists|a: int|
                0 <= a < frames.len() && #[trigger] ds[a].is_speech_start && no_close(
                    ds,
                    a,
                    frames.len() as int,
                ) && s.finish().1 == Some((ds[a].start_frame.unwrap(), frames.len() as u64))
        }),
{
    let init = DetectorView::initial(c);
    let n = frames.len() as int;
    lemma_history(c, frames, n);
    assert(frames.take(n) =~= frames);
    let (s, ds) = run(init, frames);
    if s.finish().1 is Some {
        assert(s.is_active() && !s.hit_max_speech);
        let a0 = choose|a: int|
            0 <= a < n && #[trigger] ds[a].is_speech_start && no_close(ds, a, n) && s.last_start
                == ds[a].start_frame;
        assert(s.finish().1 == Some((ds[a0].start_frame.unwrap(), frames.len() as u64)));
    }
}

} // verus!
