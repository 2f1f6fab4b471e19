use core::time::Duration;
use firered_vad::detector::{Detector, VadState};
use firered_vad::options::FrameConfig;
use firered_vad::SpeechSegment;

const THRESHOLD: f32 = 0.5;

// Permissive thresholds for unit testing: smoothing window of one frame
// (the smoothed probability is the raw one), threshold 0.5, 3 frames of
// speech to open, 3 frames of silence to close, 1 frame of padding.
fn opts_with_max(max_speech: Option<Duration>) -> FrameConfig {
    FrameConfig::from_durations(
        1,
        Duration::from_millis(10),
        Duration::from_millis(30),
        Duration::from_millis(30),
        max_speech,
    )
}

fn opts() -> FrameConfig {
    opts_with_max(None)
}

fn drive(post: &mut Detector, probs: &[f32]) -> Vec<SpeechSegment> {
    let mut out = Vec::new();
    for &p in probs {
        let d = post.push_decision(p >= THRESHOLD);
        if let Some(s) = d.closed_segment() {
            out.push(s);
        }
    }
    out
}

#[test]
fn silence_alone_yields_no_segments() {
    let mut p = Detector::new(opts());
    let segs = drive(&mut p, &vec![0.0; 50]);
    assert!(segs.is_empty());
    assert!(!p.is_active());
}

#[test]
fn min_speech_must_be_reached_before_speech_state() {
    let mut p = Detector::new(opts());
    drive(&mut p, &[0.9, 0.9, 0.0, 0.0, 0.0, 0.0]);
    assert!(!p.is_active());
}

#[test]
fn three_speech_frames_then_silence_closes_one_segment() {
    let mut p = Detector::new(opts());
    let mut probs = vec![0.9; 3];
    probs.extend(vec![0.9; 5]);
    probs.extend(vec![0.0; 4]);
    let segs = drive(&mut p, &probs);
    assert_eq!(segs.len(), 1);
    assert!(segs[0].sample_count() > 0);
}

#[test]
fn finish_flushes_open_segment() {
    let mut p = Detector::new(opts());
    let probs = vec![0.9; 10];
    drive(&mut p, &probs);
    assert!(p.is_active());
    let segment = p.finish_active().expect("trailing segment");
    assert!(segment.sample_count() > 0);
    assert!(!p.is_active());
}

#[test]
fn max_speech_force_split_produces_two_segments_back_to_back() {
    let mut p = Detector::new(opts_with_max(Some(Duration::from_millis(50))));
    let mut probs = vec![0.9; 12];
    probs.extend(vec![0.0; 5]);
    let segs = drive(&mut p, &probs);
    assert!(segs.len() >= 2, "expected at least 2 segments; got {}", segs.len());
}

#[test]
fn frame_indexing_is_zero_based() {
    let mut p = Detector::new(opts());
    let first = p.push_decision(0.0 >= THRESHOLD);
    assert_eq!(first.frame_index(), 0);
    let second = p.push_decision(0.0 >= THRESHOLD);
    assert_eq!(second.frame_index(), 1);
}

#[test]
fn exact_boundaries_of_a_padded_segment() {
    let mut p = Detector::new(opts());
    // Frames 0..=1 silence, frames 2..=4 speech (opens on frame 4 with
    // 3 speech frames and one frame of padding: start frame 1), frames
    // 5..=7 silence (closes on frame 7).
    let probs = [0.0, 0.0, 0.9, 0.9, 0.9, 0.0, 0.0, 0.0];
    let mut decisions = Vec::new();
    for &prob in &probs {
        decisions.push(p.push_decision(prob >= THRESHOLD));
    }
    assert!(decisions[4].is_speech_start());
    assert_eq!(decisions[4].speech_start_frame(), Some(1));
    assert!(decisions[7].is_speech_end());
    assert_eq!(decisions[7].speech_end_frame(), Some(7));
    assert_eq!(decisions[7].closed_segment(), Some(SpeechSegment::new(160, 1_120)));
    assert_eq!(p.state(), VadState::Silence);
    for (i, d) in decisions.iter().enumerate() {
        assert_eq!(d.frame_index(), i as u64);
        assert_eq!(d.is_speech(), probs[i] >= THRESHOLD);
        if i != 7 {
            assert!(!d.is_speech_end());
            assert_eq!(d.closed_segment(), None);
        }
    }
}

#[test]
fn force_split_reopens_on_the_next_frame() {
    let mut p = Detector::new(opts_with_max(Some(Duration::from_millis(50))));
    let mut decisions = Vec::new();
    for _ in 0..12 {
        decisions.push(p.push_decision(true));
    }
    // Opens on frame 2 (start frame 0: padding reaches frame 0); 5 speech frames are
    // reached on frame 4, which force-splits; frame 5 reopens.
    assert!(decisions[2].is_speech_start());
    assert!(decisions[4].is_speech_end());
    assert_eq!(decisions[4].closed_segment(), Some(SpeechSegment::new(0, 640)));
    assert!(decisions[5].is_speech_start());
    assert_eq!(decisions[5].speech_start_frame(), Some(5));
    assert!(decisions[9].is_speech_end());
    assert_eq!(decisions[9].closed_segment(), Some(SpeechSegment::new(800, 1_440)));
}

#[test]
fn closed_segments_never_overlap() {
    let mut p = Detector::new(opts_with_max(Some(Duration::from_millis(40))));
    let mut probs = Vec::new();
    for k in 0..40 {
        probs.push(if (k / 7) % 2 == 0 { 0.9 } else { 0.1 });
    }
    probs.extend(vec![0.9; 20]);
    let segs = drive(&mut p, &probs);
    assert!(segs.len() >= 3);
    for w in segs.windows(2) {
        assert!(w[0].start_sample() <= w[0].end_sample());
        assert!(w[0].end_sample() < w[1].start_sample());
    }
}

#[test]
fn reset_returns_to_fresh_state() {
    let mut p = Detector::new(opts());
    drive(&mut p, &[0.9; 10]);
    assert!(p.is_active());
    p.reset();
    assert_eq!(p.frame_count(), 0);
    assert!(!p.is_active());
    assert_eq!(p.state(), VadState::Silence);
    assert_eq!(*p.config(), opts());
    let mut fresh = Detector::new(opts());
    let probs = [0.0, 0.9, 0.9, 0.9, 0.9, 0.0, 0.0, 0.0, 0.0];
    for &prob in &probs {
        assert_eq!(p.push_decision(prob >= THRESHOLD), fresh.push_decision(prob >= THRESHOLD));
    }
}

#[test]
fn finish_without_open_segment_returns_none() {
    let mut p = Detector::new(opts());
    drive(&mut p, &[0.0, 0.9]);
    assert_eq!(p.finish_active(), None);
    assert_eq!(p.state(), VadState::PossibleSpeech);
}

#[test]
fn finish_closes_at_the_frame_count() {
    let mut p = Detector::new(opts());
    drive(&mut p, &[0.9; 6]);
    // Opens on frame 2 with start frame 0 (padding reaches frame 0).
    assert_eq!(p.finish_active(), Some(SpeechSegment::new(0, 960)));
    assert_eq!(p.frame_count(), 6);
}

#[test]
fn set_config_keeps_in_flight_state() {
    let mut p = Detector::new(opts());
    drive(&mut p, &[0.9; 4]);
    assert!(p.is_active());
    p.set_config(opts_with_max(Some(Duration::from_millis(30))));
    assert!(p.is_active());
    assert_eq!(p.frame_count(), 4);
    assert_eq!(p.config().max_speech_frames, Some(3));
    assert!(p.has_headroom());
}

#[test]
fn feeding_frames_in_two_batches_matches_one_batch() {
    let frames: Vec<bool> = (0..60).map(|k| (k / 5) % 3 != 0).collect();
    let mut whole = Detector::new(opts_with_max(Some(Duration::from_millis(60))));
    let all: Vec<_> = frames.iter().map(|&f| whole.push_decision(f)).collect();
    for split in [0usize, 1, 17, 59, 60] {
        let mut parts = Detector::new(opts_with_max(Some(Duration::from_millis(60))));
        let mut got: Vec<_> = frames[..split].iter().map(|&f| parts.push_decision(f)).collect();
        got.extend(frames[split..].iter().map(|&f| parts.push_decision(f)));
        assert_eq!(got, all);
        assert_eq!(parts.frame_count(), whole.frame_count());
        assert_eq!(parts.state(), whole.state());
    }
}
