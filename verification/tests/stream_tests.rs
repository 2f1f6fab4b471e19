use core::time::Duration;
use firered_vad::options::FrameConfig;
use firered_vad::stream::SegmentStream;
use firered_vad::SpeechSegment;

fn opts(max_speech: Option<Duration>) -> FrameConfig {
    FrameConfig::from_durations(
        1,
        Duration::from_millis(10),
        Duration::from_millis(30),
        Duration::from_millis(30),
        max_speech,
    )
}

#[test]
fn finish_marks_finished_and_flushes_no_segment_when_idle() {
    let mut s = SegmentStream::new(opts(None));
    assert!(s.finish().is_none());
    assert!(s.is_finished());
    assert!(s.next_segment().is_none());
}

#[test]
fn segments_queue_in_order_and_drain_one_by_one() {
    let mut s = SegmentStream::new(opts(Some(Duration::from_millis(50))));
    for _ in 0..12 {
        s.push_decision(true);
    }
    // Two force-splits happened (frames 4 and 9); nothing handed out yet.
    assert_eq!(s.pending_segments(), 2);
    assert_eq!(s.next_segment(), Some(SpeechSegment::new(0, 640)));
    assert_eq!(s.next_segment(), Some(SpeechSegment::new(800, 1_440)));
    assert_eq!(s.next_segment(), None);
}

#[test]
fn finish_appends_the_trailing_segment_behind_queued_ones() {
    let mut s = SegmentStream::new(opts(Some(Duration::from_millis(50))));
    for _ in 0..7 {
        s.push_decision(true);
    }
    assert_eq!(s.pending_segments(), 1);
    assert!(s.is_active());
    // The queued segment comes first; the trailing one stays queued.
    assert_eq!(s.finish(), Some(SpeechSegment::new(0, 640)));
    assert_eq!(s.pending_segments(), 1);
    assert_eq!(s.next_segment(), Some(SpeechSegment::new(800, 1_120)));
    assert!(!s.is_active());
}

#[test]
fn reset_returns_engine_to_freshly_constructed_state() {
    let mut s = SegmentStream::new(opts(Some(Duration::from_millis(50))));
    for _ in 0..12 {
        s.push_decision(true);
    }
    s.finish();
    s.reset();
    assert_eq!(s.frame_count(), 0);
    assert_eq!(s.pending_segments(), 0);
    assert!(!s.is_active());
    assert!(!s.is_finished());
    assert_eq!(*s.config(), opts(Some(Duration::from_millis(50))));
}

#[test]
fn set_config_takes_effect_on_later_frames() {
    let mut s = SegmentStream::new(opts(None));
    for _ in 0..6 {
        s.push_decision(true);
    }
    assert_eq!(s.pending_segments(), 0);
    s.set_config(opts(Some(Duration::from_millis(30))));
    s.push_decision(true);
    assert_eq!(s.pending_segments(), 1);
    assert!(s.has_headroom());
}

#[test]
fn queued_segments_end_within_the_consumed_frames() {
    let mut s = SegmentStream::new(opts(Some(Duration::from_millis(70))));
    let pattern = [true, true, true, true, false, false, false, false, true, true];
    for k in 0..200usize {
        s.push_decision(pattern[k % pattern.len()] || k % 17 == 0);
    }
    let frames = s.frame_count();
    let mut segments = Vec::new();
    while let Some(seg) = s.next_segment() {
        segments.push(seg);
    }
    assert!(!segments.is_empty());
    for seg in &segments {
        assert!(seg.start_sample() <= seg.end_sample());
        assert!(seg.end_sample() <= frames * 160);
    }
    for w in segments.windows(2) {
        assert!(w[0].end_sample() <= w[1].start_sample());
    }
}

#[test]
fn closed_segments_are_non_empty_when_splits_need_two_frames() {
    let mut s = SegmentStream::new(FrameConfig::from_durations(
        1,
        Duration::ZERO,
        Duration::from_millis(10),
        Duration::from_millis(10),
        Some(Duration::from_millis(20)),
    ));
    for k in 0..300usize {
        s.push_decision(k % 11 != 0 && k % 13 != 5);
    }
    s.finish();
    let mut count = 0;
    while let Some(seg) = s.next_segment() {
        assert!(seg.start_sample() < seg.end_sample());
        assert_eq!(seg.start_sample() % 160, 0);
        assert_eq!(seg.end_sample() % 160, 0);
        count += 1;
    }
    assert!(count > 10);
}
