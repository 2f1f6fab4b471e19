use core::time::Duration;
use firered_vad::options::duration_to_frames;
use firered_vad::SpeechSegment;

#[test]
fn sample_count_is_end_minus_start() {
    let s = SpeechSegment::new(160, 1600);
    assert_eq!(s.sample_count(), 1440);
}

#[test]
fn timestamps_round_trip_through_sample_rate() {
    let s = SpeechSegment::new(16_000, 32_000);
    assert_eq!(s.start(), Duration::from_secs(1));
    assert_eq!(s.end(), Duration::from_secs(2));
    assert_eq!(s.duration(), Duration::from_secs(1));
}

#[test]
fn range_usize_slices_pcm_directly() {
    let pcm = [0.0f32; 2_000];
    let s = SpeechSegment::new(160, 320);
    let slice = &pcm[s.range_usize()];
    assert_eq!(slice.len(), 160);
}

#[test]
fn empty_segment_has_zero_sample_count() {
    let s = SpeechSegment::new(100, 100);
    assert_eq!(s.sample_count(), 0);
    assert!(s.range().is_empty());
}

#[test]
fn reversed_segment_saturates_to_zero_samples() {
    let s = SpeechSegment::new(500, 100);
    assert_eq!(s.sample_count(), 0);
    assert_eq!(s.duration(), Duration::ZERO);
}

#[test]
fn accessors_return_the_constructed_bounds() {
    let s = SpeechSegment::new(7, 9);
    assert_eq!(s.start_sample(), 7);
    assert_eq!(s.end_sample(), 9);
    assert_eq!(s.range(), 7..9);
    assert_eq!(s.range_usize(), 7usize..9usize);
}

#[test]
fn single_sample_lasts_sixty_two_and_a_half_microseconds() {
    let s = SpeechSegment::new(1, 16_001);
    assert_eq!(s.start(), Duration::from_nanos(62_500));
    assert_eq!(s.end(), Duration::new(1, 62_500));
    assert_eq!(s.duration(), Duration::from_secs(1));
}

#[test]
fn sub_second_offsets_are_exact() {
    // 0.5 s plus 10 ms.
    let s = SpeechSegment::new(8_160, 40_080);
    assert_eq!(s.start(), Duration::from_millis(510));
    assert_eq!(s.end(), Duration::from_millis(2_505));
    assert_eq!(s.duration(), Duration::from_millis(1_995));
}

#[test]
fn range_usize_saturates_bounds_that_do_not_fit() {
    let fit = |v: u64| usize::try_from(v).unwrap_or(usize::MAX);
    let s = SpeechSegment::new(u32::MAX as u64 + 5, u32::MAX as u64 + 10);
    let r = s.range_usize();
    assert_eq!(r.start, fit(u32::MAX as u64 + 5));
    assert_eq!(r.end, fit(u32::MAX as u64 + 10));
    let s = SpeechSegment::new(u64::MAX - 1, u64::MAX);
    let r = s.range_usize();
    assert_eq!(r.start, fit(u64::MAX - 1));
    assert_eq!(r.end, usize::MAX);
}

#[test]
fn sample_rate_is_sixteen_kilohertz() {
    assert_eq!(SpeechSegment::SAMPLE_RATE_HZ, 16_000);
    let s = SpeechSegment::new(0, SpeechSegment::SAMPLE_RATE_HZ as u64);
    assert_eq!(s.duration(), Duration::from_secs(1));
}

#[test]
fn segment_times_convert_back_to_frames() {
    let s = SpeechSegment::new(4_800, 16_000 + 1_600 + 15);
    assert_eq!(s.start().as_millis(), 300);
    assert_eq!(s.end().as_millis(), (16_000 + 1_600 + 15) / 16);
    assert_eq!(duration_to_frames(s.start()), 30);
    assert_eq!(duration_to_frames(s.end()), (16_000 + 1_600 + 15) / 160);
    assert_eq!(s.duration().as_millis(), (16_000 + 1_600 + 15 - 4_800) / 16);
}
