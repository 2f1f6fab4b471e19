use core::time::Duration;
use firered_vad::options::{duration_to_frames, FrameConfig};

#[test]
fn duration_to_frames_truncates_partial_frames() {
    assert_eq!(duration_to_frames(Duration::from_millis(15)), 1);
    assert_eq!(duration_to_frames(Duration::from_millis(20)), 2);
    assert_eq!(duration_to_frames(Duration::ZERO), 0);
}

#[test]
fn duration_to_frames_saturates() {
    assert_eq!(duration_to_frames(Duration::from_secs(u64::MAX)), u32::MAX);
    assert_eq!(duration_to_frames(Duration::from_secs(1)), 100);
}

#[test]
fn pad_start_frames_is_clamped_to_smooth_window_size() {
    let c = FrameConfig::from_durations(
        8,
        Duration::from_millis(30),
        Duration::from_millis(80),
        Duration::from_millis(200),
        None,
    );
    assert_eq!(c.pad_start_frames, 8);
}

#[test]
fn default_durations_convert_to_default_frame_counts() {
    let c = FrameConfig::from_durations(
        5,
        Duration::from_millis(50),
        Duration::from_millis(80),
        Duration::from_millis(200),
        Some(Duration::from_secs(20)),
    );
    assert_eq!(c.smooth_window_size, 5);
    assert_eq!(c.pad_start_frames, 5);
    assert_eq!(c.min_speech_frames, 8);
    assert_eq!(c.min_silence_frames, 20);
    assert_eq!(c.max_speech_frames, Some(2_000));
}

#[test]
fn longer_padding_is_kept() {
    let c = FrameConfig::from_durations(
        2,
        Duration::from_millis(90),
        Duration::ZERO,
        Duration::ZERO,
        None,
    );
    assert_eq!(c.pad_start_frames, 9);
    assert_eq!(c.max_speech_frames, None);
}

#[test]
fn effective_smooth_window_is_at_least_one() {
    let c = FrameConfig::from_durations(0, Duration::ZERO, Duration::ZERO, Duration::ZERO, None);
    assert_eq!(c.effective_smooth_window(), 1);
    let c = FrameConfig::from_durations(6, Duration::ZERO, Duration::ZERO, Duration::ZERO, None);
    assert_eq!(c.effective_smooth_window(), 6);
}
