use zenaudio::display::{format_seconds, format_time, progress_text, progress_view};
use zenaudio::engine::AudioEngine;
use zenaudio::status::PlayerState;

#[test]
fn format_time_gives_minutes_and_seconds_in_two_digits() {
    assert_eq!(format_time(0), "00:00");
    assert_eq!(format_time(999), "00:00");
    assert_eq!(format_time(1_000), "00:01");
    assert_eq!(format_time(65_000), "01:05");
    assert_eq!(format_time(599_999), "09:59");
    assert_eq!(format_time(600_000), "10:00");
    assert_eq!(format_time(3_599_999), "59:59");
    assert_eq!(format_time(3_600_000), "60:00");
    assert_eq!(format_time(36_610_000), "610:10");
    assert_eq!(format_time(u64::MAX), "307445734561825:51");
}

#[test]
fn format_time_agrees_with_the_standard_formatter() {
    let mut ms: u64 = 1;
    while ms < u64::MAX / 7 {
        let secs = ms / 1000;
        assert_eq!(format_time(ms), format!("{:02}:{:02}", secs / 60, secs % 60));
        ms = ms * 7 + 3;
    }
}

#[test]
fn format_seconds_counts_whole_seconds() {
    assert_eq!(format_seconds(0), "0:00");
    assert_eq!(format_seconds(59), "0:59");
    assert_eq!(format_seconds(36_610), "610:10");
    assert_eq!(format_seconds(u64::MAX), "307445734561825860:15");
    assert_eq!(format_seconds(245), "4:05");
}

#[test]
fn times_in_the_same_second_look_alike_and_others_do_not() {
    assert_eq!(format_time(61_000), format_time(61_999));
    assert_ne!(format_time(61_999), format_time(62_000));
    assert_ne!(format_time(61_000), format_time(601_000));
}

#[test]
fn progress_text_joins_both_times() {
    assert_eq!(progress_text(61_000, 245_500), "01:01 / 04:05");
    assert_eq!(progress_text(0, 0), "00:00 / 00:00");
}

#[test]
fn progress_view_shows_the_status() {
    let mut setup = AudioEngine::new(48_000, 2);
    let view = progress_view(&setup.engine);
    assert_eq!(view.text, "00:00 / 00:00");
    assert!(!view.is_playing);
    assert!(!view.has_file);

    setup.engine.status.position_ms = 90_000;
    setup.engine.status.duration_ms = 180_000;
    setup.engine.status.state = PlayerState::Playing;
    setup.engine.status.has_file = true;
    let view = progress_view(&setup.engine);
    assert_eq!(view.position_ms, 90_000);
    assert_eq!(view.duration_ms, 180_000);
    assert_eq!(view.text, "01:30 / 03:00");
    assert!(view.is_playing);
    assert!(view.has_file);
}
