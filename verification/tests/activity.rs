use sentinel::activity::{
    assess, get_user_idle_ms, is_foreground_process_streaming_audio, is_idle,
    is_within_restricted_hours, restriction_profile_active, ActiveTracker, Assessment,
    AudioSession, MAX_NANOS, NANOS_PER_SEC,
};
use sentinel::config::AppConfig;
use std::time::Duration;

fn config(limit_seconds: u64, start_hour: Option<u32>, end_hour: Option<u32>) -> AppConfig {
    AppConfig { whitelist: vec![], limit_seconds, start_hour, end_hour }
}

#[test]
fn idle_time_survives_the_wrap_of_the_tick_count() {
    assert_eq!(get_user_idle_ms(Some((5000, 2000))), Some(3000));
    assert_eq!(get_user_idle_ms(Some((10, u32::MAX - 9))), Some(20));
    assert_eq!(get_user_idle_ms(Some((0, 0))), Some(0));
    assert_eq!(get_user_idle_ms(None), None);
}

#[test]
fn user_is_idle_after_three_minutes_without_input_or_audio() {
    assert!(!is_idle(Some(179_999), false));
    assert!(is_idle(Some(180_000), false));
    assert!(!is_idle(Some(180_000), true));
    assert!(!is_idle(Some(u32::MAX), true));
    assert!(!is_idle(None, false));
}

#[test]
fn audio_counts_only_from_the_foreground_process() {
    let session = |process_id, audible| AudioSession { process_id, audible };
    let sessions = [
        session(None, None),
        session(Some(7), Some(false)),
        session(Some(8), Some(true)),
        session(Some(9), None),
        session(Some(7), Some(true)),
    ];
    assert!(is_foreground_process_streaming_audio(7, Some(&sessions)));
    assert!(!is_foreground_process_streaming_audio(7, Some(&sessions[..4])));
    assert!(!is_foreground_process_streaming_audio(9, Some(&sessions)));
    assert!(!is_foreground_process_streaming_audio(7, None));
    let nobody = [session(Some(0), Some(true))];
    assert!(!is_foreground_process_streaming_audio(0, Some(&nobody)));
}

#[test]
fn restricted_hours_may_go_past_midnight() {
    assert!(is_within_restricted_hours(22, 6, 22));
    assert!(is_within_restricted_hours(22, 6, 0));
    assert!(is_within_restricted_hours(22, 6, 5));
    assert!(!is_within_restricted_hours(22, 6, 6));
    assert!(!is_within_restricted_hours(22, 6, 21));
    assert!(is_within_restricted_hours(9, 17, 9));
    assert!(!is_within_restricted_hours(9, 17, 17));
    assert!(!is_within_restricted_hours(9, 17, 8));
}

#[test]
fn swapped_hours_make_up_the_day() {
    for start in 0..24 {
        for end in 0..24 {
            for hour in 0..24 {
                let here = is_within_restricted_hours(start, end, hour);
                let there = is_within_restricted_hours(end, start, hour);
                if start == end {
                    assert!(!here);
                } else {
                    assert_ne!(here, there);
                }
            }
        }
    }
}

#[test]
fn only_active_time_counts() {
    let mut tracker = ActiveTracker::new(100);
    assert_eq!(tracker, ActiveTracker { last_check: 100, total_active_duration: 0 });
    assert_eq!(tracker.tick(150, false), 50);
    assert_eq!(tracker.tick(250, true), 100);
    assert_eq!(tracker.total_active_duration, 50);
    assert_eq!(tracker.tick(260, false), 10);
    assert_eq!(tracker, ActiveTracker { last_check: 260, total_active_duration: 60 });
}

#[test]
fn a_clock_that_goes_back_counts_nothing() {
    let mut tracker = ActiveTracker::new(100);
    assert_eq!(tracker.tick(40, false), 0);
    assert_eq!(tracker, ActiveTracker { last_check: 40, total_active_duration: 0 });
    assert_eq!(tracker.tick(45, false), 5);
}

#[test]
fn limit_is_reached_exactly() {
    let mut tracker = ActiveTracker::new(0);
    tracker.tick(10 * NANOS_PER_SEC - 1, false);
    assert!(!tracker.limit_exceeded(10));
    tracker.tick(10 * NANOS_PER_SEC, false);
    assert!(tracker.limit_exceeded(10));
    assert!(!tracker.limit_exceeded(11));
    assert!(ActiveTracker::new(5).limit_exceeded(0));
    assert!(!tracker.limit_exceeded(u64::MAX));
}

#[test]
fn longest_time_is_that_of_the_standard_library() {
    assert_eq!(MAX_NANOS, Duration::MAX.as_nanos());
    assert_eq!(NANOS_PER_SEC, Duration::from_secs(1).as_nanos());
}

#[test]
fn restrictions_follow_the_limit_and_the_hours() {
    let fresh = ActiveTracker::new(0);
    let mut spent = ActiveTracker::new(0);
    spent.tick(20 * NANOS_PER_SEC, false);
    assert!(!restriction_profile_active(&fresh, &config(10, None, None), 23));
    assert!(restriction_profile_active(&spent, &config(10, None, None), 12));
    assert!(restriction_profile_active(&fresh, &config(10, Some(22), Some(6)), 23));
    assert!(!restriction_profile_active(&fresh, &config(10, Some(22), Some(6)), 12));
    assert!(!restriction_profile_active(&fresh, &config(10, Some(22), None), 23));
    assert!(!restriction_profile_active(&fresh, &config(10, None, Some(6)), 3));
    assert!(restriction_profile_active(&spent, &config(10, Some(22), Some(6)), 12));
}

#[test]
fn assessment_counts_and_then_decides() {
    let mut tracker = ActiveTracker::new(0);
    let limits = config(10, None, None);
    let now = 10 * NANOS_PER_SEC;
    let first = assess(&mut tracker, now, Some(200_000), false, &limits, 12);
    assert_eq!(first, Assessment { idle: true, elapsed: now, restricted: false });
    let second = assess(&mut tracker, 2 * now, Some(200_000), true, &limits, 12);
    assert_eq!(second, Assessment { idle: false, elapsed: now, restricted: true });
    let third = assess(&mut tracker, 3 * now, Some(200_000), false, &limits, 12);
    assert_eq!(third, Assessment { idle: true, elapsed: now, restricted: true });
    assert_eq!(tracker.total_active_duration, now);
}

#[test]
fn active_time_is_bounded_and_a_reached_limit_stays() {
    let start = 7 * NANOS_PER_SEC;
    let mut mixed = ActiveTracker::new(start);
    let mut busy = ActiveTracker::new(start);
    let mut away = ActiveTracker::new(start);
    let mut reached = false;
    for i in 1..=20u128 {
        let now = start + i * NANOS_PER_SEC;
        mixed.tick(now, i % 3 == 0);
        busy.tick(now, false);
        away.tick(now, true);
        assert!(mixed.total_active_duration <= now - start);
        assert_eq!(busy.total_active_duration, now - start);
        assert_eq!(away.total_active_duration, 0);
        assert!(!reached || mixed.limit_exceeded(5));
        reached = mixed.limit_exceeded(5);
    }
    assert!(reached);
    assert_eq!(mixed.total_active_duration, 14 * NANOS_PER_SEC);
}
