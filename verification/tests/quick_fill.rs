use otp_fill::clock::{Timestamp, MILLISECOND};
use otp_fill::quick_fill::{
    after_kill, cache_code, dismiss_popup, register_popup, triggers_fill, value_confirms_fill,
    Dismissal, DoubleClickDetector, OtpCache, PopupStatus, DOUBLE_CLICK_MAX_DISTANCE, OTP_TTL,
};
use std::time::Duration;

fn start() -> Timestamp {
    Timestamp { nanos: 86_400_000_000_123 }
}

fn later(at: Timestamp, by: Duration) -> Timestamp {
    at.plus(by.as_nanos())
}

fn click(
    detector: &mut DoubleClickDetector<(f64, f64)>,
    click_state: i64,
    x: f64,
    y: f64,
    now: Timestamp,
) -> bool {
    let limit = f64::from(DOUBLE_CLICK_MAX_DISTANCE);
    let near = match detector.previous_position() {
        Some((px, py)) => (x - px) * (x - px) + (y - py) * (y - py) <= limit * limit,
        None => false,
    };
    detector.register_click(click_state, (x, y), near, now)
}

#[test]
fn returns_fresh_code_and_consumes_it_once() {
    let now = start();
    let mut cache = OtpCache::<u32>::default();
    cache.store("123456", now);

    assert_eq!(cache.active_code(now), Some("123456".to_string()));
    assert!(cache.consume_if_matches("123456").is_some());
    assert_eq!(cache.active_code(now), None);
}

#[test]
fn keeps_newer_code_when_consuming_an_older_one() {
    let now = start();
    let mut cache = OtpCache::<u32>::default();
    cache.store("654321", now);

    assert!(cache.consume_if_matches("123456").is_none());
    assert_eq!(cache.active_code(now), Some("654321".to_string()));
}

#[test]
fn expires_code_after_five_minutes() {
    let now = start();
    let mut cache = OtpCache::<u32>::default();
    cache.store("123456", now);

    assert_eq!(
        cache.active_code(now.plus(OTP_TTL + Duration::from_millis(1).as_nanos())),
        None
    );
}

#[test]
fn returns_popup_only_for_matching_code() {
    let now = start();
    let mut cache = OtpCache::<u32>::default();
    cache.store("123456", now);
    assert!(cache.attach_popup("123456", 42, now).is_ok());

    let consumed = cache.consume_if_matches("123456").unwrap();
    assert_eq!(consumed.popup, Some(42));
}

#[test]
fn confirms_only_an_exact_observed_fill() {
    assert!(value_confirms_fill(Some("123456"), "123456"));
    assert!(!value_confirms_fill(None, "123456"));
    assert!(!value_confirms_fill(Some(""), "123456"));
    assert!(!value_confirms_fill(Some("123"), "123456"));
    assert!(!value_confirms_fill(Some("••••••"), "123456"));
    assert!(!value_confirms_fill(Some("654321"), "123456"));
}

#[test]
fn keeps_code_and_popup_when_fill_is_not_confirmed() {
    let now = start();
    let mut cache = OtpCache::<u32>::default();
    cache.store("123456", now);
    assert!(cache.attach_popup("123456", 42, now).is_ok());

    assert!(cache.consume_if_confirmed("123456", Some("123")).is_none());
    assert_eq!(cache.active_code(now), Some("123456".to_string()));

    let consumed = cache
        .consume_if_confirmed("123456", Some("123456"))
        .unwrap();
    assert_eq!(consumed.popup, Some(42));
}

#[test]
fn detects_two_nearby_clicks_when_macos_click_state_stays_one() {
    let now = start();
    let mut detector = DoubleClickDetector::default();

    assert!(!click(&mut detector, 1, 100.0, 100.0, now));
    assert!(click(&mut detector, 1, 103.0, 104.0, later(now, Duration::from_millis(200))));
}

#[test]
fn rejects_clicks_that_are_too_slow_or_too_far_apart() {
    let now = start();
    let mut detector = DoubleClickDetector::default();

    assert!(!click(&mut detector, 1, 100.0, 100.0, now));
    assert!(!click(&mut detector, 1, 100.0, 100.0, later(now, Duration::from_millis(501))));
    assert!(!click(&mut detector, 1, 120.0, 120.0, later(now, Duration::from_millis(600))));
}

#[test]
fn accepts_the_native_macos_double_click_state() {
    let mut detector = DoubleClickDetector::default();

    assert!(click(&mut detector, 2, 100.0, 100.0, start()));
}

#[test]
fn a_third_click_starts_afresh() {
    let now = start();
    let mut detector = DoubleClickDetector::default();

    assert!(!click(&mut detector, 1, 5.0, 5.0, now));
    assert!(click(&mut detector, 1, 5.0, 5.0, now.plus(100 * MILLISECOND)));
    assert!(detector.previous_position().is_none());
    assert!(!click(&mut detector, 1, 5.0, 5.0, now.plus(200 * MILLISECOND)));
    assert_eq!(detector.previous_position(), Some(&(5.0, 5.0)));
    assert!(click(&mut detector, 1, 5.0, 5.0, now.plus(700 * MILLISECOND)));
}

#[test]
fn a_code_is_good_to_the_end_of_its_time() {
    let now = start();
    let mut cache = OtpCache::<u32>::default();
    cache.store("2468", now);

    assert_eq!(cache.active_code(now.plus(OTP_TTL)), Some("2468".to_string()));
    assert_eq!(cache.active_code(now.plus(OTP_TTL + 1)), None);
    assert_eq!(cache.active_code(now), None);
    assert_eq!(OTP_TTL, Duration::from_secs(5 * 60).as_nanos());
}

#[test]
fn a_clock_that_runs_back_does_not_spoil_a_code() {
    let now = start();
    let mut cache = OtpCache::<u32>::default();
    cache.store("2468", now);

    assert_eq!(cache.active_code(Timestamp { nanos: 7 }), Some("2468".to_string()));
}

#[test]
fn hands_back_a_popup_that_belongs_to_no_code() {
    let now = start();
    let mut cache = OtpCache::<u32>::default();
    assert_eq!(cache.attach_popup("1111", 1, now), Err(1));
    cache.store("2222", now);
    assert_eq!(cache.attach_popup("1111", 2, now), Err(2));
    assert_eq!(cache.attach_popup("2222", 3, now.plus(OTP_TTL + 1)), Err(3));
    assert_eq!(cache.attach_popup("2222", 4, now), Ok(()));
    assert_eq!(cache.consume_if_matches("2222").unwrap().popup, Some(4));
}

#[test]
fn a_newer_code_takes_the_place_of_code_and_popup() {
    let now = start();
    let mut cache = OtpCache::<u32>::default();
    cache_code(&mut cache, "1111", now);
    register_popup(&mut cache, "1111", 9, now);
    cache_code(&mut cache, "", now);
    assert_eq!(cache.active_code(now), Some("1111".to_string()));
    cache_code(&mut cache, "2222", now);
    register_popup(&mut cache, "1111", 10, now);
    assert_eq!(cache.consume_if_matches("2222").unwrap().popup, None);
}

#[test]
fn only_a_double_click_with_the_left_button_looks_for_a_code() {
    let now = start();
    let stale = now.plus(OTP_TTL + 1);
    let mut cache = OtpCache::<u32>::default();
    cache.store("1111", now);

    assert!(!triggers_fill(&mut cache, false, true, stale));
    assert!(!triggers_fill(&mut cache, true, false, stale));
    assert!(triggers_fill(&mut cache, true, true, now));
    assert!(!triggers_fill(&mut cache, true, true, stale));
    assert!(!triggers_fill(&mut cache, true, true, now));
}

#[test]
fn ends_only_windows_that_are_open() {
    assert_eq!(dismiss_popup(PopupStatus::Running), Dismissal::Kill);
    assert_eq!(dismiss_popup(PopupStatus::Exited), Dismissal::Done);
    assert_eq!(dismiss_popup(PopupStatus::Unknown), Dismissal::Done);
    assert_eq!(after_kill(true), Dismissal::Wait);
    assert_eq!(after_kill(false), Dismissal::Done);
}
