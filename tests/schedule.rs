use scrim_bot::schedule::millis_until_clear;

#[test]
fn clear_later_today() {
    assert_eq!(millis_until_clear(0, 5), 5 * 3_600_000);
    assert_eq!(millis_until_clear(3_600_000, 5), 4 * 3_600_000);
}

#[test]
fn clear_tomorrow_when_hour_passed() {
    assert_eq!(millis_until_clear(1000, 0), 86_399_000);
    assert_eq!(millis_until_clear(6 * 3_600_000, 5), 23 * 3_600_000);
}

#[test]
fn clear_now_at_exact_time() {
    assert_eq!(millis_until_clear(5 * 3_600_000, 5), 0);
}
