use omen_fan::poll::{calculate_poll_interval, LONG_INTERVAL_MS, MEDIUM_INTERVAL_MS, SHORT_INTERVAL_MS};

#[test]
fn three_bands() {
    assert_eq!(calculate_poll_interval(50, 50), 5000);
    assert_eq!(calculate_poll_interval(50, 53), 1000);
    assert_eq!(calculate_poll_interval(50, 56), 500);
}

#[test]
fn band_edges_and_direction() {
    assert_eq!(calculate_poll_interval(50, 52), LONG_INTERVAL_MS);
    assert_eq!(calculate_poll_interval(50, 55), MEDIUM_INTERVAL_MS);
    assert_eq!(calculate_poll_interval(56, 50), SHORT_INTERVAL_MS);
    assert_eq!(calculate_poll_interval(47, 50), MEDIUM_INTERVAL_MS);
    assert_eq!(calculate_poll_interval(0, 255), SHORT_INTERVAL_MS);
    assert_eq!(calculate_poll_interval(200, 10), SHORT_INTERVAL_MS);
}

#[test]
fn interval_never_grows_with_delta() {
    let mut last = u64::MAX;
    for delta in 0..=100u8 {
        let i = calculate_poll_interval(100, 100 + delta);
        assert!(i <= last);
        last = i;
    }
}
