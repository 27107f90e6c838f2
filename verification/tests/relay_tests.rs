use http_tunnel::relay::{RelayOutcome, RelayPolicy, NO_BANDWIDTH_LIMIT, RATE_WINDOW_MS};

#[test]
fn test_idle_timeout_terminates() {
    let policy = RelayPolicy::new(2000, 0, NO_BANDWIDTH_LIMIT);
    assert_eq!(
        policy.evaluate(5000, 3000, 10, 0),
        Some(RelayOutcome::TimedOut)
    );
    assert_eq!(
        policy.evaluate(5001, 3000, 10, 0),
        Some(RelayOutcome::TimedOut)
    );
}

#[test]
fn test_idle_within_deadline_continues() {
    let policy = RelayPolicy::new(2000, 0, NO_BANDWIDTH_LIMIT);
    assert_eq!(policy.evaluate(4999, 3000, 10, 0), None);
}

#[test]
fn test_min_rate_violation_after_full_window() {
    // 60_000 bytes per minute = 1000 bytes per second sustained.
    let policy = RelayPolicy::new(u64::MAX, 60_000, NO_BANDWIDTH_LIMIT);
    // Full window elapsed, average below the floor: violation.
    assert_eq!(
        policy.evaluate(RATE_WINDOW_MS, RATE_WINDOW_MS, 59_999, 0),
        Some(RelayOutcome::RateViolation)
    );
    // Exactly at the floor: no violation.
    assert_eq!(policy.evaluate(RATE_WINDOW_MS, RATE_WINDOW_MS, 60_000, 0), None);
}

#[test]
fn test_min_rate_needs_full_window() {
    let policy = RelayPolicy::new(u64::MAX, 60_000, NO_BANDWIDTH_LIMIT);
    // Window not yet elapsed: short-lived connections are never flagged.
    assert_eq!(policy.evaluate(RATE_WINDOW_MS - 1, RATE_WINDOW_MS - 1, 0, 0), None);
    assert!(!policy.is_min_rate_violation(0, RATE_WINDOW_MS - 1));
}

#[test]
fn test_min_rate_zero_floor_disabled() {
    let policy = RelayPolicy::new(u64::MAX, 0, NO_BANDWIDTH_LIMIT);
    assert_eq!(policy.evaluate(10 * RATE_WINDOW_MS, 10 * RATE_WINDOW_MS, 0, 0), None);
}

#[test]
fn test_throttle_delay_exact() {
    // Ceiling of 1000 bytes/sec; 10_000 bytes seen in one second.
    let policy = RelayPolicy::new(1000, 0, 1000);
    // The window needs 10 seconds in all to carry 10_000 bytes at the
    // ceiling; 9 of them remain.
    assert_eq!(policy.throttle_delay_ms(10_000, 1000), 9000);
}

#[test]
fn test_throttle_no_delay_within_ceiling() {
    let policy = RelayPolicy::new(1000, 0, 1000);
    assert_eq!(policy.throttle_delay_ms(1000, 1000), 0);
    assert_eq!(policy.throttle_delay_ms(0, 0), 0);
}

#[test]
fn test_throttle_unlimited_never_delays() {
    let policy = RelayPolicy::new(1000, 0, NO_BANDWIDTH_LIMIT);
    assert_eq!(policy.throttle_delay_ms(NO_BANDWIDTH_LIMIT, 1), 0);
}

#[test]
fn test_throttle_rounds_up() {
    let policy = RelayPolicy::new(1000, 0, 3);
    // 10 bytes at 3 bytes/sec need ceil(10_000 / 3) = 3334 ms in all.
    assert_eq!(policy.throttle_delay_ms(10, 1000), 2334);
}

#[test]
fn test_idle_timed_out_boundary() {
    let policy = RelayPolicy::new(2000, 0, NO_BANDWIDTH_LIMIT);
    assert!(policy.is_idle_timed_out(2000, 0));
    assert!(!policy.is_idle_timed_out(1999, 0));
}
