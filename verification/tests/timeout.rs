use termi::event::read::{poll_wait_millis, PollTimeout, MAX_SAFE_TIMEOUT_MS};

#[test]
fn zero_timeout_never_acquires_budget() {
    let t = PollTimeout::new(Some(0), 12_345);
    assert_eq!(t, PollTimeout::Immediate);
    assert_eq!(t.leftover(12_345), Some(0));
    assert_eq!(t.leftover(u64::MAX), Some(0));
    // And a zero leftover is handed to the readiness wait unchanged: a
    // non-blocking probe, not a rounded-up one-millisecond wait.
    assert_eq!(poll_wait_millis(Some(0)), 0);
}

#[test]
fn leftover_counts_down_and_bottoms_out() {
    let t = PollTimeout::new(Some(2_000_000_000), 1_000);
    assert_eq!(t.leftover(1_000), Some(2_000_000_000));
    assert_eq!(t.leftover(500_001_000), Some(1_500_000_000));
    assert_eq!(t.leftover(2_000_000_999), Some(1));
    assert_eq!(t.leftover(2_000_001_000), Some(0));
    assert_eq!(t.leftover(u64::MAX), Some(0));
}

#[test]
fn unbounded_timeout_has_no_leftover() {
    let t = PollTimeout::new(None, 77);
    assert_eq!(t, PollTimeout::Unbounded);
    assert_eq!(t.leftover(0), None);
    assert_eq!(t.leftover(u64::MAX), None);
    assert_eq!(poll_wait_millis(None), -1);
}

#[test]
fn sub_millisecond_leftovers_round_up() {
    assert_eq!(poll_wait_millis(Some(1)), 1);
    assert_eq!(poll_wait_millis(Some(999_999)), 1);
    assert_eq!(poll_wait_millis(Some(1_000_000)), 1);
    assert_eq!(poll_wait_millis(Some(1_000_001)), 2);
    assert_eq!(poll_wait_millis(Some(1_999_999_999)), 2_000);
}

#[test]
fn oversized_waits_are_clamped() {
    assert_eq!(MAX_SAFE_TIMEOUT_MS, i32::MAX);
    assert_eq!(poll_wait_millis(Some(u64::MAX)), MAX_SAFE_TIMEOUT_MS);
    assert_eq!(poll_wait_millis(Some(u64::MAX - 999_999)), MAX_SAFE_TIMEOUT_MS);
}
