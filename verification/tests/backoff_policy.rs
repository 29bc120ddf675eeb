use oncall_roster::backoff::{Backoff, DEFAULT_CEILING_MS, DEFAULT_FLOOR_MS};

#[test]
fn waits_grow_from_floor_by_factor() {
    let mut b = Backoff::new(200, 60000, 2);
    assert_eq!(b.wait_after_failure(), 200);
    assert_eq!(b.wait_after_failure(), 400);
    assert_eq!(b.wait_after_failure(), 800);
    assert_eq!(b.wait_after_failure(), 1600);
}

#[test]
fn waits_are_non_decreasing_and_capped() {
    let mut b = Backoff::new_default();
    let mut prev = 0u64;
    for _ in 0..32 {
        let d = b.wait_after_failure();
        assert!(d >= prev);
        assert!(d <= DEFAULT_CEILING_MS);
        prev = d;
    }
    assert_eq!(prev, DEFAULT_CEILING_MS);
}

#[test]
fn success_resets_the_wait_to_the_floor() {
    let mut b = Backoff::new_default();
    b.wait_after_failure();
    b.wait_after_failure();
    b.wait_after_failure();
    b.reset_after_success();
    assert_eq!(b.wait_after_failure(), DEFAULT_FLOOR_MS);
}

#[test]
fn ceiling_is_reached_and_held() {
    let mut b = Backoff::new(100, 150, 2);
    assert_eq!(b.wait_after_failure(), 100);
    assert_eq!(b.wait_after_failure(), 150);
    assert_eq!(b.wait_after_failure(), 150);
}
