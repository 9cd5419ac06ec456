use reserve_ingest::throttle::RateLimiter;

#[test]
fn grants_up_to_the_limit_per_window() {
    let mut t = RateLimiter::new(3, 1000, 0);
    assert!(t.try_acquire(10));
    assert!(t.try_acquire(20));
    assert!(t.try_acquire(30));
    // The window is exhausted.
    assert!(!t.try_acquire(40));
    assert!(!t.try_acquire(999));
    // The next window opens fresh.
    assert!(t.try_acquire(1000));
    assert!(t.try_acquire(1001));
}

#[test]
fn a_zero_limit_grants_nothing() {
    let mut t = RateLimiter::new(0, 1000, 0);
    assert!(!t.try_acquire(0));
    assert!(!t.try_acquire(5000));
}

#[test]
fn a_clock_step_backwards_opens_a_new_window() {
    let mut t = RateLimiter::new(1, 1000, 5000);
    assert!(t.try_acquire(5000));
    assert!(!t.try_acquire(5001));
    assert!(t.try_acquire(100));
}
