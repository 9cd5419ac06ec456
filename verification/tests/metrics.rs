use reserve_ingest::metrics::{calculate_utilization, ray_to_percent, RATE_SCALE, RAY};

// Percentages are scaled integers: one percent is RATE_SCALE units.

#[test]
fn utilization_of_nothing_is_zero() {
    assert_eq!(calculate_utilization(0, 0), Some(0));
    assert_eq!(calculate_utilization(0, 1_000_000), Some(0));
    // Zero supply short-circuits whatever the borrow total is.
    assert_eq!(calculate_utilization(123, 0), Some(0));
}

#[test]
fn utilization_of_half_is_fifty_percent() {
    assert_eq!(calculate_utilization(50, 100), Some(50 * RATE_SCALE as u128));
}

#[test]
fn utilization_rounds_down() {
    // 1/3 of the supply borrowed: 33.333333% at the stored scale.
    assert_eq!(calculate_utilization(1, 3), Some(33_333_333));
}

#[test]
fn utilization_overflow_is_reported() {
    assert_eq!(calculate_utilization(u128::MAX, 7), None);
}

#[test]
fn ray_conversion() {
    assert_eq!(ray_to_percent(RAY), 100 * RATE_SCALE as u128);
    assert_eq!(ray_to_percent(0), 0);
    // A 5% rate: 0.05 ray.
    assert_eq!(ray_to_percent(RAY / 20), 5 * RATE_SCALE as u128);
}
