use moderation::duration::{clamp_days, days_to_seconds, from_absolute, to_absolute};

#[test]
fn round_trip_is_exact_at_one_instant() {
    let now = 1_700_000_000;
    for d in [0u64, 1, 59, 3600, 86400, 2_419_200] {
        assert_eq!(from_absolute(now, to_absolute(now, d)), d);
    }
}

#[test]
fn round_trip_tolerates_clock_skew() {
    let now = 1_700_000_000;
    let expiry = to_absolute(now, 3600);
    let read_back = from_absolute(now + 2, expiry);
    assert!(read_back >= 3598 && read_back <= 3600);
}

#[test]
fn expired_instant_reads_back_as_zero() {
    assert_eq!(from_absolute(1000, 999), 0);
}

#[test]
fn days_above_maximum_are_clamped() {
    assert_eq!(clamp_days(29), 28);
    assert_eq!(clamp_days(365), 28);
    assert_eq!(days_to_seconds(30), 28 * 86400);
}

#[test]
fn days_at_or_below_maximum_are_unchanged() {
    assert_eq!(clamp_days(28), 28);
    assert_eq!(clamp_days(1), 1);
    assert_eq!(clamp_days(0), 0);
    assert_eq!(days_to_seconds(2), 172800);
    assert_eq!(days_to_seconds(28), 2_419_200);
}
