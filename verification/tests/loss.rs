use smart_servo::loss::LossTracker;
use smart_servo::SmartServoError;

#[test]
fn default_does_not_error_on_consecutive_misses() {
    let mut tracker = LossTracker::default();
    for _ in 0..100 {
        assert!(tracker.record_miss(1).is_ok());
    }
    assert_eq!(tracker.miss_count(1), 100);
}

#[test]
fn explicit_threshold_errors_at_limit() {
    let mut tracker = LossTracker::new(2);
    assert!(tracker.record_miss(1).is_ok());
    let err = tracker.record_miss(1).unwrap_err();
    assert!(matches!(
        err,
        SmartServoError::ConsecutiveLoss { id: 1, count: 2 }
    ));
}

#[test]
fn reply_resets_count_and_keeps_others() {
    let mut tracker = LossTracker::new(3);
    assert!(tracker.record_miss(4).is_ok());
    assert!(tracker.record_miss(4).is_ok());
    assert!(tracker.record_miss(5).is_ok());
    tracker.record_ok(4);
    assert_eq!(tracker.miss_count(4), 0);
    assert_eq!(tracker.miss_count(5), 1);
    assert!(tracker.record_miss(4).is_ok());
    assert!(tracker.record_miss(4).is_ok());
    assert!(matches!(
        tracker.record_miss(4),
        Err(SmartServoError::ConsecutiveLoss { id: 4, count: 3 })
    ));
    // The count keeps growing past the threshold and keeps failing.
    assert!(matches!(
        tracker.record_miss(4),
        Err(SmartServoError::ConsecutiveLoss { id: 4, count: 4 })
    ));
}

#[test]
fn unknown_servo_has_no_misses() {
    let tracker = LossTracker::new(1);
    assert_eq!(tracker.miss_count(200), 0);
}

#[test]
fn duplicate_keeps_counts_and_threshold() {
    let mut tracker = LossTracker::new(3);
    tracker.record_miss(7).unwrap();
    tracker.record_miss(7).unwrap();
    let mut copy = tracker.duplicate();
    assert_eq!(copy.miss_count(7), 2);
    assert!(matches!(
        copy.record_miss(7),
        Err(SmartServoError::ConsecutiveLoss { id: 7, count: 3 })
    ));
    assert_eq!(tracker.miss_count(7), 2);
}

#[test]
fn threshold_one_fails_on_first_miss() {
    let mut tracker = LossTracker::new(1);
    assert!(matches!(
        tracker.record_miss(0),
        Err(SmartServoError::ConsecutiveLoss { id: 0, count: 1 })
    ));
}
