use smart_servo::reliability::{AngleReliability, AngleReliabilityConfig};

/// An angle in degrees as the filter takes it, in tenths of a degree.
fn deci(deg: f64) -> i32 {
    (deg * 10.0).round() as i32
}

/// A time in seconds as the filter takes it, in milliseconds.
fn ms(s: f64) -> u64 {
    (s * 1000.0).round() as u64
}

#[test]
fn startup_out_of_range_returns_zero_unreliable() {
    let mut filter = AngleReliability::default();
    assert_eq!(filter.filter(deci(-23_592_960.0)), (deci(0.0), false));
}

#[test]
fn out_of_range_after_good_holds_last_good() {
    let mut filter = AngleReliability::default();
    assert_eq!(filter.filter(deci(5.0)), (deci(5.0), true));
    assert_eq!(filter.filter(deci(-23_592_960.0)), (deci(5.0), false));
    assert_eq!(filter.filter(deci(-23_592_960.0)), (deci(5.0), false));
    // Once back in range, accepted immediately.
    assert_eq!(filter.filter(deci(5.1)), (deci(5.1), true));
}

#[test]
fn startup_trusts_first_reading_nonzero() {
    let mut filter = AngleReliability::default();
    assert_eq!(filter.filter(deci(-12.6)), (deci(-12.6), true));
}

#[test]
fn startup_zero_needs_confirm() {
    let mut filter = AngleReliability::default();
    let t0 = 100.0;
    assert_eq!(filter.filter_at(deci(-0.1), ms(t0)), (deci(0.0), false));
    assert_eq!(filter.filter_at(deci(-0.1), ms(t0 + 0.7)), (deci(-0.1), true));
}

#[test]
fn startup_exact_zero_needs_confirm() {
    let mut filter = AngleReliability::default();
    let t0 = 100.0;
    assert_eq!(filter.filter_at(deci(0.0), ms(t0)), (deci(0.0), false));
    assert_eq!(filter.filter_at(deci(0.0), ms(t0 + 0.8)), (deci(0.0), true));
}

#[test]
fn any_angle_to_zero_needs_confirm() {
    let mut filter = AngleReliability::default();
    filter.config.zero_confirm_ms = ms(0.65);
    let t0 = 100.0;
    assert_eq!(filter.filter_at(deci(-70.0), ms(t0)), (deci(-70.0), true));
    assert_eq!(filter.filter_at(deci(0.0), ms(t0 + 0.1)), (deci(-70.0), false));
    assert_eq!(filter.filter_at(deci(0.0), ms(t0 + 0.5)), (deci(-70.0), false));
    assert_eq!(filter.filter_at(deci(0.0), ms(t0 + 0.8)), (deci(0.0), true));
}

#[test]
fn small_angle_to_zero_needs_confirm() {
    let mut filter = AngleReliability::default();
    filter.config.zero_confirm_ms = ms(0.65);
    let t0 = 100.0;
    assert_eq!(filter.filter_at(deci(5.0), ms(t0)), (deci(5.0), true));
    assert_eq!(filter.filter_at(deci(0.0), ms(t0 + 0.1)), (deci(5.0), false));
    assert_eq!(filter.filter_at(deci(0.0), ms(t0 + 0.5)), (deci(5.0), false));
    assert_eq!(filter.filter_at(deci(0.0), ms(t0 + 0.8)), (deci(0.0), true));
}

#[test]
fn normal_a_to_b_is_not_delayed() {
    let mut filter = AngleReliability::default();
    assert_eq!(filter.filter(deci(-70.0)), (deci(-70.0), true));
    assert_eq!(filter.filter(deci(-55.0)), (deci(-55.0), true));
    assert_eq!(filter.filter(deci(-20.0)), (deci(-20.0), true));
}

#[test]
fn zero_interrupted_resets_count() {
    let mut filter = AngleReliability::default();
    filter.config.zero_confirm_ms = ms(0.65);
    let t0 = 100.0;
    assert_eq!(filter.filter_at(deci(-70.0), ms(t0)), (deci(-70.0), true));
    assert_eq!(filter.filter_at(deci(0.0), ms(t0 + 0.1)), (deci(-70.0), false));
    assert_eq!(filter.filter_at(deci(0.0), ms(t0 + 0.5)), (deci(-70.0), false));
    assert_eq!(filter.filter_at(deci(-55.0), ms(t0 + 0.55)), (deci(-55.0), true));
    assert_eq!(filter.filter_at(deci(0.0), ms(t0 + 0.6)), (deci(-55.0), false));
    assert_eq!(filter.filter_at(deci(0.0), ms(t0 + 1.1)), (deci(-55.0), false));
    assert_eq!(filter.filter_at(deci(0.0), ms(t0 + 1.3)), (deci(0.0), true));
}

#[test]
fn default_config_values() {
    let c = AngleReliabilityConfig::default();
    assert_eq!(c.zero_eps_decideg, 2);
    assert_eq!(c.zero_confirm_ms, 650);
    assert_eq!(c.valid_range_decideg, 36_864_000);
}

#[test]
fn state_records_raw_and_filtered() {
    let mut filter = AngleReliability::default();
    filter.filter_at(300, 1_000);
    filter.filter_at(1, 1_100);
    assert_eq!(filter.state.last_raw, Some(1));
    assert_eq!(filter.state.last_filtered, Some(300));
    assert_eq!(filter.state.last_good, Some(300));
    assert_eq!(filter.state.zero_candidate_since_ms, Some(1_100));
}

#[test]
fn zero_confirm_boundary_is_inclusive() {
    let mut filter = AngleReliability::default();
    assert_eq!(filter.filter_at(100, 0), (100, true));
    assert_eq!(filter.filter_at(0, 1_000), (100, false));
    assert_eq!(filter.filter_at(0, 1_649), (100, false));
    assert_eq!(filter.filter_at(0, 1_650), (0, true));
}

#[test]
fn range_boundary_is_inclusive() {
    let mut filter = AngleReliability::default();
    assert_eq!(filter.filter_at(36_864_000, 0), (36_864_000, true));
    assert_eq!(filter.filter_at(-36_864_001, 10), (36_864_000, false));
    assert_eq!(filter.filter_at(i32::MIN, 20), (36_864_000, false));
}

#[test]
fn zero_confirmed_immediately_when_duration_is_zero() {
    let mut filter = AngleReliability::default();
    filter.config.zero_confirm_ms = 0;
    assert_eq!(filter.filter_at(2, 5), (2, true));
}

#[test]
fn motion_before_any_zero_acceptance_ends_zero_run() {
    let mut filter = AngleReliability::default();
    assert_eq!(filter.filter_at(0, 0), (0, false));
    assert_eq!(filter.state.zero_candidate_since_ms, Some(0));
    assert_eq!(filter.filter_at(50, 1_000), (50, true));
    assert_eq!(filter.state.zero_candidate_since_ms, None);
    assert_eq!(filter.filter_at(0, 1_650), (50, false));
    assert_eq!(filter.state.zero_candidate_since_ms, Some(1_650));
    assert_eq!(filter.filter_at(0, 2_300), (0, true));
}

#[test]
fn out_of_range_ends_zero_run_before_any_acceptance() {
    let mut filter = AngleReliability::default();
    assert_eq!(filter.filter_at(1, 0), (0, false));
    assert_eq!(filter.filter_at(40_000_000, 100), (0, false));
    assert_eq!(filter.state.zero_candidate_since_ms, None);
    assert_eq!(filter.filter_at(1, 700), (0, false));
    assert_eq!(filter.state.zero_candidate_since_ms, Some(700));
}
