use localization::models::{
    detection_error, is_before, mean_range_error, predicted_reading, range_error,
    sort_by_magnitude, MISSING_PENALTY,
};
use localization::utility::Point;

fn point(x: i64, y: i64) -> Point {
    Point { x, y }
}

#[test]
fn missing_penalty_is_six_units() {
    assert_eq!(MISSING_PENALTY, 6_000_000);
}

#[test]
fn predicted_reading_is_the_distance_to_the_hit() {
    let hit = Some(point(3_000_000, 4_000_000));
    assert_eq!(predicted_reading(hit, point(0, 0), None), Some(5_000_000));
    assert_eq!(predicted_reading(hit, point(0, 0), Some(5_000_000)), Some(5_000_000));
    assert_eq!(predicted_reading(hit, point(0, 0), Some(4_999_999)), None);
    assert_eq!(predicted_reading(hit, point(0, 0), Some(-1)), None);
    assert_eq!(predicted_reading(None, point(0, 0), Some(9_000_000)), None);
    assert_eq!(predicted_reading(None, point(0, 0), None), None);
}

#[test]
fn range_error_follows_the_four_cases() {
    assert_eq!(range_error(Some(5_000_000), Some(4_250_000), MISSING_PENALTY), 750_000);
    assert_eq!(range_error(Some(4_250_000), Some(5_000_000), MISSING_PENALTY), 750_000);
    assert_eq!(range_error(Some(5_000_000), None, MISSING_PENALTY), 6_000_000);
    assert_eq!(range_error(None, Some(5_000_000), MISSING_PENALTY), 6_000_000);
    assert_eq!(range_error(None, None, MISSING_PENALTY), 0);
    assert_eq!(range_error(Some(5_000_000), None, 5_000_000), 5_000_000);
}

#[test]
fn range_error_is_capped_at_the_largest_value() {
    assert_eq!(range_error(Some(-1), Some(u64::MAX), 1), u64::MAX);
    assert_eq!(range_error(Some(i64::MIN), Some(0), 1), 1 << 63);
    assert_eq!(range_error(Some(0), Some(u64::MAX), 1), u64::MAX);
}

#[test]
fn mean_range_error_is_the_mean_over_the_sensors() {
    let readings = vec![
        (Some(5_000_000), Some(4_000_000)),
        (Some(5_000_000), None),
        (None, Some(1)),
        (None, None),
    ];
    // (1 + 6 + 6 + 0) / 4 units
    assert_eq!(mean_range_error(&readings, MISSING_PENALTY), 3_250_000);
    assert_eq!(mean_range_error(&readings, 5_000_000), 2_750_000);
}

#[test]
fn mean_range_error_rounds_down() {
    let readings = vec![(Some(10), Some(9)), (Some(10), Some(9)), (Some(10), Some(10))];
    assert_eq!(mean_range_error(&readings, MISSING_PENALTY), 0);
    let readings = vec![(Some(10), Some(8)), (Some(10), Some(8)), (Some(10), Some(10))];
    assert_eq!(mean_range_error(&readings, MISSING_PENALTY), 1);
}

#[test]
fn mean_range_error_without_sensors_is_zero() {
    assert_eq!(mean_range_error(&Vec::new(), MISSING_PENALTY), 0);
}

#[test]
fn mean_range_error_of_exact_readings_is_zero() {
    let readings = vec![(Some(5_000_000), Some(5_000_000)); 4];
    assert_eq!(mean_range_error(&readings, MISSING_PENALTY), 0);
}

#[test]
fn mean_range_error_of_the_largest_errors_fits() {
    let readings = vec![(Some(-1), Some(u64::MAX)); 3];
    assert_eq!(mean_range_error(&readings, MISSING_PENALTY), u64::MAX);
}

#[test]
fn points_are_ordered_by_distance_then_by_coordinates() {
    assert!(is_before(point(1, 0), point(0, 2)));
    assert!(!is_before(point(0, 2), point(1, 0)));
    assert!(is_before(point(-1, 0), point(1, 0)));
    assert!(!is_before(point(1, 0), point(-1, 0)));
    assert!(is_before(point(0, -1), point(0, 1)));
    assert!(is_before(point(3, 4), point(3, 4)));
}

#[test]
fn sort_by_magnitude_puts_the_nearest_first() {
    let points = vec![point(8, 8), point(0, 2), point(-3, 0), point(1, 0), point(0, -2)];
    assert_eq!(
        sort_by_magnitude(&points),
        vec![point(1, 0), point(0, -2), point(0, 2), point(-3, 0), point(8, 8)]
    );
}

#[test]
fn sort_by_magnitude_keeps_every_point() {
    let points = vec![point(5, 5), point(5, 5), point(0, 0), point(5, 5)];
    assert_eq!(
        sort_by_magnitude(&points),
        vec![point(0, 0), point(5, 5), point(5, 5), point(5, 5)]
    );
    assert_eq!(sort_by_magnitude(&Vec::new()), Vec::new());
}

#[test]
fn detection_error_of_matching_lists_is_zero() {
    let seen = vec![point(-3_000_000, -3_000_000), point(3_000_000, 3_000_000)];
    assert_eq!(detection_error(&seen, &seen, MISSING_PENALTY), 0);
}

#[test]
fn detection_error_adds_the_distances_of_the_pairs() {
    let sensed = vec![point(1_000_000, 0), point(0, 5_000_000)];
    let expected = vec![point(1_000_000, 500_000), point(3_000_000, 1_000_000)];
    // 0.5 + 5 units
    assert_eq!(detection_error(&sensed, &expected, MISSING_PENALTY), 5_500_000);
}

#[test]
fn detection_error_charges_each_landmark_without_a_partner() {
    let sensed = vec![point(1_000_000, 0)];
    let expected = vec![point(1_000_000, 0), point(2_000_000, 0), point(3_000_000, 0)];
    assert_eq!(detection_error(&sensed, &expected, MISSING_PENALTY), 12_000_000);
    assert_eq!(detection_error(&expected, &sensed, MISSING_PENALTY), 12_000_000);
    assert_eq!(detection_error(&Vec::new(), &expected, MISSING_PENALTY), 18_000_000);
    assert_eq!(detection_error(&Vec::new(), &Vec::new(), MISSING_PENALTY), 0);
}

#[test]
fn detection_error_is_capped_at_the_largest_value() {
    let sensed = vec![point(i64::MIN, i64::MIN), point(i64::MIN, i64::MIN)];
    let expected = vec![point(i64::MAX, i64::MAX), point(i64::MAX, i64::MAX)];
    assert_eq!(detection_error(&sensed, &expected, MISSING_PENALTY), u64::MAX);
    let many = vec![point(0, 0); 4];
    assert_eq!(detection_error(&many, &Vec::new(), u64::MAX), u64::MAX);
}
