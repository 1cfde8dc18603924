use localization::utility::{
    changed_over, clamped, integer_sqrt, quotient, saturated, wrapped, NewPose, Point, Pose,
    FULL_TURN, UNIT,
};
use rand::rngs::StdRng;
use rand::SeedableRng;

fn point(x: i64, y: i64) -> Point {
    Point { x, y }
}

fn pose(angle: i64, x: i64, y: i64) -> Pose {
    Pose { angle, position: point(x, y) }
}

fn new_pose(angle: i64, x: i64, y: i64, vel_angle: i64, vx: i64, vy: i64) -> NewPose {
    NewPose { angle, position: point(x, y), vel_angle, velocity: point(vx, vy) }
}

#[test]
fn unit_is_a_million_and_full_turn_is_two_pi() {
    assert_eq!(UNIT, 1_000_000);
    assert_eq!(FULL_TURN, (2.0 * std::f64::consts::PI * 1e6).floor() as i64);
}

#[test]
fn point_sum_is_componentwise() {
    let a = point(1_000_000, -2_000_000);
    let b = point(500_000, 250_000);
    assert_eq!(a + b, point(1_500_000, -1_750_000));
}

#[test]
fn point_difference_is_componentwise() {
    let a = point(1_000_000, -2_000_000);
    let b = point(500_000, 250_000);
    assert_eq!(a - b, point(500_000, -2_250_000));
}

#[test]
fn point_sum_stops_at_the_ends_of_the_range() {
    assert_eq!(point(i64::MAX, i64::MIN) + point(1, -1), point(i64::MAX, i64::MIN));
    assert_eq!(point(i64::MIN, i64::MAX) - point(1, -1), point(i64::MIN, i64::MAX));
}

#[test]
fn point_division_rounds_toward_zero() {
    assert_eq!(point(7, -7) / 2, point(3, -3));
    assert_eq!(point(-9, 9) / 3, point(-3, 3));
    assert_eq!(point(i64::MIN, i64::MAX) / 1, point(i64::MIN, i64::MAX));
}

#[test]
fn quotient_rounds_toward_zero_at_the_extremes() {
    assert_eq!(quotient(i128::MIN, 1), i128::MIN);
    assert_eq!(quotient(i128::MIN, 2), i128::MIN / 2);
    assert_eq!(quotient(-1, 2), 0);
    assert_eq!(quotient(-5, 2), -2);
    assert_eq!(quotient(5, 2), 2);
}

#[test]
fn saturated_holds_values_within_i64() {
    assert_eq!(saturated(i64::MAX as i128 + 1), i64::MAX);
    assert_eq!(saturated(i64::MIN as i128 - 1), i64::MIN);
    assert_eq!(saturated(-17), -17);
}

#[test]
fn wrapped_gives_the_canonical_heading() {
    assert_eq!(wrapped(0), 0);
    assert_eq!(wrapped(FULL_TURN as i128), 0);
    assert_eq!(wrapped(FULL_TURN as i128 + 5), 5);
    assert_eq!(wrapped(-1), FULL_TURN - 1);
    assert_eq!(wrapped(-(FULL_TURN as i128)), 0);
    assert_eq!(wrapped(-(FULL_TURN as i128) - 1), FULL_TURN - 1);
    assert_eq!(wrapped(3 * FULL_TURN as i128 + 7), 7);
}

#[test]
fn integer_sqrt_rounds_down() {
    assert_eq!(integer_sqrt(0), 0);
    assert_eq!(integer_sqrt(1), 1);
    assert_eq!(integer_sqrt(3), 1);
    assert_eq!(integer_sqrt(4), 2);
    assert_eq!(integer_sqrt(24), 4);
    assert_eq!(integer_sqrt(25), 5);
    assert_eq!(integer_sqrt(1_000_000_000_000), 1_000_000);
    assert_eq!(integer_sqrt(u128::MAX), u64::MAX);
}

#[test]
fn magnitude_and_distance_are_exact_on_a_3_4_5_triangle() {
    assert_eq!(point(3_000_000, 4_000_000).mag(), 5_000_000);
    assert_eq!(point(-3_000_000, 4_000_000).mag_squared(), 25_000_000_000_000);
    assert_eq!(point(1_000_000, 1_000_000).dist(point(4_000_000, 5_000_000)), 5_000_000);
    assert_eq!(point(1, 1).mag(), 1);
    assert_eq!(point(0, 0).mag(), 0);
}

#[test]
fn magnitude_of_the_farthest_point_fits() {
    assert_eq!(point(i64::MIN, i64::MIN).mag(), 13_043_817_825_332_782_212);
}

#[test]
fn clamped_moves_a_value_into_the_interval() {
    assert_eq!(clamped(5, 0, 10), 5);
    assert_eq!(clamped(-5, 0, 10), 0);
    assert_eq!(clamped(15, 0, 10), 10);
    assert_eq!(clamped(0, 0, 10), 0);
    assert_eq!(clamped(10, 0, 10), 10);
    assert_eq!(clamped(5, 10, 0), 10);
}

#[test]
fn point_clamp_is_componentwise() {
    assert_eq!(point(-1, 11).clamp(point(0, 0), point(10, 10)), point(0, 10));
}

#[test]
fn pose_heading_wraps_at_full_turn() {
    let a = pose(FULL_TURN - 1, 0, 0);
    let b = pose(2, 0, 0);
    assert_eq!((a + b).angle, 1);
}

#[test]
fn pose_difference_wraps_below_zero() {
    let a = pose(1, 5, 5);
    let b = pose(2, 1, 7);
    assert_eq!(a - b, pose(FULL_TURN - 1, 4, -2));
}

#[test]
fn pose_default_is_the_origin() {
    assert_eq!(Pose::default(), pose(0, 0, 0));
    assert_eq!(NewPose::default(), new_pose(0, 0, 0, 0, 0, 0));
}

#[test]
fn pose_plus_pose_minus_pose_round_trips() {
    let a = pose(1_234_567, 5_000_000, -3_250_000);
    let b = pose(6_000_000, -7_500_000, 2_000_001);
    assert_eq!(a + b - b, a);
    let c = pose(3, 1, 2);
    let d = pose(FULL_TURN - 1, i64::MAX - 1, i64::MIN + 2);
    assert_eq!(c + d - d, c);
}

#[test]
fn pose_round_trip_is_lost_where_the_sum_leaves_the_range() {
    let a = pose(0, i64::MAX, 0);
    let b = pose(0, 1, 0);
    assert_eq!((a + b - b).position.x, i64::MAX - 1);
}

#[test]
fn pose_division_divides_every_component() {
    assert_eq!(pose(9, -9, 10) / 2, pose(4, -4, 5));
}

#[test]
fn new_pose_sum_adds_velocities_without_wrapping() {
    let a = new_pose(FULL_TURN - 1, 1, 2, FULL_TURN, 3, 4);
    let b = new_pose(3, 10, 20, FULL_TURN, 30, 40);
    assert_eq!(a + b, new_pose(2, 11, 22, 2 * FULL_TURN, 33, 44));
    assert_eq!(a - b, new_pose(FULL_TURN - 4, -9, -18, 0, -27, -36));
}

#[test]
fn new_pose_plus_pose_is_where_a_mounted_sensor_stands() {
    let robot = new_pose(FULL_TURN - 10, 5_000_000, 5_000_000, 77, 88, 99);
    let mount = pose(1_570_796, 100_000, -100_000);
    assert_eq!(robot + mount, pose(1_570_786, 5_100_000, 4_900_000));
    assert_eq!(robot.pose(), pose(FULL_TURN - 10, 5_000_000, 5_000_000));
}

#[test]
fn new_pose_division_divides_every_component() {
    assert_eq!(new_pose(10, 20, -30, 41, -51, 61) / 10, new_pose(1, 2, -3, 4, -5, 6));
}

#[test]
fn clamp_control_update_stops_the_pose_at_a_wall() {
    let bounds = point(0, 0)..point(200 * UNIT, 200 * UNIT);
    let p = new_pose(1, -5, 201 * UNIT, 2, 300, -400);
    assert_eq!(p.clamp_control_update(bounds), new_pose(1, 0, 200 * UNIT, 2, 0, 0));
}

#[test]
fn clamp_control_update_zeroes_only_the_blocked_axis() {
    let bounds = point(0, 0)..point(10 * UNIT, 10 * UNIT);
    let p = new_pose(7, 11 * UNIT, 5 * UNIT, 8, 300, -400);
    assert_eq!(p.clamp_control_update(bounds), new_pose(7, 10 * UNIT, 5 * UNIT, 8, 0, -400));
}

#[test]
fn clamp_control_update_is_idempotent() {
    let cases = [
        new_pose(1, -5, 201 * UNIT, 2, 300, -400),
        new_pose(1, 5, 5, 2, 300, -400),
        new_pose(1, 0, 200 * UNIT, 2, 300, -400),
        new_pose(1, i64::MIN, i64::MAX, 2, i64::MAX, i64::MIN),
    ];
    for p in cases.iter() {
        let once = p.clamp_control_update(point(0, 0)..point(200 * UNIT, 200 * UNIT));
        let twice = once.clamp_control_update(point(0, 0)..point(200 * UNIT, 200 * UNIT));
        assert_eq!(once, twice);
    }
}

#[test]
fn clamp_control_update_keeps_velocity_exactly_at_the_boundary() {
    let low = new_pose(0, 0, 0, 1, -300, -400);
    assert_eq!(low.clamp_control_update(point(0, 0)..point(10 * UNIT, 10 * UNIT)), low);
    let high = new_pose(0, 10 * UNIT, 10 * UNIT, 1, 300, 400);
    assert_eq!(high.clamp_control_update(point(0, 0)..point(10 * UNIT, 10 * UNIT)), high);
    let just_outside = new_pose(0, 10 * UNIT + 1, -1, 1, 300, 400);
    assert_eq!(
        just_outside.clamp_control_update(point(0, 0)..point(10 * UNIT, 10 * UNIT)),
        new_pose(0, 10 * UNIT, 0, 1, 0, 0)
    );
}

#[test]
fn change_over_time_is_rate_times_time() {
    assert_eq!(changed_over(3 * UNIT, UNIT), 3_000_000);
    assert_eq!(changed_over(3 * UNIT, UNIT / 2), 1_500_000);
    assert_eq!(changed_over(-7, 500_000), -3);
    assert_eq!(changed_over(7, 500_000), 3);
    assert_eq!(changed_over(1, 999_999), 0);
    assert_eq!(changed_over(i64::MIN, i64::MIN), (1i128 << 126) / 1_000_000);
}

#[test]
fn advance_moves_at_the_old_velocity_and_then_changes_it() {
    let p = new_pose(FULL_TURN - 100_000, UNIT, 2 * UNIT, 400_000, 3 * UNIT, -UNIT);
    let acceleration = pose(-200_000, UNIT, 4 * UNIT);
    assert_eq!(
        p.advance(UNIT / 2, acceleration),
        new_pose(100_000, 2_500_000, 1_500_000, 300_000, 3_500_000, UNIT)
    );
}

#[test]
fn advance_over_no_time_changes_nothing_but_a_heading_out_of_range() {
    let p = new_pose(17, 1, 2, 3, 4, 5);
    assert_eq!(p.advance(0, pose(9, 9, 9)), p);
    let turned = new_pose(FULL_TURN + 17, 1, 2, 3, 4, 5);
    assert_eq!(turned.advance(0, pose(9, 9, 9)), p);
}

#[test]
fn advance_without_velocity_or_acceleration_stays() {
    let p = new_pose(17, -1, 2, 0, 0, 0);
    assert_eq!(p.advance(UNIT, Pose::default()), p);
}

#[test]
fn advance_stops_at_the_ends_of_the_range() {
    let p = new_pose(0, i64::MAX - 1, i64::MIN + 1, i64::MAX, i64::MAX, i64::MIN);
    let q = p.advance(2 * UNIT, pose(1, 1, -1));
    assert_eq!(q.position, point(i64::MAX, i64::MIN));
    assert_eq!(q.vel_angle, i64::MAX);
    assert_eq!(q.velocity, point(i64::MAX, i64::MIN));
}

#[test]
fn random_pose_lies_in_its_ranges() {
    let mut rng = StdRng::seed_from_u64(42);
    for _ in 0..200 {
        let p = Pose::random(0..FULL_TURN, -5..5, 100..101, &mut rng);
        assert!(0 <= p.angle && p.angle < FULL_TURN);
        assert!(-5 <= p.position.x && p.position.x < 5);
        assert_eq!(p.position.y, 100);
    }
}

#[test]
fn random_pose_takes_the_start_of_an_empty_range() {
    let mut rng = StdRng::seed_from_u64(42);
    let p = NewPose::random(3..3, 9..2, 0..0, -4..-4, 7..7, 1..0, &mut rng);
    assert_eq!(p, new_pose(3, 9, 0, -4, 7, 1));
}

#[test]
fn random_new_pose_varies_and_lies_in_its_ranges() {
    let mut rng = StdRng::seed_from_u64(42);
    let mut seen_low = false;
    let mut seen_high = false;
    for _ in 0..500 {
        let p = NewPose::random(0..10, 0..1, 0..1, 0..1, -3..3, 5..6, &mut rng);
        assert!(0 <= p.angle && p.angle < 10);
        assert_eq!((p.position, p.vel_angle), (point(0, 0), 0));
        assert!(-3 <= p.velocity.x && p.velocity.x < 3);
        assert_eq!(p.velocity.y, 5);
        seen_low = seen_low || p.angle < 5;
        seen_high = seen_high || p.angle >= 5;
    }
    assert!(seen_low && seen_high);
}

#[test]
fn random_from_range_stays_within_the_noise() {
    let mut rng = StdRng::seed_from_u64(42);
    let noise = new_pose(10_000, 20_000, 0, -5, 1, 30_000);
    let mut seen_negative = false;
    let mut seen_positive = false;
    for _ in 0..500 {
        let p = NewPose::random_from_range(noise, &mut rng);
        assert!(-10_000 <= p.angle && p.angle < 10_000);
        assert!(-20_000 <= p.position.x && p.position.x < 20_000);
        assert_eq!(p.position.y, 0);
        assert_eq!(p.vel_angle, 0);
        assert!(-1 <= p.velocity.x && p.velocity.x < 1);
        assert!(-30_000 <= p.velocity.y && p.velocity.y < 30_000);
        seen_negative = seen_negative || p.position.x < 0;
        seen_positive = seen_positive || p.position.x > 0;
    }
    assert!(seen_negative && seen_positive);
}

#[test]
fn same_seed_gives_the_same_poses() {
    let mut a = StdRng::seed_from_u64(42);
    let mut b = StdRng::seed_from_u64(42);
    for _ in 0..20 {
        assert_eq!(
            Pose::random(0..FULL_TURN, 0..UNIT, 0..UNIT, &mut a),
            Pose::random(0..FULL_TURN, 0..UNIT, 0..UNIT, &mut b)
        );
    }
}
