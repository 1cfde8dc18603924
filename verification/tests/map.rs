use localization::error::LocalizationError;
use localization::geometry::{
    floor_quotient, hit_point, is_in_window, is_nearer, meet, to_frame, Crossing,
};
use localization::map::{
    without_repeated_points, without_repeated_walls, Map2D, MAX_COORDINATE, MAX_RAY_ORIGIN,
};
use localization::utility::{Point, Pose, FULL_TURN, UNIT};

type Heading = fn(i64) -> Point;

fn heading(angle: i64) -> Point {
    let radians = angle as f64 / 1e6;
    Point { x: (radians.cos() * 1e6).round() as i64, y: (radians.sin() * 1e6).round() as i64 }
}

fn point(x: i64, y: i64) -> Point {
    Point { x, y }
}

fn units(x: i64, y: i64) -> Point {
    Point { x: x * UNIT, y: y * UNIT }
}

fn pose(angle: i64, x: i64, y: i64) -> Pose {
    Pose { angle, position: units(x, y) }
}

fn square() -> Map2D<Heading> {
    Map2D::new(
        10 * UNIT,
        10 * UNIT,
        vec![units(0, 0), units(10, 0), units(10, 10), units(0, 10)],
        vec![(0, 1), (1, 2), (2, 3), (3, 0)],
        Vec::new(),
        heading as Heading,
    )
    .unwrap()
}

fn landmarks() -> Map2D<Heading> {
    Map2D::new(
        10 * UNIT,
        10 * UNIT,
        vec![units(2, 2), units(8, 2), units(2, 8), units(8, 8), units(7, 5), units(3, 5)],
        Vec::new(),
        vec![0, 1, 2, 3, 4, 5],
        heading as Heading,
    )
    .unwrap()
}

const QUARTER_TURN: i64 = 1_570_796;
const HALF_TURN: i64 = 3_141_593;
const THREE_QUARTER_TURN: i64 = 4_712_389;

#[test]
fn map_keeps_what_it_was_built_from() {
    let map = square();
    assert_eq!(map.width(), 10 * UNIT);
    assert_eq!(map.height(), 10 * UNIT);
    assert_eq!(map.vertices(), &vec![units(0, 0), units(10, 0), units(10, 10), units(0, 10)]);
    assert_eq!(map.lines(), &vec![(0, 1), (1, 2), (2, 3), (3, 0)]);
    assert_eq!(map.points(), &Vec::<usize>::new());
}

#[test]
fn map_takes_each_wall_and_each_landmark_once() {
    let map = Map2D::new(
        10 * UNIT,
        10 * UNIT,
        vec![units(0, 0), units(10, 0), units(10, 10)],
        vec![(0, 1), (1, 2), (1, 0), (0, 1), (2, 0), (2, 1)],
        vec![2, 0, 2, 2, 1, 0],
        heading as Heading,
    )
    .unwrap();
    assert_eq!(map.lines(), &vec![(0, 1), (1, 2), (2, 0)]);
    assert_eq!(map.points(), &vec![2, 0, 1]);
    assert_eq!(map.cull_points(pose(0, 0, 0), FULL_TURN), vec![units(10, 10), units(0, 0), units(10, 0)]);
}

#[test]
fn repeats_are_dropped_where_they_come_again() {
    assert_eq!(without_repeated_points(&vec![3, 3, 1, 3, 1, 2]), vec![3, 1, 2]);
    assert_eq!(without_repeated_points(&Vec::new()), Vec::<usize>::new());
    assert_eq!(
        without_repeated_walls(&vec![(1, 2), (2, 1), (2, 3), (1, 2), (3, 2), (1, 1), (1, 1)]),
        vec![(1, 2), (2, 3), (1, 1)]
    );
    assert_eq!(without_repeated_walls(&Vec::new()), Vec::<(usize, usize)>::new());
}

#[test]
fn map_refuses_a_wall_to_a_vertex_it_does_not_have() {
    let r = Map2D::new(1, 1, vec![units(0, 0), units(1, 1)], vec![(0, 2)], Vec::new(), heading as Heading);
    assert_eq!(r.err(), Some(LocalizationError::MapIndexOutOfRange));
    let r = Map2D::new(1, 1, vec![units(0, 0), units(1, 1)], vec![(2, 0)], Vec::new(), heading as Heading);
    assert_eq!(r.err(), Some(LocalizationError::MapIndexOutOfRange));
}

#[test]
fn map_refuses_a_wall_from_a_vertex_to_itself() {
    let r = Map2D::new(1, 1, vec![units(0, 0), units(1, 1)], vec![(1, 1)], Vec::new(), heading as Heading);
    assert_eq!(r.err(), Some(LocalizationError::MapIndexOutOfRange));
}

#[test]
fn map_refuses_a_landmark_at_a_vertex_it_does_not_have() {
    let r = Map2D::new(1, 1, vec![units(0, 0)], Vec::new(), vec![0, 1], heading as Heading);
    assert_eq!(r.err(), Some(LocalizationError::MapIndexOutOfRange));
    let r = Map2D::new(1, 1, Vec::new(), Vec::new(), vec![0], heading as Heading);
    assert_eq!(r.err(), Some(LocalizationError::MapIndexOutOfRange));
}

#[test]
fn map_refuses_a_vertex_out_of_range() {
    let r = Map2D::new(1, 1, vec![point(MAX_COORDINATE + 1, 0)], Vec::new(), vec![0], heading as Heading);
    assert_eq!(r.err(), Some(LocalizationError::CoordinateOutOfRange));
    let r = Map2D::new(1, 1, vec![point(0, -MAX_COORDINATE - 1)], Vec::new(), Vec::new(), heading as Heading);
    assert_eq!(r.err(), Some(LocalizationError::CoordinateOutOfRange));
    let r = Map2D::new(1, 1, vec![point(MAX_COORDINATE, -MAX_COORDINATE)], Vec::new(), vec![0], heading as Heading);
    assert!(r.is_ok());
}

#[test]
fn map_reports_a_bad_index_before_a_bad_coordinate() {
    let r = Map2D::new(1, 1, vec![point(MAX_COORDINATE + 1, 0)], vec![(0, 0)], Vec::new(), heading as Heading);
    assert_eq!(r.err(), Some(LocalizationError::MapIndexOutOfRange));
}

#[test]
fn empty_map_is_a_map() {
    let map = Map2D::new(0, 0, Vec::new(), Vec::new(), Vec::new(), heading as Heading).unwrap();
    assert_eq!(map.raycast(pose(0, 0, 0)), None);
    assert_eq!(map.cull_points(pose(0, 0, 0), FULL_TURN), Vec::new());
}

#[test]
fn raycast_follows_the_heading_as_rounded() {
    let map = square();
    // the heading of 4.712388 rad is (-1, -1000000) millionths
    assert_eq!(map.direction(3 * QUARTER_TURN), point(-1, -UNIT));
    assert_eq!(map.raycast(pose(3 * QUARTER_TURN, 5, 5)), Some(point(4_999_995, 0)));
}

#[test]
fn raycast_hits_the_wall_ahead() {
    let map = square();
    assert_eq!(map.raycast(pose(0, 5, 5)), Some(units(10, 5)));
    assert_eq!(map.raycast(pose(QUARTER_TURN, 5, 5)), Some(units(5, 10)));
    assert_eq!(map.raycast(pose(HALF_TURN, 5, 5)), Some(units(0, 5)));
    assert_eq!(map.raycast(pose(THREE_QUARTER_TURN, 5, 5)), Some(units(5, 0)));
}

#[test]
fn raycast_hits_the_nearest_of_several_walls() {
    let map = Map2D::new(
        10 * UNIT,
        10 * UNIT,
        vec![units(9, 0), units(9, 10), units(7, 0), units(7, 10), units(8, 0), units(8, 10)],
        vec![(0, 1), (2, 3), (4, 5)],
        Vec::new(),
        heading as Heading,
    )
    .unwrap();
    assert_eq!(map.raycast(pose(0, 5, 5)), Some(units(7, 5)));
    assert_eq!(map.raycast(pose(0, 7, 5)), Some(units(7, 5)));
    assert_eq!(map.raycast_from(point(7 * UNIT + 1, 5 * UNIT), point(UNIT, 0)), Some(units(8, 5)));
    assert_eq!(map.raycast(pose(HALF_TURN, 10, 5)), Some(units(9, 5)));
}

#[test]
fn raycast_sees_nothing_behind_it() {
    let map = Map2D::new(
        10 * UNIT,
        10 * UNIT,
        vec![units(9, 0), units(9, 10)],
        vec![(0, 1)],
        Vec::new(),
        heading as Heading,
    )
    .unwrap();
    assert_eq!(map.raycast(pose(HALF_TURN, 5, 5)), None);
    assert_eq!(map.raycast(pose(0, 5, 11)), None);
    assert_eq!(map.raycast(pose(0, 5, 5)), Some(units(9, 5)));
}

#[test]
fn raycast_counts_the_ends_of_a_wall() {
    let map = square();
    assert_eq!(map.raycast_from(units(5, 5), point(UNIT, UNIT)), Some(units(10, 10)));
    assert_eq!(map.raycast_from(units(5, 0), point(UNIT, 0)), Some(units(10, 0)));
}

#[test]
fn raycast_rounds_the_hit_down() {
    let map = square();
    // slope 1/3 from (5, 5): the right wall is met at y = 5 + 5/3
    assert_eq!(
        map.raycast_from(units(5, 5), point(3, 1)),
        Some(point(10 * UNIT, 6_666_666))
    );
    assert_eq!(
        map.raycast_from(units(5, 5), point(3, -1)),
        Some(point(10 * UNIT, 3_333_333))
    );
}

#[test]
fn raycast_without_direction_hits_nothing() {
    let map = square();
    assert_eq!(map.raycast_from(units(5, 5), point(0, 0)), None);
}

#[test]
fn raycast_reads_a_long_direction_as_cut_to_the_unit_square() {
    let map = square();
    assert_eq!(
        map.raycast_from(units(5, 5), point(5 * UNIT, 0)),
        map.raycast_from(units(5, 5), point(UNIT, 0))
    );
    assert_eq!(map.raycast_from(units(5, 5), point(9 * UNIT, 3 * UNIT)), Some(units(10, 10)));
}

#[test]
fn raycast_from_out_of_range_hits_nothing() {
    let map = square();
    assert_eq!(map.raycast_from(point(-MAX_RAY_ORIGIN - 1, 5 * UNIT), point(UNIT, 0)), None);
    assert_eq!(
        map.raycast_from(point(-MAX_RAY_ORIGIN, 5 * UNIT), point(UNIT, 0)),
        Some(units(0, 5))
    );
    assert_eq!(map.raycast_from(point(i64::MIN, i64::MAX), point(UNIT, 0)), None);
}

#[test]
fn raycast_works_at_the_limits_of_the_map() {
    let far = MAX_COORDINATE;
    let map = Map2D::new(
        far,
        far,
        vec![point(far, -far), point(far, far), point(-far, -far), point(-far, far)],
        vec![(0, 1), (2, 3)],
        Vec::new(),
        heading as Heading,
    )
    .unwrap();
    assert_eq!(
        map.raycast_from(point(-MAX_RAY_ORIGIN, 0), point(UNIT, 0)),
        Some(point(-far, 0))
    );
    assert_eq!(
        map.raycast_from(point(MAX_RAY_ORIGIN, far), point(-UNIT, 0)),
        Some(point(far, far))
    );
    assert_eq!(
        map.raycast_from(point(-MAX_RAY_ORIGIN, -MAX_RAY_ORIGIN), point(UNIT, UNIT)),
        Some(point(-far, -far))
    );
}

#[test]
fn meet_gives_both_fractions_over_one_scale() {
    let c = meet(units(5, 5), point(UNIT, 0), units(10, 0), units(10, 10));
    assert_eq!(
        c,
        Crossing { along: 50_000_000_000_000, across: 5_000_000_000_000, scale: 10_000_000_000_000 }
    );
    let turned = meet(units(5, 5), point(UNIT, 0), units(10, 10), units(10, 0));
    assert_eq!(
        turned,
        Crossing { along: 50_000_000_000_000, across: 5_000_000_000_000, scale: 10_000_000_000_000 }
    );
    let parallel = meet(units(5, 5), point(0, UNIT), units(10, 0), units(10, 10));
    assert_eq!(parallel.scale, 0);
}

#[test]
fn is_nearer_compares_fractions() {
    let near = Crossing { along: 1, across: 0, scale: 3 };
    let far = Crossing { along: 1, across: 0, scale: 2 };
    assert!(is_nearer(near, far));
    assert!(!is_nearer(far, near));
    assert!(!is_nearer(near, Crossing { along: 2, across: 0, scale: 6 }));
}

#[test]
fn hit_point_lies_on_the_wall() {
    let c = Crossing { along: 1, across: 1, scale: 3 };
    assert_eq!(hit_point(point(0, 0), point(10, -10), c), point(3, -4));
    assert_eq!(hit_point(point(10, -10), point(0, 0), c), point(6, -7));
    let end = Crossing { along: 1, across: 3, scale: 3 };
    assert_eq!(hit_point(point(0, 0), point(10, -10), end), point(10, -10));
}

#[test]
fn floor_quotient_rounds_down() {
    assert_eq!(floor_quotient(7, 2), 3);
    assert_eq!(floor_quotient(-7, 2), -4);
    assert_eq!(floor_quotient(-8, 2), -4);
    assert_eq!(floor_quotient(0, 5), 0);
    assert_eq!(floor_quotient(-1, 5), -1);
}

#[test]
fn to_frame_turns_the_offset_into_the_viewers_frame() {
    assert_eq!(to_frame(units(8, 8), units(5, 5), heading(0)), units(3, 3));
    assert_eq!(to_frame(units(8, 8), units(5, 5), heading(QUARTER_TURN)), units(3, -3));
    assert_eq!(to_frame(units(8, 8), units(5, 5), heading(HALF_TURN)), units(-3, -3));
    assert_eq!(to_frame(units(5, 5), units(5, 5), heading(1_000_000)), units(0, 0));
}

#[test]
fn to_frame_holds_far_offsets_within_range() {
    assert_eq!(
        to_frame(point(0, 0), point(i64::MIN, i64::MIN), point(UNIT, UNIT)),
        point(i64::MAX, 0)
    );
}

#[test]
fn window_holds_what_lies_within_half_the_field_on_either_side() {
    let half = heading(QUARTER_TURN / 2);
    assert!(is_in_window(units(3, 3), QUARTER_TURN, half));
    assert!(is_in_window(units(3, -3), QUARTER_TURN, half));
    assert!(is_in_window(units(3, 0), QUARTER_TURN, half));
    assert!(!is_in_window(point(3 * UNIT, 3 * UNIT + 1), QUARTER_TURN, half));
    assert!(!is_in_window(units(-3, 0), QUARTER_TURN, half));
    assert!(!is_in_window(units(0, 3), QUARTER_TURN, half));
    assert!(is_in_window(units(0, 0), QUARTER_TURN, half));
}

#[test]
fn window_of_a_full_turn_holds_everything_and_a_negative_one_nothing() {
    assert!(is_in_window(units(-3, 0), FULL_TURN, point(0, 0)));
    assert!(is_in_window(units(-3, 0), FULL_TURN + 1, heading(17)));
    assert!(!is_in_window(units(3, 0), -1, heading(0)));
    assert!(!is_in_window(units(0, 0), i64::MIN, heading(0)));
}

#[test]
fn window_wider_than_a_half_turn_reaches_behind() {
    let fov = 3 * QUARTER_TURN;
    let half = point(-UNIT, UNIT);
    assert!(is_in_window(units(0, 3), fov, half));
    assert!(is_in_window(units(-3, 3), fov, half));
    assert!(!is_in_window(point(-3 * UNIT, 3 * UNIT - 10), fov, half));
    assert!(!is_in_window(units(-3, 0), fov, half));
}

#[test]
fn cull_points_with_a_full_turn_returns_every_landmark_once() {
    let map = landmarks();
    assert_eq!(
        map.cull_points(pose(0, 5, 5), FULL_TURN),
        vec![units(-3, -3), units(3, -3), units(-3, 3), units(3, 3), units(2, 0), units(-2, 0)]
    );
    assert_eq!(map.cull_points(pose(0, 5, 5), FULL_TURN + 1).len(), 6);
    assert_eq!(map.cull_points(pose(0, 5, 5), i64::MAX).len(), 6);
}

#[test]
fn cull_points_with_a_full_turn_sees_from_anywhere() {
    let map = landmarks();
    let from = Pose { angle: 123_456, position: point(i64::MAX, i64::MIN) };
    assert_eq!(map.cull_points(from, FULL_TURN).len(), 6);
    assert_eq!(map.cull_points(pose(4_000_000, -70, 33), FULL_TURN).len(), 6);
}

#[test]
fn cull_points_gives_landmarks_in_the_frame_of_the_viewer() {
    let map = landmarks();
    assert_eq!(
        map.cull_points(pose(QUARTER_TURN, 5, 5), FULL_TURN),
        vec![units(-3, 3), units(-3, -3), units(3, 3), units(3, -3), units(0, -2), units(0, 2)]
    );
}

#[test]
fn cull_points_keeps_what_lies_in_the_field_of_view() {
    let map = landmarks();
    assert_eq!(
        map.cull_points(pose(0, 5, 5), QUARTER_TURN),
        vec![units(3, -3), units(3, 3), units(2, 0)]
    );
    assert_eq!(
        map.cull_points(pose(HALF_TURN, 5, 5), QUARTER_TURN - 2),
        vec![units(2, 0)]
    );
    assert_eq!(map.cull_points(pose(0, 5, 5), 0), vec![units(2, 0)]);
    assert_eq!(map.cull_points(pose(0, 5, 5), -1), Vec::new());
}

#[test]
fn cull_points_toward_takes_both_directions_as_given() {
    let map = landmarks();
    assert_eq!(
        map.cull_points_toward(units(5, 5), point(UNIT, 0), 0, point(UNIT, 0)),
        vec![units(2, 0)]
    );
    assert_eq!(
        map.cull_points_toward(units(5, 5), point(-UNIT, 0), 0, point(UNIT, 0)),
        vec![units(2, 0)]
    );
}

#[test]
fn direction_is_the_heading_cut_to_the_unit_square() {
    let map = square();
    assert_eq!(map.direction(0), point(UNIT, 0));
    assert_eq!(map.direction(QUARTER_TURN), point(0, UNIT));
    let wild = Map2D::new(1, 1, Vec::new(), Vec::new(), Vec::new(), |a: i64| point(a, -a)).unwrap();
    assert_eq!(wild.direction(5 * UNIT), point(UNIT, -UNIT));
    assert_eq!(wild.direction(17), point(17, -17));
}
