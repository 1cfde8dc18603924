//! Sensors for simulation: they read off a pose that the simulation sets, and
//! add noise that the simulation supplies.
//!
//! The noise is meant to be Gaussian with mean zero, and the noise margin of
//! a sensor to be three standard deviations of it, so that nearly every
//! sample lies within the margin.

use crate::map::as_direction;
use crate::map::is_first_hit;
use crate::map::Map2D;
use crate::models::predicted_reading;
use crate::models::spec_predicted_reading;
use crate::sensors::LimitedSensor;
use crate::sensors::Sensor;
use crate::utility::quotient;
use crate::utility::quotient_toward_zero;
use crate::utility::saturate;
use crate::utility::saturated;
use crate::utility::Point;
use crate::utility::Pose;
use std::sync::Arc;
use vstd::prelude::*;

verus! {

/// The standard deviation of the noise of a sensor with the given noise
/// margin: a third of the margin.
pub open spec fn spec_noise_deviation(noise_margin: i64) -> i64 {
    quotient_toward_zero(noise_margin as int, 3) as i64
}

/// The standard deviation of the noise of a sensor with the given noise
/// margin: a third of the margin.
pub fn noise_deviation(noise_margin: i64) -> (r: i64)
    ensures
        r == spec_noise_deviation(noise_margin),
{
    quotient(noise_margin as i128, 3) as i64
}

/// What a range finder reads: the distance from `from` to the point `hit`
/// that its ray meets, with `noise` added; nothing where the ray meets no
/// point or the point lies beyond `max_dist`.
pub open spec fn spec_distance_reading(
    hit: Option<Point>,
    from: Point,
    max_dist: Option<i64>,
    noise: i64,
) -> Option<i64> {
    match spec_predicted_reading(hit, from, max_dist) {
        None => None,
        Some(distance) => Some(saturate(distance + noise)),
    }
}

/// What a range finder reads, given what its ray meets and the noise of this
/// reading.
pub fn distance_reading(hit: Option<Point>, from: Point, max_dist: Option<i64>, noise: i64) -> (r:
    Option<i64>)
    ensures
        r == spec_distance_reading(hit, from, max_dist, noise),
{
    match predicted_reading(hit, from, max_dist) {
        None => None,
        Some(distance) => Some(saturated(distance as i128 + noise as i128)),
    }
}

/// A range finder on a robot whose pose the simulation sets.
pub struct DummyDistanceSensor<H: Fn(i64) -> Point, N: Fn() -> i64> {
    noise: N,
    relative_pose: Pose,
    map: Arc<Map2D<H>>,
    robot_pose: Pose,
    max_dist: Option<i64>,
}

impl<H: Fn(i64) -> Point, N: Fn() -> i64> DummyDistanceSensor<H, N> {
    #[verifier::type_invariant]
    spec fn well_formed(&self) -> bool {
        self.noise.requires(())
    }

    /// The source of the noise.
    pub closed spec fn spec_noise(&self) -> N {
        self.noise
    }

    /// Where the sensor is mounted, relative to the robot.
    pub closed spec fn spec_relative_pose(&self) -> Pose {
        self.relative_pose
    }

    /// The map that the robot is on.
    pub closed spec fn spec_map(&self) -> Arc<Map2D<H>> {
        self.map
    }

    /// Where the robot is.
    pub closed spec fn spec_robot_pose(&self) -> Pose {
        self.robot_pose
    }

    /// How far the sensor reaches, if that is limited.
    pub closed spec fn spec_max_dist(&self) -> Option<i64> {
        self.max_dist
    }

    /// A range finder mounted at `relative_pose` on a robot at `robot_pose`.
    /// Each reading is off by what a call of `noise` returns.
    pub fn new(
        noise: N,
        relative_pose: Pose,
        map: Arc<Map2D<H>>,
        robot_pose: Pose,
        max_dist: Option<i64>,
    ) -> (r: Self)
        requires
            noise.requires(()),
        ensures
            r.spec_noise() == noise,
            r.spec_relative_pose() == relative_pose,
            r.spec_map() == map,
            r.spec_robot_pose() == robot_pose,
            r.spec_max_dist() == max_dist,
    {
        DummyDistanceSensor { noise, relative_pose, map, robot_pose, max_dist }
    }

    /// Moves the robot to `new_pose`.
    pub fn update_pose(&mut self, new_pose: Pose)
        ensures
            final(self).spec_robot_pose() == new_pose,
            final(self).spec_noise() == old(self).spec_noise(),
            final(self).spec_relative_pose() == old(self).spec_relative_pose(),
            final(self).spec_map() == old(self).spec_map(),
            final(self).spec_max_dist() == old(self).spec_max_dist(),
    {
        proof {
            use_type_invariant(&*self);
        }
        self.robot_pose = new_pose;
    }

    /// Where the robot is.
    pub fn robot_pose(&self) -> (r: Pose)
        ensures
            r == self.spec_robot_pose(),
    {
        self.robot_pose
    }
}

impl<H: Fn(i64) -> Point, N: Fn() -> i64> Sensor<Option<i64>> for DummyDistanceSensor<H, N> {
    /// The distance to the nearest wall along the sensor's heading, off by
    /// the noise of this reading.
    fn sense(&self) -> (r: Option<i64>)
        ensures
            exists|raw: Point, hit: Option<Point>, noise: i64|
                {
                    &&& self.spec_map().spec_heading().ensures(
                        (self.spec_relative_pose().spec_plus(self.spec_robot_pose()).angle,),
                        raw,
                    )
                    &&& #[trigger] is_first_hit(
                        self.spec_map().spec_vertices(),
                        self.spec_map().spec_lines(),
                        self.spec_relative_pose().spec_plus(self.spec_robot_pose()).position,
                        as_direction(raw),
                        hit,
                    )
                    &&& self.spec_noise().ensures((), noise)
                    &&& r == #[trigger] spec_distance_reading(
                        hit,
                        self.spec_relative_pose().spec_plus(self.spec_robot_pose()).position,
                        self.spec_max_dist(),
                        noise,
                    )
                },
    {
        proof {
            use_type_invariant(self);
        }
        let sensor_pose = self.relative_pose + self.robot_pose;
        let hit = self.map.raycast(sensor_pose);
        let noise = (self.noise)();
        let r = distance_reading(hit, sensor_pose.position, self.max_dist, noise);
        proof {
            let raw = choose|raw: Point|
                self.map.spec_heading().ensures((sensor_pose.angle,), raw) && #[trigger] is_first_hit(
                    self.map.spec_vertices(),
                    self.map.spec_lines(),
                    sensor_pose.position,
                    as_direction(raw),
                    hit,
                );
            assert(is_first_hit(
                self.spec_map().spec_vertices(),
                self.spec_map().spec_lines(),
                self.spec_relative_pose().spec_plus(self.spec_robot_pose()).position,
                as_direction(raw),
                hit,
            ));
        }
        assert(r == spec_distance_reading(
            hit,
            self.spec_relative_pose().spec_plus(self.spec_robot_pose()).position,
            self.spec_max_dist(),
            noise,
        ));
        r
    }

    /// Where the sensor is mounted, relative to the robot, as it was given
    /// when the sensor was made.
    fn relative_pose(&self) -> (r: Pose)
        ensures
            r == self.spec_relative_pose(),
    {
        self.relative_pose
    }
}

impl<H: Fn(i64) -> Point, N: Fn() -> i64> LimitedSensor<i64, Option<i64>> for DummyDistanceSensor<
    H,
    N,
> {
    /// How far the sensor reaches, if that is limited: beyond it, the sensor
    /// reads nothing.
    fn range(&self) -> (r: Option<i64>)
        ensures
            r == self.spec_max_dist(),
    {
        self.max_dist
    }
}

/// A motion sensor on a robot whose pose the simulation sets.
pub struct DummyMotionSensor<N: Fn() -> Pose> {
    noise: N,
    prev_robot_pose: Pose,
    robot_pose: Pose,
}

impl<N: Fn() -> Pose> DummyMotionSensor<N> {
    #[verifier::type_invariant]
    spec fn well_formed(&self) -> bool {
        self.noise.requires(())
    }

    /// The source of the noise.
    pub closed spec fn spec_noise(&self) -> N {
        self.noise
    }

    /// Where the robot was before it last moved.
    pub closed spec fn spec_prev_robot_pose(&self) -> Pose {
        self.prev_robot_pose
    }

    /// Where the robot is.
    pub closed spec fn spec_robot_pose(&self) -> Pose {
        self.robot_pose
    }

    /// A motion sensor on a robot that stands at `robot_pose` and has not
    /// moved yet. Each reading is off by what a call of `noise` returns.
    pub fn new(robot_pose: Pose, noise: N) -> (r: Self)
        requires
            noise.requires(()),
        ensures
            r.spec_noise() == noise,
            r.spec_prev_robot_pose() == robot_pose,
            r.spec_robot_pose() == robot_pose,
    {
        DummyMotionSensor { noise, prev_robot_pose: robot_pose, robot_pose }
    }

    /// Moves the robot to `new_pose`; where it stood until now is where it
    /// was before.
    pub fn update_pose(&mut self, new_pose: Pose)
        ensures
            final(self).spec_prev_robot_pose() == old(self).spec_robot_pose(),
            final(self).spec_robot_pose() == new_pose,
            final(self).spec_noise() == old(self).spec_noise(),
    {
        proof {
            use_type_invariant(&*self);
        }
        self.prev_robot_pose = self.robot_pose;
        self.robot_pose = new_pose;
    }

    /// Where the robot is.
    pub fn robot_pose(&self) -> (r: Pose)
        ensures
            r == self.spec_robot_pose(),
    {
        self.robot_pose
    }
}

impl<N: Fn() -> Pose> Sensor<Pose> for DummyMotionSensor<N> {
    /// The change of pose over the last move, off by the noise of this
    /// reading.
    fn sense(&self) -> (r: Pose)
        ensures
            exists|noise: Pose|
                self.spec_noise().ensures((), noise) && r == #[trigger] self.spec_robot_pose().spec_minus(
                    self.spec_prev_robot_pose(),
                ).spec_plus(noise),
    {
        proof {
            use_type_invariant(self);
        }
        let noise = (self.noise)();
        let r = self.robot_pose - self.prev_robot_pose + noise;
        assert(r == self.spec_robot_pose().spec_minus(self.spec_prev_robot_pose()).spec_plus(noise));
        r
    }

    /// A motion sensor reads the motion of the robot itself: it is mounted at
    /// the robot's origin, along its heading.
    fn relative_pose(&self) -> (r: Pose)
        ensures
            r == (Pose { angle: 0, position: Point { x: 0, y: 0 } }),
    {
        Pose::default()
    }
}

} // verus!
