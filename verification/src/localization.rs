//! Monte Carlo localizers: particle filters that keep a cloud of poses the
//! robot may be at, move it with every motion reading, and redraw it with
//! every observation in favour of the poses that explain the observation.
//!
//! In every step, a control update comes before the observation update.

use crate::belief::is_shifted;
use crate::belief::spec_mean;
use crate::belief::NewPoseBelief;
use crate::error::LocalizationError;
use crate::map::as_direction;
use crate::map::is_first_hit;
use crate::map::spec_seen;
use crate::map::Map2D;
use crate::models::detection_error;
use crate::models::mean_range_error;
use crate::models::predicted_reading;
use crate::models::sort_by_magnitude;
use crate::models::sorted_by_magnitude;
use crate::models::spec_detection_error;
use crate::models::spec_mean_range_error;
use crate::models::spec_predicted_reading;
use crate::models::MISSING_PENALTY;
use crate::particles::Particles;
use crate::resampling::all_zero;
use crate::sensors::LimitedSensor;
use crate::sensors::Sensor;
use crate::utility::NewPose;
use crate::utility::Point;
use crate::utility::Pose;
use crate::utility::FULL_TURN;
use rand::rngs::StdRng;
use std::sync::Arc;
use vstd::prelude::*;

verus! {

/// How many times its even share of the threshold a particle weighs when the
/// range finders tell nothing apart.
pub const RANGE_UNIFORM_FACTOR: u8 = 2;

/// How many times its even share of the threshold a particle weighs when the
/// detected landmarks tell nothing apart.
pub const LANDMARK_UNIFORM_FACTOR: u8 = 1;

/// What one range finder contributes to the error of a particle: what it read,
/// where it is mounted, how far it reaches, and what its ray meets on the map
/// when the robot stands where the particle is.
pub struct RangeObservation {
    pub sensed: Option<i64>,
    pub mount: Pose,
    pub range: Option<i64>,
    pub heading: Point,
    pub hit: Option<Point>,
}

/// Whether `o` may be what a range finder contributes at `particle`: `hit` is
/// what a ray from the finder's pose, which is the particle's plus the mount,
/// hits first on the map, along what the map takes for the heading of that
/// pose. What the finder read, where it is mounted and how far it reaches are
/// up to the finder.
pub open spec fn is_range_observation<H: Fn(i64) -> Point>(
    map: Map2D<H>,
    particle: NewPose,
    o: RangeObservation,
) -> bool {
    let from = particle.spec_pose().spec_plus(o.mount);
    &&& map.spec_heading().ensures((from.angle,), o.heading)
    &&& is_first_hit(
        map.spec_vertices(),
        map.spec_lines(),
        from.position,
        as_direction(o.heading),
        o.hit,
    )
}

/// For each range finder, what it read and what it is expected to read at
/// `particle`. Distances are taken from the position of the particle.
pub open spec fn range_readings(particle: NewPose, observations: Seq<RangeObservation>) -> Seq<
    (Option<i64>, Option<u64>),
> {
    Seq::new(
        observations.len(),
        |j: int|
            (
                observations[j].sensed,
                spec_predicted_reading(observations[j].hit, particle.position, observations[j].range),
            ),
    )
}

/// Whether `error` may be the error of `particle` under the range-finder
/// model with the given number of range finders: the mean error of their
/// readings against what the map makes them expect.
pub open spec fn is_range_error<H: Fn(i64) -> Point>(
    map: Map2D<H>,
    particle: NewPose,
    sensors: nat,
    penalty: u64,
    error: u64,
) -> bool {
    exists|observations: Seq<RangeObservation>|
        {
            &&& observations.len() == sensors
            &&& forall|j: int|
                0 <= j < sensors ==> is_range_observation(map, particle, #[trigger] observations[j])
            &&& error == spec_mean_range_error(
                #[trigger] range_readings(particle, observations),
                penalty,
            )
        }
}

/// Whether `sorted` holds the points of `points` in order of their distance
/// from the origin.
pub open spec fn is_sorted_form(sorted: Seq<Point>, points: Seq<Point>) -> bool {
    sorted_by_magnitude(sorted) && sorted.to_multiset() == points.to_multiset()
}

/// Whether `error` may be the error of `particle` under the landmark model:
/// the error of the landmarks detected, `observation`, against the landmarks
/// that the map shows within the field of view `fov` of a detector whose pose
/// is the particle's plus some mount, both in order of their distance.
pub open spec fn is_detection_error<H: Fn(i64) -> Point>(
    map: Map2D<H>,
    particle: NewPose,
    observation: Seq<Point>,
    fov: i64,
    penalty: u64,
    error: u64,
) -> bool {
    exists|mount: Pose, heading: Point, half: Point, expected: Seq<Point>|
        {
            &&& map.spec_heading().ensures((particle.spec_pose().spec_plus(mount).angle,), heading)
            &&& 0 <= fov < FULL_TURN ==> map.spec_heading().ensures(((fov / 2) as i64,), half)
            &&& #[trigger] is_sorted_form(
                expected,
                spec_seen(
                    map.spec_vertices(),
                    map.spec_points(),
                    particle.spec_pose().spec_plus(mount).position,
                    as_direction(heading),
                    fov,
                    as_direction(half),
                ),
            )
            &&& error == spec_detection_error(observation, expected, penalty)
        }
}

/// A localizer that takes in motion readings and the readings of range
/// finders, such as laser range finders.
pub struct DistanceFinderMCL<H: Fn(i64) -> Point, W: Fn(u64) -> u64> {
    map: Arc<Map2D<H>>,
    particles: Particles<W>,
    penalty: u64,
    rng: StdRng,
}

impl<H: Fn(i64) -> Point, W: Fn(u64) -> u64> DistanceFinderMCL<H, W> {
    /// The map that the robot is on.
    pub closed spec fn spec_map(&self) -> Arc<Map2D<H>> {
        self.map
    }

    /// The particles.
    pub open spec fn spec_belief(&self) -> Seq<NewPose> {
        self.spec_particles().spec_belief()
    }

    /// The largest number of particles that the belief may hold.
    pub open spec fn spec_max_particle_count(&self) -> usize {
        self.spec_particles().spec_max_particle_count()
    }

    /// The error charged for what one side senses and the other does not.
    pub closed spec fn spec_penalty(&self) -> u64 {
        self.penalty
    }

    /// The cloud of particles with its settings.
    pub closed spec fn spec_particles(&self) -> Particles<W> {
        self.particles
    }

    /// A localizer whose belief is `max_particle_count` particles spread
    /// evenly over the map. In every step it is to receive a control update
    /// and then an observation update.
    pub fn new(
        max_particle_count: usize,
        map: Arc<Map2D<H>>,
        weight_from_error: W,
        resampling_noise: NewPose,
        rng: StdRng,
    ) -> (r: Result<Self, LocalizationError>)
        requires
            forall|e: u64| weight_from_error.requires((e,)),
        ensures
            r is Err <==> max_particle_count == 0,
            r matches Err(e) ==> e == LocalizationError::EmptyBelief,
            r matches Ok(filter) ==> {
                &&& filter.spec_map() == map
                &&& filter.spec_penalty() == MISSING_PENALTY
                &&& filter.spec_max_particle_count() == max_particle_count
                &&& filter.spec_particles().spec_weight_from_error() == weight_from_error
                &&& filter.spec_particles().spec_resampling_noise() == resampling_noise
                &&& filter.spec_belief().len() == max_particle_count
                &&& forall|i: int|
                    0 <= i < max_particle_count ==> NewPoseBelief::spread_over(
                        #[trigger] filter.spec_belief()[i],
                        Point { x: map.spec_width(), y: map.spec_height() },
                    )
            },
    {
        let mut rng = rng;
        let max_position = Point { x: map.width(), y: map.height() };
        let belief = NewPoseBelief::new(max_particle_count, max_position, &mut rng);
        match Particles::new(belief, max_particle_count, weight_from_error, resampling_noise) {
            Ok(particles) => Ok(DistanceFinderMCL { map, particles, penalty: MISSING_PENALTY, rng }),
            Err(e) => Err(e),
        }
    }

    /// Like `new`, but the belief is made of samples that the caller has
    /// drawn: one list of angles and, in a pair, one list each of x and y
    /// coordinates.
    pub fn from_distributions(
        samples: (Vec<i64>, (Vec<i64>, Vec<i64>)),
        max_particle_count: usize,
        map: Arc<Map2D<H>>,
        weight_from_error: W,
        resampling_noise: NewPose,
        rng: StdRng,
    ) -> (r: Result<Self, LocalizationError>)
        requires
            forall|e: u64| weight_from_error.requires((e,)),
        ensures
            r is Err <==> NewPoseBelief::sample_count(
                max_particle_count,
                samples.0@,
                samples.1.0@,
                samples.1.1@,
            ) == 0,
            r matches Err(e) ==> e == LocalizationError::EmptyBelief,
            r matches Ok(filter) ==> {
                &&& filter.spec_map() == map
                &&& filter.spec_penalty() == MISSING_PENALTY
                &&& filter.spec_max_particle_count() == max_particle_count
                &&& filter.spec_particles().spec_weight_from_error() == weight_from_error
                &&& filter.spec_particles().spec_resampling_noise() == resampling_noise
                &&& filter.spec_belief().len() == NewPoseBelief::sample_count(
                    max_particle_count,
                    samples.0@,
                    samples.1.0@,
                    samples.1.1@,
                )
                &&& forall|i: int|
                    0 <= i < filter.spec_belief().len() ==> #[trigger] filter.spec_belief()[i]
                        == NewPoseBelief::from_samples(samples.0@, samples.1.0@, samples.1.1@, i)
            },
    {
        let belief = NewPoseBelief::from_distributions(max_particle_count, samples);
        match Particles::new(belief, max_particle_count, weight_from_error, resampling_noise) {
            Ok(particles) => Ok(DistanceFinderMCL { map, particles, penalty: MISSING_PENALTY, rng }),
            Err(e) => Err(e),
        }
    }

    /// The same localizer, but charging `penalty` for what one side senses
    /// and the other does not.
    pub fn with_penalty(self, penalty: u64) -> (r: Self)
        ensures
            r.spec_penalty() == penalty,
            r.spec_map() == self.spec_map(),
            r.spec_particles() == self.spec_particles(),
    {
        let mut r = self;
        r.penalty = penalty;
        r
    }

    /// The error charged for what one side senses and the other does not.
    pub fn penalty(&self) -> (r: u64)
        ensures
            r == self.spec_penalty(),
    {
        self.penalty
    }

    /// The map that the robot is on.
    pub fn map(&self) -> (r: &Arc<Map2D<H>>)
        ensures
            *r == self.spec_map(),
    {
        &self.map
    }

    /// The particles.
    pub fn belief(&self) -> (r: &Vec<NewPose>)
        ensures
            r@ == self.spec_belief(),
            1 <= r.len() <= self.spec_max_particle_count(),
    {
        self.particles.belief()
    }

    /// Takes in a sensor that senses the whole change of pose since the last
    /// update, and moves every particle by what it reads.
    pub fn control_update<U: Sensor<NewPose>>(&mut self, u: &U)
        ensures
            final(self).spec_map() == old(self).spec_map(),
            final(self).spec_penalty() == old(self).spec_penalty(),
            old(self).spec_particles().same_settings(&final(self).spec_particles()),
            final(self).spec_belief().len() == old(self).spec_belief().len(),
            exists|update: NewPose| #[trigger]
                is_shifted(old(self).spec_belief(), update, final(self).spec_belief()),
    {
        let update = u.sense();
        self.particles.control_update(update);
        assert(is_shifted(old(self).spec_belief(), update, self.spec_belief()));
    }

    /// Whether `after` is what an observation update with the given number
    /// of range finders can make of the belief: `errors` holds for each
    /// particle an error that the readings of the finders and the map can
    /// give it, and the step from those errors comes to `weights` and `after`.
    /// Where no particle carries any error the step succeeds.
    pub open spec fn is_update(
        &self,
        sensors: nat,
        errors: Seq<u64>,
        weights: Seq<u128>,
        succeeded: bool,
        after: Seq<NewPose>,
    ) -> bool {
        &&& errors.len() == self.spec_belief().len()
        &&& forall|i: int|
            0 <= i < errors.len() ==> is_range_error(
                *self.spec_map(),
                self.spec_belief()[i],
                sensors,
                self.spec_penalty(),
                #[trigger] errors[i],
            )
        &&& all_zero(errors) ==> succeeded
        &&& self.spec_particles().is_step(errors, RANGE_UNIFORM_FACTOR, weights, succeeded, after)
    }

    /// The error of each particle: the mean, over the range finders, of how
    /// far the reading expected at the particle is from the reading taken.
    fn range_errors<Z>(&self, z: &[Z]) -> (errors: Vec<u64>) where
        Z: Sensor<Option<i64>> + LimitedSensor<i64, Option<i64>>,

        ensures
            errors.len() == self.spec_belief().len(),
            forall|i: int|
                0 <= i < errors.len() ==> is_range_error(
                    *self.spec_map(),
                    self.spec_belief()[i],
                    z@.len(),
                    self.spec_penalty(),
                    #[trigger] errors[i],
                ),
    {
        let belief = self.particles.belief();
        let mut errors: Vec<u64> = Vec::new();
        let mut i: usize = 0;
        while i < belief.len()
            invariant
                i <= belief.len(),
                errors.len() == i,
                belief@ == self.spec_belief(),
                forall|k: int|
                    0 <= k < i ==> is_range_error(
                        *self.spec_map(),
                        belief[k],
                        z@.len(),
                        self.spec_penalty(),
                        #[trigger] errors[k],
                    ),
            decreases belief.len() - i,
        {
            let sample = belief[i];
            let mut readings: Vec<(Option<i64>, Option<u64>)> = Vec::new();
            let ghost mut observations: Seq<RangeObservation> = Seq::empty();
            let mut j: usize = 0;
            while j < z.len()
                invariant
                    j <= z.len(),
                    observations.len() == j,
                    readings@ == range_readings(sample, observations),
                    forall|k: int|
                        0 <= k < j ==> is_range_observation(
                            *self.spec_map(),
                            sample,
                            #[trigger] observations[k],
                        ),
                decreases z.len() - j,
            {
                let sensor = &z[j];
                let mount = sensor.relative_pose();
                let from = sample + mount;
                let hit = self.map.raycast(from);
                let range = sensor.range();
                let expected = predicted_reading(hit, sample.position, range);
                let sensed = sensor.sense();
                proof {
                    let heading = choose|raw: Point|
                        self.map.spec_heading().ensures((from.angle,), raw) && #[trigger] is_first_hit(
                            self.map.spec_vertices(),
                            self.map.spec_lines(),
                            from.position,
                            as_direction(raw),
                            hit,
                        );
                    let o = RangeObservation { sensed, mount, range, heading, hit };
                    assert(is_range_observation(*self.spec_map(), sample, o));
                    assert(readings@.push((sensed, expected)) == range_readings(
                        sample,
                        observations.push(o),
                    ));
                    observations = observations.push(o);
                }
                readings.push((sensed, expected));
                j = j + 1;
            }
            let error = mean_range_error(&readings, self.penalty);
            assert(is_range_error(
                *self.spec_map(),
                sample,
                z@.len(),
                self.spec_penalty(),
                error,
            ));
            errors.push(error);
            i = i + 1;
        }
        errors
    }

    /// Takes in the range finders and draws the next belief in favour of the
    /// particles at which the map makes their readings likely.
    ///
    /// The belief never ends up empty or larger than it may be. The step
    /// fails only where the weights of all particles are zero, and then the
    /// belief stays as it was; it cannot fail where no particle carries any
    /// error.
    pub fn observation_update<Z>(&mut self, z: &[Z]) -> (r: Result<(), LocalizationError>) where
        Z: Sensor<Option<i64>> + LimitedSensor<i64, Option<i64>>,

        ensures
            final(self).spec_map() == old(self).spec_map(),
            final(self).spec_penalty() == old(self).spec_penalty(),
            old(self).spec_particles().same_settings(&final(self).spec_particles()),
            1 <= final(self).spec_belief().len() <= final(self).spec_max_particle_count(),
            r matches Err(e) ==> e == LocalizationError::InvalidWeights && final(self).spec_belief()
                == old(self).spec_belief(),
            exists|errors: Seq<u64>, weights: Seq<u128>| #[trigger]
                old(self).is_update(z@.len(), errors, weights, r is Ok, final(self).spec_belief()),
    {
        let errors = self.range_errors(z);
        let r = self.particles.resample_from_errors(&errors, RANGE_UNIFORM_FACTOR, &mut self.rng);
        proof {
            let weights = choose|weights: Seq<u128>| #[trigger]
                old(self).spec_particles().is_step(
                    errors@,
                    RANGE_UNIFORM_FACTOR,
                    weights,
                    r is Ok,
                    self.spec_belief(),
                );
            assert(old(self).is_update(z@.len(), errors@, weights, r is Ok, self.spec_belief()));
        }
        r
    }

    /// The pose that the belief stands for: the componentwise mean of all
    /// particles. Headings are averaged as plain numbers.
    pub fn get_prediction(&self) -> (r: NewPose)
        ensures
            r == spec_mean(self.spec_belief()),
    {
        self.particles.get_prediction()
    }
}

/// A localizer that takes in motion readings and the landmarks that an object
/// detector sees.
pub struct ObjectDetectorMCL<H: Fn(i64) -> Point, W: Fn(u64) -> u64> {
    map: Arc<Map2D<H>>,
    particles: Particles<W>,
    penalty: u64,
    rng: StdRng,
}

impl<H: Fn(i64) -> Point, W: Fn(u64) -> u64> ObjectDetectorMCL<H, W> {
    /// The map that the robot is on.
    pub closed spec fn spec_map(&self) -> Arc<Map2D<H>> {
        self.map
    }

    /// The particles.
    pub open spec fn spec_belief(&self) -> Seq<NewPose> {
        self.spec_particles().spec_belief()
    }

    /// The largest number of particles that the belief may hold.
    pub open spec fn spec_max_particle_count(&self) -> usize {
        self.spec_particles().spec_max_particle_count()
    }

    /// The error charged for what one side senses and the other does not.
    pub closed spec fn spec_penalty(&self) -> u64 {
        self.penalty
    }

    /// The cloud of particles with its settings.
    pub closed spec fn spec_particles(&self) -> Particles<W> {
        self.particles
    }

    /// A localizer whose belief is `max_particle_count` particles spread
    /// evenly over the map. In every step it is to receive a control update
    /// and then an observation update.
    pub fn new(
        max_particle_count: usize,
        map: Arc<Map2D<H>>,
        weight_from_error: W,
        resampling_noise: NewPose,
        rng: StdRng,
    ) -> (r: Result<Self, LocalizationError>)
        requires
            forall|e: u64| weight_from_error.requires((e,)),
        ensures
            r is Err <==> max_particle_count == 0,
            r matches Err(e) ==> e == LocalizationError::EmptyBelief,
            r matches Ok(filter) ==> {
                &&& filter.spec_map() == map
                &&& filter.spec_penalty() == MISSING_PENALTY
                &&& filter.spec_max_particle_count() == max_particle_count
                &&& filter.spec_particles().spec_weight_from_error() == weight_from_error
                &&& filter.spec_particles().spec_resampling_noise() == resampling_noise
                &&& filter.spec_belief().len() == max_particle_count
                &&& forall|i: int|
                    0 <= i < max_particle_count ==> NewPoseBelief::spread_over(
                        #[trigger] filter.spec_belief()[i],
                        Point { x: map.spec_width(), y: map.spec_height() },
                    )
            },
    {
        let mut rng = rng;
        let max_position = Point { x: map.width(), y: map.height() };
        let belief = NewPoseBelief::new(max_particle_count, max_position, &mut rng);
        match Particles::new(belief, max_particle_count, weight_from_error, resampling_noise) {
            Ok(particles) => Ok(ObjectDetectorMCL { map, particles, penalty: MISSING_PENALTY, rng }),
            Err(e) => Err(e),
        }
    }

    /// Like `new`, but the belief is made of samples that the caller has
    /// drawn: one list of angles and, in a pair, one list each of x and y
    /// coordinates.
    pub fn from_distributions(
        samples: (Vec<i64>, (Vec<i64>, Vec<i64>)),
        max_particle_count: usize,
        map: Arc<Map2D<H>>,
        weight_from_error: W,
        resampling_noise: NewPose,
        rng: StdRng,
    ) -> (r: Result<Self, LocalizationError>)
        requires
            forall|e: u64| weight_from_error.requires((e,)),
        ensures
            r is Err <==> NewPoseBelief::sample_count(
                max_particle_count,
                samples.0@,
                samples.1.0@,
                samples.1.1@,
            ) == 0,
            r matches Err(e) ==> e == LocalizationError::EmptyBelief,
            r matches Ok(filter) ==> {
                &&& filter.spec_map() == map
                &&& filter.spec_penalty() == MISSING_PENALTY
                &&& filter.spec_max_particle_count() == max_particle_count
                &&& filter.spec_particles().spec_weight_from_error() == weight_from_error
                &&& filter.spec_particles().spec_resampling_noise() == resampling_noise
                &&& filter.spec_belief().len() == NewPoseBelief::sample_count(
                    max_particle_count,
                    samples.0@,
                    samples.1.0@,
                    samples.1.1@,
                )
                &&& forall|i: int|
                    0 <= i < filter.spec_belief().len() ==> #[trigger] filter.spec_belief()[i]
                        == NewPoseBelief::from_samples(samples.0@, samples.1.0@, samples.1.1@, i)
            },
    {
        let belief = NewPoseBelief::from_distributions(max_particle_count, samples);
        match Particles::new(belief, max_particle_count, weight_from_error, resampling_noise) {
            Ok(particles) => Ok(ObjectDetectorMCL { map, particles, penalty: MISSING_PENALTY, rng }),
            Err(e) => Err(e),
        }
    }

    /// The same localizer, but charging `penalty` for what one side senses
    /// and the other does not.
    pub fn with_penalty(self, penalty: u64) -> (r: Self)
        ensures
            r.spec_penalty() == penalty,
            r.spec_map() == self.spec_map(),
            r.spec_particles() == self.spec_particles(),
    {
        let mut r = self;
        r.penalty = penalty;
        r
    }

    /// The error charged for what one side senses and the other does not.
    pub fn penalty(&self) -> (r: u64)
        ensures
            r == self.spec_penalty(),
    {
        self.penalty
    }

    /// The map that the robot is on.
    pub fn map(&self) -> (r: &Arc<Map2D<H>>)
        ensures
            *r == self.spec_map(),
    {
        &self.map
    }

    /// The particles.
    pub fn belief(&self) -> (r: &Vec<NewPose>)
        ensures
            r@ == self.spec_belief(),
            1 <= r.len() <= self.spec_max_particle_count(),
    {
        self.particles.belief()
    }

    /// Takes in a sensor that senses the whole change of pose since the last
    /// update, and moves every particle by what it reads.
    pub fn control_update<U: Sensor<NewPose>>(&mut self, u: &U)
        ensures
            final(self).spec_map() == old(self).spec_map(),
            final(self).spec_penalty() == old(self).spec_penalty(),
            old(self).spec_particles().same_settings(&final(self).spec_particles()),
            final(self).spec_belief().len() == old(self).spec_belief().len(),
            exists|update: NewPose| #[trigger]
                is_shifted(old(self).spec_belief(), update, final(self).spec_belief()),
    {
        let update = u.sense();
        self.particles.control_update(update);
        assert(is_shifted(old(self).spec_belief(), update, self.spec_belief()));
    }

    /// Whether `after` is what an observation update can make of the belief,
    /// given the landmarks detected, in order of their distance, and the field
    /// of view of the detector: `errors` holds for each particle an error that
    /// the map can give it, and the step from those errors comes to `weights`
    /// and `after`. Where no particle carries any error the step succeeds.
    pub open spec fn is_update(
        &self,
        observation: Seq<Point>,
        fov: i64,
        errors: Seq<u64>,
        weights: Seq<u128>,
        succeeded: bool,
        after: Seq<NewPose>,
    ) -> bool {
        &&& sorted_by_magnitude(observation)
        &&& errors.len() == self.spec_belief().len()
        &&& forall|i: int|
            0 <= i < errors.len() ==> is_detection_error(
                *self.spec_map(),
                self.spec_belief()[i],
                observation,
                fov,
                self.spec_penalty(),
                #[trigger] errors[i],
            )
        &&& all_zero(errors) ==> succeeded
        &&& self.spec_particles().is_step(
            errors,
            LANDMARK_UNIFORM_FACTOR,
            weights,
            succeeded,
            after,
        )
    }

    /// The landmarks detected, in order of their distance, the field of view
    /// of the detector, and the error of each particle: how far the landmarks
    /// expected at the particle are from the landmarks detected, both lists in
    /// order of distance and paired by their place in it. A detector without
    /// a limit sees a full turn.
    fn detection_errors<Z>(&self, z: &Z) -> (r: (Vec<Point>, i64, Vec<u64>)) where
        Z: Sensor<Vec<Point>> + LimitedSensor<i64, Vec<Point>>,

        ensures
            sorted_by_magnitude(r.0@),
            r.2.len() == self.spec_belief().len(),
            forall|i: int|
                0 <= i < r.2.len() ==> is_detection_error(
                    *self.spec_map(),
                    self.spec_belief()[i],
                    r.0@,
                    r.1,
                    self.spec_penalty(),
                    #[trigger] r.2[i],
                ),
    {
        let observation = sort_by_magnitude(&z.sense());
        let fov = match z.range() {
            Some(range) => range,
            None => FULL_TURN,
        };
        let belief = self.particles.belief();
        let mut errors: Vec<u64> = Vec::new();
        let mut i: usize = 0;
        while i < belief.len()
            invariant
                i <= belief.len(),
                errors.len() == i,
                belief@ == self.spec_belief(),
                forall|k: int|
                    0 <= k < i ==> is_detection_error(
                        *self.spec_map(),
                        belief[k],
                        observation@,
                        fov,
                        self.spec_penalty(),
                        #[trigger] errors[k],
                    ),
            decreases belief.len() - i,
        {
            let sample = belief[i];
            let mount = z.relative_pose();
            let from = sample + mount;
            let seen = self.map.cull_points(from, fov);
            let expected = sort_by_magnitude(&seen);
            let error = detection_error(&observation, &expected, self.penalty);
            proof {
                let (heading, half) = choose|raw: Point, raw_half: Point|
                    {
                        &&& self.map.spec_heading().ensures((from.angle,), raw)
                        &&& 0 <= fov < FULL_TURN ==> self.map.spec_heading().ensures(
                            ((fov / 2) as i64,),
                            raw_half,
                        )
                        &&& seen@ == #[trigger] spec_seen(
                            self.map.spec_vertices(),
                            self.map.spec_points(),
                            from.position,
                            as_direction(raw),
                            fov,
                            as_direction(raw_half),
                        )
                    };
                assert(is_sorted_form(
                    expected@,
                    spec_seen(
                        self.spec_map().spec_vertices(),
                        self.spec_map().spec_points(),
                        sample.spec_pose().spec_plus(mount).position,
                        as_direction(heading),
                        fov,
                        as_direction(half),
                    ),
                ));
                assert(is_detection_error(
                    *self.spec_map(),
                    sample,
                    observation@,
                    fov,
                    self.spec_penalty(),
                    error,
                ));
            }
            errors.push(error);
            i = i + 1;
        }
        (observation, fov, errors)
    }

    /// Takes in a sensor that senses all landmarks within its field of view,
    /// and draws the next belief in favour of the particles from which the
    /// map shows the same landmarks.
    ///
    /// The belief never ends up empty or larger than it may be. The step
    /// fails only where the weights of all particles are zero, and then the
    /// belief stays as it was; it cannot fail where no particle carries any
    /// error.
    pub fn observation_update<Z>(&mut self, z: &Z) -> (r: Result<(), LocalizationError>) where
        Z: Sensor<Vec<Point>> + LimitedSensor<i64, Vec<Point>>,

        ensures
            final(self).spec_map() == old(self).spec_map(),
            final(self).spec_penalty() == old(self).spec_penalty(),
            old(self).spec_particles().same_settings(&final(self).spec_particles()),
            1 <= final(self).spec_belief().len() <= final(self).spec_max_particle_count(),
            r matches Err(e) ==> e == LocalizationError::InvalidWeights && final(self).spec_belief()
                == old(self).spec_belief(),
            exists|observation: Seq<Point>, fov: i64, errors: Seq<u64>, weights: Seq<u128>|
                #[trigger] old(self).is_update(
                    observation,
                    fov,
                    errors,
                    weights,
                    r is Ok,
                    final(self).spec_belief(),
                ),
    {
        let (observation, fov, errors) = self.detection_errors(z);
        let r = self.particles.resample_from_errors(
            &errors,
            LANDMARK_UNIFORM_FACTOR,
            &mut self.rng,
        );
        proof {
            let weights = choose|weights: Seq<u128>| #[trigger]
                old(self).spec_particles().is_step(
                    errors@,
                    LANDMARK_UNIFORM_FACTOR,
                    weights,
                    r is Ok,
                    self.spec_belief(),
                );
            assert(old(self).is_update(
                observation@,
                fov,
                errors@,
                weights,
                r is Ok,
                self.spec_belief(),
            ));
        }
        r
    }

    /// The pose that the belief stands for: the componentwise mean of all
    /// particles. Headings are averaged as plain numbers.
    pub fn get_prediction(&self) -> (r: NewPose)
        ensures
            r == spec_mean(self.spec_belief()),
    {
        self.particles.get_prediction()
    }
}

} // verus!
