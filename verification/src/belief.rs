//! The particle cloud of a Monte Carlo localizer: how the first cloud is
//! made, how a cloud is moved, and how its mean is read off.

use crate::random::drawn_from;
use crate::utility::quotient;
use crate::utility::quotient_toward_zero;
use crate::utility::NewPose;
use crate::utility::Point;
use crate::utility::FULL_TURN;
use rand::rngs::StdRng;
use std::ops::Range;
use vstd::prelude::*;

verus! {


/// The componentwise sums of a sequence of poses.
pub struct PoseTotals {
    pub angle: int,
    pub x: int,
    pub y: int,
    pub vel_angle: int,
    pub vel_x: int,
    pub vel_y: int,
}

/// The componentwise sums of `particles`, without any wrapping or rounding.
pub open spec fn totals(particles: Seq<NewPose>) -> PoseTotals
    decreases particles.len(),
{
    if particles.len() == 0 {
        PoseTotals { angle: 0, x: 0, y: 0, vel_angle: 0, vel_x: 0, vel_y: 0 }
    } else {
        let rest = totals(particles.drop_last());
        let p = particles.last();
        PoseTotals {
            angle: rest.angle + p.angle,
            x: rest.x + p.position.x,
            y: rest.y + p.position.y,
            vel_angle: rest.vel_angle + p.vel_angle,
            vel_x: rest.vel_x + p.velocity.x,
            vel_y: rest.vel_y + p.velocity.y,
        }
    }
}

/// The componentwise arithmetic mean of `particles`, each component rounded
/// toward zero. Headings are averaged as plain numbers.
pub open spec fn spec_mean(particles: Seq<NewPose>) -> NewPose {
    let sum = totals(particles);
    let n = particles.len() as int;
    NewPose {
        angle: quotient_toward_zero(sum.angle, n) as i64,
        position: Point {
            x: quotient_toward_zero(sum.x, n) as i64,
            y: quotient_toward_zero(sum.y, n) as i64,
        },
        vel_angle: quotient_toward_zero(sum.vel_angle, n) as i64,
        velocity: Point {
            x: quotient_toward_zero(sum.vel_x, n) as i64,
            y: quotient_toward_zero(sum.vel_y, n) as i64,
        },
    }
}

/// Whether every component of `sum` lies between `n` times the least and `n`
/// times the greatest `i64`.
pub open spec fn totals_within(sum: PoseTotals, n: int) -> bool {
    &&& n * i64::MIN <= sum.angle <= n * i64::MAX
    &&& n * i64::MIN <= sum.x <= n * i64::MAX
    &&& n * i64::MIN <= sum.y <= n * i64::MAX
    &&& n * i64::MIN <= sum.vel_angle <= n * i64::MAX
    &&& n * i64::MIN <= sum.vel_x <= n * i64::MAX
    &&& n * i64::MIN <= sum.vel_y <= n * i64::MAX
}

/// The mean of `n` values of `i64` is itself a value of `i64`.
pub proof fn lemma_mean_fits(sum: int, n: int)
    requires
        n > 0,
        n * i64::MIN <= sum <= n * i64::MAX,
    ensures
        i64::MIN <= quotient_toward_zero(sum, n) <= i64::MAX,
{
    if sum >= 0 {
        assert(sum / n <= i64::MAX) by (nonlinear_arith)
            requires
                n > 0,
                0 <= sum <= n * i64::MAX,
        ;
        assert(0 <= sum / n) by (nonlinear_arith)
            requires
                n > 0,
                0 <= sum,
        ;
    } else {
        assert((-sum) / n <= -i64::MIN) by (nonlinear_arith)
            requires
                n > 0,
                0 <= -sum <= n * (-i64::MIN),
        ;
        assert(0 <= (-sum) / n) by (nonlinear_arith)
            requires
                n > 0,
                0 <= -sum,
        ;
    }
}

/// The mean pose of a cloud: the componentwise arithmetic mean of its
/// particles.
pub fn mean_pose(belief: &Vec<NewPose>) -> (r: NewPose)
    requires
        belief.len() > 0,
    ensures
        r == spec_mean(belief@),
        totals_within(totals(belief@), belief.len() as int),
{
    let mut angle: i128 = 0;
    let mut x: i128 = 0;
    let mut y: i128 = 0;
    let mut vel_angle: i128 = 0;
    let mut vel_x: i128 = 0;
    let mut vel_y: i128 = 0;
    let mut i: usize = 0;
    while i < belief.len()
        invariant
            i <= belief.len(),
            totals(belief@.take(i as int)) == (PoseTotals {
                angle: angle as int,
                x: x as int,
                y: y as int,
                vel_angle: vel_angle as int,
                vel_x: vel_x as int,
                vel_y: vel_y as int,
            }),
            totals_within(totals(belief@.take(i as int)), i as int),
        decreases belief.len() - i,
    {
        let p = belief[i];
        proof {
            assert(belief@.take(i + 1).drop_last() == belief@.take(i as int));
            assert(belief@.take(i + 1).last() == p);
            assert(i < 0x1_0000_0000_0000_0000);
        }
        angle = angle + p.angle as i128;
        x = x + p.position.x as i128;
        y = y + p.position.y as i128;
        vel_angle = vel_angle + p.vel_angle as i128;
        vel_x = vel_x + p.velocity.x as i128;
        vel_y = vel_y + p.velocity.y as i128;
        i = i + 1;
    }
    let n: i128 = belief.len() as i128;
    proof {
        assert(belief@.take(belief.len() as int) == belief@);
        let sum = totals(belief@);
        lemma_mean_fits(sum.angle, n as int);
        lemma_mean_fits(sum.x, n as int);
        lemma_mean_fits(sum.y, n as int);
        lemma_mean_fits(sum.vel_angle, n as int);
        lemma_mean_fits(sum.vel_x, n as int);
        lemma_mean_fits(sum.vel_y, n as int);
    }
    NewPose {
        angle: quotient(angle, n) as i64,
        position: Point { x: quotient(x, n) as i64, y: quotient(y, n) as i64 },
        vel_angle: quotient(vel_angle, n) as i64,
        velocity: Point { x: quotient(vel_x, n) as i64, y: quotient(vel_y, n) as i64 },
    }
}

/// Whether `after` is the cloud `before` with every particle moved by
/// `update`.
pub open spec fn is_shifted(before: Seq<NewPose>, update: NewPose, after: Seq<NewPose>) -> bool {
    &&& after.len() == before.len()
    &&& forall|i: int| 0 <= i < before.len() ==> #[trigger] after[i] == before[i].spec_plus(update)
}

/// The cloud with every particle moved by the same increment.
pub fn shifted(belief: &Vec<NewPose>, update: NewPose) -> (moved: Vec<NewPose>)
    ensures
        is_shifted(belief@, update, moved@),
{
    let mut moved: Vec<NewPose> = Vec::new();
    let mut i: usize = 0;
    while i < belief.len()
        invariant
            i <= belief.len(),
            moved.len() == i,
            forall|k: int| 0 <= k < i ==> #[trigger] moved[k] == belief[k].spec_plus(update),
        decreases belief.len() - i,
    {
        moved.push(belief[i] + update);
        i = i + 1;
    }
    moved
}

/// The first cloud of a localizer.
pub struct NewPoseBelief {}

impl NewPoseBelief {
    /// Whether `p` may be a particle of a cloud spread evenly over the map
    /// from the origin to `max_position`: any heading, any position on the
    /// map, and at rest.
    pub open spec fn spread_over(p: NewPose, max_position: Point) -> bool {
        &&& drawn_from(p.angle, 0, FULL_TURN)
        &&& drawn_from(p.position.x, 0, max_position.x)
        &&& drawn_from(p.position.y, 0, max_position.y)
        &&& p.vel_angle == 0
        &&& p.velocity == (Point { x: 0, y: 0 })
    }

    /// The particle that the samples at place `i` make: heading and angular
    /// velocity from the angle sample, position and velocity from the x and y
    /// samples.
    pub open spec fn from_samples(angles: Seq<i64>, xs: Seq<i64>, ys: Seq<i64>, i: int) -> NewPose {
        NewPose {
            angle: angles[i],
            position: Point { x: xs[i], y: ys[i] },
            vel_angle: angles[i],
            velocity: Point { x: xs[i], y: ys[i] },
        }
    }

    /// How many particles come of these samples: as many as every list has,
    /// and no more than `max_particle_count`.
    pub open spec fn sample_count(
        max_particle_count: usize,
        angles: Seq<i64>,
        xs: Seq<i64>,
        ys: Seq<i64>,
    ) -> int {
        let a = if angles.len() < xs.len() {
            angles.len()
        } else {
            xs.len()
        };
        let b = if a < ys.len() {
            a
        } else {
            ys.len()
        };
        if b < max_particle_count {
            b as int
        } else {
            max_particle_count as int
        }
    }

    /// A cloud of `max_particle_count` particles spread evenly over the map
    /// from the origin to `max_position`.
    pub fn new(max_particle_count: usize, max_position: Point, rng: &mut StdRng) -> (belief: Vec<
        NewPose,
    >)
        ensures
            belief.len() == max_particle_count,
            forall|i: int|
                0 <= i < belief.len() ==> Self::spread_over(#[trigger] belief[i], max_position),
    {
        let mut belief: Vec<NewPose> = Vec::new();
        while belief.len() < max_particle_count
            invariant
                belief.len() <= max_particle_count,
                forall|i: int|
                    0 <= i < belief.len() ==> Self::spread_over(#[trigger] belief[i], max_position),
            decreases max_particle_count - belief.len(),
        {
            let particle = NewPose::random(
                Range { start: 0, end: FULL_TURN },
                Range { start: 0, end: max_position.x },
                Range { start: 0, end: max_position.y },
                Range { start: 0, end: 0 },
                Range { start: 0, end: 0 },
                Range { start: 0, end: 0 },
                rng,
            );
            belief.push(particle);
        }
        belief
    }

    /// A cloud made of samples that the caller has drawn: one list of angles
    /// and, in a pair, one list each of x and y coordinates.
    pub fn from_distributions(
        max_particle_count: usize,
        samples: (Vec<i64>, (Vec<i64>, Vec<i64>)),
    ) -> (belief: Vec<NewPose>)
        ensures
            belief.len() == Self::sample_count(
                max_particle_count,
                samples.0@,
                samples.1.0@,
                samples.1.1@,
            ),
            forall|i: int|
                0 <= i < belief.len() ==> #[trigger] belief[i] == Self::from_samples(
                    samples.0@,
                    samples.1.0@,
                    samples.1.1@,
                    i,
                ),
    {
        let (angles, (xs, ys)) = samples;
        let mut belief: Vec<NewPose> = Vec::new();
        while belief.len() < max_particle_count && belief.len() < angles.len() && belief.len()
            < xs.len() && belief.len() < ys.len()
            invariant
                belief.len() <= max_particle_count,
                belief.len() <= angles.len(),
                belief.len() <= xs.len(),
                belief.len() <= ys.len(),
                forall|i: int|
                    0 <= i < belief.len() ==> #[trigger] belief[i] == Self::from_samples(
                        angles@,
                        xs@,
                        ys@,
                        i,
                    ),
            decreases max_particle_count - belief.len(),
        {
            let i = belief.len();
            belief.push(
                NewPose {
                    angle: angles[i],
                    position: Point { x: xs[i], y: ys[i] },
                    vel_angle: angles[i],
                    velocity: Point { x: xs[i], y: ys[i] },
                },
            );
        }
        belief
    }
}

} // verus!
