//! Observation models: how far what a particle would sense is from what the
//! robot did sense.
//!
//! Every function here works on plain readings, so that each model is fixed
//! by its contract whatever the sensors and the map are.

use crate::utility::Point;
use vstd::prelude::*;
use vstd::seq_lib::to_multiset_insert;

verus! {

/// The error charged for a reading that is there on one side and missing on
/// the other, and for each landmark that one side sees and the other does not:
/// six map units.
pub const MISSING_PENALTY: u64 = 6_000_000;

/// `v` if it is a value of `u64`, and the largest `u64` if it is beyond.
pub open spec fn cap(v: int) -> u64 {
    if v > u64::MAX {
        u64::MAX
    } else {
        v as u64
    }
}

/// The reading that a range finder at a particle is expected to give: the
/// distance from `from` to the point `hit` that its ray meets, unless there is
/// no such point or it lies beyond the finder's `range`.
pub open spec fn spec_predicted_reading(
    hit: Option<Point>,
    from: Point,
    range: Option<i64>,
) -> Option<u64> {
    match hit {
        None => None,
        Some(p) => {
            let distance = p.spec_dist(from);
            match range {
                Some(limit) if distance > limit => None,
                _ => Some(distance as u64),
            }
        },
    }
}

/// The reading that a range finder at a particle is expected to give.
pub fn predicted_reading(hit: Option<Point>, from: Point, range: Option<i64>) -> (r: Option<u64>)
    ensures
        r == spec_predicted_reading(hit, from, range),
{
    match hit {
        None => None,
        Some(p) => {
            let distance = p.dist(from);
            match range {
                Some(limit) => {
                    if limit < 0 || distance > limit as u64 {
                        None
                    } else {
                        Some(distance)
                    }
                },
                None => Some(distance),
            }
        },
    }
}

/// The error of one range finder: the gap between the two distances where
/// both sides have one, `penalty` where only one side has one, and nothing
/// where neither has.
pub open spec fn spec_range_error(sensed: Option<i64>, expected: Option<u64>, penalty: u64) -> u64 {
    match (sensed, expected) {
        (Some(d), Some(p)) => cap(
            if d >= p {
                d - p
            } else {
                p - d
            },
        ),
        (Some(_), None) => penalty,
        (None, Some(_)) => penalty,
        (None, None) => 0,
    }
}

/// The error of one range finder, from what it read and what it was expected
/// to read.
pub fn range_error(sensed: Option<i64>, expected: Option<u64>, penalty: u64) -> (r: u64)
    ensures
        r == spec_range_error(sensed, expected, penalty),
{
    match sensed {
        Some(d) => match expected {
            Some(p) => {
                let gap: i128 = d as i128 - p as i128;
                let size: i128 = if gap < 0 {
                    -gap
                } else {
                    gap
                };
                if size > u64::MAX as i128 {
                    u64::MAX
                } else {
                    size as u64
                }
            },
            None => penalty,
        },
        None => match expected {
            Some(_) => penalty,
            None => 0,
        },
    }
}

/// The sum of the errors of all range finders, each given as what it read
/// and what it was expected to read.
pub open spec fn spec_total_range_error(readings: Seq<(Option<i64>, Option<u64>)>, penalty: u64) -> int
    decreases readings.len(),
{
    if readings.len() == 0 {
        0
    } else {
        spec_total_range_error(readings.drop_last(), penalty) + spec_range_error(
            readings.last().0,
            readings.last().1,
            penalty,
        )
    }
}

/// The error of a particle under the range-finder model: the mean of the
/// errors of all range finders, rounded down, and zero where there is none.
pub open spec fn spec_mean_range_error(
    readings: Seq<(Option<i64>, Option<u64>)>,
    penalty: u64,
) -> int {
    if readings.len() == 0 {
        0
    } else {
        spec_total_range_error(readings, penalty) / (readings.len() as int)
    }
}

/// The error of a particle under the range-finder model, from what each range
/// finder read and what it was expected to read at the particle.
pub fn mean_range_error(readings: &Vec<(Option<i64>, Option<u64>)>, penalty: u64) -> (r: u64)
    ensures
        r == spec_mean_range_error(readings@, penalty),
{
    let count = readings.len();
    if count == 0 {
        return 0;
    }
    let mut total: u128 = 0;
    let mut i: usize = 0;
    while i < count
        invariant
            i <= count,
            count == readings.len(),
            total == spec_total_range_error(readings@.take(i as int), penalty),
            total <= i * u64::MAX,
        decreases count - i,
    {
        proof {
            assert(readings@.take(i + 1).drop_last() == readings@.take(i as int));
            assert(i * u64::MAX + u64::MAX <= u128::MAX) by (nonlinear_arith)
                requires
                    i < 0x1_0000_0000_0000_0000,
            ;
        }
        let reading = readings[i];
        total = total + range_error(reading.0, reading.1, penalty) as u128;
        i = i + 1;
    }
    proof {
        assert(readings@.take(count as int) == readings@);
        assert(total as int / count as int <= u64::MAX) by (nonlinear_arith)
            requires
                0 <= total <= count * u64::MAX,
                count > 0,
        ;
    }
    (total / count as u128) as u64
}

/// Whether `a` comes no later than `b` when points are put in order of their
/// distance from the origin; at equal distance the smaller x comes first, and
/// at equal x the smaller y.
pub open spec fn comes_before(a: Point, b: Point) -> bool {
    let da = a.spec_mag_squared();
    let db = b.spec_mag_squared();
    da < db || (da == db && (a.x < b.x || (a.x == b.x && a.y <= b.y)))
}

/// Whether each point of `points` comes no later than all that follow it.
pub open spec fn sorted_by_magnitude(points: Seq<Point>) -> bool {
    forall|i: int, j: int| 0 <= i < j < points.len() ==> comes_before(points[i], points[j])
}

/// Whether `a` comes no later than `b`.
pub fn is_before(a: Point, b: Point) -> (r: bool)
    ensures
        r == comes_before(a, b),
{
    let da = a.mag_squared();
    let db = b.mag_squared();
    da < db || (da == db && (a.x < b.x || (a.x == b.x && a.y <= b.y)))
}

/// The same points in order of their distance from the origin, nearest first.
pub fn sort_by_magnitude(points: &Vec<Point>) -> (sorted: Vec<Point>)
    ensures
        sorted_by_magnitude(sorted@),
        sorted@.to_multiset() == points@.to_multiset(),
        sorted.len() == points.len(),
{
    let mut sorted: Vec<Point> = Vec::new();
    let mut i: usize = 0;
    proof {
        assert(points@.take(0) == Seq::<Point>::empty());
    }
    while i < points.len()
        invariant
            i <= points.len(),
            sorted.len() == i,
            sorted_by_magnitude(sorted@),
            sorted@.to_multiset() == points@.take(i as int).to_multiset(),
        decreases points.len() - i,
    {
        let p = points[i];
        let mut at: usize = 0;
        while at < sorted.len() && is_before(sorted[at], p)
            invariant
                at <= sorted.len(),
                forall|k: int| 0 <= k < at ==> comes_before(sorted[k], p),
            decreases sorted.len() - at,
        {
            at = at + 1;
        }
        proof {
            to_multiset_insert(sorted@, at as int, p);
            vstd::seq_lib::to_multiset_build(points@.take(i as int), p);
            assert(points@.take(i + 1) == points@.take(i as int).push(p));
            let next = sorted@.insert(at as int, p);
            assert forall|a: int, b: int| 0 <= a < b < next.len() implies comes_before(
                next[a],
                next[b],
            ) by {
                if b == at {
                    assert(next[a] == sorted[a]);
                } else if a == at {
                    assert(next[b] == sorted[b - 1]);
                    assert(!comes_before(sorted[at as int], p));
                    if b - 1 > at {
                        assert(comes_before(sorted[at as int], sorted[b - 1]));
                    }
                } else {
                    let a0 = if a < at { a } else { a - 1 };
                    let b0 = if b < at { b } else { b - 1 };
                    assert(next[a] == sorted[a0]);
                    assert(next[b] == sorted[b0]);
                }
            }
        }
        sorted.insert(at, p);
        i = i + 1;
    }
    proof {
        assert(points@.take(points.len() as int) == points@);
    }
    sorted
}

/// The sum of the distances between the points of `sensed` and the points of
/// `expected` that have the same place in their lists, as far as both lists
/// go.
pub open spec fn spec_paired_distance(sensed: Seq<Point>, expected: Seq<Point>, pairs: int) -> int
    decreases pairs,
{
    if pairs <= 0 {
        0
    } else {
        spec_paired_distance(sensed, expected, pairs - 1) + sensed[pairs - 1].spec_dist(
            expected[pairs - 1],
        )
    }
}

/// The error of a particle under the landmark model: the distances between
/// the landmarks sensed and the landmarks expected, paired by their place in
/// the two lists, plus `penalty` for each landmark that has no partner; the
/// largest `u64` where that is beyond it.
pub open spec fn spec_detection_error(sensed: Seq<Point>, expected: Seq<Point>, penalty: u64) -> u64 {
    let pairs = if sensed.len() <= expected.len() {
        sensed.len() as int
    } else {
        expected.len() as int
    };
    let unpaired = sensed.len() + expected.len() - 2 * pairs;
    cap(spec_paired_distance(sensed, expected, pairs) + penalty * unpaired)
}

/// The error of a particle under the landmark model, from the landmarks
/// sensed and the landmarks expected at the particle, both in the robot's
/// frame and both in order of their distance.
pub fn detection_error(sensed: &Vec<Point>, expected: &Vec<Point>, penalty: u64) -> (r: u64)
    ensures
        r == spec_detection_error(sensed@, expected@, penalty),
{
    let pairs: usize = if sensed.len() <= expected.len() {
        sensed.len()
    } else {
        expected.len()
    };
    let unpaired: usize = if sensed.len() <= expected.len() {
        expected.len() - sensed.len()
    } else {
        sensed.len() - expected.len()
    };
    let mut total: u128 = 0;
    let mut k: usize = 0;
    while k < pairs
        invariant
            k <= pairs,
            pairs <= sensed.len(),
            pairs <= expected.len(),
            total == spec_paired_distance(sensed@, expected@, k as int),
            total <= k * u64::MAX,
        decreases pairs - k,
    {
        proof {
            assert(k * u64::MAX + u64::MAX <= u128::MAX) by (nonlinear_arith)
                requires
                    k < 0x1_0000_0000_0000_0000,
            ;
        }
        total = total + sensed[k].dist(expected[k]) as u128;
        k = k + 1;
    }
    proof {
        assert(penalty * unpaired <= 0xffff_ffff_ffff_ffff * 0xffff_ffff_ffff_ffff)
            by (nonlinear_arith)
            requires
                0 <= penalty <= 0xffff_ffff_ffff_ffff,
                0 <= unpaired <= 0xffff_ffff_ffff_ffff,
        ;
        assert(0 <= penalty * unpaired) by (nonlinear_arith)
            requires
                0 <= penalty,
                0 <= unpaired,
        ;
    }
    let missing: u128 = penalty as u128 * unpaired as u128;
    let limit: u128 = u64::MAX as u128;
    if total > limit || missing > limit || total + missing > limit {
        u64::MAX
    } else {
        (total + missing) as u64
    }
}

} // verus!
