//! Weighting a particle cloud and drawing the next cloud from it.
//!
//! Particles are drawn with a chance proportional to their weight until the
//! weights drawn add up to a threshold, or until the cloud is full: a belief
//! that is spread wide keeps many particles, a sharp one few.

use crate::error::LocalizationError;
use crate::random::draw_index;
use crate::random::table_weights;
use crate::random::weight_table;
use crate::random::weight_total;
use crate::utility::NewPose;
use rand::rngs::StdRng;
use vstd::prelude::*;

verus! {

/// The weight 1 in fixed-point representation.
pub const WEIGHT_UNIT: u64 = 1_000_000;

/// How many particles of weight 1 the threshold stands for: the weight that a
/// resampled cloud must reach is the largest number of particles divided by
/// this.
pub const THRESHOLD_DIVISOR: u64 = 60;

/// The weight that a resampled cloud of at most `max_particle_count`
/// particles must reach before drawing stops early.
pub open spec fn spec_threshold(max_particle_count: usize) -> u128 {
    (max_particle_count * WEIGHT_UNIT / (THRESHOLD_DIVISOR as int)) as u128
}

/// The weight that a resampled cloud of at most `max_particle_count`
/// particles must reach before drawing stops early.
pub fn threshold(max_particle_count: usize) -> (r: u128)
    ensures
        r == spec_threshold(max_particle_count),
        r >= 16_666 * max_particle_count,
        r <= 16_667 * max_particle_count,
{
    assert(max_particle_count * WEIGHT_UNIT == max_particle_count * 1_000_000)
        by (nonlinear_arith)
        requires
            WEIGHT_UNIT == 1_000_000,
    ;
    (max_particle_count as u128 * 1_000_000) / 60
}

/// Whether no particle carries any error.
pub open spec fn all_zero(errors: Seq<u64>) -> bool {
    forall|i: int| 0 <= i < errors.len() ==> errors[i] == 0
}

/// The weight that every one of `count` particles gets when the errors tell
/// nothing apart: `factor` times the threshold, shared out evenly.
pub open spec fn spec_uniform_weight(factor: u8, threshold: u128, count: nat) -> int {
    factor * threshold / (count as int)
}

/// Whether `weights` are the weights that belong to `errors`: the uniform
/// weight throughout where no particle carries any error, and otherwise for
/// each particle what `weight_from_error` makes of its error.
pub open spec fn weights_follow<W: Fn(u64) -> u64>(
    errors: Seq<u64>,
    uniform: u128,
    weight_from_error: W,
    weights: Seq<u128>,
) -> bool {
    &&& weights.len() == errors.len()
    &&& all_zero(errors) ==> forall|i: int| 0 <= i < weights.len() ==> weights[i] == uniform
    &&& !all_zero(errors) ==> forall|i: int|
        0 <= i < weights.len() ==> weights[i] <= u64::MAX && weight_from_error.ensures(
            (errors[i],),
            #[trigger] weights[i] as u64,
        )
}

/// Where no particle carries any error, all weights that belong to the errors
/// are the same: the uniform weight.
pub proof fn lemma_zero_errors_give_uniform_weights<W: Fn(u64) -> u64>(
    errors: Seq<u64>,
    uniform: u128,
    weight_from_error: W,
    weights: Seq<u128>,
)
    requires
        all_zero(errors),
        weights_follow(errors, uniform, weight_from_error, weights),
    ensures
        weights.len() == errors.len(),
        forall|i: int| 0 <= i < weights.len() ==> weights[i] == uniform,
        forall|i: int, j: int|
            0 <= i < weights.len() && 0 <= j < weights.len() ==> weights[i] == weights[j],
{
}

/// Whether every error in `errors` is zero.
pub fn is_all_zero(errors: &Vec<u64>) -> (r: bool)
    ensures
        r == all_zero(errors@),
{
    let mut i: usize = 0;
    while i < errors.len()
        invariant
            i <= errors.len(),
            forall|k: int| 0 <= k < i ==> errors[k] == 0,
        decreases errors.len() - i,
    {
        if errors[i] != 0 {
            return false;
        }
        i = i + 1;
    }
    true
}

/// The weight of each particle, from the error of each particle. Where every
/// error is zero the errors tell nothing apart, and every particle gets the
/// weight `uniform`; otherwise each gets what `weight_from_error` makes of
/// its error.
pub fn weights_from_errors<W: Fn(u64) -> u64>(
    errors: &Vec<u64>,
    uniform: u128,
    weight_from_error: &W,
) -> (weights: Vec<u128>)
    requires
        forall|e: u64| weight_from_error.requires((e,)),
    ensures
        weights_follow(errors@, uniform, *weight_from_error, weights@),
{
    let degenerate = is_all_zero(errors);
    let mut weights: Vec<u128> = Vec::new();
    let mut i: usize = 0;
    while i < errors.len()
        invariant
            i <= errors.len(),
            weights.len() == i,
            degenerate == all_zero(errors@),
            forall|e: u64| weight_from_error.requires((e,)),
            degenerate ==> forall|k: int| 0 <= k < i ==> weights[k] == uniform,
            !degenerate ==> forall|k: int|
                0 <= k < i ==> weights[k] <= u64::MAX && weight_from_error.ensures(
                    (errors[k],),
                    #[trigger] weights[k] as u64,
                ),
        decreases errors.len() - i,
    {
        if degenerate {
            weights.push(uniform);
        } else {
            let w: u64 = weight_from_error(errors[i]);
            weights.push(w as u128);
        }
        i = i + 1;
    }
    weights
}

/// The total weight of the particles drawn: the sum, over `picks`, of the
/// weight at each pick.
pub open spec fn drawn_weight(weights: Seq<u128>, picks: Seq<int>) -> int
    decreases picks.len(),
{
    if picks.len() == 0 {
        0
    } else {
        drawn_weight(weights, picks.drop_last()) + weights[picks.last()]
    }
}

/// Whether `new` is a cloud resampled from `old`: its particle `k` is the
/// particle `picks[k]` of `old`, one of positive weight, moved by `noises[k]`,
/// which is no wider than `noise`; and drawing went on exactly as long as
/// fewer than `max_particle_count` particles were drawn and their weights
/// added up to less than `threshold`.
pub open spec fn is_resampling(
    old: Seq<NewPose>,
    weights: Seq<u128>,
    threshold: u128,
    max_particle_count: usize,
    noise: NewPose,
    new: Seq<NewPose>,
    picks: Seq<int>,
    noises: Seq<NewPose>,
) -> bool {
    &&& 1 <= new.len() <= max_particle_count
    &&& picks.len() == new.len()
    &&& noises.len() == new.len()
    &&& forall|k: int|
        #![trigger picks[k]]
        0 <= k < new.len() ==> {
            &&& 0 <= picks[k] < old.len()
            &&& weights[picks[k]] > 0
            &&& noises[k].drawn_within(noise)
            &&& new[k] == old[picks[k]].spec_plus(noises[k])
        }
    &&& drawn_weight(weights, picks) >= threshold || new.len() == max_particle_count
    &&& drawn_weight(weights, picks.drop_last()) < threshold
}

/// Why no cloud can be resampled from `particles` particles, if none can: the
/// weights allow no draw (they are not one for each particle, there are none,
/// all are zero, or their sum is not representable), or the stopping rule lets
/// not even one particle through.
pub open spec fn resampling_failure(
    particles: nat,
    weights: Seq<u128>,
    threshold: u128,
    max_particle_count: usize,
) -> Option<LocalizationError> {
    if weights.len() != particles || weight_total(weights) == 0 || weight_total(weights)
        > u128::MAX {
        Some(LocalizationError::InvalidWeights)
    } else if threshold == 0 || max_particle_count == 0 {
        Some(LocalizationError::EmptyBelief)
    } else {
        None
    }
}

/// The total of the first `k` weights is no more than the total of all.
pub proof fn lemma_weight_total_prefix(weights: Seq<u128>, k: int)
    requires
        0 <= k <= weights.len(),
    ensures
        weight_total(weights.take(k)) <= weight_total(weights),
    decreases weights.len() - k,
{
    if k == weights.len() {
        assert(weights.take(k) == weights);
    } else {
        lemma_weight_total_prefix(weights, k + 1);
        assert(weights.take(k + 1).drop_last() == weights.take(k));
    }
}

/// The sum of `weights`, if it can be represented.
pub fn total_weight(weights: &Vec<u128>) -> (r: Option<u128>)
    ensures
        match r {
            Some(total) => total == weight_total(weights@),
            None => weight_total(weights@) > u128::MAX,
        },
{
    let mut total: u128 = 0;
    let mut i: usize = 0;
    while i < weights.len()
        invariant
            i <= weights.len(),
            total == weight_total(weights@.take(i as int)),
        decreases weights.len() - i,
    {
        proof {
            assert(weights@.take(i + 1).drop_last() == weights@.take(i as int));
            lemma_weight_total_prefix(weights@, i + 1);
        }
        match total.checked_add(weights[i]) {
            Some(next) => {
                total = next;
            },
            None => {
                return None;
            },
        }
        i = i + 1;
    }
    proof {
        assert(weights@.take(weights.len() as int) == weights@);
    }
    Some(total)
}

/// Draws the next cloud from `belief`: particles are picked at random, each
/// with a chance proportional to its weight, and each pick is moved by a
/// random pose no wider than `resampling_noise`. Drawing stops as soon as the
/// weights of the picks add up to `weight_sum_threshold` or
/// `max_particle_count` particles are drawn, whichever comes first.
pub fn resample(
    belief: &Vec<NewPose>,
    weights: &Vec<u128>,
    weight_sum_threshold: u128,
    max_particle_count: usize,
    resampling_noise: NewPose,
    rng: &mut StdRng,
) -> (r: Result<Vec<NewPose>, LocalizationError>)
    ensures
        r matches Err(e) ==> resampling_failure(
            belief@.len(),
            weights@,
            weight_sum_threshold,
            max_particle_count,
        ) == Some(e),
        r matches Ok(particles) ==> resampling_failure(
            belief@.len(),
            weights@,
            weight_sum_threshold,
            max_particle_count,
        ) is None && exists|picks: Seq<int>, noises: Seq<NewPose>|
            is_resampling(
                belief@,
                weights@,
                weight_sum_threshold,
                max_particle_count,
                resampling_noise,
                particles@,
                picks,
                noises,
            ),
{
    if weights.len() != belief.len() {
        return Err(LocalizationError::InvalidWeights);
    }
    let total = total_weight(weights);
    if total.is_none() {
        return Err(LocalizationError::InvalidWeights);
    }
    let table = match weight_table(weights) {
        Ok(table) => table,
        Err(_) => {
            return Err(LocalizationError::InvalidWeights);
        },
    };
    if weight_sum_threshold == 0 || max_particle_count == 0 {
        return Err(LocalizationError::EmptyBelief);
    }
    let mut particles: Vec<NewPose> = Vec::new();
    let mut sum: u128 = 0;
    let ghost mut picks: Seq<int> = Seq::empty();
    let ghost mut noises: Seq<NewPose> = Seq::empty();
    while sum < weight_sum_threshold && particles.len() < max_particle_count
        invariant
            weights.len() == belief.len(),
            table_weights(table) == weights@,
            resampling_failure(
                belief@.len(),
                weights@,
                weight_sum_threshold,
                max_particle_count,
            ) is None,
            particles.len() <= max_particle_count,
            picks.len() == particles.len(),
            noises.len() == particles.len(),
            forall|k: int|
                #![trigger picks[k]]
                0 <= k < particles.len() ==> {
                    &&& 0 <= picks[k] < belief.len()
                    &&& weights[picks[k]] > 0
                    &&& noises[k].drawn_within(resampling_noise)
                    &&& particles[k] == belief[picks[k]].spec_plus(noises[k])
                },
            sum == if drawn_weight(weights@, picks) > u128::MAX {
                u128::MAX as int
            } else {
                drawn_weight(weights@, picks)
            },
            particles.len() > 0 ==> drawn_weight(weights@, picks.drop_last())
                < weight_sum_threshold,
        decreases max_particle_count - particles.len(),
    {
        let index = draw_index(&table, rng);
        let noise = NewPose::random_from_range(resampling_noise, rng);
        proof {
            assert(picks.push(index as int).drop_last() == picks);
            picks = picks.push(index as int);
            noises = noises.push(noise);
        }
        sum = match sum.checked_add(weights[index]) {
            Some(next) => next,
            None => u128::MAX,
        };
        particles.push(belief[index] + noise);
    }
    assert(is_resampling(
        belief@,
        weights@,
        weight_sum_threshold,
        max_particle_count,
        resampling_noise,
        particles@,
        picks,
        noises,
    ));
    let r: Result<Vec<NewPose>, LocalizationError> = Ok(particles);
    assert(r matches Ok(p) && is_resampling(
        belief@,
        weights@,
        weight_sum_threshold,
        max_particle_count,
        resampling_noise,
        p@,
        picks,
        noises,
    ));
    r
}

/// The uniform weight of a cloud that holds no more particles than it may is
/// positive, whatever the factor, as long as that is positive; and the uniform
/// weights of all particles together come to no more than the factor times the
/// threshold.
pub proof fn lemma_uniform_weight_positive(factor: u8, max_particle_count: usize, count: nat)
    requires
        factor >= 1,
        1 <= count <= max_particle_count,
    ensures
        spec_uniform_weight(factor, spec_threshold(max_particle_count), count) >= 16_666,
        count * spec_uniform_weight(factor, spec_threshold(max_particle_count), count) <= factor
            * spec_threshold(max_particle_count),
        factor * spec_threshold(max_particle_count) <= 0xffff_ffff_ffff_ffff_ffff_ffff,
{
    let t = spec_threshold(max_particle_count) as int;
    assert(max_particle_count * WEIGHT_UNIT == max_particle_count * 1_000_000)
        by (nonlinear_arith)
        requires
            WEIGHT_UNIT == 1_000_000,
    ;
    assert(t == (max_particle_count * 1_000_000) / 60);
    assert(t >= 16_666 * max_particle_count);
    assert(t <= 16_667 * max_particle_count);
    assert(0 <= factor * t <= 255 * t) by (nonlinear_arith)
        requires
            0 <= factor <= 255,
            0 <= t,
    ;
    assert(factor * t >= 16_666 * count) by (nonlinear_arith)
        requires
            factor >= 1,
            t >= 16_666 * max_particle_count,
            count <= max_particle_count,
            count >= 1,
    ;
    let product = factor * t;
    let share = product / (count as int);
    vstd::arithmetic::div_mod::lemma_fundamental_div_mod(product, count as int);
    assert(share >= 16_666 && count * share <= product) by (nonlinear_arith)
        requires
            product == count * share + product % (count as int),
            0 <= product % (count as int) < count,
            product >= 16_666 * count,
            count >= 1,
    ;
}

/// Weights that are all the same add up to that weight times their number.
pub proof fn lemma_constant_weights_total(weights: Seq<u128>, weight: u128)
    requires
        forall|i: int| 0 <= i < weights.len() ==> weights[i] == weight,
    ensures
        weight_total(weights) == weights.len() * weight,
    decreases weights.len(),
{
    if weights.len() > 0 {
        lemma_constant_weights_total(weights.drop_last(), weight);
        assert(weights.len() * weight == (weights.len() - 1) * weight + weight)
            by (nonlinear_arith);
    }
}

/// The total of weights that each fit 64 bits fits 128 bits.
pub proof fn lemma_small_weights_total(weights: Seq<u128>)
    requires
        weights.len() <= usize::MAX,
        forall|i: int| 0 <= i < weights.len() ==> weights[i] <= u64::MAX,
    ensures
        weight_total(weights) <= weights.len() * u64::MAX,
        weight_total(weights) <= u128::MAX,
    decreases weights.len(),
{
    if weights.len() > 0 {
        lemma_small_weights_total(weights.drop_last());
    }
    assert(weights.len() * u64::MAX <= u128::MAX) by (nonlinear_arith)
        requires
            weights.len() <= 0xffff_ffff_ffff_ffff,
    ;
}

} // verus!
