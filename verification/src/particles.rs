//! A particle cloud together with the settings of its localizer, and the
//! steps of a localizer on it.

use crate::belief::is_shifted;
use crate::belief::mean_pose;
use crate::belief::shifted;
use crate::belief::spec_mean;
use crate::error::LocalizationError;
use crate::random::weight_total;
use crate::resampling::all_zero;
use crate::resampling::is_resampling;
use crate::resampling::lemma_constant_weights_total;
use crate::resampling::lemma_small_weights_total;
use crate::resampling::lemma_uniform_weight_positive;
use crate::resampling::resample;
use crate::resampling::spec_threshold;
use crate::resampling::spec_uniform_weight;
use crate::resampling::threshold;
use crate::resampling::weights_follow;
use crate::resampling::weights_from_errors;
use crate::resampling::WEIGHT_UNIT;
use crate::utility::NewPose;
use rand::rngs::StdRng;
use vstd::prelude::*;

verus! {

/// The particle cloud of a localizer, with all that is needed to move it and
/// to draw the next cloud from it.
pub struct Particles<W: Fn(u64) -> u64> {
    belief: Vec<NewPose>,
    max_particle_count: usize,
    weight_sum_threshold: u128,
    weight_from_error: W,
    resampling_noise: NewPose,
}

impl<W: Fn(u64) -> u64> Particles<W> {
    #[verifier::type_invariant]
    spec fn well_formed(&self) -> bool {
        &&& 1 <= self.belief@.len() <= self.max_particle_count
        &&& self.weight_sum_threshold == spec_threshold(self.max_particle_count)
        &&& forall|e: u64| self.weight_from_error.requires((e,))
    }

    /// The particles.
    pub closed spec fn spec_belief(&self) -> Seq<NewPose> {
        self.belief@
    }

    /// The largest number of particles that the cloud may hold.
    pub closed spec fn spec_max_particle_count(&self) -> usize {
        self.max_particle_count
    }

    /// The function that turns the error of a particle into its weight.
    pub closed spec fn spec_weight_from_error(&self) -> W {
        self.weight_from_error
    }

    /// The half-widths of the noise that a resampled particle is moved by.
    pub closed spec fn spec_resampling_noise(&self) -> NewPose {
        self.resampling_noise
    }

    /// Whether `other` differs from this cloud in nothing but its particles.
    pub open spec fn same_settings(&self, other: &Self) -> bool {
        &&& other.spec_max_particle_count() == self.spec_max_particle_count()
        &&& other.spec_weight_from_error() == self.spec_weight_from_error()
        &&& other.spec_resampling_noise() == self.spec_resampling_noise()
    }

    /// Whether `weights` and `after` are what a resampling step from this
    /// cloud can come to, given the error of each particle: `weights` are the
    /// weights that belong to the errors; the step fails exactly where they
    /// are all zero; and where it succeeds, `after` is a cloud resampled from
    /// this one under those weights.
    pub open spec fn is_step(
        &self,
        errors: Seq<u64>,
        factor: u8,
        weights: Seq<u128>,
        succeeded: bool,
        after: Seq<NewPose>,
    ) -> bool {
        &&& weights_follow(
            errors,
            spec_uniform_weight(
                factor,
                spec_threshold(self.spec_max_particle_count()),
                self.spec_belief().len(),
            ) as u128,
            self.spec_weight_from_error(),
            weights,
        )
        &&& succeeded <==> weight_total(weights) > 0
        &&& succeeded ==> exists|picks: Seq<int>, noises: Seq<NewPose>|
            is_resampling(
                self.spec_belief(),
                weights,
                spec_threshold(self.spec_max_particle_count()),
                self.spec_max_particle_count(),
                self.spec_resampling_noise(),
                after,
                picks,
                noises,
            )
    }

    /// A cloud that starts from the first `max_particle_count` particles of
    /// `belief`. There must be at least one.
    pub fn new(
        belief: Vec<NewPose>,
        max_particle_count: usize,
        weight_from_error: W,
        resampling_noise: NewPose,
    ) -> (r: Result<Self, LocalizationError>)
        requires
            forall|e: u64| weight_from_error.requires((e,)),
        ensures
            r is Err <==> belief.len() == 0 || max_particle_count == 0,
            r matches Err(e) ==> e == LocalizationError::EmptyBelief,
            r matches Ok(cloud) ==> {
                &&& cloud.spec_max_particle_count() == max_particle_count
                &&& cloud.spec_weight_from_error() == weight_from_error
                &&& cloud.spec_resampling_noise() == resampling_noise
                &&& cloud.spec_belief() == if belief.len() <= max_particle_count {
                    belief@
                } else {
                    belief@.take(max_particle_count as int)
                }
            },
    {
        if belief.len() == 0 || max_particle_count == 0 {
            return Err(LocalizationError::EmptyBelief);
        }
        let mut belief = belief;
        if belief.len() > max_particle_count {
            belief.truncate(max_particle_count);
        }
        Ok(
            Particles {
                belief,
                max_particle_count,
                weight_sum_threshold: threshold(max_particle_count),
                weight_from_error,
                resampling_noise,
            },
        )
    }

    /// The particles.
    pub fn belief(&self) -> (r: &Vec<NewPose>)
        ensures
            r@ == self.spec_belief(),
            1 <= r.len() <= self.spec_max_particle_count(),
    {
        proof {
            use_type_invariant(self);
        }
        &self.belief
    }

    /// The largest number of particles that the cloud may hold.
    pub fn max_particle_count(&self) -> (r: usize)
        ensures
            r == self.spec_max_particle_count(),
            r >= 1,
    {
        proof {
            use_type_invariant(self);
        }
        self.max_particle_count
    }

    /// The weight that a resampled cloud must reach before drawing stops
    /// early.
    pub fn weight_sum_threshold(&self) -> (r: u128)
        ensures
            r == spec_threshold(self.spec_max_particle_count()),
    {
        proof {
            use_type_invariant(self);
        }
        self.weight_sum_threshold
    }

    /// The weight that every particle gets when the errors tell nothing
    /// apart: `factor` times the threshold, shared out evenly.
    pub fn uniform_weight(&self, factor: u8) -> (r: u128)
        ensures
            r == spec_uniform_weight(
                factor,
                spec_threshold(self.spec_max_particle_count()),
                self.spec_belief().len(),
            ),
            factor >= 1 ==> r > 0,
    {
        proof {
            use_type_invariant(self);
            if factor >= 1 {
                lemma_uniform_weight_positive(factor, self.max_particle_count, self.belief@.len());
            }
            assert(self.weight_sum_threshold <= 16_667 * self.max_particle_count) by {
                assert(self.max_particle_count * WEIGHT_UNIT == self.max_particle_count * 1_000_000)
                    by (nonlinear_arith)
                    requires
                        WEIGHT_UNIT == 1_000_000,
                ;
            }
            assert(0 <= factor * self.weight_sum_threshold <= 255 * self.weight_sum_threshold)
                by (nonlinear_arith)
                requires
                    0 <= factor <= 255,
                    0 <= self.weight_sum_threshold,
            ;
        }
        factor as u128 * self.weight_sum_threshold / (self.belief.len() as u128)
    }

    /// Moves every particle by `update`, the change of pose since the last
    /// step.
    pub fn control_update(&mut self, update: NewPose)
        ensures
            old(self).same_settings(final(self)),
            is_shifted(old(self).spec_belief(), update, final(self).spec_belief()),
    {
        proof {
            use_type_invariant(&*self);
        }
        let moved = shifted(&self.belief, update);
        self.belief = moved;
    }

    /// Draws the next cloud from this one, given the error of each particle.
    /// Where no particle carries any error, every particle gets `factor`
    /// times the threshold divided by the number of particles as its weight,
    /// and the step cannot fail. A list of errors that is not as long as the
    /// cloud is refused like weights that allow no draw, and so is a `factor`
    /// of zero.
    pub fn resample_from_errors(
        &mut self,
        errors: &Vec<u64>,
        factor: u8,
        rng: &mut StdRng,
    ) -> (r: Result<(), LocalizationError>)
        ensures
            old(self).same_settings(final(self)),
            1 <= final(self).spec_belief().len() <= final(self).spec_max_particle_count(),
            r matches Err(e) ==> e == LocalizationError::InvalidWeights && final(self).spec_belief()
                == old(self).spec_belief(),
            errors.len() != old(self).spec_belief().len() || factor == 0 ==> r is Err,
            errors.len() == old(self).spec_belief().len() && factor >= 1 ==> exists|
                weights: Seq<u128>,
            |
                #[trigger] old(self).is_step(
                    errors@,
                    factor,
                    weights,
                    r is Ok,
                    final(self).spec_belief(),
                ),
            errors.len() == old(self).spec_belief().len() && factor >= 1 && all_zero(errors@)
                ==> r is Ok,
    {
        proof {
            use_type_invariant(&*self);
        }
        if errors.len() != self.belief.len() || factor == 0 {
            return Err(LocalizationError::InvalidWeights);
        }
        let ghost before = self.belief@;
        let uniform = self.uniform_weight(factor);
        let weights = weights_from_errors(errors, uniform, &self.weight_from_error);
        proof {
            if all_zero(errors@) {
                lemma_constant_weights_total(weights@, uniform);
                lemma_uniform_weight_positive(factor, self.max_particle_count, self.belief@.len());
                assert(weights@.len() * uniform >= uniform) by (nonlinear_arith)
                    requires
                        weights@.len() >= 1,
                        uniform >= 0,
                ;
            } else {
                lemma_small_weights_total(weights@);
            }
        }
        let drawn = resample(
            &self.belief,
            &weights,
            self.weight_sum_threshold,
            self.max_particle_count,
            self.resampling_noise,
            rng,
        );
        let r: Result<(), LocalizationError> = match drawn {
            Ok(particles) => {
                proof {
                    let (picks, noises) = choose|picks: Seq<int>, noises: Seq<NewPose>|
                        is_resampling(
                            self.belief@,
                            weights@,
                            self.weight_sum_threshold,
                            self.max_particle_count,
                            self.resampling_noise,
                            particles@,
                            picks,
                            noises,
                        );
                    assert(is_resampling(
                        old(self).spec_belief(),
                        weights@,
                        spec_threshold(old(self).spec_max_particle_count()),
                        old(self).spec_max_particle_count(),
                        old(self).spec_resampling_noise(),
                        particles@,
                        picks,
                        noises,
                    ));
                }
                self.belief = particles;
                Ok(())
            },
            Err(_) => Err(LocalizationError::InvalidWeights),
        };
        assert(weights_follow(
            errors@,
            spec_uniform_weight(
                factor,
                spec_threshold(old(self).spec_max_particle_count()),
                old(self).spec_belief().len(),
            ) as u128,
            old(self).spec_weight_from_error(),
            weights@,
        ));
        assert(r is Ok <==> weight_total(weights@) > 0);
        assert(old(self).is_step(errors@, factor, weights@, r is Ok, self.spec_belief()));
        r
    }

    /// The pose that the cloud stands for: the mean of its particles.
    pub fn get_prediction(&self) -> (r: NewPose)
        ensures
            r == spec_mean(self.spec_belief()),
    {
        proof {
            use_type_invariant(self);
        }
        mean_pose(&self.belief)
    }
}

} // verus!
