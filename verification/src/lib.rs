//! Probabilistic localization of a mobile robot on a static 2D map, in
//! fixed-point arithmetic.
//!
//! Every length and every angle is an integer count of millionths: one map
//! unit and one radian are both [`utility::UNIT`]. All arithmetic on them is
//! exact integer arithmetic, so every function here has a precise contract.
//!
//! The localizers of [`localization`] are particle filters. They keep their
//! particles in a cloud ([`belief`], [`particles`]), weigh them by how well
//! they explain what the sensors read ([`models`], [`sensors`]) on the map
//! ([`map`], [`geometry`]), and draw the next cloud at random
//! ([`resampling`], [`random`]). What is real-valued by nature stays outside:
//! the sine and cosine behind the headings of a map, the function from the
//! error of a particle to its weight, and the noise of the simulated sensors
//! of [`dummy`] are handed in by the caller.

pub mod belief;
pub mod dummy;
pub mod error;
pub mod geometry;
pub mod localization;
pub mod map;
pub mod models;
pub mod particles;
pub mod random;
pub mod resampling;
pub mod sensors;
pub mod utility;
