//! The ways in which a localizer can fail.

use vstd::prelude::*;

verus! {

/// Why a map could not be built or a filter step could not be taken.
#[derive(Clone, Copy, Debug, PartialEq, Eq, Structural)]
pub enum LocalizationError {
    /// No particle can be drawn from the weights: there are none, they are all
    /// zero, or their sum cannot be represented.
    InvalidWeights,
    /// A belief would hold no particle at all.
    EmptyBelief,
    /// A wall or a landmark names a vertex that the map does not have, or a
    /// wall runs from a vertex to itself.
    MapIndexOutOfRange,
    /// A map extent or a vertex lies outside the range that map geometry is
    /// computed in.
    CoordinateOutOfRange,
}

} // verus!
