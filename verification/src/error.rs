//! What can go wrong while a generation is bred.

use vstd::prelude::*;

verus! {

/// The ways in which an operator, or the driver that composes them, fails.
/// Any of them ends the generation under way: nothing partial is kept.
#[derive(Clone, Copy, Debug, PartialEq, Eq, Structural)]
pub enum GaError {
    /// Selection was asked to choose among no candidates.
    EmptyPopulation,
    /// A fitness is negative, infinite or not a number, or no fitness is
    /// above zero, so that no draw can be weighted by them.
    InvalidFitness,
    /// Two parents of different lengths were to be crossed.
    ChromosomeLengthMismatch,
    /// A mutation was configured with a chance outside zero to one.
    InvalidConfiguration,
    /// A drawn value does not answer what was asked: an index that selects
    /// nobody, a run of draws of the wrong length, or a draw of the wrong
    /// kind for the stage the generation is in.
    InvalidDraw,
}

} // verus!
