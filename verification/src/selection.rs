//! Fitness-proportionate choice of parents.

use crate::error::GaError;
use crate::individual::Individual;
use crate::single;
use vstd::prelude::*;

verus! {

/// Every weight is a finite value that is zero or more.
pub open spec fn all_non_negative(weights: Seq<u32>) -> bool {
    forall|i: int| 0 <= i < weights.len() ==> single::non_negative(#[trigger] weights[i])
}

/// At least one weight is above zero. For weights that are all zero or
/// more this is the same as their total being above zero.
pub open spec fn some_positive(weights: Seq<u32>) -> bool {
    exists|i: int| 0 <= i < weights.len() && single::positive(#[trigger] weights[i])
}

/// Why no draw can be made over `weights`, if none can.
pub open spec fn fault(weights: Seq<u32>) -> Option<GaError> {
    if weights.len() == 0 {
        Some(GaError::EmptyPopulation)
    } else if !all_non_negative(weights) || !some_positive(weights) {
        Some(GaError::InvalidFitness)
    } else {
        None
    }
}

/// What becomes of the index `drawn` over `weights`: it stands when the
/// weights allow a draw and it names a candidate whose weight is above
/// zero, the only kind a weighted draw can land on.
pub open spec fn selected(drawn: usize, weights: Seq<u32>) -> Result<usize, GaError> {
    match fault(weights) {
        Some(error) => Err(error),
        None => if drawn < weights.len() && single::positive(weights[drawn as int]) {
            Ok(drawn)
        } else {
            Err(GaError::InvalidDraw)
        },
    }
}

/// Roulette-wheel selection: each candidate is chosen with a probability
/// proportional to its fitness.
///
/// The wheel itself is spun by the caller, with one weighted draw over the
/// fitness values in population order; this type says whether a draw can
/// be made at all and whether the drawn index is one that a wheel can
/// stop at.
#[derive(Clone, Copy, Debug, Default)]
pub struct RouletteWheelSelection;

impl RouletteWheelSelection {
    pub fn new() -> (method: RouletteWheelSelection) {
        RouletteWheelSelection
    }

    /// Says whether a weighted draw can be made over `weights`.
    pub fn check(&self, weights: &Vec<u32>) -> (verdict: Result<(), GaError>)
        ensures
            verdict == match fault(weights@) {
                Some(error) => Err::<(), GaError>(error),
                None => Ok(()),
            },
    {
        if weights.len() == 0 {
            return Err(GaError::EmptyPopulation);
        }
        let mut positive: bool = false;
        let mut k: usize = 0;
        while k < weights.len()
            invariant
                k <= weights.len(),
                all_non_negative(weights@.take(k as int)),
                positive == some_positive(weights@.take(k as int)),
            decreases weights.len() - k,
        {
            let weight = weights[k];
            if !single::is_non_negative(weight) {
                assert(!all_non_negative(weights@));
                return Err(GaError::InvalidFitness);
            }
            let ghost before = weights@.take(k as int);
            let ghost after = weights@.take(k + 1);
            let hit = single::is_positive(weight);
            proof {
                assert(after[k as int] == weight);
                assert forall|i: int| 0 <= i < k implies after[i] == before[i] by {}
                if hit {
                    assert(single::positive(after[k as int]));
                } else if some_positive(after) {
                    let i = choose|i: int| 0 <= i < after.len() && single::positive(#[trigger] after[i]);
                    assert(single::positive(before[i]));
                }
                if some_positive(before) {
                    let i = choose|i: int| 0 <= i < before.len() && single::positive(#[trigger] before[i]);
                    assert(single::positive(after[i]));
                }
            }
            positive = positive || hit;
            k += 1;
        }
        assert(weights@.take(k as int) == weights@);
        if positive {
            Ok(())
        } else {
            Err(GaError::InvalidFitness)
        }
    }

    /// Settles the index that a weighted draw over `weights` gave.
    pub fn select_index(&self, drawn: usize, weights: &Vec<u32>) -> (choice: Result<usize, GaError>)
        ensures
            choice == selected(drawn, weights@),
    {
        match self.check(weights) {
            Err(error) => Err(error),
            Ok(()) => if drawn < weights.len() && single::is_positive(weights[drawn]) {
                Ok(drawn)
            } else {
                Err(GaError::InvalidDraw)
            },
        }
    }

    /// Picks from `population` the individual that a weighted draw over
    /// its fitness values, in population order, landed on.
    ///
    /// The fitness values are whatever the individuals report, so only
    /// this much holds of every population: an empty one is refused as
    /// such, and an individual that is returned is the one at `drawn`.
    /// `select_index` says the rest, for each run of reported values.
    pub fn select<'a, I: Individual>(&self, drawn: usize, population: &'a [I]) -> (choice: Result<&'a I, GaError>)
        ensures
            choice == Err::<&I, GaError>(GaError::EmptyPopulation) <==> population@.len() == 0,
            match choice {
                Ok(individual) => drawn < population@.len() && *individual == population@[drawn as int],
                Err(error) => error == GaError::EmptyPopulation || error == GaError::InvalidFitness
                    || error == GaError::InvalidDraw,
            },
    {
        let weights = fitness_values(population);
        match self.select_index(drawn, &weights) {
            Ok(index) => Ok(&population[index]),
            Err(error) => Err(error),
        }
    }
}

/// What each individual of `population` reports as its fitness, in
/// population order.
fn fitness_values<I: Individual>(population: &[I]) -> (weights: Vec<u32>)
    ensures
        weights@.len() == population@.len(),
{
    let mut weights: Vec<u32> = Vec::new();
    let mut k: usize = 0;
    while k < population.len()
        invariant
            k <= population@.len(),
            weights@.len() == k,
        decreases population@.len() - k,
    {
        weights.push(population[k].fitness());
        k += 1;
    }
    weights
}

} // verus!
