//! Gene-wise mixing of two parents.

use crate::chromosome::Chromosome;
use crate::coin;
use crate::error::GaError;
use vstd::prelude::*;

verus! {

/// The child that takes each gene from `parent_a` where the pick at its
/// place is true and from `parent_b` where it is false.
pub open spec fn crossed(picks: Seq<bool>, parent_a: Seq<u32>, parent_b: Seq<u32>) -> Seq<u32> {
    Seq::new(parent_a.len(), |i: int| if picks[i] { parent_a[i] } else { parent_b[i] })
}

/// What crossing gives for every input: parents of different lengths are
/// refused first, then a run of picks that is not one per gene.
pub open spec fn cross_outcome(picks: Seq<bool>, parent_a: Seq<u32>, parent_b: Seq<u32>) -> Result<Seq<u32>, GaError> {
    if parent_a.len() != parent_b.len() {
        Err(GaError::ChromosomeLengthMismatch)
    } else if picks.len() != parent_a.len() {
        Err(GaError::InvalidDraw)
    } else {
        Ok(crossed(picks, parent_a, parent_b))
    }
}

/// A crossed child is as long as its parents, and each of its genes is the
/// gene that one of them has at the same place.
pub proof fn lemma_crossed_from_parents(picks: Seq<bool>, parent_a: Seq<u32>, parent_b: Seq<u32>)
    requires
        parent_a.len() == parent_b.len(),
    ensures
        crossed(picks, parent_a, parent_b).len() == parent_a.len(),
        forall|i: int| 0 <= i < parent_a.len() ==> {
            let gene = #[trigger] crossed(picks, parent_a, parent_b)[i];
            gene == parent_a[i] || gene == parent_b[i]
        },
{
}

/// Crossing a parent with itself gives that parent back, whatever the
/// picks.
pub proof fn lemma_crossed_with_itself(picks: Seq<bool>, parent: Seq<u32>)
    ensures
        crossed(picks, parent, parent) == parent,
{
    assert(crossed(picks, parent, parent) =~= parent);
}

/// Uniform crossover: every gene of the child is an independent even
/// choice between the two parents. No place is linked to another and
/// there is no crossover point.
#[derive(Clone, Copy, Debug, Default)]
pub struct UniformCrossover;

impl UniformCrossover {
    pub fn new() -> (method: UniformCrossover) {
        UniformCrossover
    }

    /// Crosses two parents of equal length, tossing one fair coin per
    /// gene, first gene first. Parents of different lengths are refused
    /// before any coin is tossed.
    pub fn crossover<R: rand::RngCore + ?Sized>(
        &self,
        rng: &mut R,
        parent_a: &Chromosome,
        parent_b: &Chromosome,
    ) -> (child: Result<Chromosome, GaError>)
        ensures
            match child {
                Ok(child) => {
                    &&& parent_a@.len() == parent_b@.len()
                    &&& child@.len() == parent_a@.len()
                    &&& exists|picks: Seq<bool>|
                        picks.len() == parent_a@.len() && child@ == crossed(picks, parent_a@, parent_b@)
                },
                Err(error) => error == GaError::ChromosomeLengthMismatch && parent_a@.len() != parent_b@.len(),
            },
    {
        if parent_a.len() != parent_b.len() {
            return Err(GaError::ChromosomeLengthMismatch);
        }
        let picks = coin::flips(rng, parent_a.len());
        self.cross(&picks, parent_a, parent_b)
    }

    /// Crosses two parents by the given picks: a true pick takes the gene
    /// of `parent_a`, a false one that of `parent_b`.
    pub fn cross(&self, picks: &Vec<bool>, parent_a: &Chromosome, parent_b: &Chromosome) -> (child: Result<
        Chromosome,
        GaError,
    >)
        ensures
            match (child, cross_outcome(picks@, parent_a@, parent_b@)) {
                (Ok(child), Ok(genes)) => child@ == genes,
                (Err(error), Err(expected)) => error == expected,
                _ => false,
            },
    {
        if parent_a.len() != parent_b.len() {
            return Err(GaError::ChromosomeLengthMismatch);
        }
        if picks.len() != parent_a.len() {
            return Err(GaError::InvalidDraw);
        }
        let mut genes: Vec<u32> = Vec::new();
        let mut k: usize = 0;
        while k < parent_a.len()
            invariant
                k <= parent_a@.len(),
                parent_a@.len() == parent_b@.len(),
                picks@.len() == parent_a@.len(),
                genes@.len() == k,
                forall|i: int| 0 <= i < k ==> genes@[i] == crossed(picks@, parent_a@, parent_b@)[i],
            decreases parent_a@.len() - k,
        {
            let gene = if picks[k] { parent_a[k] } else { parent_b[k] };
            genes.push(gene);
            k += 1;
        }
        assert(genes@ =~= crossed(picks@, parent_a@, parent_b@));
        Ok(Chromosome::from_iter(genes))
    }
}

} // verus!
