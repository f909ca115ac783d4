//! Gene-wise perturbation of a chromosome.

use crate::chromosome::Chromosome;
use crate::error::GaError;
use crate::single;
use vstd::prelude::*;

verus! {

/// The genes after the trials: a gene whose trial succeeded holds the
/// perturbed value that came with the success, every other gene is as it
/// was. With a chance of zero no trial succeeds, so nothing moves.
pub open spec fn mutated(chance: u32, genes: Seq<u32>, trials: Seq<Option<u32>>) -> Seq<u32> {
    Seq::new(
        genes.len(),
        |i: int|
            match trials[i] {
                Some(perturbed) if !single::zero(chance) => perturbed,
                _ => genes[i],
            },
    )
}

/// What mutating gives for every input: the trials must be one per gene.
pub open spec fn mutate_outcome(chance: u32, genes: Seq<u32>, trials: Seq<Option<u32>>) -> Result<Seq<u32>, GaError> {
    if trials.len() != genes.len() {
        Err(GaError::InvalidDraw)
    } else {
        Ok(mutated(chance, genes, trials))
    }
}

/// Mutation keeps the length, leaves alone every gene whose trial failed,
/// and leaves alone every gene when the chance is zero.
pub proof fn lemma_mutated_in_place(chance: u32, genes: Seq<u32>, trials: Seq<Option<u32>>)
    ensures
        mutated(chance, genes, trials).len() == genes.len(),
        forall|i: int|
            0 <= i < genes.len() && trials[i] is None ==> #[trigger] mutated(chance, genes, trials)[i] == genes[i],
        single::zero(chance) ==> mutated(chance, genes, trials) == genes,
{
    if single::zero(chance) {
        assert(mutated(chance, genes, trials) =~= genes);
    }
}

/// Gaussian-style mutation: each gene is, with probability `chance`,
/// moved up or down by a magnitude between zero and `coefficient`.
///
/// For every gene in turn, first to last, the caller draws the direction
/// with a fair coin, then the trial with probability `chance`, and, only
/// if the trial succeeded, a magnitude spread evenly from zero to
/// `coefficient`, which it adds to the gene in the drawn direction. The
/// arithmetic is the caller's; this type holds the configuration and puts
/// the outcomes in place.
#[derive(Clone, Copy, Debug)]
pub struct GaussianMutation {
    chance: u32,
    coefficient: u32,
}

impl GaussianMutation {
    #[verifier::type_invariant]
    spec fn chance_is_probability(self) -> bool {
        single::probability(self.chance)
    }

    /// The bit pattern of the probability with which a gene is moved.
    pub closed spec fn spec_chance(&self) -> u32 {
        self.chance
    }

    /// The bit pattern of the largest magnitude by which a gene is moved.
    pub closed spec fn spec_coefficient(&self) -> u32 {
        self.coefficient
    }

    /// A mutation with the given chance and coefficient, both as bit
    /// patterns. The chance must be a probability: a finite value from
    /// zero to one.
    pub fn new(chance: u32, coefficient: u32) -> (method: Result<GaussianMutation, GaError>)
        ensures
            match method {
                Ok(method) => {
                    &&& single::probability(chance)
                    &&& method.spec_chance() == chance
                    &&& method.spec_coefficient() == coefficient
                },
                Err(error) => error == GaError::InvalidConfiguration && !single::probability(chance),
            },
    {
        if single::is_probability(chance) {
            Ok(GaussianMutation { chance, coefficient })
        } else {
            Err(GaError::InvalidConfiguration)
        }
    }

    /// The bit pattern of the probability with which a gene is moved.
    #[verifier::when_used_as_spec(spec_chance)]
    pub fn chance(&self) -> (bits: u32)
        ensures
            bits == self.spec_chance(),
            single::probability(bits),
    {
        proof {
            use_type_invariant(self);
        }
        self.chance
    }

    /// The bit pattern of the largest magnitude by which a gene is moved.
    #[verifier::when_used_as_spec(spec_coefficient)]
    pub fn coefficient(&self) -> (bits: u32)
        ensures
            bits == self.spec_coefficient(),
    {
        self.coefficient
    }

    /// Puts the outcome of one trial per gene in place: `Some` holds the
    /// perturbed gene of a trial that succeeded, `None` stands for a
    /// trial that failed. Trials that are not one per gene are refused and
    /// the chromosome is left as it was.
    pub fn mutate(&self, trials: &Vec<Option<u32>>, chromosome: &mut Chromosome) -> (done: Result<(), GaError>)
        ensures
            match mutate_outcome(self.spec_chance(), old(chromosome)@, trials@) {
                Ok(genes) => done is Ok && final(chromosome)@ == genes,
                Err(error) => done == Err::<(), GaError>(error) && final(chromosome)@ == old(chromosome)@,
            },
            final(chromosome)@.len() == old(chromosome)@.len(),
            single::zero(self.spec_chance()) ==> final(chromosome)@ == old(chromosome)@,
            forall|i: int|
                0 <= i < trials@.len() == old(chromosome)@.len() && trials@[i] is None ==> final(chromosome)@[i]
                    == old(chromosome)@[i],
    {
        if trials.len() != chromosome.len() {
            return Err(GaError::InvalidDraw);
        }
        let still = single::is_zero(self.chance);
        let ghost before = chromosome@;
        let genes = chromosome.iter_mut();
        let mut k: usize = 0;
        while k < genes.len()
            invariant
                k <= genes@.len(),
                genes@.len() == before.len(),
                trials@.len() == before.len(),
                still == single::zero(self.spec_chance()),
                forall|i: int| 0 <= i < k ==> genes@[i] == mutated(self.spec_chance(), before, trials@)[i],
                forall|i: int| k <= i < before.len() ==> genes@[i] == before[i],
            decreases genes@.len() - k,
        {
            match trials[k] {
                Some(perturbed) => {
                    if !still {
                        genes[k] = perturbed;
                    }
                },
                None => {},
            }
            k += 1;
        }
        proof {
            assert(genes@ =~= mutated(self.spec_chance(), before, trials@));
            lemma_mutated_in_place(self.spec_chance(), before, trials@);
        }
        Ok(())
    }
}

} // verus!
