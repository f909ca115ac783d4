//! What the engine asks of the things it evolves.

use crate::chromosome::Chromosome;
use vstd::prelude::*;

verus! {

/// A candidate solution: anything that carries a chromosome, can say how
/// fit it is, and can be built from a chromosome alone.
///
/// The engine promises nothing about what an implementation hands back and
/// relies on nothing: whatever `fitness` returns is validated before it
/// weighs in a draw.
pub trait Individual: Sized {
    /// A fresh individual that carries `chromosome`.
    fn create(chromosome: Chromosome) -> Self;

    /// The bit pattern of the individual's fitness score.
    fn fitness(&self) -> u32;

    /// The genetic material of the individual.
    fn chromosome(&self) -> &Chromosome;
}

/// The plain form of an individual: a chromosome and the bit pattern of
/// its fitness score, nothing else.
#[derive(Debug)]
pub struct Candidate {
    pub fitness: u32,
    pub chromosome: Chromosome,
}

impl Candidate {
    /// The candidate with the given score and genetic material.
    pub fn new(fitness: u32, chromosome: Chromosome) -> (candidate: Candidate)
        ensures
            candidate.fitness == fitness,
            candidate.chromosome@ == chromosome@,
    {
        Candidate { fitness, chromosome }
    }
}

impl Clone for Candidate {
    fn clone(&self) -> (copy: Candidate)
        ensures
            copy.fitness == self.fitness,
            copy.chromosome@ == self.chromosome@,
    {
        Candidate { fitness: self.fitness, chromosome: self.chromosome.clone() }
    }
}

impl Individual for Candidate {
    /// A candidate that carries `chromosome` and has not been scored yet:
    /// its fitness is zero.
    fn create(chromosome: Chromosome) -> (candidate: Candidate)
        ensures
            candidate.fitness == 0,
            candidate.chromosome@ == chromosome@,
    {
        Candidate { fitness: 0, chromosome }
    }

    fn fitness(&self) -> (bits: u32)
        ensures
            bits == self.fitness,
    {
        self.fitness
    }

    fn chromosome(&self) -> (chromosome: &Chromosome)
        ensures
            chromosome@ == self.chromosome@,
    {
        &self.chromosome
    }
}

} // verus!
