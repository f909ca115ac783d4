//! The rules of the simulated world that are told in whole numbers: how
//! long a generation lives and how a brain is laid out.

use crate::network::LayerTopology;
use vstd::prelude::*;

verus! {

/// The age beyond which a generation is replaced by the one bred from it.
pub const GENERATION_LENGTH: usize = 2500;

/// How many outputs a brain has: one for the speed and one for the
/// rotation.
pub const BRAIN_OUTPUTS: usize = 2;

/// The age of the living generation, counted in steps of the world.
#[derive(Clone, Copy, Debug)]
pub struct Age {
    steps: usize,
}

impl Age {
    #[verifier::type_invariant]
    spec fn within_lifetime(self) -> bool {
        self.steps <= GENERATION_LENGTH
    }

    /// The steps lived so far.
    pub closed spec fn spec_steps(&self) -> usize {
        self.steps
    }

    /// The age of a generation that has just come into the world.
    pub fn new() -> (age: Age)
        ensures
            age.spec_steps() == 0,
    {
        Age { steps: 0 }
    }

    /// The steps lived so far, never more than `GENERATION_LENGTH`.
    #[verifier::when_used_as_spec(spec_steps)]
    pub fn steps(&self) -> (steps: usize)
        ensures
            steps == self.spec_steps(),
            steps <= GENERATION_LENGTH,
    {
        proof {
            use_type_invariant(self);
        }
        self.steps
    }

    /// Lives one more step and says whether the generation is over. It is
    /// over with the step that takes it beyond `GENERATION_LENGTH`; the
    /// age then starts again from zero for the generation that follows.
    pub fn step(&mut self) -> (over: bool)
        ensures
            over == (old(self).spec_steps() == GENERATION_LENGTH),
            final(self).spec_steps() == if over {
                0int
            } else {
                old(self).spec_steps() + 1
            },
    {
        proof {
            use_type_invariant(&*self);
        }
        if self.steps >= GENERATION_LENGTH {
            self.steps = 0;
            true
        } else {
            self.steps = self.steps + 1;
            false
        }
    }
}

/// The layout of the brain behind an eye of `cells` cells: the cells feed
/// a hidden layer of twice as many neurons, which feeds the outputs.
pub fn brain_topology(cells: usize) -> (layers: Vec<LayerTopology>)
    requires
        2 * cells <= usize::MAX,
    ensures
        layers@.len() == 3,
        layers@[0].neurons == cells,
        layers@[1].neurons == 2 * cells,
        layers@[2].neurons == BRAIN_OUTPUTS,
{
    let mut layers: Vec<LayerTopology> = Vec::new();
    layers.push(LayerTopology { neurons: cells });
    layers.push(LayerTopology { neurons: 2 * cells });
    layers.push(LayerTopology { neurons: BRAIN_OUTPUTS });
    layers
}

} // verus!
