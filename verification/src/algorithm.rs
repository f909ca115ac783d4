//! The generational driver.
//!
//! One generation is bred slot by slot. For each slot the driver settles
//! two parents, crosses them and mutates the child. The two weighted
//! draws that choose the parents and the trials that move the genes need
//! arithmetic on the reals, so the driver asks the caller for them and
//! takes one answer at a time; the coins of the crossover it tosses itself.
//! The random words are therefore spent in this order, slot after slot:
//! first parent, second parent, one coin per gene, then for every gene its
//! direction, its trial and, after a trial that succeeded, its magnitude.

use crate::chromosome::Chromosome;
use crate::coin;
use crate::crossover::{cross_outcome, UniformCrossover};
use crate::error::GaError;
use crate::individual::{Candidate, Individual};
use crate::mutation::{mutate_outcome, GaussianMutation};
use crate::selection::{fault, selected, RouletteWheelSelection};
use vstd::prelude::*;

verus! {

/// What a generation under way is waiting for.
#[derive(Clone, Copy, Debug, PartialEq, Eq, Structural)]
pub enum Stage {
    /// Two weighted draws over the fitness values of the parents, each
    /// giving the index of one parent.
    Parents,
    /// One trial per gene of the child that was just crossed.
    Trials,
    /// Nothing: every slot of the next population is filled.
    Done,
}

/// An answer of the caller to what a generation is waiting for.
#[derive(Debug)]
pub enum Draw {
    /// The indices that two weighted draws landed on, in the order drawn.
    Parents(usize, usize),
    /// For each gene of the child, first to last: `None` where the trial
    /// failed, and where it succeeded the gene moved by the drawn
    /// magnitude in the drawn direction.
    Trials(Vec<Option<u32>>),
}

/// A `Draw` as a plain value.
pub enum DrawView {
    Parents(usize, usize),
    Trials(Seq<Option<u32>>),
}

impl View for Draw {
    type V = DrawView;

    open spec fn view(&self) -> DrawView {
        match self {
            Draw::Parents(first, second) => DrawView::Parents(*first, *second),
            Draw::Trials(trials) => DrawView::Trials(trials@),
        }
    }
}

/// One step of breeding: a draw and the coins tossed when it was taken.
pub struct Step {
    pub draw: DrawView,
    pub picks: Seq<bool>,
}

/// A generation under way as a plain value.
pub struct GenerationView {
    /// The fitness of each parent.
    pub weights: Seq<u32>,
    /// The genes of each parent.
    pub parents: Seq<Seq<u32>>,
    /// The genes of each member of the next population bred so far.
    pub offspring: Seq<Seq<u32>>,
    /// The child that was crossed and is not mutated yet, if there is one.
    pub child: Option<Seq<u32>>,
}

impl GenerationView {
    /// What holds of every generation under way: each parent has a
    /// fitness, a weighted draw can be made over them, and no more has
    /// been bred than there are slots.
    pub open spec fn wf(self) -> bool {
        &&& self.weights.len() == self.parents.len()
        &&& fault(self.weights) is None
        &&& self.offspring.len() <= self.parents.len()
        &&& self.child is Some ==> self.offspring.len() < self.parents.len()
    }

    /// What the generation is waiting for.
    pub open spec fn stage(self) -> Stage {
        if self.offspring.len() >= self.parents.len() {
            Stage::Done
        } else if self.child is Some {
            Stage::Trials
        } else {
            Stage::Parents
        }
    }

    /// The parents that an answer to `Stage::Parents` settles.
    pub open spec fn couple(self, first: usize, second: usize) -> Result<(usize, usize), GaError> {
        match selected(first, self.weights) {
            Err(error) => Err(error),
            Ok(a) => match selected(second, self.weights) {
                Err(error) => Err(error),
                Ok(b) => Ok((a, b)),
            },
        }
    }

    /// How many coins the driver tosses when it takes `draw`: one per gene
    /// where two parents of equal length are settled, none otherwise.
    pub open spec fn coins_needed(self, draw: DrawView) -> nat {
        match (self.stage(), draw) {
            (Stage::Parents, DrawView::Parents(first, second)) => match self.couple(first, second) {
                Ok((a, b)) => if self.parents[a as int].len() == self.parents[b as int].len() {
                    self.parents[a as int].len()
                } else {
                    0
                },
                Err(_) => 0,
            },
            _ => 0,
        }
    }

    /// The generation after `draw` is taken, with `picks` as the coins
    /// tossed for it and `chance` as the configured chance of mutation.
    pub open spec fn after(self, chance: u32, draw: DrawView, picks: Seq<bool>) -> Result<GenerationView, GaError> {
        match (self.stage(), draw) {
            (Stage::Parents, DrawView::Parents(first, second)) => match self.couple(first, second) {
                Err(error) => Err(error),
                Ok((a, b)) => match cross_outcome(picks, self.parents[a as int], self.parents[b as int]) {
                    Err(error) => Err(error),
                    Ok(child) => Ok(GenerationView { child: Some(child), ..self }),
                },
            },
            (Stage::Trials, DrawView::Trials(trials)) => match mutate_outcome(chance, self.child->0, trials) {
                Err(error) => Err(error),
                Ok(genes) => Ok(GenerationView { offspring: self.offspring.push(genes), child: None, ..self }),
            },
            _ => Err(GaError::InvalidDraw),
        }
    }

    /// The generation after the given steps, taken first to last. The
    /// first failure ends the run.
    pub open spec fn run(self, chance: u32, steps: Seq<Step>) -> Result<GenerationView, GaError>
        decreases steps.len(),
    {
        if steps.len() == 0 {
            Ok(self)
        } else {
            match self.run(chance, steps.drop_last()) {
                Err(error) => Err(error),
                Ok(reached) => reached.after(chance, steps.last().draw, steps.last().picks),
            }
        }
    }

    /// How many draws have gone into the generation: two for every slot
    /// that is filled and one for a child that waits to be mutated.
    pub open spec fn draws_taken(self) -> nat {
        2 * self.offspring.len() + if self.child is Some {
            1nat
        } else {
            0nat
        }
    }
}

/// Taking a draw keeps a generation well formed, keeps its parents, and
/// fills at most one more slot.
pub proof fn lemma_after_keeps_parents(generation: GenerationView, chance: u32, draw: DrawView, picks: Seq<bool>)
    requires
        generation.wf(),
    ensures
        match generation.after(chance, draw, picks) {
            Ok(next) => {
                &&& next.wf()
                &&& next.weights == generation.weights
                &&& next.parents == generation.parents
                &&& generation.offspring.len() <= next.offspring.len() <= generation.offspring.len() + 1
            },
            Err(_) => true,
        },
{
}

/// Size invariance: a generation that waits for nothing has bred exactly
/// as many members as it has parents.
pub proof fn lemma_done_is_full(generation: GenerationView)
    requires
        generation.wf(),
        generation.stage() == Stage::Done,
    ensures
        generation.offspring.len() == generation.parents.len(),
{
}

/// A draw that is taken moves the generation on: parents that are settled
/// leave a child to mutate, and a child that is mutated fills a slot.
pub proof fn lemma_after_moves_on(generation: GenerationView, chance: u32, draw: DrawView, picks: Seq<bool>)
    requires
        generation.wf(),
    ensures
        match generation.after(chance, draw, picks) {
            Ok(next) => match generation.stage() {
                Stage::Parents => next.stage() == Stage::Trials && next.offspring == generation.offspring,
                Stage::Trials => next.stage() != Stage::Trials && next.offspring.len() == generation.offspring.len()
                    + 1,
                Stage::Done => false,
            },
            Err(_) => true,
        },
{
}

/// Size invariance over a whole run: whatever is drawn, a run that fills
/// every slot ends with exactly as many members as there were parents,
/// and the parents are as they were.
pub proof fn lemma_run_keeps_size(generation: GenerationView, chance: u32, steps: Seq<Step>)
    requires
        generation.wf(),
    ensures
        match generation.run(chance, steps) {
            Ok(reached) => {
                &&& reached.wf()
                &&& reached.weights == generation.weights
                &&& reached.parents == generation.parents
                &&& reached.offspring.len() <= generation.parents.len()
                &&& reached.stage() == Stage::Done ==> reached.offspring.len() == generation.parents.len()
            },
            Err(_) => true,
        },
    decreases steps.len(),
{
    if steps.len() > 0 {
        lemma_run_keeps_size(generation, chance, steps.drop_last());
        match generation.run(chance, steps.drop_last()) {
            Ok(reached) => {
                lemma_after_keeps_parents(reached, chance, steps.last().draw, steps.last().picks);
            },
            Err(_) => {},
        }
    }
}

/// Every slot takes two draws, the parents and then the trials: a run
/// that did not fail has taken one draw per step, so a generation of `N`
/// parents is bred in exactly `2 * N` steps.
pub proof fn lemma_run_counts_draws(generation: GenerationView, chance: u32, steps: Seq<Step>)
    requires
        generation.wf(),
    ensures
        match generation.run(chance, steps) {
            Ok(reached) => {
                &&& reached.draws_taken() == generation.draws_taken() + steps.len()
                &&& reached.stage() == Stage::Done ==> reached.draws_taken() == 2 * generation.parents.len()
            },
            Err(_) => true,
        },
    decreases steps.len(),
{
    if steps.len() > 0 {
        lemma_run_counts_draws(generation, chance, steps.drop_last());
        lemma_run_keeps_size(generation, chance, steps.drop_last());
        lemma_run_keeps_size(generation, chance, steps);
        match generation.run(chance, steps.drop_last()) {
            Ok(reached) => {
                lemma_after_moves_on(reached, chance, steps.last().draw, steps.last().picks);
            },
            Err(_) => {},
        }
    } else {
        lemma_run_keeps_size(generation, chance, steps);
    }
}

/// Determinism: what comes of taking a draw is decided by the generation,
/// the draw and the coins. Two outcomes that answer to the same three
/// agree, gene for gene and bit for bit.
pub proof fn lemma_same_draws_same_outcome(
    first: Result<Generation, GaError>,
    second: Result<Generation, GaError>,
    generation: GenerationView,
    chance: u32,
    draw: DrawView,
    picks: Seq<bool>,
)
    requires
        agrees(first, generation.after(chance, draw, picks)),
        agrees(second, generation.after(chance, draw, picks)),
    ensures
        match (first, second) {
            (Ok(one), Ok(other)) => one@ == other@,
            (Err(one), Err(other)) => one == other,
            _ => false,
        },
{
}

/// The genes of each chromosome of a run, in order.
pub open spec fn genes_of(chromosomes: Seq<Chromosome>) -> Seq<Seq<u32>> {
    Seq::new(chromosomes.len(), |i: int| chromosomes[i]@)
}

/// A generation under way: the parents, what has been bred from them so
/// far, and the child in the making.
#[derive(Debug)]
pub struct Generation {
    weights: Vec<u32>,
    parents: Vec<Chromosome>,
    offspring: Vec<Chromosome>,
    child: Option<Chromosome>,
}

impl View for Generation {
    type V = GenerationView;

    closed spec fn view(&self) -> GenerationView {
        GenerationView {
            weights: self.weights@,
            parents: genes_of(self.parents@),
            offspring: genes_of(self.offspring@),
            child: match self.child {
                Some(child) => Some(child@),
                None => None,
            },
        }
    }
}

impl Generation {
    #[verifier::type_invariant]
    spec fn well_formed(self) -> bool {
        self@.wf()
    }

    /// What the generation is waiting for.
    pub fn stage(&self) -> (stage: Stage)
        ensures
            stage == self@.stage(),
            self@.wf(),
    {
        proof {
            use_type_invariant(self);
        }
        if self.offspring.len() >= self.parents.len() {
            Stage::Done
        } else if self.child.is_some() {
            Stage::Trials
        } else {
            Stage::Parents
        }
    }

    /// The fitness of each parent, in population order: the weights of
    /// the draws that `Stage::Parents` waits for.
    pub fn weights(&self) -> (weights: &Vec<u32>)
        ensures
            weights@ == self@.weights,
    {
        &self.weights
    }

    /// The child that `Stage::Trials` waits to have mutated.
    pub fn child(&self) -> (child: Option<&Chromosome>)
        ensures
            match child {
                Some(child) => self@.child == Some(child@),
                None => self@.child is None,
            },
    {
        self.child.as_ref()
    }

    /// How many members of the next population have been bred.
    pub fn bred(&self) -> (count: usize)
        ensures
            count == self@.offspring.len(),
    {
        self.offspring.len()
    }

    /// The chromosomes of the next population, once every slot is filled.
    pub fn into_chromosomes(self) -> (next: Option<Vec<Chromosome>>)
        ensures
            self@.wf(),
            match next {
                Some(next) => {
                    &&& self@.stage() == Stage::Done
                    &&& genes_of(next@) == self@.offspring
                    &&& next@.len() == self@.parents.len()
                },
                None => self@.stage() != Stage::Done,
            },
    {
        proof {
            use_type_invariant(&self);
        }
        if self.offspring.len() >= self.parents.len() {
            Some(self.offspring)
        } else {
            None
        }
    }

    /// The next population, once every slot is filled: one individual made
    /// from each bred chromosome, in the order bred. There are as many as
    /// there were parents.
    pub fn into_population<I: Individual>(self) -> (next: Option<Vec<I>>)
        ensures
            self@.wf(),
            match next {
                Some(next) => self@.stage() == Stage::Done && next@.len() == self@.parents.len(),
                None => self@.stage() != Stage::Done,
            },
    {
        match self.into_chromosomes() {
            None => None,
            Some(chromosomes) => {
                let mut next: Vec<I> = Vec::new();
                for chromosome in bred: chromosomes
                    invariant
                        next@.len() == bred.index(),
                {
                    next.push(I::create(chromosome));
                }
                Some(next)
            },
        }
    }
}

/// Whether the outcome of taking a draw is the one that was specified.
pub open spec fn agrees(outcome: Result<Generation, GaError>, expected: Result<GenerationView, GaError>) -> bool {
    match (outcome, expected) {
        (Ok(generation), Ok(view)) => generation@ == view,
        (Err(error), Err(other)) => error == other,
        _ => false,
    }
}

/// The engine: one way of selecting, one of crossing and one of mutating,
/// each held by value.
#[derive(Clone, Copy, Debug)]
pub struct GeneticAlgorithm {
    selection_method: RouletteWheelSelection,
    crossover_method: UniformCrossover,
    mutation_method: GaussianMutation,
}

impl GeneticAlgorithm {
    /// The configured chance of mutation, as a bit pattern.
    pub closed spec fn spec_chance(&self) -> u32 {
        self.mutation_method.spec_chance()
    }

    pub fn new(
        selection_method: RouletteWheelSelection,
        crossover_method: UniformCrossover,
        mutation_method: GaussianMutation,
    ) -> (engine: GeneticAlgorithm)
        ensures
            engine.spec_chance() == mutation_method.spec_chance(),
    {
        GeneticAlgorithm { selection_method, crossover_method, mutation_method }
    }

    /// The configured mutation: its chance and coefficient are what the
    /// trials of `Stage::Trials` are drawn with.
    pub fn mutation(&self) -> (method: &GaussianMutation)
        ensures
            method.spec_chance() == self.spec_chance(),
    {
        &self.mutation_method
    }

    /// Opens a generation over the given parents. A population over which
    /// no weighted draw can be made is refused at once.
    pub fn start(&self, parents: Vec<Candidate>) -> (opened: Result<Generation, GaError>)
        ensures
            match opened {
                Ok(generation) => {
                    &&& generation@.wf()
                    &&& generation@.weights == Seq::new(parents@.len(), |i: int| parents@[i].fitness)
                    &&& generation@.parents == Seq::new(parents@.len(), |i: int| parents@[i].chromosome@)
                    &&& generation@.offspring.len() == 0
                    &&& generation@.child is None
                },
                Err(error) => Some(error) == fault(Seq::new(parents@.len(), |i: int| parents@[i].fitness)),
            },
    {
        let ghost scores = Seq::new(parents@.len(), |i: int| parents@[i].fitness);
        let ghost genes = Seq::new(parents@.len(), |i: int| parents@[i].chromosome@);
        let mut weights: Vec<u32> = Vec::new();
        let mut chromosomes: Vec<Chromosome> = Vec::new();
        for candidate in given: parents
            invariant
                given.seq() == parents@,
                weights@.len() == given.index(),
                chromosomes@.len() == given.index(),
                forall|i: int| 0 <= i < given.index() ==> weights@[i] == parents@[i].fitness,
                forall|i: int| 0 <= i < given.index() ==> (#[trigger] chromosomes@[i])@ == parents@[i].chromosome@,
        {
            weights.push(candidate.fitness);
            chromosomes.push(candidate.chromosome);
        }
        assert(weights@ =~= scores);
        assert(genes_of(chromosomes@) =~= genes);
        match self.selection_method.check(&weights) {
            Err(error) => Err(error),
            Ok(()) => {
                let generation = Generation { weights, parents: chromosomes, offspring: Vec::new(), child: None };
                assert(generation@.offspring =~= Seq::<Seq<u32>>::empty());
                Ok(generation)
            },
        }
    }

    /// Opens a generation over `population`, reading from each individual
    /// its fitness and a copy of its chromosome. The population itself is
    /// left untouched.
    ///
    /// What the individuals report is theirs to say, so only this much
    /// holds of every population: an empty one is refused as such, and a
    /// generation that is opened has one parent per individual and nothing
    /// bred yet. `start` says the rest, for each run of reported values.
    pub fn begin<I: Individual>(&self, population: &[I]) -> (opened: Result<Generation, GaError>)
        ensures
            opened == Err::<Generation, GaError>(GaError::EmptyPopulation) <==> population@.len() == 0,
            match opened {
                Ok(generation) => {
                    &&& generation@.wf()
                    &&& generation@.parents.len() == population@.len()
                    &&& generation@.offspring.len() == 0
                    &&& generation@.child is None
                },
                Err(error) => error == GaError::EmptyPopulation || error == GaError::InvalidFitness,
            },
    {
        let mut parents: Vec<Candidate> = Vec::new();
        let mut k: usize = 0;
        while k < population.len()
            invariant
                k <= population@.len(),
                parents@.len() == k,
            decreases population@.len() - k,
        {
            let fitness = population[k].fitness();
            let chromosome = population[k].chromosome().clone();
            parents.push(Candidate::new(fitness, chromosome));
            k += 1;
        }
        self.start(parents)
    }

    /// Takes one draw with the coins already tossed: the transition of the
    /// driver as a function of the generation, the draw and the coins.
    /// A failure ends the generation: it is given up with the error.
    pub fn advance(&self, generation: Generation, draw: Draw, picks: &Vec<bool>) -> (next: Result<
        Generation,
        GaError,
    >)
        ensures
            generation@.wf(),
            agrees(next, generation@.after(self.spec_chance(), draw@, picks@)),
            next matches Ok(bred) ==> bred@.wf(),
    {
        proof {
            use_type_invariant(&generation);
            lemma_after_keeps_parents(generation@, self.spec_chance(), draw@, picks@);
        }
        let stage = generation.stage();
        let Generation { weights, parents, offspring, child } = generation;
        match (stage, draw) {
            (Stage::Parents, Draw::Parents(first, second)) => {
                let a = match self.selection_method.select_index(first, &weights) {
                    Ok(a) => a,
                    Err(error) => {
                        return Err(error);
                    },
                };
                let b = match self.selection_method.select_index(second, &weights) {
                    Ok(b) => b,
                    Err(error) => {
                        return Err(error);
                    },
                };
                match self.crossover_method.cross(picks, &parents[a], &parents[b]) {
                    Err(error) => Err(error),
                    Ok(crossed) => Ok(Generation { weights, parents, offspring, child: Some(crossed) }),
                }
            },
            (Stage::Trials, Draw::Trials(trials)) => {
                let mut child = match child {
                    Some(child) => child,
                    None => {
                        return Err(GaError::InvalidDraw);
                    },
                };
                match self.mutation_method.mutate(&trials, &mut child) {
                    Err(error) => Err(error),
                    Ok(()) => {
                        let ghost before = genes_of(offspring@);
                        let mut offspring = offspring;
                        offspring.push(child);
                        assert(genes_of(offspring@) =~= before.push(child@));
                        Ok(Generation { weights, parents, offspring, child: None })
                    },
                }
            },
            _ => Err(GaError::InvalidDraw),
        }
    }

    /// How many coins taking `draw` will toss.
    pub fn coins_needed(&self, generation: &Generation, draw: &Draw) -> (count: usize)
        ensures
            count == generation@.coins_needed(draw@),
    {
        match (generation.stage(), draw) {
            (Stage::Parents, Draw::Parents(first, second)) => {
                let a = match self.selection_method.select_index(*first, &generation.weights) {
                    Ok(a) => a,
                    Err(_) => {
                        return 0;
                    },
                };
                let b = match self.selection_method.select_index(*second, &generation.weights) {
                    Ok(b) => b,
                    Err(_) => {
                        return 0;
                    },
                };
                if generation.parents[a].len() == generation.parents[b].len() {
                    generation.parents[a].len()
                } else {
                    0
                }
            },
            _ => 0,
        }
    }

    /// Takes one draw and moves the generation on by it. Where the draw
    /// settles two parents the crossover coins are tossed from `rng`, one
    /// per gene; otherwise `rng` is left alone. A failure ends the
    /// generation: it is given up with the error.
    ///
    /// Which way the coins fall is for `rng` to say. For each way they can
    /// fall, `advance` says what comes out.
    pub fn evolve<R: rand::RngCore + ?Sized>(&self, rng: &mut R, generation: Generation, draw: Draw) -> (next:
        Result<Generation, GaError>)
        ensures
            generation@.wf(),
            exists|picks: Seq<bool>|
                picks.len() == generation@.coins_needed(draw@) && agrees(
                    next,
                    #[trigger] generation@.after(self.spec_chance(), draw@, picks),
                ),
            next matches Ok(bred) ==> {
                &&& bred@.wf()
                &&& bred@.weights == generation@.weights
                &&& bred@.parents == generation@.parents
                &&& generation@.offspring.len() <= bred@.offspring.len() <= generation@.offspring.len() + 1
            },
    {
        let count = self.coins_needed(&generation, &draw);
        let picks = coin::flips(rng, count);
        proof {
            use_type_invariant(&generation);
            lemma_after_keeps_parents(generation@, self.spec_chance(), draw@, picks@);
        }
        self.advance(generation, draw, &picks)
    }
}

} // verus!
