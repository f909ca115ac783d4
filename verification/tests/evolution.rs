use neuroevolution::{
    Chromosome, Draw, GaError, GaussianMutation, GeneticAlgorithm, Individual, RouletteWheelSelection, Stage,
    UniformCrossover,
};
use rand::seq::SliceRandom;
use rand::{Rng, RngCore, SeedableRng};
use rand_chacha::ChaCha8Rng;
use std::collections::BTreeMap;

#[derive(Clone, Debug)]
enum TestIndividual {
    WithChromosome { chromosome: Chromosome },
    WithFitness { fitness: f32 },
}

impl TestIndividual {
    fn new(fitness: f32) -> Self {
        Self::WithFitness { fitness }
    }
}

impl Individual for TestIndividual {
    fn create(chromosome: Chromosome) -> Self {
        Self::WithChromosome { chromosome }
    }

    fn chromosome(&self) -> &Chromosome {
        match self {
            Self::WithChromosome { chromosome } => chromosome,
            Self::WithFitness { .. } => {
                panic!("Not supported for TestIndividual::WithFitness")
            }
        }
    }

    fn fitness(&self) -> u32 {
        match self {
            Self::WithChromosome { chromosome } => {
                chromosome.iter().map(|gene| f32::from_bits(*gene)).sum::<f32>().to_bits()
            }
            Self::WithFitness { fitness } => fitness.to_bits(),
        }
    }
}

fn individual(genes: &[f32]) -> TestIndividual {
    TestIndividual::create(Chromosome::from_iter(genes.iter().map(|gene| gene.to_bits()).collect()))
}

fn weighted_draw(rng: &mut dyn RngCore, weights: &[u32]) -> usize {
    let indices: Vec<usize> = (0..weights.len()).collect();
    *indices.choose_weighted(rng, |index| f32::from_bits(weights[*index])).unwrap()
}

fn trials(rng: &mut dyn RngCore, method: &GaussianMutation, child: &Chromosome) -> Vec<Option<u32>> {
    let chance = f32::from_bits(method.chance());
    let coeff = f32::from_bits(method.coefficient());
    child
        .iter()
        .map(|gene| {
            let sign = if rng.gen_bool(0.5) { -1.0 } else { 1.0 };
            if rng.gen_bool(chance as f64) {
                Some((f32::from_bits(*gene) + sign * coeff * rng.gen::<f32>()).to_bits())
            } else {
                None
            }
        })
        .collect()
}

fn evolve(
    ga: &GeneticAlgorithm,
    rng: &mut dyn RngCore,
    population: &[TestIndividual],
) -> Result<Vec<TestIndividual>, GaError> {
    let mut generation = ga.begin(population)?;
    loop {
        let draw = match generation.stage() {
            Stage::Done => break,
            Stage::Parents => {
                let first = weighted_draw(rng, generation.weights());
                let second = weighted_draw(rng, generation.weights());
                Draw::Parents(first, second)
            }
            Stage::Trials => Draw::Trials(trials(rng, ga.mutation(), generation.child().unwrap())),
        };
        generation = ga.evolve(rng, generation, draw)?;
    }
    Ok(generation.into_population().unwrap())
}

fn relative_eq(a: f32, b: f32) -> bool {
    if a == b {
        return true;
    }
    if a.is_infinite() || b.is_infinite() {
        return false;
    }
    let difference = (a - b).abs();
    if difference <= f32::EPSILON {
        return true;
    }
    let largest = if a.abs() > b.abs() { a.abs() } else { b.abs() };
    difference <= largest * f32::EPSILON
}

fn same_population(expected: &[TestIndividual], actual: &[TestIndividual]) -> bool {
    expected.len() == actual.len()
        && expected.iter().zip(actual).all(|(e, a)| {
            let e = e.chromosome();
            let a = a.chromosome();
            e.len() == a.len()
                && e.iter().zip(a.iter()).all(|(x, y)| relative_eq(f32::from_bits(*x), f32::from_bits(*y)))
        })
}

#[test]
fn chromosome_test() {
    let method = RouletteWheelSelection::new();
    let mut rng = ChaCha8Rng::from_seed(Default::default());

    let population = vec![
        TestIndividual::new(2.0),
        TestIndividual::new(1.0),
        TestIndividual::new(4.0),
        TestIndividual::new(3.0),
    ];
    let weights: Vec<u32> = population.iter().map(|individual| individual.fitness()).collect();

    let mut actual_histogram: BTreeMap<i32, i32> = BTreeMap::new();
    for _ in 0..1000 {
        let drawn = weighted_draw(&mut rng, &weights);
        let chosen = method.select(drawn, &population).unwrap();
        *actual_histogram.entry(f32::from_bits(chosen.fitness()) as i32).or_default() += 1;
    }

    let mut expected_histogram: BTreeMap<i32, i32> = BTreeMap::new();
    expected_histogram.insert(1, 98);
    expected_histogram.insert(2, 202);
    expected_histogram.insert(3, 278);
    expected_histogram.insert(4, 422);

    assert_eq!(expected_histogram, actual_histogram);
}

#[test]
fn test2() {
    let mut rng = ChaCha8Rng::from_seed(Default::default());

    let ga = GeneticAlgorithm::new(
        RouletteWheelSelection::new(),
        UniformCrossover,
        GaussianMutation::new(0.5f32.to_bits(), 0.5f32.to_bits()).unwrap(),
    );

    let mut population = vec![
        individual(&[0.0, 0.0, 0.0]),
        individual(&[1.0, 1.0, 1.0]),
        individual(&[1.0, 2.0, 1.0]),
        individual(&[1.0, 2.0, 4.0]),
    ];

    for _ in 0..10 {
        population = evolve(&ga, &mut rng, &population).unwrap();
    }

    let expected_population = vec![
        individual(&[0.44769490, 2.0648358, 4.3058133]),
        individual(&[1.21268670, 1.5538777, 2.8869110]),
        individual(&[1.06176780, 2.2657390, 4.4287640]),
        individual(&[0.95909685, 2.4618788, 4.0247330]),
    ];

    assert!(same_population(&expected_population, &population), "{:?}", population);
}

fn engine(chance: f32, coefficient: f32) -> GeneticAlgorithm {
    GeneticAlgorithm::new(
        RouletteWheelSelection::new(),
        UniformCrossover::new(),
        GaussianMutation::new(chance.to_bits(), coefficient.to_bits()).unwrap(),
    )
}

fn chromosomes(population: &[TestIndividual]) -> Vec<Vec<u32>> {
    population.iter().map(|individual| individual.chromosome().iter().copied().collect()).collect()
}

#[test]
fn evolve_keeps_the_size_of_the_population() {
    let ga = engine(0.5, 0.5);
    for size in 1..=7 {
        let mut rng = ChaCha8Rng::from_seed([size as u8; 32]);
        let population: Vec<TestIndividual> =
            (0..size).map(|n| individual(&[n as f32 + 1.0, 0.5, 2.0 * n as f32])).collect();
        let next = evolve(&ga, &mut rng, &population).unwrap();
        assert_eq!(next.len(), size);
        assert!(next.iter().all(|individual| individual.chromosome().len() == 3));
    }
}

#[test]
fn evolve_leaves_the_parents_alone() {
    let ga = engine(1.0, 0.5);
    let mut rng = ChaCha8Rng::from_seed(Default::default());
    let population = vec![individual(&[1.0, 2.0]), individual(&[3.0, 4.0])];
    let before = chromosomes(&population);
    evolve(&ga, &mut rng, &population).unwrap();
    assert_eq!(chromosomes(&population), before);
}

#[test]
fn evolve_twice_from_one_seed_gives_one_population() {
    let ga = engine(0.5, 0.5);
    let population = vec![
        individual(&[0.0, 0.0, 0.0]),
        individual(&[1.0, 1.0, 1.0]),
        individual(&[1.0, 2.0, 1.0]),
        individual(&[1.0, 2.0, 4.0]),
    ];

    let mut first_rng = ChaCha8Rng::from_seed([3; 32]);
    let mut second_rng = ChaCha8Rng::from_seed([3; 32]);
    let mut first = evolve(&ga, &mut first_rng, &population).unwrap();
    let mut second = evolve(&ga, &mut second_rng, &population).unwrap();
    for _ in 0..5 {
        first = evolve(&ga, &mut first_rng, &first).unwrap();
        second = evolve(&ga, &mut second_rng, &second).unwrap();
    }

    assert_eq!(chromosomes(&first), chromosomes(&second));
    assert_eq!(first_rng.gen::<u64>(), second_rng.gen::<u64>());
}

#[test]
fn evolve_without_chance_only_mixes_the_parents() {
    let ga = engine(0.0, 0.5);
    let mut rng = ChaCha8Rng::from_seed([9; 32]);
    let population = vec![individual(&[1.0, 2.0, 3.0]), individual(&[4.0, 5.0, 6.0])];
    let next = evolve(&ga, &mut rng, &population).unwrap();
    for child in chromosomes(&next) {
        for (place, gene) in child.iter().enumerate() {
            let gene = f32::from_bits(*gene);
            assert!(gene == place as f32 + 1.0 || gene == place as f32 + 4.0);
        }
    }
}

#[test]
fn evolve_refuses_what_selection_refuses() {
    let ga = engine(0.5, 0.5);
    let mut rng = ChaCha8Rng::from_seed(Default::default());

    let nobody: Vec<TestIndividual> = Vec::new();
    assert_eq!(evolve(&ga, &mut rng, &nobody).err(), Some(GaError::EmptyPopulation));
    assert_eq!(ga.begin(&nobody).err(), Some(GaError::EmptyPopulation));

    let unfit = vec![TestIndividual::new(0.0), TestIndividual::new(0.0)];
    assert_eq!(ga.start(Vec::new()).err(), Some(GaError::EmptyPopulation));
    assert_eq!(
        ga.start(unfit.iter().map(|one| neuroevolution::Candidate::new(one.fitness(), Chromosome::from_iter(vec![])))
            .collect())
            .err(),
        Some(GaError::InvalidFitness)
    );
}

#[test]
fn evolve_refuses_parents_of_different_lengths() {
    let ga = engine(0.5, 0.5);
    let mut rng = ChaCha8Rng::from_seed(Default::default());
    let population = vec![individual(&[1.0, 2.0, 3.0]), individual(&[1.0, 2.0, 3.0, 4.0])];

    let generation = ga.begin(&population).unwrap();
    assert_eq!(ga.evolve(&mut rng, generation, Draw::Parents(0, 1)).err(), Some(GaError::ChromosomeLengthMismatch));
}

#[test]
fn generation_takes_its_draws_in_turn() {
    let ga = engine(0.5, 0.5);
    let population = vec![individual(&[1.0, 2.0]), individual(&[3.0, 4.0])];

    let generation = ga.begin(&population).unwrap();
    assert_eq!(generation.stage(), Stage::Parents);
    assert_eq!(generation.bred(), 0);
    assert!(generation.child().is_none());
    assert_eq!(generation.weights(), &vec![3.0f32.to_bits(), 7.0f32.to_bits()]);
    assert_eq!(ga.coins_needed(&generation, &Draw::Parents(0, 1)), 2);
    assert_eq!(ga.coins_needed(&generation, &Draw::Parents(0, 2)), 0);
    assert_eq!(ga.coins_needed(&generation, &Draw::Trials(vec![None, None])), 0);

    let generation = ga.advance(generation, Draw::Parents(0, 1), &vec![false, true]).unwrap();
    assert_eq!(generation.stage(), Stage::Trials);
    assert_eq!(generation.bred(), 0);
    let child: Vec<u32> = generation.child().unwrap().iter().copied().collect();
    assert_eq!(child, vec![3.0f32.to_bits(), 2.0f32.to_bits()]);

    let generation = ga.advance(generation, Draw::Trials(vec![None, Some(2.5f32.to_bits())]), &Vec::new()).unwrap();
    assert_eq!(generation.stage(), Stage::Parents);
    assert_eq!(generation.bred(), 1);

    let generation = ga.advance(generation, Draw::Parents(1, 1), &vec![true, true]).unwrap();
    let generation = ga.advance(generation, Draw::Trials(vec![None, None]), &Vec::new()).unwrap();
    assert_eq!(generation.stage(), Stage::Done);
    assert_eq!(generation.bred(), 2);

    let next: Vec<Vec<u32>> =
        generation.into_chromosomes().unwrap().into_iter().map(|bred| bred.into_iter().collect()).collect();
    assert_eq!(
        next,
        vec![vec![3.0f32.to_bits(), 2.5f32.to_bits()], vec![3.0f32.to_bits(), 4.0f32.to_bits()]]
    );
}

#[test]
fn generation_refuses_a_draw_out_of_turn() {
    let ga = engine(0.5, 0.5);
    let population = vec![individual(&[1.0, 2.0]), individual(&[3.0, 4.0])];
    let none: Vec<bool> = Vec::new();

    let generation = ga.begin(&population).unwrap();
    assert_eq!(ga.advance(generation, Draw::Trials(vec![None, None]), &none).err(), Some(GaError::InvalidDraw));

    let generation = ga.begin(&population).unwrap();
    assert_eq!(ga.advance(generation, Draw::Parents(0, 2), &none).err(), Some(GaError::InvalidDraw));

    let generation = ga.begin(&population).unwrap();
    assert_eq!(ga.advance(generation, Draw::Parents(0, 1), &vec![true]).err(), Some(GaError::InvalidDraw));

    let generation = ga.begin(&population).unwrap();
    let generation = ga.advance(generation, Draw::Parents(0, 1), &vec![true, true]).unwrap();
    assert_eq!(ga.advance(generation, Draw::Parents(0, 1), &vec![true, true]).err(), Some(GaError::InvalidDraw));

    let generation = ga.begin(&population).unwrap();
    let generation = ga.advance(generation, Draw::Parents(0, 1), &vec![true, true]).unwrap();
    assert_eq!(ga.advance(generation, Draw::Trials(vec![None]), &none).err(), Some(GaError::InvalidDraw));

    let generation = ga.begin(&population).unwrap();
    assert!(generation.into_population::<TestIndividual>().is_none());
    let generation = ga.begin(&population).unwrap();
    assert!(generation.into_chromosomes().is_none());
}

#[test]
fn generation_never_lands_on_an_unfit_parent() {
    let ga = engine(0.5, 0.5);
    let population = vec![TestIndividual::create(Chromosome::from_iter(vec![0, 0])), individual(&[3.0, 4.0])];
    let generation = ga.begin(&population).unwrap();
    assert_eq!(ga.advance(generation, Draw::Parents(1, 0), &vec![true, true]).err(), Some(GaError::InvalidDraw));
}
