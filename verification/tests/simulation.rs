use neuroevolution::simulation::{brain_topology, Age, BRAIN_OUTPUTS, GENERATION_LENGTH};

#[test]
fn a_generation_is_over_with_the_step_beyond_its_length() {
    let mut age = Age::new();
    assert_eq!(age.steps(), 0);
    for lived in 0..GENERATION_LENGTH {
        assert!(!age.step());
        assert_eq!(age.steps(), lived + 1);
    }
    assert_eq!(age.steps(), 2500);
    assert!(age.step());
    assert_eq!(age.steps(), 0);
    assert!(!age.step());
    assert_eq!(age.steps(), 1);
}

#[test]
fn a_brain_has_twice_as_many_hidden_neurons_as_cells() {
    let layers = brain_topology(9);
    let neurons: Vec<usize> = layers.iter().map(|layer| layer.neurons).collect();
    assert_eq!(neurons, vec![9, 18, 2]);
    assert_eq!(BRAIN_OUTPUTS, 2);

    let neurons: Vec<usize> = brain_topology(0).iter().map(|layer| layer.neurons).collect();
    assert_eq!(neurons, vec![0, 0, 2]);
}
