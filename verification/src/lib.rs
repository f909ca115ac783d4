//! A generational genetic algorithm over real-valued chromosomes, together
//! with the layered networks whose weights those chromosomes carry.
//!
//! Real numbers travel through this crate as IEEE 754 single-precision bit
//! patterns (`u32`). The crate inspects such patterns and moves them
//! around; it never does arithmetic on them. Whatever needs arithmetic on
//! the reals, or a draw that is parameterised by a real, is asked of the
//! caller and taken back as a plain value.

pub mod single;
pub mod error;
pub mod chromosome;
pub mod individual;
pub mod selection;
mod coin;
pub mod crossover;
pub mod mutation;
pub mod algorithm;
pub mod network;
pub mod simulation;

pub use crate::algorithm::{Draw, Generation, GeneticAlgorithm, Stage};
pub use crate::chromosome::Chromosome;
pub use crate::crossover::UniformCrossover;
pub use crate::error::GaError;
pub use crate::individual::{Candidate, Individual};
pub use crate::mutation::GaussianMutation;
pub use crate::selection::RouletteWheelSelection;
pub use crate::network::{Layer, LayerTopology, Network, Neuron};
