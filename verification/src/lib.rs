//! Control kernel of a two-dimensional particle simulation.

pub mod pairs;
pub mod particle;
pub mod resources;
pub mod simulation;
