//! # Fluid Simulations
pub mod lattice;
pub mod lattice_boltzman;
pub mod lattice_boltzmann;
pub mod lbm;
