//! # Simulations
pub mod surface;
