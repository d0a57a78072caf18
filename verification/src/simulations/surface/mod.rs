//! # Surface (2D) Simulations
pub mod conway;
pub mod fluids;
