//! # Lattice-Boltzmann Methods
pub mod d2q9;
