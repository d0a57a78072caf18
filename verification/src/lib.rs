//! Grid simulations: Conway's Game of Life and the data movement of a
//! D2Q9 Lattice-Boltzmann fluid simulation, over plain row-major grids.
pub mod grid;
pub mod slicing;
pub mod life;
pub mod convolve;
pub mod conway;
pub mod simulations;
pub mod compat;
