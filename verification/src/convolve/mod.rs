//! # Convolution Helpers
pub mod surface;
