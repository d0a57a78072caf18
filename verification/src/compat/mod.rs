//! # Compat Mechanisms for Tensor Indexing
pub mod data_view;
pub mod shape;
