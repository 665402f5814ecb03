//! The fluid solver's discrete parts.

pub mod kernel;
pub mod lattice;
pub mod neighborhoods;
pub mod pairwise;
pub mod pressure;
