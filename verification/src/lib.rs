//! Core of a particle fluid simulator built on divergence-free smoothed
//! particle hydrodynamics.
//!
//! The solver's arithmetic on real numbers is left to the caller. This crate
//! holds what is exact: particle positions on an integer lattice
//! ([`fluids::lattice`]), the part of the smoothing kernel that the lattice
//! settles ([`fluids::kernel`]), the spatial index that finds the neighbours
//! of a position ([`fluids::neighborhoods`]), the cancellation of equal and
//! opposite shares in sums over neighbours ([`fluids::pairwise`]), and the
//! sequencing of a solver step with its bounded correction loops
//! ([`fluids::pressure`]). Beside them stand the initial placement of
//! particles ([`particles`]) and the small value types of the GPU front end:
//! how resources are bound ([`binding`]), how compute dispatches are sized
//! ([`computer`]), and a shared cell ([`memory`]).

pub mod binding;
pub mod computer;
pub mod fluids;
pub mod general;
pub mod memory;
pub mod particles;
