//! What the lattice settles of the smoothing kernel.
//!
//! The kernel weighs a pair of positions by their distance alone, and its
//! gradient points along the line between them. The weight is a matter of
//! real arithmetic and is left to the caller. Distance and direction are
//! exact on the lattice, and they carry what the solver relies on: the
//! distance does not depend on the order of the two positions, the
//! direction turns round with it, and beyond the support radius there is
//! none.

use vstd::prelude::*;
use crate::fluids::lattice::{
    Displacement,
    LatticePoint,
    displacement,
    displacement_between,
    is_within_radius,
    within_radius,
    lemma_within_radius_symmetric,
};

verus! {

/// The direction of the kernel gradient at `a` for a neighbour at `b`: the
/// displacement from `b` to `a` where the two are within `radius` of each
/// other, and none beyond.
pub open spec fn direction_between(a: LatticePoint, b: LatticePoint, radius: u32) -> Displacement {
    if within_radius(a, b, radius) {
        displacement_between(a, b)
    } else {
        Displacement { x: 0, y: 0, z: 0 }
    }
}

/// The direction of the kernel gradient at `a` for a neighbour at `b`.
pub fn gradient_direction(a: &LatticePoint, b: &LatticePoint, radius: u32) -> (d: Displacement)
    ensures
        d == direction_between(*a, *b, radius),
{
    if is_within_radius(a, b, radius) {
        displacement(a, b)
    } else {
        Displacement { x: 0, y: 0, z: 0 }
    }
}

/// The gradient direction at `a` for `b` is the one at `b` for `a` turned
/// round, whatever the two positions and the radius.
pub proof fn lemma_direction_is_antisymmetric(a: LatticePoint, b: LatticePoint, radius: u32)
    ensures
        direction_between(a, b, radius).is_opposite_of(direction_between(b, a, radius)),
{
    lemma_within_radius_symmetric(a, b, radius);
}

/// A position has no gradient direction for itself.
pub proof fn lemma_direction_to_self_is_zero(p: LatticePoint, radius: u32)
    ensures
        direction_between(p, p, radius).is_zero(),
{
}

/// Beyond the support radius there is no gradient direction.
pub proof fn lemma_direction_has_compact_support(a: LatticePoint, b: LatticePoint, radius: u32)
    requires
        !within_radius(a, b, radius),
    ensures
        direction_between(a, b, radius).is_zero(),
{
}

} // verus!
