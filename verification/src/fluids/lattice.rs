//! The integer lattice that particle positions live on.
//!
//! A position is a point with three `i32` coordinates; what a lattice step
//! measures in the world is up to the caller. Distances are compared by
//! their squares, so nothing here rounds.

use vstd::prelude::*;

verus! {

/// A position on the integer lattice.
#[derive(Clone, Copy, Debug, PartialEq, Eq, Structural)]
pub struct LatticePoint {
    pub x: i32,
    pub y: i32,
    pub z: i32,
}

/// A difference of two lattice positions.
#[derive(Clone, Copy, Debug, PartialEq, Eq, Structural)]
pub struct Displacement {
    pub x: i64,
    pub y: i64,
    pub z: i64,
}

impl Displacement {
    /// Whether this is the displacement of no length.
    pub open spec fn is_zero(self) -> bool {
        self.x == 0 && self.y == 0 && self.z == 0
    }

    /// Whether this displacement is `other` turned round.
    pub open spec fn is_opposite_of(self, other: Displacement) -> bool {
        self.x == -other.x && self.y == -other.y && self.z == -other.z
    }

    /// Square of the length.
    pub open spec fn length_squared(self) -> int {
        self.x * self.x + self.y * self.y + self.z * self.z
    }
}

/// The displacement that leads from `b` to `a`.
pub open spec fn displacement_between(a: LatticePoint, b: LatticePoint) -> Displacement {
    Displacement { x: (a.x - b.x) as i64, y: (a.y - b.y) as i64, z: (a.z - b.z) as i64 }
}

/// Square of the Euclidean distance between two lattice points.
pub open spec fn distance_squared(a: LatticePoint, b: LatticePoint) -> int {
    (a.x - b.x) * (a.x - b.x) + (a.y - b.y) * (a.y - b.y) + (a.z - b.z) * (a.z - b.z)
}

/// Whether `a` and `b` are at most `radius` apart.
pub open spec fn within_radius(a: LatticePoint, b: LatticePoint, radius: u32) -> bool {
    distance_squared(a, b) <= radius * radius
}

/// The displacement that leads from `b` to `a`.
pub fn displacement(a: &LatticePoint, b: &LatticePoint) -> (d: Displacement)
    ensures
        d == displacement_between(*a, *b),
        d.x == a.x - b.x,
        d.y == a.y - b.y,
        d.z == a.z - b.z,
{
    Displacement {
        x: a.x as i64 - b.x as i64,
        y: a.y as i64 - b.y as i64,
        z: a.z as i64 - b.z as i64,
    }
}

/// Square of the distance between `a` and `b`.
pub fn squared_distance(a: &LatticePoint, b: &LatticePoint) -> (square: u128)
    ensures
        square == distance_squared(*a, *b),
{
    let d: Displacement = displacement(a, b);
    let x: i128 = d.x as i128;
    let y: i128 = d.y as i128;
    let z: i128 = d.z as i128;
    proof {
        lemma_square_fits(x as int);
        lemma_square_fits(y as int);
        lemma_square_fits(z as int);
    }
    (x * x + y * y + z * z) as u128
}

/// Tells whether two points are at most `radius` apart.
pub fn is_within_radius(a: &LatticePoint, b: &LatticePoint, radius: u32) -> (near: bool)
    ensures
        near == within_radius(*a, *b, radius),
{
    let reach: u128 = radius as u128;
    proof {
        lemma_square_fits(reach as int);
    }
    squared_distance(a, b) <= reach * reach
}

proof fn lemma_square_fits(v: int)
    requires
        -0xffff_ffff <= v <= 0xffff_ffff,
    ensures
        0 <= v * v <= 0xffff_fffe_0000_0001,
{
    assert(0 <= v * v <= 0xffff_fffe_0000_0001) by (nonlinear_arith)
        requires
            -0xffff_ffff <= v <= 0xffff_ffff,
    ;
}

/// A point is within any radius of itself, so a particle is always among
/// its own neighbours.
pub proof fn lemma_within_radius_reflexive(a: LatticePoint, radius: u32)
    ensures
        within_radius(a, a, radius),
{
    assert(radius * radius >= 0) by (nonlinear_arith);
}

/// The squared distance is the squared length of the displacement, is zero
/// for a point and itself alone, and does not depend on the order of the two
/// points: what is taken from it is the same for `a` at `b` as for `b` at
/// `a`.
pub proof fn lemma_distance_is_symmetric(a: LatticePoint, b: LatticePoint)
    ensures
        distance_squared(a, b) == distance_squared(b, a),
        distance_squared(a, b) == displacement_between(a, b).length_squared(),
        distance_squared(a, b) >= 0,
        distance_squared(a, b) == 0 <==> a == b,
{
    let dx = a.x - b.x;
    let dy = a.y - b.y;
    let dz = a.z - b.z;
    assert(dx * dx == (-dx) * (-dx)) by (nonlinear_arith);
    assert(dy * dy == (-dy) * (-dy)) by (nonlinear_arith);
    assert(dz * dz == (-dz) * (-dz)) by (nonlinear_arith);
    assert(dx * dx >= 0 && (dx * dx == 0 <==> dx == 0)) by (nonlinear_arith);
    assert(dy * dy >= 0 && (dy * dy == 0 <==> dy == 0)) by (nonlinear_arith);
    assert(dz * dz >= 0 && (dz * dz == 0 <==> dz == 0)) by (nonlinear_arith);
}

/// Being within a radius does not depend on which point is named first, so
/// two particles are neighbours of each other or neither is of the other.
pub proof fn lemma_within_radius_symmetric(a: LatticePoint, b: LatticePoint, radius: u32)
    ensures
        within_radius(a, b, radius) == within_radius(b, a, radius),
{
    lemma_distance_is_symmetric(a, b);
}

} // verus!
