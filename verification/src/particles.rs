//! Initial placement of particles.

use vstd::prelude::*;
use vstd::arithmetic::div_mod::{lemma_div_denominator, lemma_fundamental_div_mod_converse};
use crate::fluids::lattice::LatticePoint;

verus! {

/// Number of particles along each axis of the block a simulation starts with.
pub const DIMENSIONS: (i32, i32, i32) = (20, 20, 20);

/// Number of particles along an axis: none for a negative count.
pub open spec fn axis_len(count: i32) -> nat {
    if count < 0 {
        0
    } else {
        count as nat
    }
}

/// Number of particles in a block.
pub open spec fn block_len(dimensions: (i32, i32, i32)) -> nat {
    axis_len(dimensions.0) * axis_len(dimensions.1) * axis_len(dimensions.2)
}

/// Whether the last particle along an axis still lies on the lattice.
pub open spec fn axis_fits(count: i32, spacing: i32) -> bool {
    i32::MIN <= (count - 1) * spacing <= i32::MAX
}

/// Whether every particle of a block lies on the lattice. An empty block
/// does.
pub open spec fn block_fits(dimensions: (i32, i32, i32), spacing: i32) -> bool {
    block_len(dimensions) == 0 || (axis_fits(dimensions.0, spacing) && axis_fits(
        dimensions.1,
        spacing,
    ) && axis_fits(dimensions.2, spacing))
}

/// Position of the `n`-th particle of a block: particles are counted along
/// x first, then along y, then along z, and stand `spacing` apart from the
/// origin on.
pub open spec fn block_point(dimensions: (i32, i32, i32), spacing: i32, n: int) -> LatticePoint {
    LatticePoint {
        x: ((n % (dimensions.0 as int)) * spacing) as i32,
        y: (((n / (dimensions.0 as int)) % (dimensions.1 as int)) * spacing) as i32,
        z: ((n / (dimensions.0 * dimensions.1)) * spacing) as i32,
    }
}

/// Positions of a block of `dimensions.0` by `dimensions.1` by
/// `dimensions.2` particles that stand `spacing` lattice steps apart, or
/// `None` where some of them would lie off the lattice.
pub fn spawn(dimensions: (i32, i32, i32), spacing: i32) -> (positions: Option<Vec<LatticePoint>>)
    ensures
        match positions {
            Some(block) => {
                &&& block_fits(dimensions, spacing)
                &&& block@.len() == block_len(dimensions)
                &&& forall|n: int|
                    0 <= n < block@.len() ==> #[trigger] block@[n] == block_point(
                        dimensions,
                        spacing,
                        n,
                    )
            },
            None => !block_fits(dimensions, spacing),
        },
{
    let nx: i32 = dimensions.0;
    let ny: i32 = dimensions.1;
    let nz: i32 = dimensions.2;
    let mut block: Vec<LatticePoint> = Vec::new();
    if nx <= 0 || ny <= 0 || nz <= 0 {
        proof {
            lemma_empty_block(dimensions);
        }
        return Some(block);
    }
    proof {
        lemma_full_block(dimensions);
    }
    if !last_fits(nx, spacing) || !last_fits(ny, spacing) || !last_fits(nz, spacing) {
        return None;
    }
    let mut z: i32 = 0;
    while z < nz
        invariant
            0 <= z <= nz,
            nx == dimensions.0 && ny == dimensions.1 && nz == dimensions.2,
            nx > 0 && ny > 0 && nz > 0,
            axis_fits(nx, spacing) && axis_fits(ny, spacing) && axis_fits(nz, spacing),
            block@.len() == z * ny * nx,
            forall|n: int|
                0 <= n < block@.len() ==> #[trigger] block@[n] == block_point(
                    dimensions,
                    spacing,
                    n,
                ),
        decreases nz - z,
    {
        let pz: i32 = scaled(z, nz, spacing);
        let mut y: i32 = 0;
        while y < ny
            invariant
                0 <= y <= ny,
                0 <= z < nz,
                pz == z * spacing,
                nx == dimensions.0 && ny == dimensions.1 && nz == dimensions.2,
                nx > 0 && ny > 0 && nz > 0,
                axis_fits(nx, spacing) && axis_fits(ny, spacing) && axis_fits(nz, spacing),
                block@.len() == (z * ny + y) * nx,
                forall|n: int|
                    0 <= n < block@.len() ==> #[trigger] block@[n] == block_point(
                        dimensions,
                        spacing,
                        n,
                    ),
            decreases ny - y,
        {
            let py: i32 = scaled(y, ny, spacing);
            let mut x: i32 = 0;
            while x < nx
                invariant
                    0 <= x <= nx,
                    0 <= y < ny,
                    0 <= z < nz,
                    pz == z * spacing,
                    py == y * spacing,
                    nx == dimensions.0 && ny == dimensions.1 && nz == dimensions.2,
                    nx > 0 && ny > 0 && nz > 0,
                    axis_fits(nx, spacing) && axis_fits(ny, spacing) && axis_fits(nz, spacing),
                    block@.len() == (z * ny + y) * nx + x,
                    forall|n: int|
                        0 <= n < block@.len() ==> #[trigger] block@[n] == block_point(
                            dimensions,
                            spacing,
                            n,
                        ),
                decreases nx - x,
            {
                let px: i32 = scaled(x, nx, spacing);
                proof {
                    lemma_place_in_block(dimensions, x as int, y as int, z as int);
                }
                block.push(LatticePoint { x: px, y: py, z: pz });
                x += 1;
            }
            proof {
                assert((z * ny + y) * nx + nx == (z * ny + (y + 1)) * nx) by (nonlinear_arith);
            }
            y += 1;
        }
        proof {
            assert((z * ny + ny) * nx == (z + 1) * ny * nx) by (nonlinear_arith);
            assert((z * ny + 0) * nx == z * ny * nx) by (nonlinear_arith);
        }
        z += 1;
    }
    proof {
        assert(nz * ny * nx == nx * ny * nz) by (nonlinear_arith);
    }
    Some(block)
}

/// Tells whether the last of `count` particles along an axis lies on the
/// lattice.
fn last_fits(count: i32, spacing: i32) -> (fits: bool)
    requires
        count > 0,
    ensures
        fits == axis_fits(count, spacing),
{
    let before: i64 = count as i64 - 1;
    let step: i64 = spacing as i64;
    assert(-0x4000_0000_0000_0000 <= before * step <= 0x4000_0000_0000_0000) by (nonlinear_arith)
        requires
            0 <= before <= 0x7fff_ffff,
            -0x8000_0000 <= step <= 0x7fff_ffff,
    ;
    let last: i64 = before * step;
    -0x8000_0000 <= last && last <= 0x7fff_ffff
}

/// Coordinate of the particle at place `i` along an axis.
fn scaled(i: i32, count: i32, spacing: i32) -> (coordinate: i32)
    requires
        0 <= i < count,
        axis_fits(count, spacing),
    ensures
        coordinate == i * spacing,
{
    proof {
        lemma_between_origin_and_last(i as int, count as int, spacing as int);
    }
    i * spacing
}

/// A coordinate along an axis lies between the origin and the last one.
proof fn lemma_between_origin_and_last(i: int, count: int, spacing: int)
    requires
        0 <= i < count,
    ensures
        spacing >= 0 ==> 0 <= i * spacing <= (count - 1) * spacing,
        spacing <= 0 ==> (count - 1) * spacing <= i * spacing <= 0,
{
    assert(spacing >= 0 ==> 0 <= i * spacing <= (count - 1) * spacing) by (nonlinear_arith)
        requires
            0 <= i < count,
    ;
    assert(spacing <= 0 ==> (count - 1) * spacing <= i * spacing <= 0) by (nonlinear_arith)
        requires
            0 <= i < count,
    ;
}

/// A block with no particle along some axis is empty.
proof fn lemma_empty_block(dimensions: (i32, i32, i32))
    requires
        dimensions.0 <= 0 || dimensions.1 <= 0 || dimensions.2 <= 0,
    ensures
        block_len(dimensions) == 0,
{
    let a = axis_len(dimensions.0);
    let b = axis_len(dimensions.1);
    let c = axis_len(dimensions.2);
    assert(a * b * c == 0) by (nonlinear_arith)
        requires
            a == 0 || b == 0 || c == 0,
    ;
}

/// A block with particles along every axis holds their product, which is not
/// zero.
proof fn lemma_full_block(dimensions: (i32, i32, i32))
    requires
        dimensions.0 > 0 && dimensions.1 > 0 && dimensions.2 > 0,
    ensures
        block_len(dimensions) == dimensions.0 * dimensions.1 * dimensions.2,
        block_len(dimensions) > 0,
{
    let a = dimensions.0 as int;
    let b = dimensions.1 as int;
    let c = dimensions.2 as int;
    assert(a * b * c > 0) by (nonlinear_arith)
        requires
            a > 0 && b > 0 && c > 0,
    ;
}

/// The particle at `(x, y, z)` of a block is counted as the
/// `(z * ny + y) * nx + x`-th.
proof fn lemma_place_in_block(dimensions: (i32, i32, i32), x: int, y: int, z: int)
    requires
        0 <= x < dimensions.0,
        0 <= y < dimensions.1,
        0 <= z < dimensions.2,
    ensures
        ({
            let n = (z * dimensions.1 + y) * dimensions.0 + x;
            &&& n % (dimensions.0 as int) == x
            &&& (n / (dimensions.0 as int)) % (dimensions.1 as int) == y
            &&& n / (dimensions.0 * dimensions.1) == z
            &&& n >= 0
        }),
{
    let nx = dimensions.0 as int;
    let ny = dimensions.1 as int;
    let row = z * ny + y;
    let n = row * nx + x;
    assert(row >= 0) by (nonlinear_arith)
        requires
            row == z * ny + y,
            z >= 0,
            ny > 0,
            y >= 0,
    ;
    assert(n == nx * row + x && n >= 0) by (nonlinear_arith)
        requires
            n == row * nx + x,
            row >= 0,
            nx > 0,
            x >= 0,
    ;
    lemma_fundamental_div_mod_converse(n, nx, row, x);
    assert(row == ny * z + y) by (nonlinear_arith)
        requires
            row == z * ny + y,
    ;
    lemma_fundamental_div_mod_converse(row, ny, z, y);
    lemma_div_denominator(n, nx, ny);
}

} // verus!
