//! Sizing of compute dispatches.

use vstd::prelude::*;
use crate::general::PhysicalSize;

verus! {

/// Number of groups of `group` items needed to cover `extent` items.
pub open spec fn groups_needed(extent: int, group: int) -> int {
    (extent + group - 1) / group
}

/// `groups_needed` is the least count whose groups cover the extent: that many
/// groups reach it, and one group fewer falls short of it.
pub proof fn lemma_groups_needed_is_least_cover(extent: int, group: int)
    requires
        extent >= 0,
        group > 0,
    ensures
        groups_needed(extent, group) * group >= extent,
        (groups_needed(extent, group) - 1) * group < extent,
        groups_needed(extent, group) >= 0,
{
    let g = groups_needed(extent, group);
    let n = extent + group - 1;
    assert(n == group * (n / group) + n % group && 0 <= n % group < group) by {
        vstd::arithmetic::div_mod::lemma_fundamental_div_mod(n, group);
        vstd::arithmetic::div_mod::lemma_mod_bound(n, group);
    }
    assert(g * group == group * g) by (nonlinear_arith);
    assert((g - 1) * group == g * group - group) by (nonlinear_arith);
    assert(g >= 0) by (nonlinear_arith)
        requires
            g * group >= extent,
            extent >= 0,
            group > 0,
    ;
}

/// Work-group counts along both axes for a `size` grid processed in groups of
/// `workgroup` items: each axis is divided rounding up, so the groups cover
/// the grid.
pub fn compute_work_group_count(size: (u32, u32), workgroup: (u32, u32)) -> (count: (u32, u32))
    requires
        workgroup.0 > 0,
        workgroup.1 > 0,
    ensures
        count.0 == groups_needed(size.0 as int, workgroup.0 as int),
        count.1 == groups_needed(size.1 as int, workgroup.1 as int),
{
    let x: u32 = ceil_div(size.0, workgroup.0);
    let y: u32 = ceil_div(size.1, workgroup.1);
    (x, y)
}

/// Rounded-up quotient, computed without leaving `u32`.
fn ceil_div(extent: u32, group: u32) -> (count: u32)
    requires
        group > 0,
    ensures
        count == groups_needed(extent as int, group as int),
{
    let quotient: u32 = extent / group;
    let remainder: u32 = extent % group;
    proof {
        let e = extent as int;
        let g = group as int;
        vstd::arithmetic::div_mod::lemma_fundamental_div_mod(e, g);
        if remainder == 0 {
            // e + g - 1 == g * q + (g - 1)
            vstd::arithmetic::div_mod::lemma_fundamental_div_mod_converse(
                e + g - 1,
                g,
                quotient as int,
                g - 1,
            );
        } else {
            assert(g * (quotient + 1) == g * quotient + g) by (nonlinear_arith);
            vstd::arithmetic::div_mod::lemma_fundamental_div_mod_converse(
                e + g - 1,
                g,
                quotient + 1,
                remainder - 1,
            );
            assert(quotient + 1 <= u32::MAX) by (nonlinear_arith)
                requires
                    e == g * quotient + remainder,
                    remainder >= 1,
                    g >= 1,
                    e <= u32::MAX,
                    remainder < g,
                    quotient >= 0,
            {
                // g >= 2 here, since 1 <= remainder < g
                assert(g * quotient >= 2 * quotient);
            }
        }
    }
    if remainder == 0 {
        quotient
    } else {
        quotient + 1
    }
}

/// A shader source file and the entry point to run in it.
pub struct Shader {
    pub path: String,
    pub entry_point: String,
}

/// Width and height of a compute grid.
#[derive(Clone, Copy, Debug, PartialEq, Eq, Structural)]
pub struct Dimensions {
    pub width: u32,
    pub height: u32,
}

impl Dimensions {
    /// A grid of the given width and height.
    pub fn new(width: u32, height: u32) -> (dimensions: Self)
        ensures
            dimensions.width == width,
            dimensions.height == height,
    {
        Self { width, height }
    }

    /// The grid that covers a surface of the given size.
    pub fn from_size(size: PhysicalSize<u32>) -> (dimensions: Self)
        ensures
            dimensions.width == size.width,
            dimensions.height == size.height,
    {
        Dimensions { width: size.width, height: size.height }
    }

    /// Width and height as a pair, in that order.
    pub fn as_tuple(&self) -> (pair: (u32, u32))
        ensures
            pair == (self.width, self.height),
    {
        (self.width, self.height)
    }
}

} // verus!
