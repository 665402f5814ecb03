//! Sums over neighbour lists.
//!
//! The solver corrects the velocity of every particle by a sum over its
//! neighbours, in which each neighbour has a share. Where the share of `j`
//! in the sum of `i` is the opposite of the share of `i` in the sum of `j`,
//! the sums of all particles together come to nothing: what the pressure
//! gives to one particle it takes from another. This module states that for
//! shares counted in whole numbers, where sums are exact.

use vstd::prelude::*;
use crate::fluids::lattice::{LatticePoint, within_radius, lemma_within_radius_symmetric};
use crate::fluids::neighborhoods::{are_neighbor_lists, is_neighbor_list};

verus! {

/// What the particle at place `i` receives from a list of neighbours: the
/// sum of `share(i, j)` over the places `j` in the list.
pub open spec fn received(i: int, list: Seq<usize>, share: spec_fn(int, int) -> int) -> int
    decreases list.len(),
{
    if list.len() == 0 {
        0
    } else {
        received(i, list.drop_last(), share) + share(i, list.last() as int)
    }
}

/// What the first `upto` particles receive together, each from its own list.
pub open spec fn total_received(
    lists: Seq<Seq<usize>>,
    share: spec_fn(int, int) -> int,
    upto: int,
) -> int
    decreases upto,
{
    if upto <= 0 {
        0
    } else {
        total_received(lists, share, upto - 1) + received(upto - 1, lists[upto - 1], share)
    }
}

/// Whether the share of `j` with `i` is always the opposite of the share of
/// `i` with `j`.
pub open spec fn is_antisymmetric(share: spec_fn(int, int) -> int) -> bool {
    forall|i: int, j: int| #[trigger] share(i, j) == -share(j, i)
}

/// Where every particle sums over its neighbour list and the shares are
/// equal and opposite within each pair, all particles together receive
/// nothing.
pub proof fn lemma_opposite_shares_cancel(
    points: Seq<LatticePoint>,
    radius: u32,
    lists: Seq<Seq<usize>>,
    share: spec_fn(int, int) -> int,
)
    requires
        points.len() <= usize::MAX,
        are_neighbor_lists(points, radius, lists),
        is_antisymmetric(share),
    ensures
        total_received(lists, share, points.len() as int) == 0,
{
    let n = points.len() as int;
    lemma_total_is_block(points, radius, lists, share, n);
    lemma_square_block_is_zero(points, radius, share, n);
}

/// What one particle of a pair gives the other it takes from it: a pair of
/// neighbours adds nothing to the total, and a particle gives itself
/// nothing.
pub proof fn lemma_pair_adds_nothing(share: spec_fn(int, int) -> int, i: int, j: int)
    requires
        is_antisymmetric(share),
    ensures
        share(i, j) + share(j, i) == 0,
        share(i, i) == 0,
{
    assert(share(i, j) == -share(j, i));
    assert(share(i, i) == -share(i, i));
}

/// The share of `j` with `i` where the two are neighbours, and nothing
/// where they are not.
spec fn near_share(
    points: Seq<LatticePoint>,
    radius: u32,
    share: spec_fn(int, int) -> int,
    i: int,
    j: int,
) -> int {
    if within_radius(points[j], points[i], radius) {
        share(i, j)
    } else {
        0
    }
}

/// Sum of the near shares of the first `m` particles with `i`.
spec fn row(
    points: Seq<LatticePoint>,
    radius: u32,
    share: spec_fn(int, int) -> int,
    i: int,
    m: int,
) -> int
    decreases m,
{
    if m <= 0 {
        0
    } else {
        row(points, radius, share, i, m - 1) + near_share(points, radius, share, i, m - 1)
    }
}

/// Sum of the near shares of `j` with the first `m` particles.
spec fn column(
    points: Seq<LatticePoint>,
    radius: u32,
    share: spec_fn(int, int) -> int,
    j: int,
    m: int,
) -> int
    decreases m,
{
    if m <= 0 {
        0
    } else {
        column(points, radius, share, j, m - 1) + near_share(points, radius, share, m - 1, j)
    }
}

/// Sum of the rows of length `m` of the first `n` particles.
spec fn block(
    points: Seq<LatticePoint>,
    radius: u32,
    share: spec_fn(int, int) -> int,
    n: int,
    m: int,
) -> int
    decreases n,
{
    if n <= 0 {
        0
    } else {
        block(points, radius, share, n - 1, m) + row(points, radius, share, n - 1, m)
    }
}

/// Taking one place out of a list takes its share out of the sum.
proof fn lemma_received_without(
    i: int,
    list: Seq<usize>,
    share: spec_fn(int, int) -> int,
    k: int,
)
    requires
        0 <= k < list.len(),
    ensures
        received(i, list, share) == received(i, list.remove(k), share) + share(i, list[k] as int),
    decreases list.len(),
{
    if k == list.len() - 1 {
        assert(list.remove(k) =~= list.drop_last());
    } else {
        lemma_received_without(i, list.drop_last(), share, k);
        assert(list.drop_last().remove(k) =~= list.remove(k).drop_last());
        assert(list.remove(k).last() == list.last());
    }
}

/// A list that holds, each once, the places below `m` of the neighbours of
/// `i` sums to the row of `i` of length `m`.
proof fn lemma_received_is_row(
    points: Seq<LatticePoint>,
    radius: u32,
    share: spec_fn(int, int) -> int,
    i: int,
    list: Seq<usize>,
    m: int,
)
    requires
        points.len() <= usize::MAX,
        0 <= i < points.len(),
        0 <= m <= points.len(),
        list.no_duplicates(),
        forall|k: int|
            0 <= k < list.len() ==> (#[trigger] list[k]) < m && within_radius(
                points[list[k] as int],
                points[i],
                radius,
            ),
        forall|j: int|
            0 <= j < m && within_radius(#[trigger] points[j], points[i], radius) ==> list.contains(
                j as usize,
            ),
    ensures
        received(i, list, share) == row(points, radius, share, i, m),
    decreases m,
{
    if m == 0 {
        if list.len() > 0 {
            assert(list[0] < m);
        }
    } else {
        let j = m - 1;
        if within_radius(points[j], points[i], radius) {
            assert(list.contains(j as usize));
            let k = choose|k: int| 0 <= k < list.len() && list[k] == j as usize;
            let rest = list.remove(k);
            lemma_received_without(i, list, share, k);
            assert forall|l: int| 0 <= l < rest.len() implies (#[trigger] rest[l]) < j
                && within_radius(points[rest[l] as int], points[i], radius) by {
                if l < k {
                    assert(rest[l] == list[l]);
                } else {
                    assert(rest[l] == list[l + 1]);
                }
            }
            assert(rest.no_duplicates()) by {
                assert forall|a: int, b: int|
                    0 <= a < rest.len() && 0 <= b < rest.len() && a != b implies rest[a]
                    != rest[b] by {
                    let a0 = if a < k {
                        a
                    } else {
                        a + 1
                    };
                    let b0 = if b < k {
                        b
                    } else {
                        b + 1
                    };
                    assert(rest[a] == list[a0] && rest[b] == list[b0]);
                }
            }
            assert forall|e: int|
                0 <= e < j && within_radius(
                    #[trigger] points[e],
                    points[i],
                    radius,
                ) implies rest.contains(e as usize) by {
                assert(list.contains(e as usize));
                let l = choose|l: int| 0 <= l < list.len() && list[l] == e as usize;
                if l < k {
                    assert(rest[l] == e as usize);
                } else {
                    assert(rest[l - 1] == e as usize);
                }
            }
            lemma_received_is_row(points, radius, share, i, rest, j);
        } else {
            assert forall|k: int| 0 <= k < list.len() implies (#[trigger] list[k]) < j by {
                assert(within_radius(points[list[k] as int], points[i], radius));
            }
            lemma_received_is_row(points, radius, share, i, list, j);
        }
    }
}

/// What the first `upto` particles receive from their neighbour lists is
/// the sum of their full rows.
proof fn lemma_total_is_block(
    points: Seq<LatticePoint>,
    radius: u32,
    lists: Seq<Seq<usize>>,
    share: spec_fn(int, int) -> int,
    upto: int,
)
    requires
        points.len() <= usize::MAX,
        are_neighbor_lists(points, radius, lists),
        0 <= upto <= points.len(),
    ensures
        total_received(lists, share, upto) == block(
            points,
            radius,
            share,
            upto,
            points.len() as int,
        ),
    decreases upto,
{
    if upto > 0 {
        let i = upto - 1;
        lemma_total_is_block(points, radius, lists, share, i);
        let list = lists[i];
        assert(is_neighbor_list(points, radius, points[i], list));
        lemma_received_is_row(points, radius, share, i, list, points.len() as int);
    }
}

/// A row of one place more gains the column of that place.
proof fn lemma_block_gains_column(
    points: Seq<LatticePoint>,
    radius: u32,
    share: spec_fn(int, int) -> int,
    n: int,
    m: int,
)
    requires
        0 <= n,
        0 <= m,
    ensures
        block(points, radius, share, n, m + 1) == block(points, radius, share, n, m) + column(
            points,
            radius,
            share,
            m,
            n,
        ),
    decreases n,
{
    if n > 0 {
        lemma_block_gains_column(points, radius, share, n - 1, m);
        assert(row(points, radius, share, n - 1, m + 1) == row(points, radius, share, n - 1, m)
            + near_share(points, radius, share, n - 1, m));
    }
}

/// The row of a particle is the opposite of its column.
proof fn lemma_row_opposes_column(
    points: Seq<LatticePoint>,
    radius: u32,
    share: spec_fn(int, int) -> int,
    i: int,
    m: int,
)
    requires
        is_antisymmetric(share),
        0 <= m,
    ensures
        row(points, radius, share, i, m) == -column(points, radius, share, i, m),
    decreases m,
{
    if m > 0 {
        lemma_row_opposes_column(points, radius, share, i, m - 1);
        lemma_within_radius_symmetric(points[m - 1], points[i], radius);
        lemma_pair_adds_nothing(share, i, m - 1);
    }
}

/// The rows of length `n` of the first `n` particles sum to nothing.
proof fn lemma_square_block_is_zero(
    points: Seq<LatticePoint>,
    radius: u32,
    share: spec_fn(int, int) -> int,
    n: int,
)
    requires
        is_antisymmetric(share),
        0 <= n,
    ensures
        block(points, radius, share, n, n) == 0,
    decreases n,
{
    if n > 0 {
        let last = n - 1;
        lemma_square_block_is_zero(points, radius, share, last);
        lemma_block_gains_column(points, radius, share, last, last);
        lemma_row_opposes_column(points, radius, share, last, last);
        lemma_pair_adds_nothing(share, last, last);
        assert(row(points, radius, share, last, n) == row(points, radius, share, last, last)
            + near_share(points, radius, share, last, last));
    }
}

} // verus!
