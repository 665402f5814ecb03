//! Spatial index over particle positions.
//!
//! Positions are points of an integer lattice. The index sorts them into
//! cubic cells whose edge is the support radius and keeps the cells in a
//! hash table, so that a query reads the 27 cells around the queried
//! position instead of every particle. It refers to particles by their place
//! in the sequence it was built from and is never updated: after positions
//! change, a new index is built. A query lists the neighbours cell by cell,
//! and by place within a cell, so one index answers one query in one way.

use vstd::prelude::*;
use crate::fluids::lattice::{
    LatticePoint,
    within_radius,
    is_within_radius,
    lemma_within_radius_reflexive,
    lemma_within_radius_symmetric,
};

verus! {

/// Whether `neighbors` lists, each once, exactly the places of those of
/// `points` that lie within `radius` of `position`.
pub open spec fn is_neighbor_list(
    points: Seq<LatticePoint>,
    radius: u32,
    position: LatticePoint,
    neighbors: Seq<usize>,
) -> bool {
    &&& neighbors.no_duplicates()
    &&& forall|k: int|
        0 <= k < neighbors.len() ==> (#[trigger] neighbors[k]) < points.len() && within_radius(
            points[neighbors[k] as int],
            position,
            radius,
        )
    &&& forall|i: int|
        0 <= i < points.len() && within_radius(#[trigger] points[i], position, radius)
            ==> neighbors.contains(i as usize)
}

/// Whether `lists` holds, for every one of `points`, a neighbour list of it.
pub open spec fn are_neighbor_lists(
    points: Seq<LatticePoint>,
    radius: u32,
    lists: Seq<Seq<usize>>,
) -> bool {
    &&& lists.len() == points.len()
    &&& forall|i: int|
        0 <= i < points.len() ==> is_neighbor_list(points, radius, points[i], #[trigger] lists[i])
}

/// The lists of a vector of lists.
pub open spec fn list_views(lists: Seq<Vec<usize>>) -> Seq<Seq<usize>> {
    Seq::new(lists.len(), |i: int| lists[i]@)
}

/// Two of the indexed particles are in each other's neighbour lists or
/// neither is in the other's: what one exerts on the other has its
/// counterpart.
pub proof fn lemma_neighbors_are_mutual(
    points: Seq<LatticePoint>,
    radius: u32,
    i: int,
    j: int,
    of_i: Seq<usize>,
    of_j: Seq<usize>,
)
    requires
        0 <= i < points.len(),
        0 <= j < points.len(),
        points.len() <= usize::MAX,
        is_neighbor_list(points, radius, points[i], of_i),
        is_neighbor_list(points, radius, points[j], of_j),
    ensures
        of_i.contains(j as usize) == of_j.contains(i as usize),
        of_i.contains(i as usize),
{
    lemma_within_radius_symmetric(points[i], points[j], radius);
    lemma_within_radius_reflexive(points[i], radius);
    lemma_listed_iff_near(points, radius, points[i], of_i, j);
    lemma_listed_iff_near(points, radius, points[j], of_j, i);
    lemma_listed_iff_near(points, radius, points[i], of_i, i);
}

/// A neighbour list holds a place exactly where the point at that place is
/// within the radius.
pub proof fn lemma_listed_iff_near(
    points: Seq<LatticePoint>,
    radius: u32,
    position: LatticePoint,
    neighbors: Seq<usize>,
    i: int,
)
    requires
        0 <= i < points.len(),
        points.len() <= usize::MAX,
        is_neighbor_list(points, radius, position, neighbors),
    ensures
        neighbors.contains(i as usize) == within_radius(points[i], position, radius),
{
    if neighbors.contains(i as usize) {
        let k = choose|k: int| 0 <= k < neighbors.len() && neighbors[k] == i as usize;
        assert(within_radius(points[neighbors[k] as int], position, radius));
    }
}

/// Two neighbour lists for one position hold the same places, in whatever
/// order, and are equally long: the list is settled but for its order.
pub proof fn lemma_neighbor_lists_agree(
    points: Seq<LatticePoint>,
    radius: u32,
    position: LatticePoint,
    one: Seq<usize>,
    other: Seq<usize>,
)
    requires
        points.len() <= usize::MAX,
        is_neighbor_list(points, radius, position, one),
        is_neighbor_list(points, radius, position, other),
    ensures
        one.to_set() == other.to_set(),
        one.len() == other.len(),
{
    assert forall|e: usize| one.contains(e) == other.contains(e) by {
        if one.contains(e) {
            let k = choose|k: int| 0 <= k < one.len() && one[k] == e;
            assert(within_radius(points[one[k] as int], position, radius));
            lemma_listed_iff_near(points, radius, position, other, e as int);
        }
        if other.contains(e) {
            let k = choose|k: int| 0 <= k < other.len() && other[k] == e;
            assert(within_radius(points[other[k] as int], position, radius));
            lemma_listed_iff_near(points, radius, position, one, e as int);
        }
    }
    assert(one.to_set() =~= other.to_set());
    one.unique_seq_to_set();
    other.unique_seq_to_set();
}

/// Place of the cell of `p` among the cells around the cell of `position`, in
/// the order in which a query for `position` reads them.
pub closed spec fn reading_rank(p: LatticePoint, position: LatticePoint, radius: u32) -> int {
    scan_rank(
        cell_axis(position.x, radius),
        cell_axis(position.y, radius),
        cell_axis(position.z, radius),
        cell_axis(p.x, radius),
        cell_axis(p.y, radius),
        cell_axis(p.z, radius),
    )
}

/// Whether a query for `position` comes to the place `a` before the place
/// `b`: the cell of `a` is read earlier, or the two share a cell and `a` is
/// the lower place.
pub open spec fn reads_before(
    points: Seq<LatticePoint>,
    radius: u32,
    position: LatticePoint,
    a: usize,
    b: usize,
) -> bool {
    let rank_a = reading_rank(points[a as int], position, radius);
    let rank_b = reading_rank(points[b as int], position, radius);
    rank_a < rank_b || (rank_a == rank_b && a < b)
}

/// Whether `neighbors` lists its places in the order in which a query for
/// `position` comes to them.
pub open spec fn in_reading_order(
    points: Seq<LatticePoint>,
    radius: u32,
    position: LatticePoint,
    neighbors: Seq<usize>,
) -> bool {
    forall|k: int, l: int|
        0 <= k < l < neighbors.len() ==> reads_before(
            points,
            radius,
            position,
            #[trigger] neighbors[k],
            #[trigger] neighbors[l],
        )
}

/// The neighbour list of a position in reading order is settled: there is
/// one such list and no other, so an index answers a query the same way
/// every time.
pub proof fn lemma_neighbor_list_is_settled(
    points: Seq<LatticePoint>,
    radius: u32,
    position: LatticePoint,
    one: Seq<usize>,
    other: Seq<usize>,
)
    requires
        points.len() <= usize::MAX,
        is_neighbor_list(points, radius, position, one),
        is_neighbor_list(points, radius, position, other),
        in_reading_order(points, radius, position, one),
        in_reading_order(points, radius, position, other),
    ensures
        one == other,
{
    lemma_neighbor_lists_agree(points, radius, position, one, other);
    assert forall|e: usize| one.contains(e) == other.contains(e) by {
        assert(one.to_set().contains(e) == other.to_set().contains(e));
    }
    lemma_ordered_lists_of_same_places_are_equal(points, radius, position, one, other);
}

/// Two lists in reading order that hold the same places are equal.
proof fn lemma_ordered_lists_of_same_places_are_equal(
    points: Seq<LatticePoint>,
    radius: u32,
    position: LatticePoint,
    one: Seq<usize>,
    other: Seq<usize>,
)
    requires
        in_reading_order(points, radius, position, one),
        in_reading_order(points, radius, position, other),
        forall|e: usize| one.contains(e) == other.contains(e),
    ensures
        one =~= other,
    decreases one.len(),
{
    if one.len() == 0 {
        if other.len() > 0 {
            assert(other.contains(other[0]));
        }
    } else if other.len() == 0 {
        assert(one.contains(one[0]));
    } else {
        let last_one = one.last();
        let last_other = other.last();
        assert(one.contains(last_one));
        assert(other.contains(last_other));
        let k = choose|k: int| 0 <= k < other.len() && other[k] == last_one;
        let l = choose|l: int| 0 <= l < one.len() && one[l] == last_other;
        if k < other.len() - 1 && l < one.len() - 1 {
            assert(reads_before(points, radius, position, other[k], other[other.len() - 1]));
            assert(reads_before(points, radius, position, one[l], one[one.len() - 1]));
        }
        assert(last_one == last_other);
        let rest_one = one.drop_last();
        let rest_other = other.drop_last();
        assert forall|e: usize| rest_one.contains(e) == rest_other.contains(e) by {
            if rest_one.contains(e) {
                let i = choose|i: int| 0 <= i < rest_one.len() && rest_one[i] == e;
                assert(one[i] == e);
                assert(reads_before(points, radius, position, one[i], one[one.len() - 1]));
                assert(e != last_one);
                assert(one.contains(e));
                let j = choose|j: int| 0 <= j < other.len() && other[j] == e;
                assert(rest_other[j] == e);
            }
            if rest_other.contains(e) {
                let i = choose|i: int| 0 <= i < rest_other.len() && rest_other[i] == e;
                assert(other[i] == e);
                assert(reads_before(points, radius, position, other[i], other[other.len() - 1]));
                assert(e != last_other);
                assert(other.contains(e));
                let j = choose|j: int| 0 <= j < one.len() && one[j] == e;
                assert(rest_one[j] == e);
            }
        }
        assert(in_reading_order(points, radius, position, rest_one)) by {
            assert forall|a: int, b: int| 0 <= a < b < rest_one.len() implies reads_before(
                points,
                radius,
                position,
                #[trigger] rest_one[a],
                #[trigger] rest_one[b],
            ) by {
                assert(rest_one[a] == one[a] && rest_one[b] == one[b]);
            }
        }
        assert(in_reading_order(points, radius, position, rest_other)) by {
            assert forall|a: int, b: int| 0 <= a < b < rest_other.len() implies reads_before(
                points,
                radius,
                position,
                #[trigger] rest_other[a],
                #[trigger] rest_other[b],
            ) by {
                assert(rest_other[a] == other[a] && rest_other[b] == other[b]);
            }
        }
        lemma_ordered_lists_of_same_places_are_equal(
            points,
            radius,
            position,
            rest_one,
            rest_other,
        );
        assert(one =~= rest_one.push(last_one));
        assert(other =~= rest_other.push(last_other));
    }
}

/// Whether `there` and `back` carry the places of `points` to those of
/// `reordered` and back: the two hold the same particles in another order.
pub open spec fn is_reordering(
    points: Seq<LatticePoint>,
    reordered: Seq<LatticePoint>,
    there: Seq<usize>,
    back: Seq<usize>,
) -> bool {
    &&& reordered.len() == points.len()
    &&& there.len() == points.len()
    &&& back.len() == points.len()
    &&& forall|i: int|
        0 <= i < points.len() ==> (#[trigger] there[i]) < points.len() && reordered[there[i] as int]
            == points[i] && back[there[i] as int] == i
    &&& forall|k: int|
        0 <= k < points.len() ==> (#[trigger] back[k]) < points.len() && there[back[k] as int] == k
}

/// The neighbours of a position do not depend on the order of the
/// particles: the neighbour list among the reordered particles, each place
/// carried back, is a neighbour list among the particles as they were.
pub proof fn lemma_reordering_keeps_neighbors(
    points: Seq<LatticePoint>,
    reordered: Seq<LatticePoint>,
    there: Seq<usize>,
    back: Seq<usize>,
    radius: u32,
    position: LatticePoint,
    neighbors: Seq<usize>,
)
    requires
        points.len() <= usize::MAX,
        is_reordering(points, reordered, there, back),
        is_neighbor_list(reordered, radius, position, neighbors),
    ensures
        is_neighbor_list(
            points,
            radius,
            position,
            Seq::new(neighbors.len(), |k: int| back[neighbors[k] as int]),
        ),
{
    let carried = Seq::new(neighbors.len(), |k: int| back[neighbors[k] as int]);
    assert forall|k: int| 0 <= k < carried.len() implies (#[trigger] carried[k]) < points.len()
        && within_radius(points[carried[k] as int], position, radius) by {
        let e = neighbors[k];
        assert(within_radius(reordered[e as int], position, radius));
        assert(there[back[e as int] as int] == e);
        assert(reordered[there[back[e as int] as int] as int] == points[back[e as int] as int]);
    }
    assert forall|k: int, l: int|
        0 <= k < carried.len() && 0 <= l < carried.len() && k != l implies carried[k]
        != carried[l] by {
        assert(there[back[neighbors[k] as int] as int] == neighbors[k]);
        assert(there[back[neighbors[l] as int] as int] == neighbors[l]);
    }
    assert forall|i: int|
        0 <= i < points.len() && within_radius(
            #[trigger] points[i],
            position,
            radius,
        ) implies carried.contains(i as usize) by {
        let e = there[i];
        assert(reordered[e as int] == points[i]);
        assert(neighbors.contains(e));
        let k = choose|k: int| 0 <= k < neighbors.len() && neighbors[k] == e;
        assert(carried[k] == i as usize);
    }
}

/// Edge of a cell: the radius, or one lattice step where the radius is zero.
spec fn cell_edge(radius: u32) -> int {
    if radius == 0 {
        1
    } else {
        radius as int
    }
}

/// Cell number of a coordinate along one axis, counted from 1 so that the
/// cell before it still has a number.
spec fn cell_axis(v: i32, radius: u32) -> int {
    (v + 0x8000_0000) / cell_edge(radius) + 1
}

/// Place of the cell `(cx, cy, cz)` among the 27 cells around `(bx, by, bz)`,
/// in the order in which a query reads them.
spec fn scan_rank(bx: int, by: int, bz: int, cx: int, cy: int, cz: int) -> int {
    (cx - bx + 1) * 9 + (cy - by + 1) * 3 + (cz - bz + 1)
}

/// Whether the cell `(cx, cy, cz)` is one of the 27 around `(bx, by, bz)`.
spec fn in_box(bx: int, by: int, bz: int, cx: int, cy: int, cz: int) -> bool {
    &&& bx - 1 <= cx <= bx + 1
    &&& by - 1 <= cy <= by + 1
    &&& bz - 1 <= cz <= bz + 1
}

/// Slot of a cell in a table of `slots` slots.
spec fn cell_slot(cx: int, cy: int, cz: int, slots: int) -> int {
    (cx * 73856093 + cy * 19349663 + cz * 83492791) % slots
}

/// Slot of the cell that holds `p`.
spec fn point_slot(p: LatticePoint, radius: u32, slots: int) -> int {
    cell_slot(cell_axis(p.x, radius), cell_axis(p.y, radius), cell_axis(p.z, radius), slots)
}

/// Whether `table` files the first `upto` of `points`, and nothing else, each
/// under the slot of its cell, every slot in rising order.
spec fn files_points(
    points: Seq<LatticePoint>,
    radius: u32,
    table: Seq<Vec<usize>>,
    upto: int,
) -> bool {
    &&& table.len() >= 1
    &&& forall|k: int, t: int|
        0 <= k < table.len() && 0 <= t < table[k]@.len() ==> (#[trigger] table[k]@[t]) < upto
            && point_slot(points[table[k]@[t] as int], radius, table.len() as int) == k
    &&& forall|i: int|
        0 <= i < upto ==> table[point_slot(#[trigger] points[i], radius, table.len() as int)]@.contains(
            i as usize,
        )
    &&& forall|k: int, s: int, t: int|
        0 <= k < table.len() && 0 <= s < t < table[k]@.len() ==> (#[trigger] table[k]@[s]) < (
        #[trigger] table[k]@[t])
}

/// Along one axis, coordinates at most a cell edge apart fall into the same
/// cell or into adjacent ones.
proof fn lemma_close_coordinates_adjacent_cells(a: i32, b: i32, radius: u32)
    requires
        (a - b) * (a - b) <= radius * radius,
    ensures
        cell_axis(b, radius) - 1 <= cell_axis(a, radius) <= cell_axis(b, radius) + 1,
{
    let h = cell_edge(radius);
    let ua = a + 0x8000_0000;
    let ub = b + 0x8000_0000;
    let d = a - b;
    let r = radius as int;
    assert(-r <= d <= r) by (nonlinear_arith)
        requires
            d * d <= r * r,
            r >= 0,
    ;
    assert(ub - h <= ua <= ub + h);
    vstd::arithmetic::div_mod::lemma_div_plus_one(ub, h);
    vstd::arithmetic::div_mod::lemma_div_plus_one(ua, h);
    vstd::arithmetic::div_mod::lemma_div_is_ordered(ua, ub + h, h);
    vstd::arithmetic::div_mod::lemma_div_is_ordered(ub, ua + h, h);
}

/// Points within the radius of one another lie in cells of one 27-cell box.
proof fn lemma_near_points_share_box(p: LatticePoint, q: LatticePoint, radius: u32)
    requires
        within_radius(p, q, radius),
    ensures
        in_box(
            cell_axis(q.x, radius),
            cell_axis(q.y, radius),
            cell_axis(q.z, radius),
            cell_axis(p.x, radius),
            cell_axis(p.y, radius),
            cell_axis(p.z, radius),
        ),
{
    let dx = p.x - q.x;
    let dy = p.y - q.y;
    let dz = p.z - q.z;
    let rr = radius * radius;
    assert(dx * dx >= 0 && dy * dy >= 0 && dz * dz >= 0) by (nonlinear_arith);
    assert(dx * dx <= rr && dy * dy <= rr && dz * dz <= rr);
    lemma_close_coordinates_adjacent_cells(p.x, q.x, radius);
    lemma_close_coordinates_adjacent_cells(p.y, q.y, radius);
    lemma_close_coordinates_adjacent_cells(p.z, q.z, radius);
}

/// Cell number of a coordinate.
fn axis_cell(v: i32, radius: u32) -> (c: u64)
    ensures
        c == cell_axis(v, radius),
        1 <= c <= 0x1_0000_0000,
{
    let edge: u64 = if radius == 0 {
        1
    } else {
        radius as u64
    };
    let shifted: u64 = (v as i64 + 0x8000_0000i64) as u64;
    proof {
        vstd::arithmetic::div_mod::lemma_div_pos_is_pos(shifted as int, edge as int);
        vstd::arithmetic::div_mod::lemma_div_is_ordered_by_denominator(
            shifted as int,
            1,
            edge as int,
        );
    }
    shifted / edge + 1
}

/// Slot of a cell.
fn slot_of_cell(cx: u64, cy: u64, cz: u64, slots: usize) -> (k: usize)
    requires
        cx <= 0x1_0000_0001,
        cy <= 0x1_0000_0001,
        cz <= 0x1_0000_0001,
        slots > 0,
    ensures
        k == cell_slot(cx as int, cy as int, cz as int, slots as int),
        k < slots,
{
    let mixed: u64 = cx * 73856093 + cy * 19349663 + cz * 83492791;
    (mixed % (slots as u64)) as usize
}

/// Slot of the cell that holds `p`.
fn slot_of_point(p: &LatticePoint, radius: u32, slots: usize) -> (k: usize)
    requires
        slots > 0,
    ensures
        k == point_slot(*p, radius, slots as int),
        k < slots,
{
    slot_of_cell(axis_cell(p.x, radius), axis_cell(p.y, radius), axis_cell(p.z, radius), slots)
}

/// The neighbourhood index: the positions it was built from, the support
/// radius, and the hash table of cells.
pub struct Neighborhoods {
    points: Vec<LatticePoint>,
    radius: u32,
    table: Vec<Vec<usize>>,
}

impl Neighborhoods {
    #[verifier::type_invariant]
    spec fn well_formed(&self) -> bool {
        files_points(self.points@, self.radius, self.table@, self.points@.len() as int)
    }

    /// The positions the index was built from, in the order given.
    pub closed spec fn points(&self) -> Seq<LatticePoint> {
        self.points@
    }

    /// The support radius the index was built for.
    pub closed spec fn support_radius(&self) -> u32 {
        self.radius
    }

    /// Builds the index of `points` for the support radius `radius`, in one
    /// pass over the points.
    pub fn new(points: Vec<LatticePoint>, radius: u32) -> (index: Self)
        ensures
            index.points() == points@,
            index.support_radius() == radius,
    {
        let count: usize = points.len();
        let slots: usize = if count == 0 {
            1
        } else {
            count
        };
        let mut table: Vec<Vec<usize>> = Vec::new();
        while table.len() < slots
            invariant
                table.len() <= slots,
                forall|k: int| 0 <= k < table.len() ==> (#[trigger] table@[k])@.len() == 0,
            decreases slots - table.len(),
        {
            table.push(Vec::new());
        }
        let mut i: usize = 0;
        while i < count
            invariant
                i <= count,
                count == points.len(),
                slots >= 1,
                table.len() == slots,
                files_points(points@, radius, table@, i as int),
            decreases count - i,
        {
            let k: usize = slot_of_point(&points[i], radius, slots);
            let ghost before = table@;
            table[k].push(i);
            proof {
                let after = table@;
                assert(after.len() == before.len());
                assert(after[k as int]@ == before[k as int]@.push(i));
                assert(forall|j: int| 0 <= j < before.len() && j != k ==> after[j] == before[j]);
                assert forall|j: int, t: int|
                    0 <= j < after.len() && 0 <= t < after[j]@.len() implies (
                #[trigger] after[j]@[t]) < i + 1 && point_slot(
                    points@[after[j]@[t] as int],
                    radius,
                    after.len() as int,
                ) == j by {
                    if j == k && t == before[k as int]@.len() {
                    } else {
                        assert(after[j]@[t] == before[j]@[t]);
                    }
                }
                assert forall|e: int| 0 <= e < i + 1 implies after[point_slot(
                    #[trigger] points@[e],
                    radius,
                    after.len() as int,
                )]@.contains(e as usize) by {
                    let s = point_slot(points@[e], radius, after.len() as int);
                    if e == i {
                        assert(after[k as int]@[before[k as int]@.len() as int] == i);
                    } else {
                        assert(before[s]@.contains(e as usize));
                        let t = choose|t: int|
                            0 <= t < before[s]@.len() && before[s]@[t] == e as usize;
                        assert(after[s]@[t] == e as usize);
                    }
                }
                assert forall|j: int, s: int, t: int|
                    0 <= j < after.len() && 0 <= s < t < after[j]@.len() implies (
                #[trigger] after[j]@[s]) < (#[trigger] after[j]@[t]) by {
                    if j == k {
                        assert(after[j]@[s] == before[j]@[s]);
                        if t < before[j]@.len() {
                            assert(after[j]@[t] == before[j]@[t]);
                        }
                    } else {
                        assert(after[j]@[s] == before[j]@[s]);
                        assert(after[j]@[t] == before[j]@[t]);
                    }
                }
            }
            i += 1;
        }
        Neighborhoods { points, radius, table }
    }

    /// Number of indexed positions.
    pub fn len(&self) -> (count: usize)
        ensures
            count == self.points().len(),
    {
        self.points.len()
    }

    /// The support radius.
    pub fn radius(&self) -> (radius: u32)
        ensures
            radius == self.support_radius(),
    {
        self.radius
    }

    /// The position indexed at place `i`, if there is one.
    pub fn position(&self, i: usize) -> (position: Option<LatticePoint>)
        ensures
            i < self.points().len() ==> position == Some(self.points()[i as int]),
            i >= self.points().len() ==> position.is_none(),
    {
        if i < self.points.len() {
            Some(self.points[i])
        } else {
            None
        }
    }

    /// Places of all indexed positions within the support radius of
    /// `position`, each once, in the order in which the query reads them. The
    /// list is empty where there is none.
    pub fn get_neighbors(&self, position: LatticePoint) -> (neighbors: Vec<usize>)
        ensures
            is_neighbor_list(self.points(), self.support_radius(), position, neighbors@),
            in_reading_order(self.points(), self.support_radius(), position, neighbors@),
    {
        proof {
            use_type_invariant(self);
        }
        let slots: usize = self.table.len();
        let radius: u32 = self.radius;
        let bx: u64 = axis_cell(position.x, radius);
        let by: u64 = axis_cell(position.y, radius);
        let bz: u64 = axis_cell(position.z, radius);
        let count: usize = self.points.len();
        let mut found: Vec<usize> = Vec::new();
        let mut m: u64 = 0;
        while m < 27
            invariant
                m <= 27,
                count == self.points@.len(),
                slots == self.table.len(),
                radius == self.radius,
                bx == cell_axis(position.x, radius),
                by == cell_axis(position.y, radius),
                bz == cell_axis(position.z, radius),
                1 <= bx <= 0x1_0000_0000,
                1 <= by <= 0x1_0000_0000,
                1 <= bz <= 0x1_0000_0000,
                files_points(self.points@, radius, self.table@, self.points@.len() as int),
                found@.no_duplicates(),
                in_reading_order(self.points@, radius, position, found@),
                forall|n: int|
                    0 <= n < found@.len() ==> self.read_before(
                        position,
                        #[trigger] found@[n],
                        m as int,
                    ),
                forall|e: usize| #[trigger]
                    self.read_before(position, e, m as int) ==> found@.contains(e),
            decreases 27 - m,
        {
            let cx: u64 = bx - 1 + m / 9;
            let cy: u64 = by - 1 + (m / 3) % 3;
            let cz: u64 = bz - 1 + m % 3;
            assert(scan_rank(bx as int, by as int, bz as int, cx as int, cy as int, cz as int)
                == m);
            let k: usize = slot_of_cell(cx, cy, cz, slots);
            let mut t: usize = 0;
            proof {
                assert forall|e: usize| #[trigger]
                    self.taken(position, e, m as int, k as int, 0) implies found@.contains(e) by {
                    assert(self.read_before(position, e, m as int));
                }
            }
            while t < self.table[k].len()
                invariant
                    m < 27,
                    k < self.table.len(),
                    slots == self.table.len(),
                    radius == self.radius,
                    t <= self.table@[k as int]@.len(),
                    bx == cell_axis(position.x, radius),
                    by == cell_axis(position.y, radius),
                    bz == cell_axis(position.z, radius),
                    in_box(bx as int, by as int, bz as int, cx as int, cy as int, cz as int),
                    scan_rank(bx as int, by as int, bz as int, cx as int, cy as int, cz as int)
                        == m,
                    k == cell_slot(cx as int, cy as int, cz as int, slots as int),
                    files_points(self.points@, radius, self.table@, self.points@.len() as int),
                    found@.no_duplicates(),
                    in_reading_order(self.points@, radius, position, found@),
                    forall|n: int|
                        0 <= n < found@.len() ==> self.taken(
                            position,
                            #[trigger] found@[n],
                            m as int,
                            k as int,
                            t as int,
                        ),
                    forall|e: usize| #[trigger]
                        self.taken(position, e, m as int, k as int, t as int) ==> found@.contains(
                            e,
                        ),
                decreases self.table@[k as int]@.len() - t,
            {
                let j: usize = self.table[k][t];
                assert(j == self.table@[k as int]@[t as int]);
                assert(j < self.points@.len());
                let p: LatticePoint = self.points[j];
                let px: u64 = axis_cell(p.x, radius);
                let py: u64 = axis_cell(p.y, radius);
                let pz: u64 = axis_cell(p.z, radius);
                let near: bool = is_within_radius(&p, &position, radius);
                let ghost earlier = found@;
                let take: bool = px == cx && py == cy && pz == cz && near;
                proof {
                    // What the step adds to the entries read is `j`, and `j`
                    // counts exactly when it is taken.
                    if !take && near {
                        lemma_near_points_share_box(p, position, radius);
                    }
                    if !take && near && self.rank_of(position, j) == m {
                        lemma_rank_names_cell(
                            bx as int,
                            by as int,
                            bz as int,
                            cx as int,
                            cy as int,
                            cz as int,
                            px as int,
                            py as int,
                            pz as int,
                        );
                    }
                    assert forall|e: usize| #[trigger]
                        self.taken(position, e, m as int, k as int, t + 1) implies self.taken(
                        position,
                        e,
                        m as int,
                        k as int,
                        t as int,
                    ) || (take && e == j) by {
                        if !self.read_before(position, e, m as int) {
                            let s = choose|s: int| 0 <= s < t + 1 && self.table@[k as int]@[s] == e;
                            if s < t {
                                assert(self.read_in_slot(position, e, m as int, k as int, t as int));
                            }
                        }
                    }
                    assert forall|e: usize| #[trigger]
                        self.taken(position, e, m as int, k as int, t as int) implies self.taken(
                        position,
                        e,
                        m as int,
                        k as int,
                        t + 1,
                    ) && (take ==> e != j) by {
                        if !self.read_before(position, e, m as int) {
                            let s = choose|s: int| 0 <= s < t && self.table@[k as int]@[s] == e;
                            assert(0 <= s < t + 1);
                            assert(self.table@[k as int]@[s] < self.table@[k as int]@[t as int]);
                        } else if e == j && take {
                            assert(self.rank_of(position, j) == m);
                        }
                    }
                }
                if take {
                    found.push(j);
                    proof {
                        assert(self.read_in_slot(position, j, m as int, k as int, t + 1));
                        assert(found@ == earlier.push(j));
                        assert forall|n: int| 0 <= n < earlier.len() implies earlier[n] != j by {
                            assert(self.taken(position, earlier[n], m as int, k as int, t as int));
                        }
                        assert forall|a: int, b: int|
                            0 <= a < b < found@.len() implies reads_before(
                            self.points@,
                            radius,
                            position,
                            #[trigger] found@[a],
                            #[trigger] found@[b],
                        ) by {
                            assert(found@[a] == earlier[a]);
                            if b < earlier.len() {
                                assert(found@[b] == earlier[b]);
                            } else {
                                let e = earlier[a];
                                assert(self.taken(position, e, m as int, k as int, t as int));
                                if !self.read_before(position, e, m as int) {
                                    let s = choose|s: int|
                                        0 <= s < t && self.table@[k as int]@[s] == e;
                                    assert(self.table@[k as int]@[s] < self.table@[k as int]@[t
                                        as int]);
                                }
                            }
                        }
                        assert forall|n: int| 0 <= n < found@.len() implies self.taken(
                            position,
                            #[trigger] found@[n],
                            m as int,
                            k as int,
                            t + 1,
                        ) by {
                            if n < earlier.len() {
                                assert(found@[n] == earlier[n]);
                                assert(self.taken(position, earlier[n], m as int, k as int, t as int));
                            }
                        }
                        assert forall|e: usize| #[trigger]
                            self.taken(position, e, m as int, k as int, t + 1) implies found@.contains(
                            e,
                        ) by {
                            if e == j {
                                assert(found@[earlier.len() as int] == j);
                            } else {
                                assert(self.taken(position, e, m as int, k as int, t as int));
                                assert(earlier.contains(e));
                                let n = choose|n: int| 0 <= n < earlier.len() && earlier[n] == e;
                                assert(found@[n] == e);
                            }
                        }
                    }
                } else {
                    proof {
                        assert forall|n: int| 0 <= n < found@.len() implies self.taken(
                            position,
                            #[trigger] found@[n],
                            m as int,
                            k as int,
                            t + 1,
                        ) by {
                            assert(self.taken(position, found@[n], m as int, k as int, t as int));
                        }
                        assert forall|e: usize| #[trigger]
                            self.taken(position, e, m as int, k as int, t + 1) implies found@.contains(
                            e,
                        ) by {
                            assert(self.taken(position, e, m as int, k as int, t as int));
                        }
                    }
                }
                t += 1;
            }
            proof {
                assert forall|n: int| 0 <= n < found@.len() implies self.read_before(
                    position,
                    #[trigger] found@[n],
                    m + 1,
                ) by {
                    assert(self.taken(position, found@[n], m as int, k as int, t as int));
                }
                assert forall|e: usize| #[trigger]
                    self.read_before(position, e, m + 1) implies found@.contains(e) by {
                    if !self.read_before(position, e, m as int) {
                        assert(self.rank_of(position, e) == m);
                        lemma_rank_names_cell(
                            bx as int,
                            by as int,
                            bz as int,
                            cx as int,
                            cy as int,
                            cz as int,
                            cell_axis(self.points@[e as int].x, radius),
                            cell_axis(self.points@[e as int].y, radius),
                            cell_axis(self.points@[e as int].z, radius),
                        );
                        // `e` is filed under the slot that was just read.
                        assert(point_slot(self.points@[e as int], radius, slots as int) == k);
                        assert(self.table@[k as int]@.contains(e));
                        assert(self.read_in_slot(position, e, m as int, k as int, t as int));
                        assert(self.taken(position, e, m as int, k as int, t as int));
                    } else {
                        assert(self.taken(position, e, m as int, k as int, t as int));
                    }
                }
            }
            m += 1;
        }
        proof {
            assert forall|n: int| 0 <= n < found@.len() implies (#[trigger] found@[n])
                < self.points@.len() && within_radius(
                self.points@[found@[n] as int],
                position,
                radius,
            ) by {
                assert(self.read_before(position, found@[n], 27));
            }
            assert forall|i: int|
                0 <= i < self.points@.len() && within_radius(
                    #[trigger] self.points@[i],
                    position,
                    radius,
                ) implies found@.contains(i as usize) by {
                let e = i as usize;
                assert(e == i);
                lemma_near_points_share_box(self.points@[i], position, radius);
                assert(self.read_before(position, e, 27));
            }
        }
        found
    }

    /// The neighbour list of every indexed position, in the order of the
    /// positions: the list at place `i` is that of the position at place `i`.
    pub fn neighbor_lists(&self) -> (lists: Vec<Vec<usize>>)
        ensures
            lists@.len() == self.points().len(),
            are_neighbor_lists(self.points(), self.support_radius(), list_views(lists@)),
            forall|i: int|
                0 <= i < lists@.len() ==> is_neighbor_list(
                    self.points(),
                    self.support_radius(),
                    self.points()[i],
                    (#[trigger] lists@[i])@,
                ) && in_reading_order(
                    self.points(),
                    self.support_radius(),
                    self.points()[i],
                    lists@[i]@,
                ),
    {
        let count: usize = self.points.len();
        let mut lists: Vec<Vec<usize>> = Vec::new();
        let mut i: usize = 0;
        while i < count
            invariant
                i <= count,
                count == self.points@.len(),
                lists@.len() == i,
                forall|e: int|
                    0 <= e < i ==> is_neighbor_list(
                        self.points(),
                        self.support_radius(),
                        self.points()[e],
                        (#[trigger] lists@[e])@,
                    ) && in_reading_order(
                        self.points(),
                        self.support_radius(),
                        self.points()[e],
                        lists@[e]@,
                    ),
            decreases count - i,
        {
            let neighbors: Vec<usize> = self.get_neighbors(self.points[i]);
            lists.push(neighbors);
            i += 1;
        }
        lists
    }

    /// Place, in the order of reading, of the cell of the point at `i` among
    /// the cells around `position`.
    spec fn rank_of(&self, position: LatticePoint, i: usize) -> int {
        reading_rank(self.points@[i as int], position, self.radius)
    }

    /// Whether the point at `i` is a neighbour of `position` whose cell is
    /// among the first `m` cells read.
    spec fn read_before(&self, position: LatticePoint, i: usize, m: int) -> bool {
        &&& i < self.points@.len()
        &&& within_radius(self.points@[i as int], position, self.radius)
        &&& in_box(
            cell_axis(position.x, self.radius),
            cell_axis(position.y, self.radius),
            cell_axis(position.z, self.radius),
            cell_axis(self.points@[i as int].x, self.radius),
            cell_axis(self.points@[i as int].y, self.radius),
            cell_axis(self.points@[i as int].z, self.radius),
        )
        &&& self.rank_of(position, i) < m
    }

    /// Whether the point at `i` is a neighbour of `position` in the cell read
    /// at step `m`, filed among the first `t` entries of slot `k`.
    spec fn read_in_slot(&self, position: LatticePoint, i: usize, m: int, k: int, t: int) -> bool {
        &&& i < self.points@.len()
        &&& within_radius(self.points@[i as int], position, self.radius)
        &&& in_box(
            cell_axis(position.x, self.radius),
            cell_axis(position.y, self.radius),
            cell_axis(position.z, self.radius),
            cell_axis(self.points@[i as int].x, self.radius),
            cell_axis(self.points@[i as int].y, self.radius),
            cell_axis(self.points@[i as int].z, self.radius),
        )
        &&& self.rank_of(position, i) == m
        &&& exists|s: int| 0 <= s < t && self.table@[k]@[s] == i
    }

    /// Whether a query for `position` that has read `m` cells, and `t`
    /// entries of slot `k` for the next one, has come past the point at `i`.
    spec fn taken(&self, position: LatticePoint, i: usize, m: int, k: int, t: int) -> bool {
        self.read_before(position, i, m) || self.read_in_slot(position, i, m, k, t)
    }
}

/// Among the cells of one box, the place in the order of reading names the
/// cell.
proof fn lemma_rank_names_cell(
    bx: int,
    by: int,
    bz: int,
    cx: int,
    cy: int,
    cz: int,
    dx: int,
    dy: int,
    dz: int,
)
    requires
        in_box(bx, by, bz, cx, cy, cz),
        in_box(bx, by, bz, dx, dy, dz),
        scan_rank(bx, by, bz, cx, cy, cz) == scan_rank(bx, by, bz, dx, dy, dz),
    ensures
        cx == dx,
        cy == dy,
        cz == dz,
{
}

} // verus!
