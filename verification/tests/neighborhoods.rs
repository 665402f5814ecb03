use sph_fluid::fluids::lattice::{is_within_radius, LatticePoint};
use sph_fluid::fluids::neighborhoods::Neighborhoods;

fn point(x: i32, y: i32, z: i32) -> LatticePoint {
    LatticePoint { x, y, z }
}

fn squared_distance(a: &LatticePoint, b: &LatticePoint) -> i128 {
    let dx = a.x as i128 - b.x as i128;
    let dy = a.y as i128 - b.y as i128;
    let dz = a.z as i128 - b.z as i128;
    dx * dx + dy * dy + dz * dz
}

/// Places of the points within the radius, found by looking at every point.
fn by_exhaustion(points: &[LatticePoint], radius: u32, position: &LatticePoint) -> Vec<usize> {
    let limit = radius as i128 * radius as i128;
    (0..points.len()).filter(|&i| squared_distance(&points[i], position) <= limit).collect()
}

fn sorted(mut places: Vec<usize>) -> Vec<usize> {
    places.sort();
    places
}

fn uniform_grid(side: i32, spacing: i32) -> Vec<LatticePoint> {
    let mut points = Vec::new();
    for z in 0..side {
        for y in 0..side {
            for x in 0..side {
                points.push(point(x * spacing, y * spacing, z * spacing));
            }
        }
    }
    points
}

/// A fixed sequence of scattered points.
fn scattered(count: usize, spread: i32, seed: u64) -> Vec<LatticePoint> {
    let mut state = seed;
    let mut next = move || {
        state = state.wrapping_mul(6364136223846793005).wrapping_add(1442695040888963407);
        ((state >> 33) as i64 % (2 * spread as i64 + 1)) as i32 - spread
    };
    (0..count).map(|_| point(next(), next(), next())).collect()
}

#[test]
fn three_four_five() {
    let origin = point(0, 0, 0);
    assert!(is_within_radius(&point(3, 4, 0), &origin, 5));
    assert!(!is_within_radius(&point(3, 4, 0), &origin, 4));
    assert!(is_within_radius(&point(-3, 0, -4), &origin, 5));
    assert!(!is_within_radius(&point(3, 4, 1), &origin, 5));
}

#[test]
fn a_point_is_within_any_radius_of_itself() {
    let p = point(-12, 7, 1_000_000);
    assert!(is_within_radius(&p, &p, 0));
    assert!(is_within_radius(&p, &p, 1));
    assert!(is_within_radius(&p, &p, u32::MAX));
}

#[test]
fn the_farthest_corners_are_told_apart() {
    let low = point(i32::MIN, i32::MIN, i32::MIN);
    let high = point(i32::MAX, i32::MAX, i32::MAX);
    // their distance is sqrt(3) * (2^32 - 1), beyond every radius
    assert!(!is_within_radius(&low, &high, u32::MAX));
    let along = point(i32::MAX, i32::MIN, i32::MIN);
    assert!(is_within_radius(&low, &along, u32::MAX));
    assert!(!is_within_radius(&low, &along, u32::MAX - 1));
}

#[test]
fn within_radius_does_not_depend_on_the_order() {
    let points = scattered(40, 6, 3);
    for a in &points {
        for b in &points {
            for radius in 0..8 {
                assert_eq!(is_within_radius(a, b, radius), is_within_radius(b, a, radius));
            }
        }
    }
}

#[test]
fn an_empty_index_has_no_neighbors() {
    let index = Neighborhoods::new(Vec::new(), 5);
    assert_eq!(index.len(), 0);
    assert_eq!(index.radius(), 5);
    assert!(index.get_neighbors(point(0, 0, 0)).is_empty());
    assert!(index.neighbor_lists().is_empty());
    assert_eq!(index.position(0), None);
}

#[test]
fn a_position_far_from_all_has_no_neighbors() {
    let index = Neighborhoods::new(uniform_grid(3, 2), 3);
    assert!(index.get_neighbors(point(1000, 1000, 1000)).is_empty());
    assert!(index.get_neighbors(point(-4, 0, 0)).is_empty());
}

#[test]
fn the_index_keeps_the_positions_in_order() {
    let points = vec![point(5, 6, 7), point(-1, -2, -3), point(0, 0, 0)];
    let index = Neighborhoods::new(points.clone(), 9);
    assert_eq!(index.len(), 3);
    for i in 0..3 {
        assert_eq!(index.position(i), Some(points[i]));
    }
    assert_eq!(index.position(3), None);
    assert_eq!(index.position(usize::MAX), None);
}

#[test]
fn a_particle_is_among_its_own_neighbors() {
    let points = scattered(50, 30, 11);
    let index = Neighborhoods::new(points.clone(), 4);
    for (i, p) in points.iter().enumerate() {
        assert!(index.get_neighbors(*p).contains(&i));
    }
}

#[test]
fn two_particles_within_the_radius_find_each_other() {
    let points = vec![point(0, 0, 0), point(2, 0, 0)];
    let index = Neighborhoods::new(points, 3);
    assert_eq!(sorted(index.get_neighbors(point(0, 0, 0))), vec![0, 1]);
    assert_eq!(sorted(index.get_neighbors(point(2, 0, 0))), vec![0, 1]);
}

#[test]
fn the_radius_itself_is_within() {
    let points = vec![point(0, 0, 0), point(3, 0, 0), point(4, 0, 0)];
    let index = Neighborhoods::new(points, 3);
    assert_eq!(sorted(index.get_neighbors(point(0, 0, 0))), vec![0, 1]);
}

#[test]
fn grid_center_has_exactly_the_particles_within_the_radius() {
    // spacing 2 < radius 3: the centre of a 5 x 5 x 5 grid sees its 6 face
    // neighbours (distance 2) and its 12 edge neighbours (distance sqrt 8),
    // not its 8 corner neighbours (distance sqrt 12) nor anything farther
    let points = uniform_grid(5, 2);
    let index = Neighborhoods::new(points.clone(), 3);
    let center = point(4, 4, 4);
    let center_place = 2 * 25 + 2 * 5 + 2;
    assert_eq!(points[center_place], center);
    let found = sorted(index.get_neighbors(center));
    assert_eq!(found.len(), 1 + 6 + 12);
    assert_eq!(found, by_exhaustion(&points, 3, &center));
    for &i in &found {
        assert!(squared_distance(&points[i], &center) <= 9);
    }
    for i in 0..points.len() {
        if squared_distance(&points[i], &center) <= 9 {
            assert!(found.contains(&i));
        }
    }
}

#[test]
fn grid_agrees_with_exhaustion_for_every_particle_and_radius() {
    let points = uniform_grid(4, 3);
    for radius in [0u32, 1, 2, 3, 4, 5, 6, 7, 10, 100] {
        let index = Neighborhoods::new(points.clone(), radius);
        for p in &points {
            assert_eq!(sorted(index.get_neighbors(*p)), by_exhaustion(&points, radius, p));
        }
    }
}

#[test]
fn scattered_points_agree_with_exhaustion() {
    for seed in 0..6u64 {
        let points = scattered(120, 25, seed);
        for radius in [0u32, 1, 3, 8, 20, 60] {
            let index = Neighborhoods::new(points.clone(), radius);
            for p in &points {
                assert_eq!(sorted(index.get_neighbors(*p)), by_exhaustion(&points, radius, p));
            }
            let elsewhere = scattered(30, 40, seed + 100);
            for q in &elsewhere {
                assert_eq!(sorted(index.get_neighbors(*q)), by_exhaustion(&points, radius, q));
            }
        }
    }
}

#[test]
fn no_neighbor_is_listed_twice() {
    // many particles at one place and in one cell, and few slots
    let mut points = vec![point(1, 1, 1); 7];
    points.extend(uniform_grid(3, 1));
    let index = Neighborhoods::new(points.clone(), 2);
    for p in &points {
        let found = index.get_neighbors(*p);
        let mut distinct = found.clone();
        distinct.sort();
        distinct.dedup();
        assert_eq!(distinct.len(), found.len());
        assert_eq!(distinct, by_exhaustion(&points, 2, p));
    }
}

#[test]
fn neighbors_across_cell_borders_and_signs_are_found() {
    let points = vec![
        point(-1, -1, -1),
        point(0, 0, 0),
        point(1, 1, 1),
        point(-5, 0, 0),
        point(5, 0, 0),
        point(0, -5, 5),
    ];
    let index = Neighborhoods::new(points.clone(), 5);
    for p in &points {
        assert_eq!(sorted(index.get_neighbors(*p)), by_exhaustion(&points, 5, p));
    }
    assert_eq!(sorted(index.get_neighbors(point(0, 0, 0))), vec![0, 1, 2, 3, 4]);
}

#[test]
fn the_ends_of_the_lattice_are_indexed() {
    let points = vec![
        point(i32::MIN, i32::MIN, i32::MIN),
        point(i32::MIN + 1, i32::MIN, i32::MIN),
        point(i32::MAX, i32::MAX, i32::MAX),
        point(i32::MAX, i32::MAX - 1, i32::MAX),
        point(0, 0, 0),
    ];
    for radius in [0u32, 1, 2, u32::MAX] {
        let index = Neighborhoods::new(points.clone(), radius);
        for p in &points {
            assert_eq!(sorted(index.get_neighbors(*p)), by_exhaustion(&points, radius, p));
        }
    }
    let index = Neighborhoods::new(points.clone(), 1);
    assert_eq!(sorted(index.get_neighbors(points[0])), vec![0, 1]);
    assert_eq!(sorted(index.get_neighbors(points[2])), vec![2, 3]);
    assert_eq!(sorted(index.get_neighbors(points[4])), vec![4]);
}

#[test]
fn radius_zero_finds_the_coincident_particles() {
    let points = vec![point(1, 2, 3), point(1, 2, 3), point(1, 2, 4)];
    let index = Neighborhoods::new(points, 0);
    assert_eq!(sorted(index.get_neighbors(point(1, 2, 3))), vec![0, 1]);
    assert_eq!(sorted(index.get_neighbors(point(1, 2, 4))), vec![2]);
    assert!(index.get_neighbors(point(1, 2, 5)).is_empty());
}

#[test]
fn the_same_index_answers_the_same_way() {
    let points = scattered(80, 10, 5);
    let index = Neighborhoods::new(points.clone(), 6);
    let again = Neighborhoods::new(points.clone(), 6);
    for p in &points {
        assert_eq!(index.get_neighbors(*p), index.get_neighbors(*p));
        assert_eq!(index.get_neighbors(*p), again.get_neighbors(*p));
    }
}

#[test]
fn neighbor_lists_hold_the_list_of_each_particle() {
    let points = scattered(60, 12, 9);
    let index = Neighborhoods::new(points.clone(), 5);
    let lists = index.neighbor_lists();
    assert_eq!(lists.len(), points.len());
    for (i, p) in points.iter().enumerate() {
        assert_eq!(lists[i], index.get_neighbors(*p));
        assert_eq!(sorted(lists[i].clone()), by_exhaustion(&points, 5, p));
    }
}

#[test]
fn neighbors_are_mutual() {
    let points = scattered(90, 15, 21);
    let index = Neighborhoods::new(points.clone(), 7);
    let lists = index.neighbor_lists();
    for i in 0..points.len() {
        for j in 0..points.len() {
            assert_eq!(lists[i].contains(&j), lists[j].contains(&i));
        }
    }
}

#[test]
fn reordering_the_particles_keeps_the_neighbors() {
    let points = scattered(70, 10, 2);
    let mut reversed = points.clone();
    reversed.reverse();
    let index = Neighborhoods::new(points.clone(), 4);
    let other = Neighborhoods::new(reversed.clone(), 4);
    let last = points.len() - 1;
    for p in &points {
        let here = sorted(index.get_neighbors(*p));
        let there = sorted(other.get_neighbors(*p).into_iter().map(|i| last - i).collect());
        assert_eq!(here, there);
    }
}

#[test]
fn a_larger_radius_keeps_every_neighbor() {
    let points = scattered(60, 10, 8);
    let narrow = Neighborhoods::new(points.clone(), 3);
    let wide = Neighborhoods::new(points.clone(), 6);
    for p in &points {
        let more = wide.get_neighbors(*p);
        for i in narrow.get_neighbors(*p) {
            assert!(more.contains(&i));
        }
    }
}

#[test]
fn neighbors_come_cell_by_cell_and_by_place_within_a_cell() {
    // cells have the edge 2: along x, -2 and -1 share a cell, 0 and 1 the
    // next, 2 and 3 the one after
    let points = vec![point(2, 0, 0), point(0, 0, 0), point(-1, 0, 0), point(1, 0, 0)];
    let index = Neighborhoods::new(points, 2);
    assert_eq!(index.get_neighbors(point(1, 0, 0)), vec![2, 1, 3, 0]);
    assert_eq!(index.get_neighbors(point(0, 0, 0)), vec![2, 1, 3, 0]);
    // from the cell before, the same cells are read in the same order
    assert_eq!(index.get_neighbors(point(-1, 0, 0)), vec![2, 1, 3]);
}

#[test]
fn cells_are_read_along_z_fastest_and_x_slowest() {
    let points = vec![
        point(2, 0, 0),
        point(0, 2, 0),
        point(0, 0, 2),
        point(0, 0, 0),
        point(0, 0, -2),
        point(0, -2, 0),
        point(-2, 0, 0),
    ];
    let index = Neighborhoods::new(points, 2);
    assert_eq!(index.get_neighbors(point(0, 0, 0)), vec![6, 5, 4, 3, 2, 1, 0]);
}

#[test]
fn particles_at_one_place_come_by_place() {
    let points = vec![point(5, 5, 5); 6];
    let index = Neighborhoods::new(points, 1);
    assert_eq!(index.get_neighbors(point(5, 5, 5)), vec![0, 1, 2, 3, 4, 5]);
}
