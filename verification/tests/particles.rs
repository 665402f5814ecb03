use sph_fluid::fluids::lattice::LatticePoint;
use sph_fluid::fluids::neighborhoods::Neighborhoods;
use sph_fluid::fluids::pressure::{ConfigError, Fluid};
use sph_fluid::particles::{spawn, DIMENSIONS};

fn point(x: i32, y: i32, z: i32) -> LatticePoint {
    LatticePoint { x, y, z }
}

#[test]
fn the_starting_block_is_twenty_cubed() {
    assert_eq!(DIMENSIONS, (20, 20, 20));
    let block = spawn(DIMENSIONS, 2).unwrap();
    assert_eq!(block.len(), 8000);
    assert_eq!(block[0], point(0, 0, 0));
    assert_eq!(block[1], point(2, 0, 0));
    assert_eq!(block[20], point(0, 2, 0));
    assert_eq!(block[400], point(0, 0, 2));
    assert_eq!(block[7999], point(38, 38, 38));
}

#[test]
fn a_block_is_counted_along_x_then_y_then_z() {
    assert_eq!(
        spawn((2, 2, 2), 3),
        Some(vec![
            point(0, 0, 0),
            point(3, 0, 0),
            point(0, 3, 0),
            point(3, 3, 0),
            point(0, 0, 3),
            point(3, 0, 3),
            point(0, 3, 3),
            point(3, 3, 3),
        ])
    );
}

#[test]
fn axes_of_different_counts() {
    let block = spawn((3, 2, 4), 5).unwrap();
    assert_eq!(block.len(), 24);
    for z in 0..4 {
        for y in 0..2 {
            for x in 0..3 {
                let n = ((z * 2 + y) * 3 + x) as usize;
                assert_eq!(block[n], point(x * 5, y * 5, z * 5));
            }
        }
    }
}

#[test]
fn no_particle_along_an_axis_gives_an_empty_block() {
    assert_eq!(spawn((0, 5, 5), 1), Some(Vec::new()));
    assert_eq!(spawn((5, 0, 5), 1), Some(Vec::new()));
    assert_eq!(spawn((5, 5, 0), 1), Some(Vec::new()));
    assert_eq!(spawn((-3, 5, 5), 1), Some(Vec::new()));
    assert_eq!(spawn((5, 5, i32::MIN), 1), Some(Vec::new()));
    // empty though no second particle would fit
    assert_eq!(spawn((0, i32::MAX, i32::MAX), i32::MAX), Some(Vec::new()));
}

#[test]
fn spacing_zero_puts_all_particles_at_the_origin() {
    assert_eq!(spawn((2, 2, 1), 0), Some(vec![point(0, 0, 0); 4]));
}

#[test]
fn negative_spacing_counts_downwards() {
    assert_eq!(
        spawn((3, 1, 2), -4),
        Some(vec![
            point(0, 0, 0),
            point(-4, 0, 0),
            point(-8, 0, 0),
            point(0, 0, -4),
            point(-4, 0, -4),
            point(-8, 0, -4),
        ])
    );
}

#[test]
fn the_last_particle_may_lie_on_the_edge_of_the_lattice() {
    assert_eq!(
        spawn((2, 1, 1), i32::MAX),
        Some(vec![point(0, 0, 0), point(i32::MAX, 0, 0)])
    );
    assert_eq!(
        spawn((1, 2, 1), i32::MIN),
        Some(vec![point(0, 0, 0), point(0, i32::MIN, 0)])
    );
    assert_eq!(spawn((1, 1, 1), i32::MAX), Some(vec![point(0, 0, 0)]));
}

#[test]
fn a_block_that_leaves_the_lattice_is_refused() {
    assert_eq!(spawn((3, 1, 1), i32::MAX), None);
    assert_eq!(spawn((1, 3, 1), i32::MIN), None);
    assert_eq!(spawn((1, 1, 3), 0x4000_0000), None);
    assert_eq!(spawn((2, 2, 3), 0x4000_0000), None);
    assert_eq!(spawn((2, 2, 2), 0x4000_0000).map(|block| block.len()), Some(8));
}

#[test]
fn a_block_spaced_within_the_radius_sets_up_a_fluid() {
    let block = spawn((3, 3, 3), 2).unwrap();
    let fluid = Fluid::new(block, 3, 50).unwrap();
    assert_eq!(fluid.particle_count(), 27);
}

#[test]
fn a_block_spaced_beyond_the_radius_isolates_its_particles() {
    let block = spawn((3, 3, 3), 4).unwrap();
    assert_eq!(Fluid::new(block, 3, 50).err(), Some(ConfigError::IsolatedParticle(0)));
}

#[test]
fn the_center_of_a_block_has_its_neighbors_on_all_sides() {
    let block = spawn((5, 5, 5), 2).unwrap();
    let index = Neighborhoods::new(block.clone(), 2);
    let center = (2 * 5 + 2) * 5 + 2;
    let mut found = index.get_neighbors(block[center]);
    found.sort();
    assert_eq!(
        found,
        vec![center - 25, center - 5, center - 1, center, center + 1, center + 5, center + 25]
    );
}
