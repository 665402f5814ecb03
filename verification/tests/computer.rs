use sph_fluid::computer::{compute_work_group_count, Dimensions, Shader};
use sph_fluid::general::PhysicalSize;

#[test]
fn full_hd_in_groups_of_eight() {
    assert_eq!(compute_work_group_count((1920, 1080), (8, 8)), (240, 135));
}

#[test]
fn a_remainder_takes_one_more_group() {
    assert_eq!(compute_work_group_count((17, 16), (8, 8)), (3, 2));
    assert_eq!(compute_work_group_count((1, 7), (8, 8)), (1, 1));
    assert_eq!(compute_work_group_count((9, 8), (8, 4)), (2, 2));
}

#[test]
fn an_empty_grid_needs_no_group() {
    assert_eq!(compute_work_group_count((0, 0), (8, 8)), (0, 0));
    assert_eq!(compute_work_group_count((0, 5), (1, 5)), (0, 1));
}

#[test]
fn groups_of_one_give_the_size() {
    assert_eq!(compute_work_group_count((u32::MAX, 12345), (1, 1)), (u32::MAX, 12345));
}

#[test]
fn the_largest_extent_does_not_overflow() {
    assert_eq!(compute_work_group_count((u32::MAX, u32::MAX), (8, u32::MAX)), (536_870_912, 1));
    assert_eq!(compute_work_group_count((u32::MAX, u32::MAX - 1), (2, u32::MAX)), (2_147_483_648, 1));
}

#[test]
fn the_groups_cover_and_none_is_spare() {
    for extent in 0u32..200 {
        for group in 1u32..20 {
            let (count, _) = compute_work_group_count((extent, 1), (group, 1));
            assert!(count as u64 * group as u64 >= extent as u64);
            if count > 0 {
                assert!(((count - 1) as u64 * group as u64) < extent as u64);
            }
        }
    }
}

#[test]
fn dimensions_keep_width_and_height() {
    let dimensions = Dimensions::new(640, 480);
    assert_eq!(dimensions.width, 640);
    assert_eq!(dimensions.height, 480);
    assert_eq!(dimensions.as_tuple(), (640, 480));
}

#[test]
fn dimensions_from_a_surface_size() {
    let dimensions = Dimensions::from_size(PhysicalSize::new(800, 600));
    assert_eq!(dimensions, Dimensions::new(800, 600));
    assert_eq!(dimensions.as_tuple(), (800, 600));
}

#[test]
fn dimensions_feed_the_group_count() {
    let dimensions = Dimensions::new(1000, 10);
    assert_eq!(compute_work_group_count(dimensions.as_tuple(), (8, 8)), (125, 2));
}

#[test]
fn a_shader_names_its_file_and_entry_point() {
    let shader = Shader { path: String::from("shaders/fluid.wgsl"), entry_point: String::from("main") };
    assert_eq!(shader.path, "shaders/fluid.wgsl");
    assert_eq!(shader.entry_point, "main");
}
