use gekkemieren::pheromone::GridInfo;
use gekkemieren::pipeline::{
    ant_readback_size, pheromone_readback_size, screenshot_layout, tick_dispatch, workgroup_count, zeroed_cells,
    ScreenshotLayout, TickDispatch,
};

#[test]
fn workgroups_round_up() {
    assert_eq!(workgroup_count(0), 0);
    assert_eq!(workgroup_count(1), 1);
    assert_eq!(workgroup_count(64), 1);
    assert_eq!(workgroup_count(65), 2);
    assert_eq!(workgroup_count(1000), 16);
    assert_eq!(workgroup_count(u32::MAX), 67_108_864);
}

#[test]
fn tick_dispatch_covers_cells_and_ants() {
    assert_eq!(tick_dispatch(1000, 64, 64), TickDispatch { decay_groups: 64, ant_groups: 16 });
    assert_eq!(tick_dispatch(2, 800, 600), TickDispatch { decay_groups: 7500, ant_groups: 1 });
}

#[test]
fn readback_sizes() {
    assert_eq!(ant_readback_size(1000), 24_000);
    assert_eq!(ant_readback_size(0), 0);
    assert_eq!(pheromone_readback_size(64, 64), 16_384);
}

#[test]
fn screenshot_layout_packs_rows() {
    assert_eq!(screenshot_layout(800, 600), ScreenshotLayout { buffer_size: 1_920_000, bytes_per_row: 3200 });
}

#[test]
fn zeroed_cells_has_one_cell_per_pixel() {
    assert_eq!(zeroed_cells(3, 2), vec![0u32; 6]);
    assert!(zeroed_cells(0, 5).is_empty());
}

#[test]
fn grid_info_constructor_zeroes_padding() {
    let info = GridInfo::new(64, 32);
    assert_eq!((info.width, info.height, info._pad), (64, 32, [0, 0]));
}
