use gekkemieren::food::{FoodGrid, FoodSpawner};

#[test]
fn new_grid_is_empty_and_sized() {
    let grid = FoodGrid::new(4, 3);
    assert_eq!(grid.width, 4);
    assert_eq!(grid.height, 3);
    assert_eq!(grid.data.len(), 12);
    assert!(grid.data.iter().all(|&c| c == 0));
    for y in 0..3 {
        for x in 0..4 {
            assert_eq!(grid.get(x, y), 0);
        }
    }
}

#[test]
fn get_returns_what_set_wrote() {
    let mut grid = FoodGrid::new(5, 4);
    grid.set(2, 3, 1);
    assert_eq!(grid.get(2, 3), 1);
    assert_eq!(grid.data[3 * 5 + 2], 1);
    assert_eq!(grid.get(3, 2), 0);
    grid.set(2, 3, 0);
    assert_eq!(grid.get(2, 3), 0);
}

#[test]
fn set_clamps_values_to_one() {
    let mut grid = FoodGrid::new(3, 3);
    grid.set(1, 1, 7);
    assert_eq!(grid.get(1, 1), 1);
    grid.set(0, 0, u32::MAX);
    assert_eq!(grid.get(0, 0), 1);
}

#[test]
fn out_of_bounds_reads_zero_and_writes_nothing() {
    let mut grid = FoodGrid::new(3, 2);
    grid.set(3, 0, 1);
    grid.set(0, 2, 1);
    assert!(grid.data.iter().all(|&c| c == 0));
    grid.data[0] = 1;
    assert_eq!(grid.get(3, 0), 0);
    assert_eq!(grid.get(0, 2), 0);
    assert_eq!(grid.get(u32::MAX, u32::MAX), 0);
}

#[test]
fn grid_info_reports_dimensions() {
    let grid = FoodGrid::new(640, 480);
    let info = grid.grid_info();
    assert_eq!(info.width, 640);
    assert_eq!(info.height, 480);
    assert_eq!(info._pad, [0, 0]);
}

#[test]
fn food_spawner_starts_empty() {
    let spawner = FoodSpawner::new(8, 6);
    assert_eq!(spawner.food_grid.width, 8);
    assert_eq!(spawner.food_grid.height, 6);
    assert_eq!(spawner.food_grid.data, vec![0u32; 48]);
}

#[test]
fn fill_circle_marks_disc() {
    let mut grid = FoodGrid::new(7, 7);
    // centre (3, 3), radius 1, squared radius 1: a plus shape
    grid.fill_circle_cells(3, 3, 1, 1);
    let filled: Vec<(u32, u32)> = (0..7u32)
        .flat_map(|y| (0..7u32).map(move |x| (x, y)))
        .filter(|&(x, y)| grid.get(x, y) == 1)
        .collect();
    assert_eq!(filled, vec![(3, 2), (2, 3), (3, 3), (4, 3), (3, 4)]);
}

#[test]
fn fill_circle_clamps_to_grid() {
    let mut grid = FoodGrid::new(4, 3);
    // centre outside the top-left corner, radius 2, squared radius 8
    grid.fill_circle_cells(-1, -1, 2, 8);
    let expected: Vec<u32> = vec![
        1, 1, 0, 0, //
        1, 1, 0, 0, //
        0, 0, 0, 0,
    ];
    assert_eq!(grid.data, expected);
}

#[test]
fn fill_circle_twice_is_fill_once() {
    let mut once = FoodGrid::new(10, 10);
    once.fill_circle_cells(5, 4, 3, 9);
    let mut twice = FoodGrid::new(10, 10);
    twice.fill_circle_cells(5, 4, 3, 9);
    twice.fill_circle_cells(5, 4, 3, 9);
    assert_eq!(once.data, twice.data);
    assert!(once.data.iter().all(|&c| c <= 1));
}

#[test]
fn fill_circle_negative_radius_fills_nothing() {
    let mut grid = FoodGrid::new(5, 5);
    grid.fill_circle_cells(2, 2, -1, 100);
    assert!(grid.data.iter().all(|&c| c == 0));
}

#[test]
fn fill_circle_keeps_existing_food() {
    let mut grid = FoodGrid::new(6, 6);
    grid.set(0, 5, 1);
    grid.fill_circle_cells(4, 1, 1, 2);
    assert_eq!(grid.get(0, 5), 1);
    assert_eq!(grid.get(4, 1), 1);
    assert_eq!(grid.get(5, 2), 1);
    assert_eq!(grid.get(2, 1), 0);
}
