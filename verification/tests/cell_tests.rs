use gol::count_neighbors;
use gol::get_image_path;
use gol::grid::CellGrid;
use gol::next_state;

fn full_grid(rows: usize, cols: usize) -> CellGrid {
    let mut grid = CellGrid::new(rows, cols);
    for r in 0..rows {
        for c in 0..cols {
            grid.set(r, c, true);
        }
    }
    grid
}

#[test]
fn neighbor_count_is_clipped_at_the_edges() {
    let grid = full_grid(3, 3);
    // interior cell: all 8 neighbors
    assert_eq!(count_neighbors(&grid, 1, 1), 8);
    // corner cells: 3 neighbors each
    assert_eq!(count_neighbors(&grid, 0, 0), 3);
    assert_eq!(count_neighbors(&grid, 0, 2), 3);
    assert_eq!(count_neighbors(&grid, 2, 0), 3);
    assert_eq!(count_neighbors(&grid, 2, 2), 3);
    // edge cells: 5 neighbors each
    assert_eq!(count_neighbors(&grid, 0, 1), 5);
    assert_eq!(count_neighbors(&grid, 1, 0), 5);
    assert_eq!(count_neighbors(&grid, 1, 2), 5);
    assert_eq!(count_neighbors(&grid, 2, 1), 5);
}

#[test]
fn neighbor_count_ignores_the_cell_itself() {
    let mut grid = CellGrid::new(3, 3);
    grid.set(1, 1, true);
    assert_eq!(count_neighbors(&grid, 1, 1), 0);
    assert_eq!(count_neighbors(&grid, 0, 0), 1);
}

#[test]
fn cells_start_dead_and_writes_stick() {
    let mut grid = CellGrid::new(2, 2);
    assert_eq!(grid.dims(), (2, 2));
    assert!(!grid.get(0, 1));
    grid.set(0, 1, true);
    assert!(grid.get(0, 1));
    assert!(!grid.get(0, 0));
    assert!(!grid.get(1, 1));
}

#[test]
fn next_state_follows_the_rule() {
    for neighbors in 0..=8 {
        let survives = neighbors == 2 || neighbors == 3;
        let born = neighbors == 3;
        assert_eq!(next_state(true, neighbors), survives);
        assert_eq!(next_state(false, neighbors), born);
    }
}

#[test]
fn image_paths_spell_the_generation() {
    assert_eq!(get_image_path(0), "img/0.png");
    assert_eq!(get_image_path(7), "img/7.png");
    assert_eq!(get_image_path(42), "img/42.png");
    assert_eq!(get_image_path(100), "img/100.png");
    assert_eq!(get_image_path(-7), "img/-7.png");
    assert_eq!(get_image_path(i32::MAX), "img/2147483647.png");
    assert_eq!(get_image_path(i32::MIN), "img/-2147483648.png");
}
