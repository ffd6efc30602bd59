use conway::conway_core::{CellState, ConwayMatrix};

fn grid_of(size: usize, live: &[(usize, usize)]) -> ConwayMatrix {
    let mut grid = ConwayMatrix::new(size);
    for &(x, y) in live {
        grid.toggle_cell(x, y);
    }
    grid
}

fn live_cells(grid: &ConwayMatrix) -> Vec<(usize, usize)> {
    let mut cells = Vec::new();
    for y in 0..grid.size() {
        for x in 0..grid.size() {
            if grid.cell_at_index(x, y).is_alive() {
                cells.push((x, y));
            }
        }
    }
    cells
}

#[test]
fn new_grid_is_square_and_dead() {
    let grid = ConwayMatrix::new(4);
    assert_eq!(grid.size(), 4);
    assert_eq!(live_cells(&grid), vec![]);
    for y in 0..4 {
        for x in 0..4 {
            assert_eq!(grid.cell_at_index(x, y).neighbors(), 0);
        }
    }
}

#[test]
fn empty_grid_has_no_cells() {
    let mut grid = ConwayMatrix::new(0);
    assert_eq!(grid.size(), 0);
    grid.tick();
    grid.clear();
    assert_eq!(grid.size(), 0);
    assert_eq!(grid.render(&plain_palette()), "");
}

fn plain_palette() -> conway::render::Palette {
    conway::render::Palette::new(
        String::from("1 "),
        String::from("2 "),
        String::from("3 "),
        String::from("4 "),
        String::from("5 "),
        String::from("# "),
    )
}

#[test]
fn single_cell_grid_dies_alone() {
    let mut grid = grid_of(1, &[(0, 0)]);
    assert_eq!(grid.num_neighbors_for_cell(0, 0), 0);
    grid.tick();
    assert!(!grid.cell_at_index(0, 0).is_alive());
}

#[test]
fn cell_state_has_two_values() {
    assert_ne!(CellState::Alive, CellState::Dead);
    let copy = CellState::Alive;
    assert_eq!(copy, CellState::Alive);
}

#[test]
fn dead_cell_with_three_neighbors_is_born() {
    let mut grid = grid_of(5, &[(1, 1), (2, 1), (3, 1)]);
    assert_eq!(grid.num_neighbors_for_cell(2, 2), 3);
    assert!(!grid.cell_at_index(2, 2).is_alive());
    grid.tick();
    assert!(grid.cell_at_index(2, 2).is_alive());
    assert_eq!(grid.cell_at_index(2, 2).neighbors(), 3);
}

#[test]
fn live_cell_with_three_neighbors_stays() {
    let mut grid = grid_of(5, &[(2, 2), (1, 1), (2, 1), (3, 1)]);
    assert_eq!(grid.num_neighbors_for_cell(2, 2), 3);
    grid.tick();
    assert!(grid.cell_at_index(2, 2).is_alive());
}

#[test]
fn live_cell_with_two_neighbors_stays() {
    let mut grid = grid_of(5, &[(2, 2), (1, 1), (3, 3)]);
    assert_eq!(grid.num_neighbors_for_cell(2, 2), 2);
    grid.tick();
    assert!(grid.cell_at_index(2, 2).is_alive());
    assert_eq!(live_cells(&grid), vec![(2, 2)]);
}

#[test]
fn dead_cell_with_two_neighbors_stays_dead() {
    let mut grid = grid_of(5, &[(1, 1), (3, 3)]);
    assert_eq!(grid.num_neighbors_for_cell(2, 2), 2);
    grid.tick();
    assert!(!grid.cell_at_index(2, 2).is_alive());
}

#[test]
fn live_cell_without_neighbors_dies() {
    let mut grid = grid_of(5, &[(2, 2)]);
    assert_eq!(grid.num_neighbors_for_cell(2, 2), 0);
    grid.tick();
    assert!(!grid.cell_at_index(2, 2).is_alive());
    assert_eq!(grid.cell_at_index(2, 2).neighbors(), 0);
}

#[test]
fn live_cell_with_one_neighbor_dies() {
    let mut grid = grid_of(5, &[(2, 2), (3, 2)]);
    assert_eq!(grid.num_neighbors_for_cell(2, 2), 1);
    grid.tick();
    assert_eq!(live_cells(&grid), vec![]);
}

#[test]
fn live_cell_with_four_neighbors_dies() {
    let mut grid = grid_of(5, &[(2, 2), (1, 2), (3, 2), (2, 1), (2, 3)]);
    assert_eq!(grid.num_neighbors_for_cell(2, 2), 4);
    grid.tick();
    assert!(!grid.cell_at_index(2, 2).is_alive());
    assert_eq!(grid.cell_at_index(2, 2).neighbors(), 4);
}

#[test]
fn live_cell_with_eight_neighbors_dies() {
    let mut grid = grid_of(
        3,
        &[(0, 0), (1, 0), (2, 0), (0, 1), (1, 1), (2, 1), (0, 2), (1, 2), (2, 2)],
    );
    assert_eq!(grid.num_neighbors_for_cell(1, 1), 8);
    grid.tick();
    assert_eq!(live_cells(&grid), vec![(0, 0), (2, 0), (0, 2), (2, 2)]);
    assert_eq!(grid.cell_at_index(1, 1).neighbors(), 8);
    assert_eq!(grid.cell_at_index(0, 0).neighbors(), 3);
    assert_eq!(grid.cell_at_index(1, 0).neighbors(), 5);
}

#[test]
fn dead_grid_stays_dead() {
    let mut grid = ConwayMatrix::new(6);
    for _ in 0..3 {
        grid.tick();
        assert_eq!(live_cells(&grid), vec![]);
    }
}

#[test]
fn tick_counts_before_any_cell_moves_on() {
    // A row of three: were cells advanced while others were still being
    // counted, the ends would not both die and the column would not form.
    let mut grid = grid_of(5, &[(1, 2), (2, 2), (3, 2)]);
    grid.tick();
    assert_eq!(live_cells(&grid), vec![(2, 1), (2, 2), (2, 3)]);
    assert_eq!(grid.cell_at_index(2, 1).neighbors(), 3);
    assert_eq!(grid.cell_at_index(2, 2).neighbors(), 2);
    assert_eq!(grid.cell_at_index(1, 2).neighbors(), 1);
}

#[test]
fn neighbor_count_leaves_the_cell_itself_out() {
    let mut grid = grid_of(3, &[(0, 0), (2, 1)]);
    assert_eq!(grid.num_neighbors_for_cell(1, 1), 2);
    grid.toggle_cell(1, 1);
    assert_eq!(grid.num_neighbors_for_cell(1, 1), 2);
}

#[test]
fn neighbor_count_stops_at_the_edge() {
    // Live cells in the last column and row: with wraparound they would count
    // for the first column and row.
    let grid = grid_of(4, &[(3, 0), (3, 1), (0, 3), (1, 3), (3, 3)]);
    assert_eq!(grid.num_neighbors_for_cell(0, 0), 0);
    assert_eq!(grid.num_neighbors_for_cell(0, 1), 0);
    assert_eq!(grid.num_neighbors_for_cell(1, 0), 0);
    assert_eq!(grid.num_neighbors_for_cell(2, 0), 2);
    assert_eq!(grid.num_neighbors_for_cell(3, 0), 1);
    assert_eq!(grid.num_neighbors_for_cell(0, 2), 2);
    assert_eq!(grid.num_neighbors_for_cell(3, 3), 0);
    assert_eq!(grid.num_neighbors_for_cell(2, 2), 3);
}

#[test]
fn corner_of_a_full_grid_has_three_neighbors() {
    let mut grid = ConwayMatrix::new(4);
    for y in 0..4 {
        for x in 0..4 {
            grid.toggle_cell(x, y);
        }
    }
    assert_eq!(grid.num_neighbors_for_cell(0, 0), 3);
    assert_eq!(grid.num_neighbors_for_cell(3, 3), 3);
    assert_eq!(grid.num_neighbors_for_cell(0, 2), 5);
    assert_eq!(grid.num_neighbors_for_cell(2, 3), 5);
    assert_eq!(grid.num_neighbors_for_cell(1, 2), 8);
}

#[test]
fn toggle_flips_one_cell_only() {
    let mut grid = grid_of(5, &[(0, 0), (4, 4), (2, 3)]);
    grid.tick();
    let mut before = Vec::new();
    for y in 0..5 {
        for x in 0..5 {
            let cell = grid.cell_at_index(x, y);
            before.push((cell.is_alive(), cell.neighbors()));
        }
    }
    grid.toggle_cell(3, 1);
    for y in 0..5 {
        for x in 0..5 {
            let cell = grid.cell_at_index(x, y);
            let (alive, neighbors) = before[y * 5 + x];
            assert_eq!(cell.neighbors(), neighbors);
            assert_eq!(cell.is_alive(), if (x, y) == (3, 1) { !alive } else { alive });
        }
    }
    grid.toggle_cell(3, 1);
    assert!(!grid.cell_at_index(3, 1).is_alive());
}

#[test]
fn toggle_does_not_disturb_cells_out_of_reach() {
    let live = [(1, 1), (2, 1), (1, 2), (6, 6), (5, 6), (6, 5), (3, 5)];
    let mut plain = grid_of(8, &live);
    let mut edited = grid_of(8, &live);
    edited.toggle_cell(5, 2);
    plain.tick();
    edited.tick();
    for y in 0..8usize {
        for x in 0..8usize {
            let near = x.abs_diff(5) <= 1 && y.abs_diff(2) <= 1;
            if !near {
                assert_eq!(
                    edited.cell_at_index(x, y).is_alive(),
                    plain.cell_at_index(x, y).is_alive()
                );
                assert_eq!(
                    edited.cell_at_index(x, y).neighbors(),
                    plain.cell_at_index(x, y).neighbors()
                );
            } else if (x, y) != (5, 2) {
                assert_eq!(
                    edited.cell_at_index(x, y).neighbors(),
                    plain.cell_at_index(x, y).neighbors() + 1
                );
            }
        }
    }
}

#[test]
fn clear_kills_every_cell_and_keeps_counts() {
    let mut grid = grid_of(4, &[(0, 0), (1, 0), (0, 1), (3, 3)]);
    grid.tick();
    assert_eq!(grid.cell_at_index(1, 1).neighbors(), 3);
    grid.clear();
    assert_eq!(live_cells(&grid), vec![]);
    assert_eq!(grid.cell_at_index(1, 1).neighbors(), 3);
    assert_eq!(grid.size(), 4);
}
