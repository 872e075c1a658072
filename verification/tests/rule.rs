use game_of_life::grid::Grid;
use game_of_life::neighbors::{count_neighbors, NeighborCounts};
use game_of_life::rule::{next_state, update_cells};

fn grid_of(width: usize, height: usize, alive: &[(usize, usize)]) -> Grid {
    let mut grid = Grid::new(width, height).unwrap();
    for &(x, y) in alive {
        grid.set(x, y, true);
    }
    grid
}

fn living(grid: &Grid) -> Vec<(usize, usize)> {
    let mut cells = Vec::new();
    for x in 0..grid.width() {
        for y in 0..grid.height() {
            if grid.get(x, y) {
                cells.push((x, y));
            }
        }
    }
    cells
}

fn one_generation(grid: &mut Grid) {
    let mut counts = NeighborCounts::new(grid.width(), grid.height()).unwrap();
    count_neighbors(grid, &mut counts);
    update_cells(grid, &counts);
}

#[test]
fn a_cell_with_three_neighbors_lives() {
    assert!(next_state(true, 3));
    assert!(next_state(false, 3));
}

#[test]
fn a_cell_with_two_neighbors_stays_as_it_is() {
    assert!(next_state(true, 2));
    assert!(!next_state(false, 2));
}

#[test]
fn a_cell_with_any_other_count_is_dead() {
    for count in [0u8, 1, 4, 5, 6, 7, 8, 9, 200, 255] {
        assert!(!next_state(true, count), "alive with {}", count);
        assert!(!next_state(false, count), "dead with {}", count);
    }
}

#[test]
fn update_goes_by_the_counts_it_is_given() {
    let mut grid = grid_of(2, 2, &[(0, 0), (1, 1)]);
    let mut crowded = Grid::new(2, 2).unwrap();
    for x in 0..2 {
        for y in 0..2 {
            crowded.set(x, y, true);
        }
    }
    let mut counts = NeighborCounts::new(2, 2).unwrap();
    count_neighbors(&crowded, &mut counts);
    update_cells(&mut grid, &counts);
    assert_eq!(living(&grid), vec![(0, 0), (0, 1), (1, 0), (1, 1)]);
}

#[test]
fn update_with_zero_counts_kills_every_cell() {
    let mut grid = grid_of(3, 3, &[(0, 0), (1, 1), (2, 2), (0, 2)]);
    let counts = NeighborCounts::new(3, 3).unwrap();
    update_cells(&mut grid, &counts);
    assert_eq!(living(&grid), vec![]);
}

#[test]
fn update_reads_the_counts_of_the_old_generation_only() {
    // A row of three: the ends die and the cells above and below the middle
    // are born at once; none of them sees the others' new state.
    let mut grid = grid_of(3, 3, &[(0, 1), (1, 1), (2, 1)]);
    one_generation(&mut grid);
    assert_eq!(living(&grid), vec![(1, 0), (1, 1), (1, 2)]);
}

#[test]
fn same_grid_and_same_counts_give_the_same_next_grid() {
    let cells = [(1, 1), (2, 1), (3, 1), (3, 2), (2, 3), (5, 5), (5, 4)];
    let mut first = grid_of(7, 6, &cells);
    let mut second = grid_of(7, 6, &cells);
    one_generation(&mut first);
    one_generation(&mut second);
    assert_eq!(living(&first), living(&second));
    assert_eq!(living(&first), vec![(1, 2), (2, 0), (2, 1), (3, 1), (3, 2)]);
}

#[test]
fn a_dead_grid_stays_dead() {
    let mut grid = Grid::new(6, 4).unwrap();
    for _ in 0..10 {
        one_generation(&mut grid);
        assert_eq!(living(&grid), vec![]);
    }
}

#[test]
fn a_block_is_a_still_life() {
    let block = [(2, 2), (2, 3), (3, 2), (3, 3)];
    let mut grid = grid_of(6, 6, &block);
    let mut counts = NeighborCounts::new(6, 6).unwrap();
    count_neighbors(&grid, &mut counts);
    for &(x, y) in &block {
        assert_eq!(counts.get(x, y), 3);
    }
    for x in 0..6 {
        for y in 0..6 {
            if !grid.get(x, y) {
                assert!(counts.get(x, y) <= 2);
            }
        }
    }
    update_cells(&mut grid, &counts);
    assert_eq!(living(&grid), block.to_vec());
    for _ in 0..5 {
        one_generation(&mut grid);
    }
    assert_eq!(living(&grid), block.to_vec());
}

#[test]
fn a_block_in_the_corner_is_a_still_life() {
    let block = [(0, 0), (0, 1), (1, 0), (1, 1)];
    let mut grid = grid_of(3, 3, &block);
    one_generation(&mut grid);
    assert_eq!(living(&grid), block.to_vec());
}

#[test]
fn a_block_that_fills_its_grid_is_a_still_life() {
    let block = [(0, 0), (0, 1), (1, 0), (1, 1)];
    let mut grid = grid_of(2, 2, &block);
    one_generation(&mut grid);
    assert_eq!(living(&grid), block.to_vec());
}

#[test]
fn a_lone_cell_dies() {
    let mut grid = grid_of(5, 5, &[(2, 2)]);
    let mut counts = NeighborCounts::new(5, 5).unwrap();
    count_neighbors(&grid, &mut counts);
    assert_eq!(counts.get(2, 2), 0);
    update_cells(&mut grid, &counts);
    assert_eq!(living(&grid), vec![]);
}

#[test]
fn a_lone_cell_in_a_corner_dies() {
    let mut grid = grid_of(3, 4, &[(2, 3)]);
    one_generation(&mut grid);
    assert_eq!(living(&grid), vec![]);
}

#[test]
fn a_pair_of_cells_dies() {
    let mut grid = grid_of(4, 4, &[(1, 1), (2, 2)]);
    one_generation(&mut grid);
    assert_eq!(living(&grid), vec![]);
}

#[test]
fn a_blinker_turns_and_turns_back() {
    let upright = vec![(2, 1), (2, 2), (2, 3)];
    let level = vec![(1, 2), (2, 2), (3, 2)];
    let mut grid = grid_of(5, 5, &upright);
    one_generation(&mut grid);
    assert_eq!(living(&grid), level);
    one_generation(&mut grid);
    assert_eq!(living(&grid), upright);
}

#[test]
fn a_glider_moves_one_cell_diagonally_in_four_generations() {
    let glider = [(1, 0), (2, 1), (0, 2), (1, 2), (2, 2)];
    let mut grid = grid_of(8, 8, &glider);
    for _ in 0..4 {
        one_generation(&mut grid);
    }
    let mut moved: Vec<(usize, usize)> = glider.iter().map(|&(x, y)| (x + 1, y + 1)).collect();
    moved.sort();
    assert_eq!(living(&grid), moved);
}

#[test]
fn a_crowded_cell_dies_and_the_edge_gives_no_neighbors() {
    let mut grid = Grid::new(3, 3).unwrap();
    for x in 0..3 {
        for y in 0..3 {
            grid.set(x, y, true);
        }
    }
    one_generation(&mut grid);
    assert_eq!(living(&grid), vec![(0, 0), (0, 2), (2, 0), (2, 2)]);
}
