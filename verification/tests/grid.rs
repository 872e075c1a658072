use game_of_life::error::SetupError;
use game_of_life::grid::Grid;

#[test]
fn new_grid_has_the_size_asked_for_and_no_living_cell() {
    let grid = Grid::new(3, 4).unwrap();
    assert_eq!(grid.width(), 3);
    assert_eq!(grid.height(), 4);
    for x in 0..3 {
        for y in 0..4 {
            assert!(!grid.get(x, y));
        }
    }
}

#[test]
fn new_grid_of_one_cell() {
    let grid = Grid::new(1, 1).unwrap();
    assert_eq!(grid.width(), 1);
    assert_eq!(grid.height(), 1);
    assert!(!grid.get(0, 0));
}

#[test]
fn new_grid_without_columns_is_refused() {
    assert_eq!(Grid::new(0, 5).unwrap_err(), SetupError::InvalidConfiguration);
}

#[test]
fn new_grid_without_rows_is_refused() {
    assert_eq!(Grid::new(5, 0).unwrap_err(), SetupError::InvalidConfiguration);
}

#[test]
fn new_grid_without_cells_is_refused() {
    assert!(matches!(Grid::new(0, 0), Err(SetupError::InvalidConfiguration)));
}

#[test]
fn set_changes_the_cell_it_names_and_no_other() {
    let mut grid = Grid::new(3, 2).unwrap();
    grid.set(2, 1, true);
    for x in 0..3 {
        for y in 0..2 {
            assert_eq!(grid.get(x, y), x == 2 && y == 1);
        }
    }
    grid.set(0, 0, true);
    grid.set(2, 1, false);
    for x in 0..3 {
        for y in 0..2 {
            assert_eq!(grid.get(x, y), x == 0 && y == 0);
        }
    }
}

#[test]
fn set_keeps_the_size() {
    let mut grid = Grid::new(4, 7).unwrap();
    grid.set(3, 6, true);
    assert_eq!(grid.width(), 4);
    assert_eq!(grid.height(), 7);
}

#[test]
fn coordinates_are_column_then_row() {
    let mut grid = Grid::new(2, 5).unwrap();
    grid.set(1, 4, true);
    assert!(grid.get(1, 4));
    assert!(!grid.get(0, 4));
    assert!(!grid.get(1, 3));
}
