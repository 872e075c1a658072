use game_of_life::error::SetupError;
use game_of_life::grid::Grid;
use game_of_life::spawn::{initialize_cells, SpawnRate};
use rand::rngs::StdRng;
use rand::SeedableRng;

fn rate(numerator: u32, denominator: u32) -> SpawnRate {
    SpawnRate { numerator, denominator }
}

fn seeded(seed: u64) -> StdRng {
    StdRng::seed_from_u64(seed)
}

fn living(grid: &Grid) -> Vec<(usize, usize)> {
    let mut cells = Vec::new();
    for x in 0..grid.width() {
        for y in 0..grid.height() {
            if grid.get(x, y) {
                cells.push((x, y));
            }
        }
    }
    cells
}

#[test]
fn a_ratio_between_zero_and_one_is_a_rate() {
    assert!(rate(0, 1).is_valid());
    assert!(rate(1, 2).is_valid());
    assert!(rate(1, 1).is_valid());
    assert!(rate(u32::MAX, u32::MAX).is_valid());
    assert!(rate(0, u32::MAX).is_valid());
}

#[test]
fn a_ratio_above_one_is_no_rate() {
    assert!(!rate(2, 1).is_valid());
    assert!(!rate(u32::MAX, u32::MAX - 1).is_valid());
}

#[test]
fn a_ratio_over_zero_is_no_rate() {
    assert!(!rate(0, 0).is_valid());
    assert!(!rate(1, 0).is_valid());
}

#[test]
fn a_cell_spawns_when_its_draw_is_below_the_numerator() {
    let half = rate(5, 10);
    for draw in 0..5 {
        assert!(half.spawns(draw));
    }
    for draw in 5..10 {
        assert!(!half.spawns(draw));
    }
}

#[test]
fn no_draw_spawns_at_rate_zero_and_every_draw_at_rate_one() {
    for draw in 0..4 {
        assert!(!rate(0, 4).spawns(draw));
        assert!(rate(4, 4).spawns(draw));
    }
}

#[test]
fn cells_are_initialized_on_a_grid_of_the_size_asked_for() {
    let grid = initialize_cells(7, 3, rate(1, 2), &mut seeded(1)).unwrap();
    assert_eq!(grid.width(), 7);
    assert_eq!(grid.height(), 3);
}

#[test]
fn at_rate_zero_no_cell_starts_alive() {
    let grid = initialize_cells(20, 30, rate(0, 1000), &mut seeded(2)).unwrap();
    for x in 0..20 {
        for y in 0..30 {
            assert!(!grid.get(x, y));
        }
    }
}

#[test]
fn at_rate_one_every_cell_starts_alive() {
    for denominator in [1u32, 2, 1000, u32::MAX] {
        let grid = initialize_cells(20, 30, rate(denominator, denominator), &mut seeded(3)).unwrap();
        for x in 0..20 {
            for y in 0..30 {
                assert!(grid.get(x, y));
            }
        }
    }
}

#[test]
fn at_rate_one_half_some_cells_start_alive_and_some_dead() {
    let grid = initialize_cells(50, 50, rate(1, 2), &mut seeded(4)).unwrap();
    let mut alive = 0;
    for x in 0..50 {
        for y in 0..50 {
            if grid.get(x, y) {
                alive += 1;
            }
        }
    }
    assert!(alive > 0);
    assert!(alive < 2500);
}

#[test]
fn initializing_a_grid_without_columns_is_refused() {
    assert_eq!(initialize_cells(0, 3, rate(1, 2), &mut seeded(5)).unwrap_err(), SetupError::InvalidConfiguration);
}

#[test]
fn initializing_a_grid_without_rows_is_refused() {
    assert_eq!(initialize_cells(3, 0, rate(1, 2), &mut seeded(5)).unwrap_err(), SetupError::InvalidConfiguration);
}

#[test]
fn initializing_at_a_rate_above_one_is_refused() {
    assert_eq!(initialize_cells(3, 3, rate(3, 2), &mut seeded(5)).unwrap_err(), SetupError::InvalidConfiguration);
}

#[test]
fn initializing_at_a_rate_over_zero_is_refused() {
    assert_eq!(initialize_cells(3, 3, rate(0, 0), &mut seeded(5)).unwrap_err(), SetupError::InvalidConfiguration);
}

#[test]
fn at_rate_one_half_about_half_of_the_cells_start_alive() {
    let grid = initialize_cells(100, 100, rate(1, 2), &mut seeded(6)).unwrap();
    let alive = living(&grid).len();
    assert!(alive > 4500, "{} alive", alive);
    assert!(alive < 5500, "{} alive", alive);
}

#[test]
fn at_rate_one_tenth_about_a_tenth_of_the_cells_start_alive() {
    let grid = initialize_cells(100, 100, rate(1, 10), &mut seeded(7)).unwrap();
    let alive = living(&grid).len();
    assert!(alive > 700, "{} alive", alive);
    assert!(alive < 1300, "{} alive", alive);
}

#[test]
fn the_same_seed_gives_the_same_cells() {
    let first = initialize_cells(30, 20, rate(1, 2), &mut seeded(8)).unwrap();
    let second = initialize_cells(30, 20, rate(1, 2), &mut seeded(8)).unwrap();
    assert_eq!(living(&first), living(&second));
}

#[test]
fn one_generator_gives_other_cells_each_time() {
    let mut rng = seeded(9);
    let first = initialize_cells(30, 20, rate(1, 2), &mut rng).unwrap();
    let second = initialize_cells(30, 20, rate(1, 2), &mut rng).unwrap();
    assert_ne!(living(&first), living(&second));
}

#[test]
fn a_refused_configuration_takes_no_draw() {
    let mut refused = seeded(10);
    assert!(initialize_cells(0, 3, rate(1, 2), &mut refused).is_err());
    assert!(initialize_cells(3, 3, rate(3, 2), &mut refused).is_err());
    let after = initialize_cells(10, 10, rate(1, 2), &mut refused).unwrap();
    let fresh = initialize_cells(10, 10, rate(1, 2), &mut seeded(10)).unwrap();
    assert_eq!(living(&after), living(&fresh));
}
