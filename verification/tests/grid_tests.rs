//! Tests of grid construction, seeding, equality, and the update rule.

use game_of_life::game_of_life::Cell;
use game_of_life::game_of_life::Error;
use game_of_life::game_of_life::Grid;
use game_of_life::game_of_life::GRID_SIZE;

/// The canonical glider offsets, as (row offset, column offset) pairs.
const GLIDER_OFFSETS: [(usize, usize); 5] = [(1, 0), (2, 1), (0, 2), (1, 2), (2, 2)];

fn count_alive(g: &Grid) -> usize {
    let mut count = 0;
    for y in 0..GRID_SIZE {
        for x in 0..GRID_SIZE {
            if g.is_alive(y, x) {
                count += 1;
            }
        }
    }
    count
}

#[test]
fn new_grid_is_all_dead_and_running() {
    let g = Grid::new();
    assert!(g.running);
    assert_eq!(count_alive(&g), 0);
}

#[test]
fn grid_comparison_is_reflexive() {
    let g = Grid::new();
    assert!(matches!(Grid::are_grids_same(&g, &g), Ok(true)));
    let mut seeded = Grid::new();
    seeded.place_glider(4, 7).unwrap();
    assert!(matches!(Grid::are_grids_same(&seeded, &seeded), Ok(true)));
}

#[test]
fn grids_with_different_cells_compare_unequal() {
    let g1 = Grid::new();
    let mut g2 = Grid::new();
    g2.set_cell(3, 3, Cell::Alive);
    assert!(matches!(Grid::are_grids_same(&g1, &g2), Ok(false)));
    assert!(matches!(Grid::are_grids_same(&g2, &g1), Ok(false)));
}

#[test]
fn glider_placement_sets_exactly_the_five_canonical_cells() {
    let (x, y) = (5, 3);
    let mut g = Grid::new();
    g.place_glider(x, y).unwrap();
    for dy in 0..3 {
        for dx in 0..3 {
            let expected = GLIDER_OFFSETS.contains(&(dy, dx));
            assert_eq!(g.is_alive(y + dy, x + dx), expected);
        }
    }
    assert_eq!(count_alive(&g), 5);
    assert!(g.running);
}

#[test]
fn glider_placement_clears_the_full_target_block() {
    let mut g = Grid::new();
    // Fill a region, then place the glider over it: the four non-glider
    // cells of the 3 by 3 block must come out dead, and cells outside the
    // block must keep their states.
    for y in 0..6 {
        for x in 0..6 {
            g.set_cell(y, x, Cell::Alive);
        }
    }
    g.place_glider(1, 1).unwrap();
    for dy in 0..3 {
        for dx in 0..3 {
            let expected = GLIDER_OFFSETS.contains(&(dy, dx));
            assert_eq!(g.is_alive(1 + dy, 1 + dx), expected);
        }
    }
    // A sample of cells outside the block, all left alive.
    assert!(g.is_alive(0, 0));
    assert!(g.is_alive(0, 3));
    assert!(g.is_alive(4, 4));
    assert!(g.is_alive(5, 0));
    assert!(!g.is_alive(6, 6));
}

#[test]
fn glider_placement_out_of_bounds_fails_without_side_effect() {
    for (x, y) in [
        (GRID_SIZE - 3, 0),
        (0, GRID_SIZE - 3),
        (GRID_SIZE - 3, GRID_SIZE - 3),
        (GRID_SIZE - 1, 5),
        (5, GRID_SIZE - 1),
        (GRID_SIZE, GRID_SIZE),
    ] {
        let mut g = Grid::new();
        let result = g.place_glider(x, y);
        assert!(result.is_err(), "({x},{y}) should be rejected");
        assert_eq!(count_alive(&g), 0);
        assert!(g.running);
    }
    // The largest accepted position.
    let mut g = Grid::new();
    assert!(g.place_glider(GRID_SIZE - 4, GRID_SIZE - 4).is_ok());
    assert_eq!(count_alive(&g), 5);
}

#[test]
fn out_of_bounds_error_names_position_and_grid_size() {
    let mut g = Grid::new();
    let Err(Error::Standard(message)) = g.place_glider(17, 2) else {
        panic!("expected an out-of-bounds error");
    };
    assert_eq!(
        message,
        "cannot place a glider at position (17, 2): a glider needs \
         a 3 by 3 block of cells inside the grid, whose size is 20"
    );
}

#[test]
fn dead_grid_is_a_fixed_point() {
    let mut g = Grid::new();
    g.play_next().unwrap();
    assert_eq!(count_alive(&g), 0);
    assert!(!g.running);
}

#[test]
fn block_still_life_is_a_fixed_point() {
    let mut g = Grid::new();
    for (y, x) in [(5, 8), (5, 9), (6, 8), (6, 9)] {
        g.set_cell(y, x, Cell::Alive);
    }
    g.play_next().unwrap();
    for (y, x) in [(5, 8), (5, 9), (6, 8), (6, 9)] {
        assert!(g.is_alive(y, x));
    }
    assert_eq!(count_alive(&g), 4);
    // The update detected the fixed point.
    assert!(!g.running);
}

#[test]
fn glider_translates_one_step_diagonally_every_four_generations() {
    let mut g = Grid::new();
    g.place_glider(0, 0).unwrap();
    for _ in 0..4 {
        g.play_next().unwrap();
        // Each intermediate generation differs from the last, so the
        // simulation keeps running.
        assert!(g.running);
    }
    for dy in 0..3 {
        for dx in 0..3 {
            let expected = GLIDER_OFFSETS.contains(&(dy, dx));
            assert_eq!(g.is_alive(1 + dy, 1 + dx), expected);
        }
    }
    assert_eq!(count_alive(&g), 5);
}

#[test]
fn neighbour_counting_has_no_wraparound() {
    let mut g = Grid::new();
    for y in 0..GRID_SIZE {
        for x in 0..GRID_SIZE {
            g.set_cell(y, x, Cell::Alive);
        }
    }
    // On an all-alive grid, only in-bounds neighbours can be counted.
    assert_eq!(g.get_neighbour_alive_count(0, 0), 3);
    assert_eq!(g.get_neighbour_alive_count(0, GRID_SIZE - 1), 3);
    assert_eq!(g.get_neighbour_alive_count(GRID_SIZE - 1, 0), 3);
    assert_eq!(g.get_neighbour_alive_count(GRID_SIZE - 1, GRID_SIZE - 1), 3);
    assert_eq!(g.get_neighbour_alive_count(0, 10), 5);
    assert_eq!(g.get_neighbour_alive_count(GRID_SIZE - 1, 10), 5);
    assert_eq!(g.get_neighbour_alive_count(10, 0), 5);
    assert_eq!(g.get_neighbour_alive_count(10, GRID_SIZE - 1), 5);
    assert_eq!(g.get_neighbour_alive_count(10, 10), 8);
}

#[test]
fn neighbour_count_sees_exactly_the_eight_adjacent_cells() {
    let mut g = Grid::new();
    g.set_cell(4, 4, Cell::Alive);
    g.set_cell(4, 6, Cell::Alive);
    g.set_cell(6, 5, Cell::Alive);
    // A far-away cell must not be counted.
    g.set_cell(9, 9, Cell::Alive);
    assert_eq!(g.get_neighbour_alive_count(5, 5), 3);
    assert_eq!(g.get_neighbour_alive_count(0, 0), 0);
    // An alive cell is not its own neighbour, and the other alive cells
    // are two steps away from (4,4).
    assert_eq!(g.get_neighbour_alive_count(4, 4), 0);
    assert_eq!(g.get_neighbour_alive_count(4, 5), 2);
}

#[test]
fn single_cell_dies_of_underpopulation() {
    let mut g = Grid::new();
    g.set_cell(10, 10, Cell::Alive);
    g.play_next().unwrap();
    assert_eq!(count_alive(&g), 0);
    // The next generation (all dead) differs from the current one, so the
    // run goes on.
    assert!(g.running);
}

#[test]
fn crowded_cell_dies_of_overpopulation() {
    let mut g = Grid::new();
    // Alive cell at (5,5) with four alive neighbours.
    for (y, x) in [(5, 5), (4, 4), (4, 5), (4, 6), (5, 4)] {
        g.set_cell(y, x, Cell::Alive);
    }
    g.play_next().unwrap();
    assert!(!g.is_alive(5, 5));
}

#[test]
fn dead_cell_with_three_neighbours_is_born() {
    let mut g = Grid::new();
    for (y, x) in [(4, 4), (4, 6), (6, 5)] {
        g.set_cell(y, x, Cell::Alive);
    }
    assert!(!g.is_alive(5, 5));
    g.play_next().unwrap();
    assert!(g.is_alive(5, 5));
}
