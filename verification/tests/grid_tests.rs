use ant_sim::AntCellState;
use ant_sim::Pheremones;
use ant_sim::PheremoneType;
use ant_sim::behavior::all_below;
use ant_sim::behavior::pick_weighted;
use ant_sim::behavior::total_weight;
use ant_sim::error::AntError;
use ant_sim::grid::Grid;
use ant_sim::grid::clamp;
use ant_sim::grid::get_coords;
use ant_sim::grid::get_index;
use ant_sim::grid::manhattan_distance;
use ant_sim::grid::visible_cells;

fn empty_cell() -> AntCellState {
    AntCellState::Empty(Pheremones { wandering: 0, returning: 0 })
}

#[test]
fn clamp_cuts_to_range() {
    assert_eq!(clamp(5, -1, 1), 1);
    assert_eq!(clamp(-3, -1, 1), -1);
    assert_eq!(clamp(0, -1, 1), 0);
    assert_eq!(clamp(1, -1, 1), 1);
    // on a degenerate range the upper cut wins
    assert_eq!(clamp(3, 5, 1), 1);
    assert_eq!(clamp(7, 5, 1), 1);
}

#[test]
fn index_and_coords_roundtrip() {
    assert_eq!(get_index(2, 3, 5), 17);
    assert_eq!(get_coords(17, 5), (2, 3));
    assert_eq!(get_index(0, 0, 5), 0);
    assert_eq!(get_coords(24, 5), (4, 4));
}

#[test]
fn manhattan_distance_exact() {
    assert_eq!(manhattan_distance(1, 1, 4, 5), 7);
    assert_eq!(manhattan_distance(4, 5, 1, 1), 7);
    assert_eq!(manhattan_distance(2, 2, 2, 2), 0);
}

#[test]
fn visible_cells_center_is_full_moore_block() {
    let vis = visible_cells(2, 2, 1, 5);
    let expect = vec![
        (1, 1), (2, 1), (3, 1),
        (1, 2), (2, 2), (3, 2),
        (1, 3), (2, 3), (3, 3),
    ];
    assert_eq!(vis, expect);
}

#[test]
fn visible_cells_corner_is_clipped() {
    let vis = visible_cells(0, 0, 1, 5);
    let expect = vec![(0, 0), (1, 0), (0, 1), (1, 1)];
    assert_eq!(vis, expect);
}

#[test]
fn diagonal_blocked_by_either_corner() {
    let mut g = Grid::new_filled(3, empty_cell());
    g.set_cell(1, 0, AntCellState::Barrier);
    assert!(!g.validate_diagonal(0, 0, 1, 1));
    assert_eq!(g.validate_move(0, 0, 1, 1), None);

    let mut g2 = Grid::new_filled(3, empty_cell());
    g2.set_cell(0, 1, AntCellState::Barrier);
    assert!(!g2.validate_diagonal(0, 0, 1, 1));
    assert_eq!(g2.validate_move(0, 0, 1, 1), None);

    let g3 = Grid::new_filled(3, empty_cell());
    assert!(g3.validate_diagonal(0, 0, 1, 1));
    assert_eq!(g3.validate_move(0, 0, 1, 1), Some((1, 1)));
}

#[test]
fn axis_moves_ignore_corners() {
    let mut g = Grid::new_filled(3, empty_cell());
    g.set_cell(1, 0, AntCellState::Barrier);
    // straight down along the left edge never checks a corner
    assert!(g.validate_diagonal(0, 0, 0, 1));
    assert_eq!(g.validate_move(0, 0, 0, 1), Some((0, 1)));
}

#[test]
fn moves_out_of_bounds_or_onto_barriers_rejected() {
    let mut g = Grid::new_filled(3, empty_cell());
    g.set_cell(1, 1, AntCellState::Barrier);
    assert_eq!(g.validate_move(0, 0, -1, 0), None);
    assert_eq!(g.validate_move(2, 2, 1, 0), None);
    assert_eq!(g.validate_move(1, 0, 0, 1), None);
    // the diagonal past that same barrier corner is blocked too
    assert_eq!(g.validate_move(1, 0, -1, 1), None);
    // an axis-aligned step beside it is unaffected
    assert_eq!(g.validate_move(0, 0, 0, 1), Some((0, 1)));
}

#[test]
fn cell_at_out_of_range_is_an_error() {
    let g = Grid::new_filled(3, empty_cell());
    assert_eq!(g.cell_at(3, 0), Err(AntError::OutOfRange));
    assert_eq!(g.cell_at(0, 3), Err(AntError::OutOfRange));
    assert_eq!(g.cell_at(2, 2), Ok(empty_cell()));
}

#[test]
fn closest_food_ties_break_by_iteration_order() {
    let mut g = Grid::new_filled(5, empty_cell());
    g.set_cell(3, 2, AntCellState::Food(1));
    g.set_cell(2, 3, AntCellState::Food(1));
    // both are one step away; (3,2) comes first in row-major order
    assert_eq!(g.find_closest_food(2, 2, 1), Some((3, 2)));
}

#[test]
fn closest_food_prefers_smaller_distance() {
    let mut g = Grid::new_filled(5, empty_cell());
    g.set_cell(1, 1, AntCellState::Food(1));
    g.set_cell(2, 1, AntCellState::Food(1));
    // from (2,2): (1,1) costs 2, (2,1) costs 1
    assert_eq!(g.find_closest_food(2, 2, 1), Some((2, 1)));
}

#[test]
fn closest_food_skips_cut_corners() {
    let mut g = Grid::new_filled(5, empty_cell());
    g.set_cell(3, 3, AntCellState::Food(1));
    g.set_cell(2, 3, AntCellState::Barrier);
    g.set_cell(3, 2, AntCellState::Barrier);
    assert_eq!(g.find_closest_food(2, 2, 1), None);
}

#[test]
fn grid_deposit_and_decay() {
    let mut g = Grid::new_filled(2, empty_cell());
    g.deposit(0, PheremoneType::Wandering, 2000, 15000);
    g.deposit(0, PheremoneType::Returning, 400, 15000);
    assert_eq!(
        g.cell_at(0, 0),
        Ok(AntCellState::Empty(Pheremones { wandering: 2000, returning: 400 }))
    );
    // scale by 0.8; 320 falls below the 500 floor and snaps to zero
    g.decay(800, 500);
    assert_eq!(
        g.cell_at(0, 0),
        Ok(AntCellState::Empty(Pheremones { wandering: 1600, returning: 0 }))
    );
}

#[test]
fn deposit_caps_at_configured_maximum() {
    let mut p = Pheremones { wandering: 0, returning: 0 };
    p.deposit(PheremoneType::Wandering, 500, 15000);
    assert_eq!(p, Pheremones { wandering: 500, returning: 0 });
    for _ in 0..100 {
        p.deposit(PheremoneType::Wandering, 900, 15000);
    }
    assert_eq!(p.wandering, 15000);
    assert_eq!(p.returning, 0);
    p.deposit(PheremoneType::Returning, 20000, 15000);
    assert_eq!(p.returning, 15000);
}

#[test]
fn deposit_ignores_non_empty_cells() {
    let mut g = Grid::new_filled(2, empty_cell());
    g.set_cell(1, 0, AntCellState::Food(3));
    g.deposit(1, PheremoneType::Wandering, 500, 15000);
    assert_eq!(g.cell_at(1, 0), Ok(AntCellState::Food(3)));
}

#[test]
fn decay_is_monotone_when_repeated() {
    let mut p = Pheremones { wandering: 9000, returning: 700 };
    p.decay(800, 500);
    let first = p;
    p.decay(800, 500);
    assert!(p.wandering <= first.wandering);
    assert!(p.returning <= first.returning);
    // anything below the floor is exactly zero, never a small tail
    let mut q = Pheremones { wandering: 499, returning: 624 };
    q.decay(800, 500);
    assert_eq!(q, Pheremones { wandering: 0, returning: 0 });
}

#[test]
fn weighted_pick_walks_cumulative_ranges() {
    let ws = vec![0u64, 5, 3];
    assert_eq!(total_weight(&ws), 8);
    assert_eq!(pick_weighted(&ws, 0), 1);
    assert_eq!(pick_weighted(&ws, 4), 1);
    assert_eq!(pick_weighted(&ws, 5), 2);
    assert_eq!(pick_weighted(&ws, 7), 2);
    assert!(!all_below(&ws, 5));
    assert!(all_below(&ws, 6));
}
