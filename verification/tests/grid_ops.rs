use game_of_life::cell::CellState;
use game_of_life::cell::RunState;
use game_of_life::grid::Grid;
use game_of_life::pattern::Pattern;
use game_of_life::topology::Topology;

fn alive_sorted(g: &Grid) -> Vec<(i64, i64)> {
    let mut v = g.iterate_alive();
    v.sort();
    v
}

#[test]
fn set_then_get_returns_written_state() {
    let mut g = Grid::new();
    assert_eq!(g.get((7, -9)), CellState::Dead);
    g.add_cell((7, -9), CellState::Alive);
    assert_eq!(g.get((7, -9)), CellState::Alive);
    g.add_cell((7, -9), CellState::Dead);
    assert_eq!(g.get((7, -9)), CellState::Dead);
    g.add_cell((0, 0), CellState::Dead);
    assert_eq!(g.get((0, 0)), CellState::Dead);
    g.add_cell((0, 0), CellState::Alive);
    g.add_cell((0, 0), CellState::Alive);
    assert_eq!(g.get((0, 0)), CellState::Alive);
    assert_eq!(alive_sorted(&g), vec![(0, 0)]);
}

#[test]
fn new_grid_is_empty() {
    let g = Grid::new();
    assert!(g.iterate_alive().is_empty());
    assert_eq!(g.get((0, 0)), CellState::Dead);
    assert_eq!(g.get((i64::MIN, i64::MAX)), CellState::Dead);
}

#[test]
fn iterate_alive_lists_each_live_cell_once() {
    let mut g = Grid::new();
    g.add_cell((1, 2), CellState::Alive);
    g.add_cell((-3, 4), CellState::Alive);
    g.add_cell((1, 2), CellState::Alive);
    g.add_cell((5, 5), CellState::Alive);
    g.add_cell((5, 5), CellState::Dead);
    assert_eq!(alive_sorted(&g), vec![(-3, 4), (1, 2)]);
}

#[test]
fn iterate_region_is_row_major_and_total() {
    let mut g = Grid::new();
    g.add_cell((10, 20), CellState::Alive);
    let r = g.iterate_region(9, 19, 3, 2);
    assert_eq!(r.len(), 6);
    let expect = vec![
        ((9, 19), CellState::Dead),
        ((10, 19), CellState::Dead),
        ((11, 19), CellState::Dead),
        ((9, 20), CellState::Dead),
        ((10, 20), CellState::Alive),
        ((11, 20), CellState::Dead),
    ];
    assert_eq!(r, expect);
}

#[test]
fn neighbor_count_unbounded_counts_live_moore_cells() {
    let mut g = Grid::new();
    g.add_cell((0, 0), CellState::Alive);
    g.add_cell((1, 1), CellState::Alive);
    g.add_cell((-1, -1), CellState::Alive);
    g.add_cell((2, 2), CellState::Alive);
    assert_eq!(g.get_neigh_count(0, 0, &Topology::Unbounded), 2);
    assert_eq!(g.get_neigh_count(1, 1, &Topology::Unbounded), 2);
    assert_eq!(g.get_neigh_count(5, 5, &Topology::Unbounded), 0);
}

#[test]
fn neighbor_count_unbounded_overflow_resets_axis_to_zero() {
    let mut g = Grid::new();
    g.add_cell((0, 10), CellState::Alive);
    // The neighbor at offset (1, 0) of (i64::MAX, 10) overflows, so the
    // x axis resets to 0 and the live cell at (0, 10) is seen there.
    assert_eq!(g.get_neigh_count(i64::MAX, 10, &Topology::Unbounded), 1);
    let mut h = Grid::new();
    h.add_cell((0, -7), CellState::Alive);
    assert_eq!(h.get_neigh_count(i64::MIN, -7, &Topology::Unbounded), 1);
}

#[test]
fn neighbor_count_toroidal_wraps_with_nonnegative_remainder() {
    let pol = Topology::Toroidal { width: 10, height: 10 };
    let mut g = Grid::new();
    g.add_cell((0, 0), CellState::Alive);
    // (9, 9)'s diagonal neighbor (10, 10) wraps to (0, 0).
    assert_eq!(g.get_neigh_count(9, 9, &pol), 1);
    // (0, 0)'s neighbor at (-1, -1) wraps to (9, 9), not to (-1, -1).
    let mut h = Grid::new();
    h.add_cell((9, 9), CellState::Alive);
    assert_eq!(h.get_neigh_count(0, 0, &pol), 1);
}

#[test]
fn neighbor_count_clamped_treats_outside_as_dead() {
    let pol = Topology::Clamped { width: 10, height: 10 };
    let mut g = Grid::new();
    g.add_cell((0, 0), CellState::Alive);
    // No wrap: from (9, 9) the cell at (0, 0) is not a neighbor.
    assert_eq!(g.get_neigh_count(9, 9, &pol), 0);
    g.add_cell((1, 1), CellState::Alive);
    // Of (0, 0)'s 8 offsets, 5 fall outside the grid and count 0.
    assert_eq!(g.get_neigh_count(0, 0, &pol), 1);
}

#[test]
fn run_state_toggles_between_running_and_paused() {
    assert_eq!(RunState::Running.toggle(), RunState::Paused);
    assert_eq!(RunState::Paused.toggle(), RunState::Running);
    assert_eq!(RunState::Running.toggle().toggle(), RunState::Running);
}

#[test]
fn blinker_pattern_seeds_a_horizontal_row() {
    let mut g = Grid::new();
    g.apply_pattern(Pattern::Blinker, 10, 10);
    assert_eq!(alive_sorted(&g), vec![(10, 10), (11, 10), (12, 10)]);
}

#[test]
fn glider_pattern_seeds_five_cells() {
    let mut g = Grid::new();
    g.apply_pattern(Pattern::Glider, 0, 0);
    assert_eq!(alive_sorted(&g), vec![(0, 3), (1, 1), (1, 3), (2, 2), (2, 3)]);
}

#[test]
fn penta_decathlon_seeds_fifteen_cells_at_fixed_offsets() {
    let mut g = Grid::new();
    g.add_penta_decathlon(10, 10);
    let mut expect = vec![
        (25, 10),
        (25, 11),
        (27, 10),
        (26, 11),
        (26, 12),
        (32, 12),
        (32, 13),
        (32, 14),
        (33, 14),
        (34, 13),
        (17, 25),
        (18, 25),
        (19, 25),
        (19, 26),
        (18, 27),
    ];
    expect.sort();
    assert_eq!(alive_sorted(&g), expect);
}

#[test]
fn dense_store_answers_the_same_contract() {
    let mut g = Grid::new_dense(4, 3);
    assert!(g.iterate_alive().is_empty());
    g.add_cell((2, 1), CellState::Alive);
    assert_eq!(g.get((2, 1)), CellState::Alive);
    assert_eq!(g.get((1, 2)), CellState::Dead);
    // Writes outside the rectangle change nothing; reads there are Dead.
    g.add_cell((4, 0), CellState::Alive);
    g.add_cell((-1, 0), CellState::Alive);
    assert_eq!(g.get((4, 0)), CellState::Dead);
    assert_eq!(g.get((-1, 0)), CellState::Dead);
    assert_eq!(alive_sorted(&g), vec![(2, 1)]);
    g.add_cell((2, 1), CellState::Dead);
    assert_eq!(g.get((2, 1)), CellState::Dead);
    assert!(g.iterate_alive().is_empty());
}

#[test]
fn dense_region_iteration_matches_sparse() {
    let mut d = Grid::new_dense(3, 3);
    let mut s = Grid::new();
    for &c in &[(0, 0), (1, 1), (2, 2)] {
        d.add_cell(c, CellState::Alive);
        s.add_cell(c, CellState::Alive);
    }
    assert_eq!(d.iterate_region(0, 0, 3, 3), s.iterate_region(0, 0, 3, 3));
    assert_eq!(alive_sorted(&d), alive_sorted(&s));
}

#[test]
fn pattern_application_keeps_existing_live_cells() {
    let mut g = Grid::new();
    g.add_cell((-5, -5), CellState::Alive);
    g.apply_pattern(Pattern::Blinker, 0, 0);
    assert_eq!(alive_sorted(&g), vec![(-5, -5), (0, 0), (1, 0), (2, 0)]);
}
