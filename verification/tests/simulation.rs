use game_of_life::cell::CellState;
use game_of_life::cell::RunState;
use game_of_life::grid::Grid;
use game_of_life::pattern::Pattern;
use game_of_life::stepper::step;
use game_of_life::stepper::step_cell;
use game_of_life::stepper::step_region;
use game_of_life::stepper::Region;
use game_of_life::topology::Topology;

fn alive_sorted(g: &Grid) -> Vec<(i64, i64)> {
    let mut v = g.iterate_alive();
    v.sort();
    v
}

fn seed(cells: &[(i64, i64)]) -> Grid {
    let mut g = Grid::new();
    for &c in cells {
        g.add_cell(c, CellState::Alive);
    }
    g
}

#[test]
fn conway_rule_on_single_cells() {
    assert_eq!(step_cell(CellState::Alive, 0), CellState::Dead);
    assert_eq!(step_cell(CellState::Alive, 1), CellState::Dead);
    assert_eq!(step_cell(CellState::Alive, 2), CellState::Alive);
    assert_eq!(step_cell(CellState::Alive, 3), CellState::Alive);
    assert_eq!(step_cell(CellState::Alive, 4), CellState::Dead);
    assert_eq!(step_cell(CellState::Alive, 8), CellState::Dead);
    assert_eq!(step_cell(CellState::Dead, 2), CellState::Dead);
    assert_eq!(step_cell(CellState::Dead, 3), CellState::Alive);
    assert_eq!(step_cell(CellState::Dead, 4), CellState::Dead);
}

#[test]
fn isolated_cell_counts_zero_and_dies() {
    let g = seed(&[(5, 5)]);
    assert_eq!(g.get_neigh_count(5, 5, &Topology::Unbounded), 0);
    let next = step(g, &Topology::Unbounded, RunState::Running);
    assert!(next.iterate_alive().is_empty());
}

#[test]
fn empty_grid_stays_empty() {
    let g = Grid::new();
    let next = step(g, &Topology::Unbounded, RunState::Running);
    assert!(next.iterate_alive().is_empty());
}

#[test]
fn blinker_oscillates_with_period_two() {
    let g = seed(&[(10, 10), (11, 10), (12, 10)]);
    let g1 = step(g, &Topology::Unbounded, RunState::Running);
    assert_eq!(alive_sorted(&g1), vec![(11, 9), (11, 10), (11, 11)]);
    let g2 = step(g1, &Topology::Unbounded, RunState::Running);
    assert_eq!(alive_sorted(&g2), vec![(10, 10), (11, 10), (12, 10)]);
}

#[test]
fn block_is_a_still_life() {
    let block = vec![(3, 3), (3, 4), (4, 3), (4, 4)];
    let mut g = seed(&block);
    for _ in 0..5 {
        g = step(g, &Topology::Unbounded, RunState::Running);
        assert_eq!(alive_sorted(&g), block);
    }
}

#[test]
fn glider_translates_by_one_one_after_four_steps() {
    let mut g = Grid::new();
    g.apply_pattern(Pattern::Glider, 0, 0);
    let seed_cells = alive_sorted(&g);
    for _ in 0..4 {
        g = step(g, &Topology::Unbounded, RunState::Running);
    }
    let mut expect: Vec<(i64, i64)> = seed_cells.iter().map(|&(x, y)| (x + 1, y + 1)).collect();
    expect.sort();
    assert_eq!(alive_sorted(&g), expect);
}

#[test]
fn glider_wraps_around_a_toroidal_grid() {
    let pol = Topology::Toroidal { width: 5, height: 5 };
    let reg = Region { x0: 0, y0: 0, width: 5, height: 5 };
    let mut g = Grid::new_dense(5, 5);
    g.apply_pattern(Pattern::Glider, 2, 0);
    let seed_cells = alive_sorted(&g);
    for _ in 0..4 {
        g = step_region(g, &pol, &reg, RunState::Running);
    }
    // The translation by (1, 1) carries the glider past x = 5; it
    // reappears with coordinates reduced modulo the grid size.
    let mut expect: Vec<(i64, i64)> =
        seed_cells.iter().map(|&(x, y)| ((x + 1) % 5, (y + 1) % 5)).collect();
    expect.sort();
    assert_eq!(alive_sorted(&g), expect);
}

#[test]
fn paused_steps_never_change_the_alive_set() {
    let mut g = Grid::new();
    g.apply_pattern(Pattern::Glider, 0, 0);
    let before = alive_sorted(&g);
    for _ in 0..10 {
        g = step(g, &Topology::Unbounded, RunState::Paused);
        assert_eq!(alive_sorted(&g), before);
    }
    let mut h = seed(&[(1, 1), (2, 2)]);
    for _ in 0..3 {
        h = step_region(
            h,
            &Topology::Clamped { width: 8, height: 8 },
            &Region { x0: 0, y0: 0, width: 8, height: 8 },
            RunState::Paused,
        );
        assert_eq!(alive_sorted(&h), vec![(1, 1), (2, 2)]);
    }
}

#[test]
fn step_region_recomputes_only_the_region() {
    // A blinker whose arms poke out of the window: cells outside the
    // region are absent from the fresh store.
    let g = seed(&[(10, 10), (11, 10), (12, 10)]);
    let reg = Region { x0: 11, y0: 9, width: 1, height: 3 };
    let next = step_region(g, &Topology::Unbounded, &reg, RunState::Running);
    assert_eq!(alive_sorted(&next), vec![(11, 9), (11, 10), (11, 11)]);
}

#[test]
fn clamped_blinker_at_the_edge_falls_still() {
    // Against the top edge a vertical blinker cannot flip back: the
    // out-of-range cell is permanently dead.
    let pol = Topology::Clamped { width: 5, height: 5 };
    let reg = Region { x0: 0, y0: 0, width: 5, height: 5 };
    let g = seed(&[(1, 0), (2, 0), (3, 0)]);
    let g1 = step_region(g, &pol, &reg, RunState::Running);
    assert_eq!(alive_sorted(&g1), vec![(2, 0), (2, 1)]);
}

#[test]
fn step_builds_a_fresh_store_and_leaves_the_old_one_intact() {
    let g = seed(&[(10, 10), (11, 10), (12, 10)]);
    let next = step(g, &Topology::Unbounded, RunState::Running);
    // The returned store is complete: the swap is a single assignment.
    assert_eq!(next.get((11, 9)), CellState::Alive);
    assert_eq!(next.get((10, 10)), CellState::Dead);
    assert_eq!(next.get((12, 10)), CellState::Dead);
}
