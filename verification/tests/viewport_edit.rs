use game_of_life::cell::CellState;
use game_of_life::cell::RunState;
use game_of_life::edit::apply_pointer_input;
use game_of_life::grid::Grid;
use game_of_life::stepper::step;
use game_of_life::topology::Topology;
use game_of_life::viewport::screen_to_world;
use game_of_life::viewport::visible_cells;

fn alive_sorted(g: &Grid) -> Vec<(i64, i64)> {
    let mut v = g.iterate_alive();
    v.sort();
    v
}

#[test]
fn screen_to_world_inverts_the_cell_layout() {
    // Pixel 160 lies 150 past the outer margin: cell 10 of the row.
    assert_eq!(screen_to_world(160, 40, 0, 0), (10, 2));
    // The first pixel of a cell and the last pixel of its gap agree.
    assert_eq!(screen_to_world(10, 10, 0, 0), (0, 0));
    assert_eq!(screen_to_world(24, 24, 0, 0), (0, 0));
    assert_eq!(screen_to_world(25, 25, 0, 0), (1, 1));
}

#[test]
fn screen_to_world_adds_the_pan_offset() {
    assert_eq!(screen_to_world(160, 40, -3, 100), (7, 102));
    assert_eq!(screen_to_world(10, 10, i64::MAX, i64::MIN), (i64::MAX, i64::MIN));
}

#[test]
fn screen_to_world_maps_pixels_left_of_the_margin() {
    // Division truncates toward zero: pixels just left of the margin
    // still land in cell 0; farther out they go negative.
    assert_eq!(screen_to_world(4, 9, 0, 0), (0, 0));
    assert_eq!(screen_to_world(-50, -5, 0, 0), (-4, -1));
    assert_eq!(screen_to_world(-20, 0, 5, 5), (3, 5));
}

#[test]
fn visible_cells_emits_the_region_row_major_with_rects() {
    let mut g = Grid::new();
    g.add_cell((5, 5), CellState::Alive);
    g.add_cell((6, 6), CellState::Alive);
    let r = visible_cells(&g, 5, 5, 2, 2);
    assert_eq!(r.len(), 4);
    let (r0, s0) = r[0];
    assert_eq!((r0.x, r0.y, r0.width, r0.height), (10, 10, 14, 14));
    assert_eq!(s0, CellState::Alive);
    let (r1, s1) = r[1];
    assert_eq!((r1.x, r1.y), (25, 10));
    assert_eq!(s1, CellState::Dead);
    let (r2, s2) = r[2];
    assert_eq!((r2.x, r2.y), (10, 25));
    assert_eq!(s2, CellState::Dead);
    let (r3, s3) = r[3];
    assert_eq!((r3.x, r3.y), (25, 25));
    assert_eq!(s3, CellState::Alive);
}

#[test]
fn visible_cells_of_an_empty_viewport_is_empty() {
    let g = Grid::new();
    assert!(visible_cells(&g, 0, 0, 0, 7).is_empty());
    assert!(visible_cells(&g, 0, 0, 7, 0).is_empty());
}

#[test]
fn primary_button_sets_alive_secondary_sets_dead() {
    let mut g = Grid::new();
    // Pixel (175, 160) lies in viewport cell (11, 10).
    apply_pointer_input(&mut g, 175, 160, true, false, 0, 0);
    assert_eq!(g.get((11, 10)), CellState::Alive);
    apply_pointer_input(&mut g, 175, 160, false, true, 0, 0);
    assert_eq!(g.get((11, 10)), CellState::Dead);
    apply_pointer_input(&mut g, 175, 160, true, false, 0, 0);
    apply_pointer_input(&mut g, 175, 160, false, false, 0, 0);
    assert_eq!(g.get((11, 10)), CellState::Alive);
}

#[test]
fn last_write_within_a_tick_wins() {
    let mut g = Grid::new();
    apply_pointer_input(&mut g, 40, 40, true, false, 0, 0);
    apply_pointer_input(&mut g, 40, 40, false, true, 0, 0);
    apply_pointer_input(&mut g, 40, 40, true, false, 0, 0);
    assert_eq!(g.get((2, 2)), CellState::Alive);
    assert_eq!(alive_sorted(&g), vec![(2, 2)]);
}

#[test]
fn edit_while_paused_is_visible_and_survives_unpause_and_step() {
    let mut g = Grid::new();
    g.add_cell((10, 10), CellState::Alive);
    g.add_cell((12, 10), CellState::Alive);
    let rs = RunState::Paused;
    // Editing ignores the run state entirely.
    apply_pointer_input(&mut g, 175, 160, true, false, 0, 0);
    assert_eq!(g.get((11, 10)), CellState::Alive);
    let g = step(g, &Topology::Unbounded, rs);
    assert_eq!(g.get((11, 10)), CellState::Alive);
    // Unpause: the completed blinker row flips vertical, the edited
    // cell surviving with its 2 live neighbors.
    let g = step(g, &Topology::Unbounded, rs.toggle());
    assert_eq!(alive_sorted(&g), vec![(11, 9), (11, 10), (11, 11)]);
}
