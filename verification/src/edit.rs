//! The edit controller: pointer input becomes a direct mutation of the
//! live store, in Running and Paused state alike.

use vstd::prelude::*;

use crate::cell::CellState;
use crate::grid::Grid;
use crate::grid::written;
use crate::viewport::pixel_to_axis;

verus! {

/// The world coordinate a pointer at pixel `(px, py)` edits under pan
/// offset `(off_x, off_y)`.
pub open spec fn pointer_target(px: i32, py: i32, off_x: i64, off_y: i64) -> (i64, i64) {
    ((pixel_to_axis(px as int, off_x as int) as i64), (pixel_to_axis(py as int, off_y as int) as i64))
}

/// Applies one pointer event to the store: with the primary button held
/// the pointed-at world coordinate is set Alive, with the secondary
/// button held it is set Dead, with neither held nothing changes. The
/// mutation is immediate; the run state plays no part in it.
pub fn apply_pointer_input(
    grid: &mut Grid,
    px: i32,
    py: i32,
    primary: bool,
    secondary: bool,
    off_x: i64,
    off_y: i64,
)
    requires
        old(grid).wf(),
        i64::MIN <= pixel_to_axis(px as int, off_x as int) <= i64::MAX,
        i64::MIN <= pixel_to_axis(py as int, off_y as int) <= i64::MAX,
    ensures
        final(grid).wf(),
        final(grid).domain() == old(grid).domain(),
        final(grid).alive_set() == (if primary && old(grid).in_domain(
            pointer_target(px, py, off_x, off_y),
        ) {
            written(old(grid).alive_set(), pointer_target(px, py, off_x, off_y), CellState::Alive)
        } else if !primary && secondary && old(grid).in_domain(
            pointer_target(px, py, off_x, off_y),
        ) {
            written(old(grid).alive_set(), pointer_target(px, py, off_x, off_y), CellState::Dead)
        } else {
            old(grid).alive_set()
        }),
{
    if primary {
        let pos = crate::viewport::screen_to_world(px, py, off_x, off_y);
        grid.add_cell(pos, CellState::Alive);
    } else if secondary {
        let pos = crate::viewport::screen_to_world(px, py, off_x, off_y);
        grid.add_cell(pos, CellState::Dead);
    }
}

} // verus!
