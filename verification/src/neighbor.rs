//! Counting the live cells of a Moore neighborhood under a topology.

use vstd::prelude::*;

use crate::cell::CellState;
use crate::grid::Grid;
use crate::grid::state_at;
use crate::topology::Topology;
use crate::topology::is_moore_offset;
use crate::topology::neighbor_coord;
use crate::topology::neighbor_coord_exec;

verus! {

/// What one neighborhood offset adds to the count: 1 when the offset is
/// reachable under the policy and the cell found there is Alive.
pub open spec fn offset_contrib(
    alive: Set<(i64, i64)>,
    x: i64,
    y: i64,
    dx: int,
    dy: int,
    pol: Topology,
) -> int {
    match neighbor_coord(x, y, dx, dy, pol) {
        Some(n) => {
            if alive.contains(n) {
                1
            } else {
                0
            }
        },
        None => 0,
    }
}

/// The live cells among the 8 Moore neighbors of `(x, y)` under `pol`.
pub open spec fn neighbor_count(alive: Set<(i64, i64)>, x: i64, y: i64, pol: Topology) -> int {
    offset_contrib(alive, x, y, -1, -1, pol) + offset_contrib(alive, x, y, -1, 0, pol)
        + offset_contrib(alive, x, y, -1, 1, pol) + offset_contrib(alive, x, y, 0, -1, pol)
        + offset_contrib(alive, x, y, 0, 1, pol) + offset_contrib(alive, x, y, 1, -1, pol)
        + offset_contrib(alive, x, y, 1, 0, pol) + offset_contrib(alive, x, y, 1, 1, pol)
}

/// A neighborhood with no live cell under it counts 0.
pub proof fn lemma_no_live_neighbors_count_zero(
    alive: Set<(i64, i64)>,
    x: i64,
    y: i64,
    pol: Topology,
)
    requires
        forall|dx: int, dy: int|
            is_moore_offset(dx, dy) ==> (#[trigger] neighbor_coord(x, y, dx, dy, pol) matches Some(
                n,
            ) ==> !alive.contains(n)),
    ensures
        neighbor_count(alive, x, y, pol) == 0,
{
    assert(is_moore_offset(-1, -1));
    assert(is_moore_offset(-1, 0));
    assert(is_moore_offset(-1, 1));
    assert(is_moore_offset(0, -1));
    assert(is_moore_offset(0, 1));
    assert(is_moore_offset(1, -1));
    assert(is_moore_offset(1, 0));
    assert(is_moore_offset(1, 1));
}

impl Grid {
    /// What one offset contributes, executably.
    fn offset_live(&self, x: i64, y: i64, dx: i64, dy: i64, pol: &Topology) -> (r: i64)
        requires
            self.wf(),
            pol.wf(),
            -1 <= dx <= 1,
            -1 <= dy <= 1,
        ensures
            r == offset_contrib(self.alive_set(), x, y, dx as int, dy as int, *pol),
    {
        match neighbor_coord_exec(x, y, dx, dy, pol) {
            Some(n) => {
                match self.get(n) {
                    CellState::Alive => 1,
                    CellState::Dead => 0,
                }
            },
            None => 0,
        }
    }

    /// The number of live cells in the Moore neighborhood of `(x, y)`
    /// under `pol`: an integer in `[0, 8]`. No side effects.
    pub fn get_neigh_count(&self, x: i64, y: i64, pol: &Topology) -> (r: i64)
        requires
            self.wf(),
            pol.wf(),
        ensures
            r == neighbor_count(self.alive_set(), x, y, *pol),
            0 <= r <= 8,
    {
        let mut alive_neigh: i64 = 0;
        alive_neigh = alive_neigh + self.offset_live(x, y, -1, -1, pol);
        alive_neigh = alive_neigh + self.offset_live(x, y, -1, 0, pol);
        alive_neigh = alive_neigh + self.offset_live(x, y, -1, 1, pol);
        alive_neigh = alive_neigh + self.offset_live(x, y, 0, -1, pol);
        alive_neigh = alive_neigh + self.offset_live(x, y, 0, 1, pol);
        alive_neigh = alive_neigh + self.offset_live(x, y, 1, -1, pol);
        alive_neigh = alive_neigh + self.offset_live(x, y, 1, 0, pol);
        alive_neigh = alive_neigh + self.offset_live(x, y, 1, 1, pol);
        alive_neigh
    }
}

} // verus!
