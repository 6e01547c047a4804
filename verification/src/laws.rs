//! Laws of the engine: properties that hold of every store, coordinate
//! and step count, proved once and for all over the alive-set model.

use vstd::prelude::*;

use crate::cell::CellState;
use crate::cell::RunState;
use crate::grid::state_at;
use crate::grid::written;
use crate::neighbor::lemma_no_live_neighbors_count_zero;
use crate::neighbor::neighbor_count;
use crate::stepper::conway_next;
use crate::stepper::is_candidate;
use crate::stepper::rule_alive;
use crate::stepper::step_alive;
use crate::stepper::step_run;
use crate::stepper::step_run_n;
use crate::topology::Topology;
use crate::topology::is_moore_offset;
use crate::topology::neighbor_coord;

verus! {

/// Law: writing a state to a coordinate and reading the same coordinate
/// back yields exactly that state, for every store, coordinate and state.
pub proof fn lemma_write_then_read(alive: Set<(i64, i64)>, c: (i64, i64), s: CellState)
    ensures
        state_at(written(alive, c, s), c) == s,
{
}

/// Law: a live cell none of whose reachable Moore neighbors is Alive
/// counts 0 live neighbors and is Dead after one running step.
pub proof fn lemma_isolated_cell_dies(alive: Set<(i64, i64)>, c: (i64, i64), pol: Topology)
    requires
        state_at(alive, c) is Alive,
        forall|dx: int, dy: int|
            is_moore_offset(dx, dy) ==> (#[trigger] neighbor_coord(c.0, c.1, dx, dy, pol) matches
            Some(n) ==> state_at(alive, n) is Dead),
    ensures
        neighbor_count(alive, c.0, c.1, pol) == 0,
        state_at(step_alive(alive, pol), c) is Dead,
{
    lemma_no_live_neighbors_count_zero(alive, c.0, c.1, pol);
}

/// The four cells of a 2 x 2 block anchored at `(x, y)`: the still life.
pub open spec fn block_at(x: i64, y: i64) -> Set<(i64, i64)> {
    Set::new(
        |c: (i64, i64)|
            (c.0 == x || c.0 == x + 1) && (c.1 == y || c.1 == y + 1),
    )
}

/// One running step leaves the block exactly as it is: each block cell
/// has 3 live neighbors and survives, and no other candidate reaches 3.
proof fn lemma_block_one_step(x: i64, y: i64)
    requires
        x + 1 <= i64::MAX,
        y + 1 <= i64::MAX,
    ensures
        step_alive(block_at(x, y), Topology::Unbounded) == block_at(x, y),
{
    let b = block_at(x, y);
    let pol = Topology::Unbounded;
    assert forall|c: (i64, i64)| #[trigger]
        step_alive(b, pol).contains(c) == b.contains(c) by {
        if b.contains(c) {
            assert(is_candidate(b, c, pol));
            assert(neighbor_count(b, c.0, c.1, pol) == 3);
        } else {
            if is_candidate(b, c, pol) {
                assert(neighbor_count(b, c.0, c.1, pol) != 3);
            }
        }
    }
    assert(step_alive(b, pol) =~= b);
}

/// Law: a 2 x 2 block of live cells is unchanged by any number of
/// running steps in the unbounded topology.
pub proof fn lemma_block_still_life(x: i64, y: i64, k: nat)
    requires
        x + 1 <= i64::MAX,
        y + 1 <= i64::MAX,
    ensures
        step_run_n(block_at(x, y), Topology::Unbounded, RunState::Running, k) == block_at(x, y),
    decreases k,
{
    if k > 0 {
        lemma_block_still_life(x, y, (k - 1) as nat);
        lemma_block_one_step(x, y);
    }
}

/// Law: while Paused, any number of steps leaves the alive set exactly
/// as it is.
pub proof fn lemma_paused_steps_identity(alive: Set<(i64, i64)>, pol: Topology, k: nat)
    ensures
        step_run_n(alive, pol, RunState::Paused, k) == alive,
    decreases k,
{
    if k > 0 {
        lemma_paused_steps_identity(alive, pol, (k - 1) as nat);
    }
}

/// Law: an edit is independent of the run state. Setting a cell Alive is
/// observable immediately — the run state does not appear in the written
/// store at all — and the edit takes part in the next running step under
/// the standard rule: the edited cell is a candidate, and its state after
/// the step is exactly what the rule yields for its live-neighbor count
/// in the edited store.
pub proof fn lemma_edit_independent_of_run_state(
    alive: Set<(i64, i64)>,
    c: (i64, i64),
    pol: Topology,
)
    ensures
        state_at(written(alive, c, CellState::Alive), c) is Alive,
        step_run(written(alive, c, CellState::Alive), pol, RunState::Running) == step_alive(
            written(alive, c, CellState::Alive),
            pol,
        ),
        state_at(step_alive(written(alive, c, CellState::Alive), pol), c) == conway_next(
            CellState::Alive,
            neighbor_count(written(alive, c, CellState::Alive), c.0, c.1, pol),
        ),
{
    let e = written(alive, c, CellState::Alive);
    assert(e.contains(c));
    assert(is_candidate(e, c, pol));
}

} // verus!
