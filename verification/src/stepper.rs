//! Advancing a grid by one generation: the Conway rule, the candidate
//! coordinates a step must examine, and the stepping functions. A step
//! never mutates the generation it reads; it builds a fresh store that
//! the caller swaps in as one assignment.

use vstd::prelude::*;

use crate::cell::CellState;
use crate::cell::RunState;
use crate::grid::Grid;
use crate::grid::state_at;
use crate::neighbor::neighbor_count;
use crate::topology::Topology;
use crate::topology::is_moore_offset;
use crate::topology::neighbor_coord;
use crate::topology::neighbor_coord_exec;

verus! {

broadcast use vstd::seq_lib::lemma_seq_contains_after_push;

/// The Conway rule as ordered conditions on the current state and the
/// live-neighbor count: a live cell with fewer than 2 live neighbors
/// dies, with 2 or 3 it survives, with more than 3 it dies; a dead cell
/// with exactly 3 live neighbors becomes alive; every other cell is dead.
pub open spec fn conway_next(cur: CellState, n: int) -> CellState {
    if cur is Alive && n < 2 {
        CellState::Dead
    } else if cur is Alive && (n == 2 || n == 3) {
        CellState::Alive
    } else if cur is Alive && n > 3 {
        CellState::Dead
    } else if cur is Dead && n == 3 {
        CellState::Alive
    } else {
        CellState::Dead
    }
}

/// Whether the rule leaves `c` Alive in the successor of `alive`.
pub open spec fn rule_alive(alive: Set<(i64, i64)>, c: (i64, i64), pol: Topology) -> bool {
    conway_next(state_at(alive, c), neighbor_count(alive, c.0, c.1, pol)) is Alive
}

/// The coordinates a sparse step must examine: every live cell and every
/// coordinate reachable as a Moore neighbor of a live cell under the
/// policy. No other coordinate can be Alive in the successor.
pub open spec fn is_candidate(alive: Set<(i64, i64)>, c: (i64, i64), pol: Topology) -> bool {
    alive.contains(c) || exists|ax: i64, ay: i64, dx: int, dy: int|
        alive.contains((ax, ay)) && is_moore_offset(dx, dy) && #[trigger] neighbor_coord(
            ax,
            ay,
            dx,
            dy,
            pol,
        ) == Some(c)
}

/// The successor alive set of a sparse, whole-plane step: the candidates
/// that the rule leaves Alive.
pub open spec fn step_alive(alive: Set<(i64, i64)>, pol: Topology) -> Set<(i64, i64)> {
    Set::new(|c: (i64, i64)| is_candidate(alive, c, pol) && rule_alive(alive, c, pol))
}

/// The alive set after one tick under a run state: unchanged while
/// Paused, the rule's successor while Running.
pub open spec fn step_run(alive: Set<(i64, i64)>, pol: Topology, rs: RunState) -> Set<(i64, i64)> {
    if rs is Paused {
        alive
    } else {
        step_alive(alive, pol)
    }
}

/// The alive set after `k` ticks under one run state.
pub open spec fn step_run_n(alive: Set<(i64, i64)>, pol: Topology, rs: RunState, k: nat) -> Set<
    (i64, i64),
>
    decreases k,
{
    if k == 0 {
        alive
    } else {
        step_run(step_run_n(alive, pol, rs, (k - 1) as nat), pol, rs)
    }
}

/// A bounded rectangle of world coordinates, the candidate set of a
/// windowed (dense-style) step.
#[derive(Clone, Copy, PartialEq, Eq, Structural, Debug)]
pub struct Region {
    pub x0: i64,
    pub y0: i64,
    pub width: i64,
    pub height: i64,
}

impl Region {
    /// Non-negative extent, far edges representable.
    pub open spec fn wf(self) -> bool {
        &&& self.width >= 0
        &&& self.height >= 0
        &&& self.x0 + self.width <= i64::MAX
        &&& self.y0 + self.height <= i64::MAX
    }

    /// Whether `c` lies inside the rectangle.
    pub open spec fn covers(self, c: (i64, i64)) -> bool {
        self.x0 <= c.0 < self.x0 + self.width && self.y0 <= c.1 < self.y0 + self.height
    }
}

/// The successor alive set of a windowed step: only the region's cells
/// are recomputed, and only they can be Alive in the fresh store.
pub open spec fn step_region_alive(alive: Set<(i64, i64)>, pol: Topology, reg: Region) -> Set<
    (i64, i64),
> {
    Set::new(|c: (i64, i64)| reg.covers(c) && rule_alive(alive, c, pol))
}

/// The rule applied to one cell, executably.
pub fn step_cell(cur: CellState, n: i64) -> (r: CellState)
    ensures
        r == conway_next(cur, n as int),
{
    match cur {
        CellState::Alive => {
            if n < 2 {
                CellState::Dead
            } else if n == 2 || n == 3 {
                CellState::Alive
            } else {
                CellState::Dead
            }
        },
        CellState::Dead => {
            if n == 3 {
                CellState::Alive
            } else {
                CellState::Dead
            }
        },
    }
}

/// Appends the reachable Moore neighbors of `(ax, ay)` to `out`.
fn push_neighbors(out: &mut Vec<(i64, i64)>, ax: i64, ay: i64, pol: &Topology)
    requires
        pol.wf(),
    ensures
        forall|d: (i64, i64)| #[trigger]
            final(out)@.contains(d) <==> old(out)@.contains(d) || (exists|dx: int, dy: int|
                is_moore_offset(dx, dy) && #[trigger] neighbor_coord(ax, ay, dx, dy, *pol) == Some(
                    d,
                )),
{
    let mut dx: i64 = -1;
    while dx <= 1
        invariant
            pol.wf(),
            -1 <= dx <= 2,
            forall|d: (i64, i64)| #[trigger]
                out@.contains(d) <==> old(out)@.contains(d) || (exists|ddx: int, ddy: int|
                    is_moore_offset(ddx, ddy) && ddx < dx && #[trigger] neighbor_coord(
                        ax,
                        ay,
                        ddx,
                        ddy,
                        *pol,
                    ) == Some(d)),
        decreases 2 - dx,
    {
        let mut dy: i64 = -1;
        while dy <= 1
            invariant
                pol.wf(),
                -1 <= dx <= 1,
                -1 <= dy <= 2,
                forall|d: (i64, i64)| #[trigger]
                    out@.contains(d) <==> old(out)@.contains(d) || (exists|ddx: int, ddy: int|
                        is_moore_offset(ddx, ddy) && (ddx < dx || (ddx == dx && ddy < dy))
                            && #[trigger] neighbor_coord(ax, ay, ddx, ddy, *pol) == Some(d)),
            decreases 2 - dy,
        {
            if !(dx == 0 && dy == 0) {
                match neighbor_coord_exec(ax, ay, dx, dy, pol) {
                    Some(n) => {
                        out.push(n);
                    },
                    None => {},
                }
            }
            dy = dy + 1;
        }
        dx = dx + 1;
    }
}

/// The candidate coordinates of a sparse step over `grid`, possibly with
/// repetition: the live cells and their reachable Moore neighbors.
fn collect_candidates(grid: &Grid, pol: &Topology) -> (r: Vec<(i64, i64)>)
    requires
        grid.wf(),
        pol.wf(),
    ensures
        forall|c: (i64, i64)| #[trigger]
            r@.contains(c) <==> is_candidate(grid.alive_set(), c, *pol),
{
    let live = grid.iterate_alive();
    let mut out: Vec<(i64, i64)> = Vec::new();
    let mut j: usize = 0;
    while j < live.len()
        invariant
            grid.wf(),
            pol.wf(),
            j <= live@.len(),
            forall|c: (i64, i64)| #[trigger]
                live@.contains(c) <==> grid.alive_set().contains(c),
            forall|c: (i64, i64)| #[trigger]
                out@.contains(c) ==> is_candidate(grid.alive_set(), c, *pol),
            forall|k: int| 0 <= k < j ==> out@.contains(#[trigger] live@[k]),
            forall|k: int, dx: int, dy: int|
                0 <= k < j && is_moore_offset(dx, dy) ==> (#[trigger] neighbor_coord(
                    live@[k].0,
                    live@[k].1,
                    dx,
                    dy,
                    *pol,
                ) matches Some(n) ==> out@.contains(n)),
        decreases live@.len() - j,
    {
        let a = live[j];
        out.push(a);
        proof {
            assert(live@[j as int] == a);
            assert(live@.contains(a));
            assert(is_candidate(grid.alive_set(), a, *pol));
        }
        push_neighbors(&mut out, a.0, a.1, pol);
        proof {
            assert forall|c: (i64, i64)| #[trigger]
                out@.contains(c) implies is_candidate(grid.alive_set(), c, *pol) by {
                if !grid.alive_set().contains(c) {
                    if exists|dx: int, dy: int|
                        is_moore_offset(dx, dy) && #[trigger] neighbor_coord(a.0, a.1, dx, dy, *pol)
                            == Some(c) {
                        let (dx, dy) = choose|dx: int, dy: int|
                            is_moore_offset(dx, dy) && #[trigger] neighbor_coord(
                                a.0,
                                a.1,
                                dx,
                                dy,
                                *pol,
                            ) == Some(c);
                        assert(grid.alive_set().contains((a.0, a.1)));
                        assert(is_candidate(grid.alive_set(), c, *pol));
                    }
                }
            }
        }
        j = j + 1;
    }
    proof {
        assert forall|c: (i64, i64)|
            is_candidate(grid.alive_set(), c, *pol) implies #[trigger] out@.contains(c) by {
            if grid.alive_set().contains(c) {
                assert(live@.contains(c));
                let k = choose|k: int| 0 <= k < live@.len() && live@[k] == c;
                assert(out@.contains(live@[k]));
            } else {
                let (ax, ay, dx, dy) = choose|ax: i64, ay: i64, dx: int, dy: int|
                    grid.alive_set().contains((ax, ay)) && is_moore_offset(dx, dy)
                        && #[trigger] neighbor_coord(ax, ay, dx, dy, *pol) == Some(c);
                assert(live@.contains((ax, ay)));
                let k = choose|k: int| 0 <= k < live@.len() && live@[k] == (ax, ay);
                assert(neighbor_coord(live@[k].0, live@[k].1, dx, dy, *pol) == Some(c));
            }
        }
    }
    out
}

/// One tick of the sparse, whole-plane simulation. While Paused the
/// content passes through unchanged; while Running the fresh store holds
/// exactly the candidates that the rule leaves Alive, so every other
/// coordinate is Dead in it. The input generation is never mutated.
pub fn step(grid: Grid, pol: &Topology, rs: RunState) -> (r: Grid)
    requires
        grid.wf(),
        pol.wf(),
    ensures
        r.wf(),
        r.alive_set() == step_run(grid.alive_set(), *pol, rs),
        rs is Running ==> r.domain() == Set::<(i64, i64)>::full(),
{
    match rs {
        RunState::Paused => grid,
        RunState::Running => {
            let ghost a0 = grid.alive_set();
            let cands = collect_candidates(&grid, pol);
            let mut out = Grid::new();
            let mut i: usize = 0;
            while i < cands.len()
                invariant
                    grid.wf(),
                    pol.wf(),
                    a0 == grid.alive_set(),
                    i <= cands@.len(),
                    out.wf(),
                    out.domain() == Set::<(i64, i64)>::full(),
                    forall|c: (i64, i64)| #[trigger]
                        cands@.contains(c) <==> is_candidate(a0, c, *pol),
                    forall|c: (i64, i64)| #[trigger]
                        out.alive_set().contains(c) <==> ((exists|k: int|
                            0 <= k < i && cands@[k] == c) && rule_alive(a0, c, *pol)),
                decreases cands@.len() - i,
            {
                let c = cands[i];
                let n = grid.get_neigh_count(c.0, c.1, pol);
                let cur = grid.get(c);
                let next = step_cell(cur, n);
                match next {
                    CellState::Alive => {
                        proof {
                            assert(out.in_domain(c));
                        }
                        out.add_cell(c, CellState::Alive);
                        proof {
                            assert(cands@[i as int] == c);
                        }
                    },
                    CellState::Dead => {},
                }
                i = i + 1;
            }
            proof {
                assert forall|c: (i64, i64)|
                    out.alive_set().contains(c) == step_alive(a0, *pol).contains(c) by {
                    if exists|k: int| 0 <= k < cands@.len() && cands@[k] == c {
                        assert(cands@.contains(c));
                    }
                    if cands@.contains(c) {
                        let k = choose|k: int| 0 <= k < cands@.len() && cands@[k] == c;
                        assert(0 <= k < cands@.len() && cands@[k] == c);
                    }
                }
                assert(out.alive_set() =~= step_alive(a0, *pol));
            }
            out
        },
    }
}

/// One tick of the windowed simulation: every cell of `reg` is
/// recomputed from the old store, and the fresh store holds nothing
/// outside `reg`. While Paused the content passes through unchanged.
pub fn step_region(grid: Grid, pol: &Topology, reg: &Region, rs: RunState) -> (r: Grid)
    requires
        grid.wf(),
        pol.wf(),
        reg.wf(),
    ensures
        r.wf(),
        r.domain() == grid.domain(),
        r.alive_set() == (if rs is Paused {
            grid.alive_set()
        } else {
            step_region_alive(grid.alive_set(), *pol, *reg).intersect(grid.domain())
        }),
{
    match rs {
        RunState::Paused => grid,
        RunState::Running => {
            let ghost a0 = grid.alive_set();
            let mut out = grid.fresh_like();
            let mut vy: i64 = 0;
            while vy < reg.height
                invariant
                    grid.wf(),
                    pol.wf(),
                    reg.wf(),
                    a0 == grid.alive_set(),
                    0 <= vy <= reg.height,
                    out.wf(),
                    out.domain() == grid.domain(),
                    forall|c: (i64, i64)| #[trigger]
                        out.alive_set().contains(c) <==> (reg.covers(c) && c.1 < reg.y0 + vy
                            && rule_alive(a0, c, *pol) && grid.domain().contains(c)),
                decreases reg.height - vy,
            {
                let y = reg.y0 + vy;
                let mut vx: i64 = 0;
                while vx < reg.width
                    invariant
                        grid.wf(),
                        pol.wf(),
                        reg.wf(),
                        a0 == grid.alive_set(),
                        0 <= vy < reg.height,
                        0 <= vx <= reg.width,
                        y == reg.y0 + vy,
                        out.wf(),
                        out.domain() == grid.domain(),
                        forall|c: (i64, i64)| #[trigger]
                            out.alive_set().contains(c) <==> (reg.covers(c) && (c.1 < y || (c.1 == y
                                && c.0 < reg.x0 + vx)) && rule_alive(a0, c, *pol)
                                && grid.domain().contains(c)),
                    decreases reg.width - vx,
                {
                    let x = reg.x0 + vx;
                    let n = grid.get_neigh_count(x, y, pol);
                    let cur = grid.get((x, y));
                    let next = step_cell(cur, n);
                    match next {
                        CellState::Alive => {
                            out.add_cell((x, y), CellState::Alive);
                        },
                        CellState::Dead => {},
                    }
                    vx = vx + 1;
                }
                vy = vy + 1;
            }
            proof {
                assert(out.alive_set() =~= step_region_alive(a0, *pol, *reg).intersect(
                    grid.domain(),
                ));
            }
            out
        },
    }
}

} // verus!
