//! Cell states and the run/pause control state.

use vstd::prelude::*;

verus! {

/// The state of one cell of the lattice. A coordinate that is not
/// recorded in a sparse store is `Dead` by default.
#[derive(Clone, Copy, PartialEq, Eq, Structural, Debug)]
pub enum CellState {
    Alive,
    Dead,
}

/// Whether the simulation advances on a tick. The stepper reads it before
/// each step; only a dedicated toggle input changes it.
#[derive(Clone, Copy, PartialEq, Eq, Structural, Debug)]
pub enum RunState {
    Running,
    Paused,
}

impl RunState {
    /// The transition taken on one toggle input: Running and Paused swap.
    pub fn toggle(self) -> (r: RunState)
        ensures
            r == (if self is Running {
                RunState::Paused
            } else {
                RunState::Running
            }),
    {
        match self {
            RunState::Running => RunState::Paused,
            RunState::Paused => RunState::Running,
        }
    }
}

} // verus!
