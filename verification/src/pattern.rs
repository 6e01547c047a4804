//! Built-in seed patterns: fixed lists of offsets, each set Alive
//! relative to an anchor point when a pattern is applied.

use vstd::prelude::*;

use crate::cell::CellState;
use crate::grid::Grid;

verus! {

/// A named seed pattern.
#[derive(Clone, Copy, PartialEq, Eq, Structural, Debug)]
pub enum Pattern {
    /// A horizontal row of 3: the period-2 oscillator.
    Blinker,
    /// The 5-cell pattern that reproduces itself translated.
    Glider,
    /// A 15-cell seed that settles into the pentadecathlon oscillator.
    PentaDecathlon,
}

impl Pattern {
    /// The offsets of the pattern relative to its anchor, each implicitly
    /// Alive.
    pub open spec fn offsets(self) -> Seq<(i64, i64)> {
        match self {
            Pattern::Blinker => seq![(0i64, 0i64), (1i64, 0i64), (2i64, 0i64)],
            Pattern::Glider => seq![
                (1i64, 1i64),
                (2i64, 2i64),
                (2i64, 3i64),
                (1i64, 3i64),
                (0i64, 3i64),
            ],
            Pattern::PentaDecathlon => seq![
                (15i64, 0i64),
                (15i64, 1i64),
                (17i64, 0i64),
                (16i64, 1i64),
                (16i64, 2i64),
                (22i64, 2i64),
                (22i64, 3i64),
                (22i64, 4i64),
                (23i64, 4i64),
                (24i64, 3i64),
                (7i64, 15i64),
                (8i64, 15i64),
                (9i64, 15i64),
                (9i64, 16i64),
                (8i64, 17i64),
            ],
        }
    }

    /// Every offset, shifted by the anchor, stays representable.
    pub open spec fn fits(self, ax: i64, ay: i64) -> bool {
        forall|k: int|
            0 <= k < self.offsets().len() ==> {
                let d = #[trigger] self.offsets()[k];
                i64::MIN <= ax + d.0 <= i64::MAX && i64::MIN <= ay + d.1 <= i64::MAX
            }
    }

    /// Every offset, shifted by the anchor, lands inside the store
    /// domain `dom`.
    pub open spec fn seeds_within(self, dom: Set<(i64, i64)>, ax: i64, ay: i64) -> bool {
        forall|k: int|
            0 <= k < self.offsets().len() ==> {
                let d = #[trigger] self.offsets()[k];
                dom.contains((((ax + d.0) as i64), ((ay + d.1) as i64)))
            }
    }

    /// The offsets as a vector, for iteration.
    fn offsets_vec(self) -> (r: Vec<(i64, i64)>)
        ensures
            r@ == self.offsets(),
    {
        match self {
            Pattern::Blinker => {
                let v = vec![(0i64, 0i64), (1i64, 0i64), (2i64, 0i64)];
                proof {
                    assert(v@ =~= self.offsets());
                }
                v
            },
            Pattern::Glider => {
                let v = vec![(1i64, 1i64), (2i64, 2i64), (2i64, 3i64), (1i64, 3i64), (0i64, 3i64)];
                proof {
                    assert(v@ =~= self.offsets());
                }
                v
            },
            Pattern::PentaDecathlon => {
                let v = vec![
                    (15i64, 0i64),
                    (15i64, 1i64),
                    (17i64, 0i64),
                    (16i64, 1i64),
                    (16i64, 2i64),
                    (22i64, 2i64),
                    (22i64, 3i64),
                    (22i64, 4i64),
                    (23i64, 4i64),
                    (24i64, 3i64),
                    (7i64, 15i64),
                    (8i64, 15i64),
                    (9i64, 15i64),
                    (9i64, 16i64),
                    (8i64, 17i64),
                ];
                proof {
                    assert(v@ =~= self.offsets());
                }
                v
            },
        }
    }
}

/// The alive set after `p` is applied at anchor `(ax, ay)`: the old live
/// cells together with every pattern cell.
pub open spec fn seeded(alive: Set<(i64, i64)>, p: Pattern, ax: i64, ay: i64) -> Set<(i64, i64)> {
    Set::new(
        |c: (i64, i64)|
            alive.contains(c) || exists|k: int|
                0 <= k < p.offsets().len() && {
                    let d = #[trigger] p.offsets()[k];
                    c == (((ax + d.0) as i64), ((ay + d.1) as i64))
                },
    )
}

impl Grid {
    /// Seeds `p` at anchor `(ax, ay)`: every listed offset, shifted by
    /// the anchor, is set Alive; nothing else changes.
    pub fn apply_pattern(&mut self, p: Pattern, ax: i64, ay: i64)
        requires
            old(self).wf(),
            p.fits(ax, ay),
            p.seeds_within(old(self).domain(), ax, ay),
        ensures
            final(self).wf(),
            final(self).domain() == old(self).domain(),
            final(self).alive_set() == seeded(old(self).alive_set(), p, ax, ay),
    {
        let offs = p.offsets_vec();
        let mut k: usize = 0;
        while k < offs.len()
            invariant
                self.wf(),
                self.domain() == old(self).domain(),
                offs@ == p.offsets(),
                p.fits(ax, ay),
                p.seeds_within(old(self).domain(), ax, ay),
                k <= offs@.len(),
                forall|c: (i64, i64)| #[trigger]
                    self.alive_set().contains(c) <==> (old(self).alive_set().contains(c) || exists|
                        j: int,
                    |
                        0 <= j < k && {
                            let d = #[trigger] p.offsets()[j];
                            c == (((ax + d.0) as i64), ((ay + d.1) as i64))
                        }),
            decreases offs@.len() - k,
        {
            let d = offs[k];
            proof {
                assert(p.offsets()[k as int] == d);
                assert(self.in_domain((((ax + d.0) as i64), ((ay + d.1) as i64))));
            }
            self.add_cell((ax + d.0, ay + d.1), CellState::Alive);
            k = k + 1;
        }
        proof {
            assert(self.alive_set() =~= seeded(old(self).alive_set(), p, ax, ay));
        }
    }

    /// Seeds the pentadecathlon pattern at anchor `(x, y)`.
    pub fn add_penta_decathlon(&mut self, x: i64, y: i64)
        requires
            old(self).wf(),
            Pattern::PentaDecathlon.fits(x, y),
            Pattern::PentaDecathlon.seeds_within(old(self).domain(), x, y),
        ensures
            final(self).wf(),
            final(self).domain() == old(self).domain(),
            final(self).alive_set() == seeded(
                old(self).alive_set(),
                Pattern::PentaDecathlon,
                x,
                y,
            ),
    {
        self.apply_pattern(Pattern::PentaDecathlon, x, y)
    }
}

} // verus!
