//! The grid store: a mapping from signed lattice coordinates to cell
//! states, behind one contract over two backings. The sparse backing
//! records only the live set and covers the whole plane; the dense
//! backing records every cell of a bounded rectangle explicitly, and
//! writes outside that rectangle change nothing.

use vstd::prelude::*;

use crate::cell::CellState;

verus! {

broadcast use vstd::seq_lib::lemma_seq_contains_after_push;

/// What a store answers for a coordinate under the alive-set model:
/// Alive exactly when the coordinate is in the set.
pub open spec fn state_at(alive: Set<(i64, i64)>, pos: (i64, i64)) -> CellState {
    if alive.contains(pos) {
        CellState::Alive
    } else {
        CellState::Dead
    }
}

/// The alive set after a coordinate is written: recording Alive inserts
/// it, recording Dead removes it.
pub open spec fn written(alive: Set<(i64, i64)>, pos: (i64, i64), typ: CellState) -> Set<
    (i64, i64),
> {
    if typ is Alive {
        alive.insert(pos)
    } else {
        alive.remove(pos)
    }
}

/// The coordinates a `width` x `height` rectangle anchored at the origin
/// can store.
pub open spec fn rect_domain(width: i64, height: i64) -> Set<(i64, i64)> {
    Set::new(|c: (i64, i64)| 0 <= c.0 < width && 0 <= c.1 < height)
}

/// The row-major position of an in-rectangle coordinate.
pub open spec fn dense_index(width: i64, pos: (i64, i64)) -> int {
    pos.1 * width + pos.0
}

/// How a store holds its cells.
enum Backing {
    /// A duplicate-free list of the coordinates that are Alive; every
    /// other coordinate of the plane is Dead.
    Sparse { live: Vec<(i64, i64)> },
    /// One explicit entry for every coordinate of
    /// `[0, width) x [0, height)`, in row-major order.
    Dense { width: i64, height: i64, cells: Vec<CellState> },
}

/// A generation's cell store.
pub struct Grid {
    backing: Backing,
}

impl Grid {
    /// The backing's own invariant: a sparse list never records a
    /// coordinate twice; a dense rectangle holds exactly one entry per
    /// coordinate and stays addressable.
    pub closed spec fn wf(self) -> bool {
        match self.backing {
            Backing::Sparse { live } => forall|i: int, j: int|
                0 <= i < j < live@.len() ==> live@[i] != live@[j],
            Backing::Dense { width, height, cells } => {
                &&& 0 <= width <= usize::MAX
                &&& 0 <= height <= usize::MAX
                &&& width * height <= usize::MAX
                &&& width * height <= i64::MAX
                &&& cells@.len() == width * height
            },
        }
    }

    /// The coordinates this store can record: the whole plane for the
    /// sparse backing, the rectangle for the dense one.
    pub closed spec fn domain(self) -> Set<(i64, i64)> {
        match self.backing {
            Backing::Sparse { .. } => Set::full(),
            Backing::Dense { width, height, .. } => rect_domain(width, height),
        }
    }

    /// Whether `pos` can be recorded in this store.
    pub open spec fn in_domain(self, pos: (i64, i64)) -> bool {
        self.domain().contains(pos)
    }

    /// The model of the store: the set of coordinates that are Alive.
    pub closed spec fn alive_set(self) -> Set<(i64, i64)> {
        match self.backing {
            Backing::Sparse { live } => live@.to_set(),
            Backing::Dense { width, height, cells } => Set::new(
                |c: (i64, i64)|
                    0 <= c.0 < width && 0 <= c.1 < height && cells@[dense_index(width, c)]
                        is Alive,
            ),
        }
    }

    /// An empty sparse store over the whole plane.
    pub fn new() -> (g: Grid)
        ensures
            g.wf(),
            g.alive_set() == Set::<(i64, i64)>::empty(),
            g.domain() == Set::<(i64, i64)>::full(),
    {
        let g = Grid { backing: Backing::Sparse { live: Vec::new() } };
        proof {
            assert(g.alive_set() =~= Set::<(i64, i64)>::empty());
        }
        g
    }

    /// An all-Dead dense store over `[0, width) x [0, height)`.
    pub fn new_dense(width: i64, height: i64) -> (g: Grid)
        requires
            0 <= width <= usize::MAX,
            0 <= height <= usize::MAX,
            width * height <= usize::MAX,
            width * height <= i64::MAX,
        ensures
            g.wf(),
            g.alive_set() == Set::<(i64, i64)>::empty(),
            g.domain() == rect_domain(width, height),
    {
        let total: usize = (width as usize) * (height as usize);
        let mut cells: Vec<CellState> = Vec::new();
        let mut i: usize = 0;
        while i < total
            invariant
                i <= total,
                cells@.len() == i,
                forall|k: int| 0 <= k < i ==> cells@[k] is Dead,
            decreases total - i,
        {
            cells.push(CellState::Dead);
            i = i + 1;
        }
        let g = Grid { backing: Backing::Dense { width, height, cells } };
        proof {
            assert forall|c: (i64, i64)| !g.alive_set().contains(c) by {
                if 0 <= c.0 < width && 0 <= c.1 < height {
                    assert(0 <= dense_index(width, c) < width * height) by (nonlinear_arith)
                        requires
                            0 <= c.0 < width,
                            0 <= c.1 < height,
                    ;
                }
            }
            assert(g.alive_set() =~= Set::<(i64, i64)>::empty());
        }
        g
    }

    /// A fresh, all-Dead store with the same backing and domain as this
    /// one: what a stepper fills to build the next generation.
    pub fn fresh_like(&self) -> (g: Grid)
        requires
            self.wf(),
        ensures
            g.wf(),
            g.alive_set() == Set::<(i64, i64)>::empty(),
            g.domain() == self.domain(),
    {
        match &self.backing {
            Backing::Sparse { .. } => Grid::new(),
            Backing::Dense { width, height, .. } => Grid::new_dense(*width, *height),
        }
    }

    /// The stored state of `pos`: Alive when recorded so, otherwise
    /// Dead — also for every coordinate outside a dense store's
    /// rectangle. Total; never fails.
    pub fn get(&self, pos: (i64, i64)) -> (r: CellState)
        requires
            self.wf(),
        ensures
            r == state_at(self.alive_set(), pos),
    {
        match &self.backing {
            Backing::Sparse { live } => {
                match find_in(live, pos) {
                    Some(_) => CellState::Alive,
                    None => CellState::Dead,
                }
            },
            Backing::Dense { width, height, cells } => {
                if 0 <= pos.0 && pos.0 < *width && 0 <= pos.1 && pos.1 < *height {
                    proof {
                        assert(0 <= pos.1 * *width && pos.1 * *width + pos.0 < *width * *height)
                            by (nonlinear_arith)
                            requires
                                0 <= pos.0 < *width,
                                0 <= pos.1 < *height,
                        ;
                    }
                    let idx: usize = (pos.1 * *width + pos.0) as usize;
                    cells[idx]
                } else {
                    CellState::Dead
                }
            },
        }
    }

    /// Records `typ` at `pos` when the store can hold that coordinate;
    /// a write outside a dense store's rectangle changes nothing.
    /// Writing Dead to an absent coordinate is a no-op; writing it to a
    /// present one removes it; writing Alive records the coordinate once.
    pub fn add_cell(&mut self, pos: (i64, i64), typ: CellState)
        requires
            old(self).wf(),
        ensures
            final(self).wf(),
            final(self).domain() == old(self).domain(),
            final(self).alive_set() == (if old(self).in_domain(pos) {
                written(old(self).alive_set(), pos, typ)
            } else {
                old(self).alive_set()
            }),
    {
        match &mut self.backing {
            Backing::Sparse { live } => {
                sparse_write(live, pos, typ);
            },
            Backing::Dense { width, height, cells } => {
                if 0 <= pos.0 && pos.0 < *width && 0 <= pos.1 && pos.1 < *height {
                    proof {
                        assert(0 <= pos.1 * *width && pos.1 * *width + pos.0 < *width * *height)
                            by (nonlinear_arith)
                            requires
                                0 <= pos.0 < *width,
                                0 <= pos.1 < *height,
                        ;
                    }
                    let idx: usize = (pos.1 * *width + pos.0) as usize;
                    cells[idx] = typ;
                    proof {
                        let w = *width;
                        assert forall|c: (i64, i64)|
                            (0 <= c.0 < w && 0 <= c.1 < *height && c != pos) implies dense_index(
                            w,
                            c,
                        ) != dense_index(w, pos) by {
                            assert(c.1 * w + c.0 != pos.1 * w + pos.0) by (nonlinear_arith)
                                requires
                                    0 <= c.0 < w,
                                    0 <= pos.0 < w,
                                    c != pos,
                                    c.0 != pos.0 || c.1 != pos.1,
                            ;
                        }
                    }
                } else {
                }
            },
        }
        proof {
            if old(self).backing is Dense && old(self).in_domain(pos) {
                let w = old(self).backing->width;
                let h = old(self).backing->height;
                let pre = old(self).backing->cells@;
                let post = self.backing->cells@;
                assert(post == pre.update(dense_index(w, pos), typ));
                assert forall|c: (i64, i64)|
                    self.alive_set().contains(c) == written(
                        old(self).alive_set(),
                        pos,
                        typ,
                    ).contains(c) by {
                    if 0 <= c.0 < w && 0 <= c.1 < h && c != pos {
                        assert(dense_index(w, c) != dense_index(w, pos)) by (nonlinear_arith)
                            requires
                                0 <= c.0 < w,
                                0 <= pos.0 < w,
                                c.0 != pos.0 || c.1 != pos.1,
                        ;
                        assert(0 <= dense_index(w, c) < w * h) by (nonlinear_arith)
                            requires
                                0 <= c.0 < w,
                                0 <= c.1 < h,
                        ;
                        assert(post[dense_index(w, c)] == pre[dense_index(w, c)]);
                    }
                }
            }
            if self.in_domain(pos) {
                assert(self.alive_set() =~= written(old(self).alive_set(), pos, typ));
            } else {
                assert(self.alive_set() =~= old(self).alive_set());
            }
        }
    }

    /// The coordinates currently Alive, each exactly once, as a finite
    /// restartable sequence.
    pub fn iterate_alive(&self) -> (r: Vec<(i64, i64)>)
        requires
            self.wf(),
        ensures
            forall|i: int, j: int| 0 <= i < j < r@.len() ==> r@[i] != r@[j],
            forall|c: (i64, i64)| #[trigger] r@.contains(c) <==> self.alive_set().contains(c),
    {
        match &self.backing {
            Backing::Sparse { live } => {
                let mut out: Vec<(i64, i64)> = Vec::new();
                let mut i: usize = 0;
                while i < live.len()
                    invariant
                        i <= live@.len(),
                        out@ == live@.take(i as int),
                    decreases live@.len() - i,
                {
                    let c = live[i];
                    out.push(c);
                    proof {
                        assert(out@ =~= live@.take(i + 1));
                    }
                    i = i + 1;
                }
                proof {
                    assert(out@ =~= live@);
                }
                out
            },
            Backing::Dense { width, height, cells } => {
                let w = *width;
                let h = *height;
                let mut out: Vec<(i64, i64)> = Vec::new();
                let mut ypos: i64 = 0;
                while ypos < h
                    invariant
                        0 <= w <= usize::MAX,
                        0 <= h <= usize::MAX,
                        w * h <= usize::MAX,
                        w * h <= i64::MAX,
                        cells@.len() == w * h,
                        0 <= ypos <= h,
                        forall|i: int, j: int| 0 <= i < j < out@.len() ==> out@[i] != out@[j],
                        forall|c: (i64, i64)| #[trigger]
                            out@.contains(c) <==> (0 <= c.0 < w && 0 <= c.1 < ypos
                                && cells@[dense_index(w, c)] is Alive),
                    decreases h - ypos,
                {
                    let mut xpos: i64 = 0;
                    while xpos < w
                        invariant
                            0 <= w <= usize::MAX,
                            0 <= h <= usize::MAX,
                            w * h <= usize::MAX,
                            w * h <= i64::MAX,
                            cells@.len() == w * h,
                            0 <= ypos < h,
                            0 <= xpos <= w,
                            forall|i: int, j: int| 0 <= i < j < out@.len() ==> out@[i] != out@[j],
                            forall|c: (i64, i64)| #[trigger]
                                out@.contains(c) <==> (0 <= c.0 < w && cells@[dense_index(w, c)]
                                    is Alive && (0 <= c.1 < ypos || (c.1 == ypos && 0 <= c.0
                                    < xpos))),
                        decreases w - xpos,
                    {
                        proof {
                            assert(0 <= ypos * w && ypos * w + xpos < w * h) by (nonlinear_arith)
                                requires
                                    0 <= xpos < w,
                                    0 <= ypos < h,
                            ;
                        }
                        let idx: usize = (ypos * w + xpos) as usize;
                        let st = cells[idx];
                        let ghost pre_out = out@;
                        match st {
                            CellState::Alive => {
                                out.push((xpos, ypos));
                                proof {
                                    assert(cells@[dense_index(w, (xpos, ypos))] is Alive);
                                    assert forall|i: int, j: int|
                                        0 <= i < j < out@.len() implies out@[i] != out@[j] by {
                                        if j == out@.len() - 1 {
                                            assert(pre_out.contains(pre_out[i]));
                                        }
                                    }
                                }
                            },
                            CellState::Dead => {
                                proof {
                                    assert(!(cells@[dense_index(w, (xpos, ypos))] is Alive));
                                }
                            },
                        }
                        xpos = xpos + 1;
                    }
                    ypos = ypos + 1;
                }
                proof {
                    assert forall|c: (i64, i64)| #[trigger]
                        out@.contains(c) == self.alive_set().contains(c) by {
                        assert(self.alive_set().contains(c) == (0 <= c.0 < w && 0 <= c.1 < h
                            && cells@[dense_index(w, c)] is Alive));
                    }
                }
                out
            },
        }
    }

    /// Every cell of the rectangle `[x0, x0 + width) x [y0, y0 + height)`
    /// with its state, in row-major order.
    pub fn iterate_region(&self, x0: i64, y0: i64, width: i64, height: i64) -> (r: Vec<
        ((i64, i64), CellState),
    >)
        requires
            self.wf(),
            width >= 0,
            height >= 0,
            x0 + width <= i64::MAX,
            y0 + height <= i64::MAX,
        ensures
            r@.len() == width * height,
            forall|i: int|
                0 <= i < r@.len() ==> #[trigger] r@[i] == region_entry(
                    self.alive_set(),
                    x0,
                    y0,
                    width,
                    i,
                ),
    {
        let mut out: Vec<((i64, i64), CellState)> = Vec::new();
        let mut vy: i64 = 0;
        while vy < height
            invariant
                self.wf(),
                width >= 0,
                height >= 0,
                x0 + width <= i64::MAX,
                y0 + height <= i64::MAX,
                0 <= vy <= height,
                out@.len() == vy * width,
                forall|i: int|
                    0 <= i < out@.len() ==> #[trigger] out@[i] == region_entry(
                        self.alive_set(),
                        x0,
                        y0,
                        width,
                        i,
                    ),
            decreases height - vy,
        {
            let mut vx: i64 = 0;
            while vx < width
                invariant
                    self.wf(),
                    width >= 0,
                    height >= 0,
                    x0 + width <= i64::MAX,
                    y0 + height <= i64::MAX,
                    0 <= vy < height,
                    0 <= vx <= width,
                    out@.len() == vy * width + vx,
                    forall|i: int|
                        0 <= i < out@.len() ==> #[trigger] out@[i] == region_entry(
                            self.alive_set(),
                            x0,
                            y0,
                            width,
                            i,
                        ),
                decreases width - vx,
            {
                let pos = (x0 + vx, y0 + vy);
                let st = self.get(pos);
                out.push((pos, st));
                proof {
                    let i = vy * width + vx;
                    vstd::arithmetic::div_mod::lemma_fundamental_div_mod_converse(
                        i as int,
                        width as int,
                        vy as int,
                        vx as int,
                    );
                    assert(out@[i as int] == region_entry(self.alive_set(), x0, y0, width, i as int));
                }
                vx = vx + 1;
            }
            vy = vy + 1;
            proof {
                assert(vy * width == (vy - 1) * width + width) by (nonlinear_arith);
            }
        }
        out
    }
}

/// Entry `i` of the row-major listing of a `width`-wide rectangle
/// anchored at `(x0, y0)`: the world coordinate `(x0 + i % width,
/// y0 + i / width)` paired with its state.
pub open spec fn region_entry(alive: Set<(i64, i64)>, x0: i64, y0: i64, width: i64, i: int) -> (
    (i64, i64),
    CellState,
) {
    let vx = i % (width as int);
    let vy = i / (width as int);
    let pos = (((x0 + vx) as i64), ((y0 + vy) as i64));
    (pos, state_at(alive, pos))
}

/// The index of `pos` in a sparse live list, when it is recorded there.
fn find_in(live: &Vec<(i64, i64)>, pos: (i64, i64)) -> (r: Option<usize>)
    ensures
        match r {
            Some(i) => i < live@.len() && live@[i as int] == pos && live@.contains(pos),
            None => !live@.contains(pos),
        },
{
    let mut i: usize = 0;
    while i < live.len()
        invariant
            i <= live@.len(),
            forall|k: int| 0 <= k < i ==> live@[k] != pos,
        decreases live@.len() - i,
    {
        let c = live[i];
        if c.0 == pos.0 && c.1 == pos.1 {
            proof {
                assert(live@[i as int] == pos);
                assert(live@.contains(pos));
            }
            return Some(i);
        }
        i = i + 1;
    }
    proof {
        assert(!live@.contains(pos));
    }
    None
}

/// Writes one coordinate of a sparse live list.
fn sparse_write(live: &mut Vec<(i64, i64)>, pos: (i64, i64), typ: CellState)
    requires
        forall|i: int, j: int| 0 <= i < j < old(live)@.len() ==> old(live)@[i] != old(live)@[j],
    ensures
        forall|i: int, j: int|
            0 <= i < j < final(live)@.len() ==> final(live)@[i] != final(live)@[j],
        final(live)@.to_set() == written(old(live)@.to_set(), pos, typ),
{
    let found = find_in(live, pos);
    match typ {
        CellState::Alive => {
            match found {
                Some(_) => {
                    proof {
                        assert(live@.to_set() =~= live@.to_set().insert(pos));
                    }
                },
                None => {
                    live.push(pos);
                    proof {
                        let pre = old(live)@;
                        let post = live@;
                        assert forall|k: int| 0 <= k < pre.len() implies pre[k] != pos by {
                            assert(!pre.contains(pos));
                        }
                        assert forall|c: (i64, i64)| #[trigger]
                            post.contains(c) implies pre.contains(c) || c == pos by {
                            let k = choose|k: int| 0 <= k < post.len() && post[k] == c;
                            if k < pre.len() {
                                assert(pre[k] == c);
                            }
                        }
                        assert forall|c: (i64, i64)|
                            pre.contains(c) || c == pos implies #[trigger] post.contains(c) by {
                            if pre.contains(c) {
                                let k = choose|k: int| 0 <= k < pre.len() && pre[k] == c;
                                assert(post[k] == c);
                            } else {
                                assert(post[post.len() - 1] == c);
                            }
                        }
                        assert(live@.to_set() =~= old(live)@.to_set().insert(pos));
                    }
                },
            }
        },
        CellState::Dead => {
            match found {
                Some(i) => {
                    live.swap_remove(i);
                    proof {
                        let pre = old(live)@;
                        let post = live@;
                        assert(post =~= pre.update(i as int, pre.last()).drop_last());
                        assert forall|c: (i64, i64)| #[trigger]
                            post.contains(c) implies pre.contains(c) && c != pos by {
                            let k = choose|k: int| 0 <= k < post.len() && post[k] == c;
                            if k == i {
                                assert(pre[pre.len() - 1] == c);
                                assert(i < pre.len() - 1);
                            } else {
                                assert(pre[k] == c);
                            }
                        }
                        assert forall|c: (i64, i64)|
                            pre.contains(c) && c != pos implies #[trigger] post.contains(c) by {
                            let k = choose|k: int| 0 <= k < pre.len() && pre[k] == c;
                            assert(k != i);
                            if k == pre.len() - 1 {
                                assert(post[i as int] == c);
                            } else {
                                assert(post[k] == c);
                            }
                        }
                        assert forall|a: int, b: int|
                            0 <= a < b < post.len() implies post[a] != post[b] by {
                            assert(post[a] == (if a == i {
                                pre[pre.len() - 1]
                            } else {
                                pre[a]
                            }));
                            assert(post[b] == (if b == i {
                                pre[pre.len() - 1]
                            } else {
                                pre[b]
                            }));
                        }
                        assert(live@.to_set() =~= old(live)@.to_set().remove(pos));
                    }
                },
                None => {
                    proof {
                        assert(live@.to_set() =~= live@.to_set().remove(pos));
                    }
                },
            }
        },
    }
}

} // verus!
