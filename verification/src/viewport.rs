//! Mapping between world coordinates and screen space: emitting the
//! visible rectangle of cells for a renderer, and turning a pixel
//! position back into a world coordinate.

use vstd::prelude::*;

use crate::cell::CellState;
use crate::grid::Grid;
use crate::grid::state_at;

verus! {

/// Side of one rendered cell, in pixels.
pub const QUAD_SIZE: u32 = 14;

/// Pixels left empty between adjacent cells.
pub const GAP: u32 = 1;

/// Pixels left empty around the whole rendered grid.
pub const OUTER_GAP: u32 = 10;

/// A screen-space rectangle, in pixels.
#[derive(Clone, Copy, PartialEq, Eq, Structural, Debug)]
pub struct ScreenRect {
    pub x: i32,
    pub y: i32,
    pub width: u32,
    pub height: u32,
}

/// The rectangle drawn for the viewport cell `(vx, vy)`: the cell's
/// position scaled by the cell-plus-gap pitch, shifted by the outer
/// margin.
pub open spec fn cell_rect(vx: int, vy: int) -> ScreenRect {
    ScreenRect {
        x: (vx * ((QUAD_SIZE + GAP) as int) + OUTER_GAP as int) as i32,
        y: (vy * ((QUAD_SIZE + GAP) as int) + OUTER_GAP as int) as i32,
        width: QUAD_SIZE,
        height: QUAD_SIZE,
    }
}

/// Entry `i` of the row-major visible sequence for a viewport `vw` cells
/// wide panned to `(off_x, off_y)`: the rectangle of viewport cell
/// `(i % vw, i / vw)` paired with the state of the world coordinate it
/// observes.
pub open spec fn visible_entry(
    alive: Set<(i64, i64)>,
    off_x: i64,
    off_y: i64,
    vw: int,
    i: int,
) -> (ScreenRect, CellState) {
    let vx = i % vw;
    let vy = i / vw;
    (cell_rect(vx, vy), state_at(alive, (((off_x + vx) as i64), ((off_y + vy) as i64))))
}

/// The visible region as one row-major sequence of screen rectangles and
/// the states found under them: entry `i` observes world coordinate
/// `(off_x + i % vw, off_y + i / vw)`.
pub fn visible_cells(grid: &Grid, off_x: i64, off_y: i64, vw: u32, vh: u32) -> (r: Vec<
    (ScreenRect, CellState),
>)
    requires
        grid.wf(),
        vw * ((QUAD_SIZE + GAP) as int) + OUTER_GAP <= i32::MAX,
        vh * ((QUAD_SIZE + GAP) as int) + OUTER_GAP <= i32::MAX,
        vw == 0 || off_x + vw - 1 <= i64::MAX,
        vh == 0 || off_y + vh - 1 <= i64::MAX,
    ensures
        r@.len() == vw * vh,
        forall|i: int|
            0 <= i < r@.len() ==> #[trigger] r@[i] == visible_entry(
                grid.alive_set(),
                off_x,
                off_y,
                vw as int,
                i,
            ),
{
    let mut out: Vec<(ScreenRect, CellState)> = Vec::new();
    let mut vy: u32 = 0;
    while vy < vh
        invariant
            grid.wf(),
            vw * ((QUAD_SIZE + GAP) as int) + OUTER_GAP <= i32::MAX,
            vh * ((QUAD_SIZE + GAP) as int) + OUTER_GAP <= i32::MAX,
            vw == 0 || off_x + vw - 1 <= i64::MAX,
            vh == 0 || off_y + vh - 1 <= i64::MAX,
            vy <= vh,
            out@.len() == vy * vw,
            forall|i: int|
                0 <= i < out@.len() ==> #[trigger] out@[i] == visible_entry(
                    grid.alive_set(),
                    off_x,
                    off_y,
                    vw as int,
                    i,
                ),
        decreases vh - vy,
    {
        let mut vx: u32 = 0;
        while vx < vw
            invariant
                grid.wf(),
                vw * ((QUAD_SIZE + GAP) as int) + OUTER_GAP <= i32::MAX,
                vh * ((QUAD_SIZE + GAP) as int) + OUTER_GAP <= i32::MAX,
                vw == 0 || off_x + vw - 1 <= i64::MAX,
                vh == 0 || off_y + vh - 1 <= i64::MAX,
                vy < vh,
                vx <= vw,
                out@.len() == vy * vw + vx,
                forall|i: int|
                    0 <= i < out@.len() ==> #[trigger] out@[i] == visible_entry(
                        grid.alive_set(),
                        off_x,
                        off_y,
                        vw as int,
                        i,
                    ),
            decreases vw - vx,
        {
            proof {
                assert(vx * ((QUAD_SIZE + GAP) as int) + OUTER_GAP <= i32::MAX)
                    by (nonlinear_arith)
                    requires
                        vx < vw,
                        vw * ((QUAD_SIZE + GAP) as int) + OUTER_GAP <= i32::MAX,
                ;
                assert(vy * ((QUAD_SIZE + GAP) as int) + OUTER_GAP <= i32::MAX)
                    by (nonlinear_arith)
                    requires
                        vy < vh,
                        vh * ((QUAD_SIZE + GAP) as int) + OUTER_GAP <= i32::MAX,
                ;
            }
            let px: i32 = (vx * (QUAD_SIZE + GAP) + OUTER_GAP) as i32;
            let py: i32 = (vy * (QUAD_SIZE + GAP) + OUTER_GAP) as i32;
            let wx: i64 = off_x + vx as i64;
            let wy: i64 = off_y + vy as i64;
            let rect = ScreenRect { x: px, y: py, width: QUAD_SIZE, height: QUAD_SIZE };
            let st = grid.get((wx, wy));
            out.push((rect, st));
            proof {
                let i = vy * vw + vx;
                vstd::arithmetic::div_mod::lemma_fundamental_div_mod_converse(
                    i as int,
                    vw as int,
                    vy as int,
                    vx as int,
                );
                assert(out@[i as int] == visible_entry(
                    grid.alive_set(),
                    off_x,
                    off_y,
                    vw as int,
                    i as int,
                ));
            }
            vx = vx + 1;
        }
        vy = vy + 1;
        proof {
            assert(vy * vw == (vy - 1) * vw + vw) by (nonlinear_arith);
        }
    }
    proof {
        assert(vh * vw == vw * vh) by (nonlinear_arith);
    }
    out
}

/// Truncating integer division: the quotient is rounded toward zero, as
/// hardware division rounds.
pub open spec fn div_trunc(a: int, b: int) -> int {
    if a >= 0 {
        a / b
    } else {
        -((-a) / b)
    }
}

/// The world position along one axis observed at pixel position `p` with
/// pan offset `off`: the outer margin is subtracted, the result divided
/// by the cell-plus-gap pitch, and the offset added. Pixel positions left
/// of the margin yield negative (still valid) world coordinates.
pub open spec fn pixel_to_axis(p: int, off: int) -> int {
    div_trunc(p - OUTER_GAP as int, (QUAD_SIZE + GAP) as int) + off
}

/// The world coordinate observed at pixel `(px, py)` under pan offset
/// `(off_x, off_y)`: the inverse of the cell-rectangle mapping. Positions
/// outside the rendered grid are still mapped, never rejected.
pub fn screen_to_world(px: i32, py: i32, off_x: i64, off_y: i64) -> (r: (i64, i64))
    requires
        i64::MIN <= pixel_to_axis(px as int, off_x as int) <= i64::MAX,
        i64::MIN <= pixel_to_axis(py as int, off_y as int) <= i64::MAX,
    ensures
        r.0 == pixel_to_axis(px as int, off_x as int),
        r.1 == pixel_to_axis(py as int, off_y as int),
{
    let wx = axis_of_pixel(px, off_x);
    let wy = axis_of_pixel(py, off_y);
    (wx, wy)
}

/// One axis of the pixel-to-world mapping, executably.
fn axis_of_pixel(p: i32, off: i64) -> (r: i64)
    requires
        i64::MIN <= pixel_to_axis(p as int, off as int) <= i64::MAX,
    ensures
        r == pixel_to_axis(p as int, off as int),
{
    let a: i64 = p as i64 - OUTER_GAP as i64;
    let q: i64 = a.checked_div((QUAD_SIZE + GAP) as i64).unwrap_or(0);
    q + off
}

} // verus!
