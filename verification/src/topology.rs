//! Boundary topologies and the mapping from a cell to the coordinates of
//! its Moore neighborhood under each of them.

use vstd::prelude::*;

verus! {

/// How coordinates outside a bounded region are treated when a neighbor
/// is looked up.
///
/// - `Unbounded`: the lattice extends over every representable signed
///   coordinate. When adding an offset would leave the representable
///   range, the affected axis is reset to 0: a deliberate, if unusual,
///   policy of this engine — documented here rather than signaled as an
///   error, and worth revisiting.
/// - `Toroidal`: a bounded `width` x `height` grid whose edges wrap; the
///   neighbor coordinate is reduced with a Euclidean (never negative)
///   remainder, so negative coordinates wrap correctly.
/// - `Clamped`: a bounded `width` x `height` grid; a neighbor outside
///   `[0,width) x [0,height)` is permanently Dead and never wraps.
#[derive(Clone, Copy, PartialEq, Eq, Structural, Debug)]
pub enum Topology {
    Unbounded,
    Toroidal { width: i64, height: i64 },
    Clamped { width: i64, height: i64 },
}

impl Topology {
    /// A bounded topology carries positive dimensions.
    pub open spec fn wf(self) -> bool {
        match self {
            Topology::Unbounded => true,
            Topology::Toroidal { width, height } => width > 0 && height > 0,
            Topology::Clamped { width, height } => width > 0 && height > 0,
        }
    }
}

/// One axis of an unbounded-policy neighbor coordinate: the offset sum,
/// or 0 when the sum leaves the representable range.
pub open spec fn axis_shift(a: i64, d: int) -> i64 {
    if i64::MIN <= a + d <= i64::MAX {
        (a + d) as i64
    } else {
        0
    }
}

/// The offsets of the Moore neighborhood: both axes within distance 1,
/// the cell itself excluded.
pub open spec fn is_moore_offset(dx: int, dy: int) -> bool {
    -1 <= dx <= 1 && -1 <= dy <= 1 && !(dx == 0 && dy == 0)
}

/// The coordinate examined for the neighbor of `(x, y)` at offset
/// `(dx, dy)` under `pol`, or `None` when the clamped policy puts that
/// neighbor out of range.
pub open spec fn neighbor_coord(x: i64, y: i64, dx: int, dy: int, pol: Topology) -> Option<
    (i64, i64),
> {
    match pol {
        Topology::Unbounded => Some((axis_shift(x, dx), axis_shift(y, dy))),
        Topology::Toroidal { width, height } => Some(
            ((((x + dx) % (width as int)) as i64), (((y + dy) % (height as int)) as i64)),
        ),
        Topology::Clamped { width, height } => {
            if 0 <= x + dx < width && 0 <= y + dy < height {
                Some((((x + dx) as i64), ((y + dy) as i64)))
            } else {
                None
            }
        },
    }
}

/// One axis of an unbounded neighbor coordinate, executably: the checked
/// sum, with 0 taking the place of an overflowed result.
pub fn axis_shift_exec(a: i64, d: i64) -> (r: i64)
    ensures
        r == axis_shift(a, d as int),
{
    match a.checked_add(d) {
        Some(s) => s,
        None => 0,
    }
}

/// The Euclidean remainder of `a` by a positive modulus, computed through
/// 128-bit arithmetic so that sums just past the 64-bit range still
/// reduce correctly.
pub fn wrap_mod(a: i128, m: i64) -> (r: i64)
    requires
        m > 0,
    ensures
        r == a as int % m as int,
{
    let r = match a.checked_rem_euclid(m as i128) {
        Some(v) => v,
        None => 0,
    };
    r as i64
}

/// The neighbor coordinate of `(x, y)` at offset `(dx, dy)` under `pol`,
/// executably.
pub fn neighbor_coord_exec(x: i64, y: i64, dx: i64, dy: i64, pol: &Topology) -> (r: Option<
    (i64, i64),
>)
    requires
        pol.wf(),
        -1 <= dx <= 1,
        -1 <= dy <= 1,
    ensures
        r == neighbor_coord(x, y, dx as int, dy as int, *pol),
{
    match pol {
        Topology::Unbounded => Some((axis_shift_exec(x, dx), axis_shift_exec(y, dy))),
        Topology::Toroidal { width, height } => {
            let nx = wrap_mod(x as i128 + dx as i128, *width);
            let ny = wrap_mod(y as i128 + dy as i128, *height);
            Some((nx, ny))
        },
        Topology::Clamped { width, height } => {
            let sx = x.checked_add(dx);
            let sy = y.checked_add(dy);
            match (sx, sy) {
                (Some(nx), Some(ny)) => {
                    if 0 <= nx && nx < *width && 0 <= ny && ny < *height {
                        Some((nx, ny))
                    } else {
                        None
                    }
                },
                _ => None,
            }
        },
    }
}

} // verus!
