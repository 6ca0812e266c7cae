//! Distances on the grid.

use vstd::prelude::*;

verus! {

/// Absolute difference of two integers.
pub open spec fn gap(a: int, b: int) -> int {
    if a >= b {
        a - b
    } else {
        b - a
    }
}

/// Manhattan distance between two points: the sum of the absolute
/// differences of their coordinates.
pub open spec fn manhattan(ax: int, ay: int, bx: int, by: int) -> int {
    gap(ax, bx) + gap(ay, by)
}

/// Compute the Manhattan distance between two points.
///
/// The result is widened to `i64` so that every pair of `i32` points has a
/// distance, however far apart they are.
pub fn manh_dist(a: [i32; 2], b: [i32; 2]) -> (d: i64)
    ensures
        d == manhattan(a[0] as int, a[1] as int, b[0] as int, b[1] as int),
{
    let dx: i64 = a[0] as i64 - b[0] as i64;
    let dy: i64 = a[1] as i64 - b[1] as i64;
    let ax: i64 = if dx < 0 { -dx } else { dx };
    let ay: i64 = if dy < 0 { -dy } else { dy };
    ax + ay
}

} // verus!
