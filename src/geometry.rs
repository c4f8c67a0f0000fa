use vstd::prelude::*;

verus! {

/// Squared Euclidean distance between two integer points.
pub open spec fn dist2(ax: int, ay: int, bx: int, by: int) -> int {
    (ax - bx) * (ax - bx) + (ay - by) * (ay - by)
}

/// A value above every squared distance between two points with `i32` coordinates.
pub open spec fn unbounded() -> int {
    u128::MAX as int
}

/// Squared distances between `i32` points are non-negative and below `unbounded()`.
pub proof fn lemma_dist2_bounds(ax: i32, ay: i32, bx: i32, by: i32)
    ensures
        0 <= dist2(ax as int, ay as int, bx as int, by as int) < unbounded(),
{
    let dx = ax as int - bx as int;
    let dy = ay as int - by as int;
    assert(-0x1_0000_0000 < dx < 0x1_0000_0000);
    assert(-0x1_0000_0000 < dy < 0x1_0000_0000);
    assert(0 <= dx * dx <= 0x1_0000_0000_0000_0000) by (nonlinear_arith)
        requires
            -0x1_0000_0000 < dx < 0x1_0000_0000,
    ;
    assert(0 <= dy * dy <= 0x1_0000_0000_0000_0000) by (nonlinear_arith)
        requires
            -0x1_0000_0000 < dy < 0x1_0000_0000,
    ;
}

/// Squared Euclidean distance between `(ax, ay)` and `(bx, by)`, computed exactly.
pub fn distance_squared(ax: i32, ay: i32, bx: i32, by: i32) -> (r: u128)
    ensures
        r as int == dist2(ax as int, ay as int, bx as int, by as int),
        (r as int) < unbounded(),
{
    proof {
        lemma_dist2_bounds(ax, ay, bx, by);
    }
    let dx: i64 = ax as i64 - bx as i64;
    let dy: i64 = ay as i64 - by as i64;
    let ux: u128 = if dx < 0 { (-dx) as u128 } else { dx as u128 };
    let uy: u128 = if dy < 0 { (-dy) as u128 } else { dy as u128 };
    assert(ux * ux == dx * dx) by (nonlinear_arith)
        requires
            ux == dx || ux == -dx,
    ;
    assert(uy * uy == dy * dy) by (nonlinear_arith)
        requires
            uy == dy || uy == -dy,
    ;
    assert(ux * ux <= 0x1_0000_0000_0000_0000) by (nonlinear_arith)
        requires
            ux < 0x1_0000_0000,
    ;
    assert(uy * uy <= 0x1_0000_0000_0000_0000) by (nonlinear_arith)
        requires
            uy < 0x1_0000_0000,
    ;
    ux * ux + uy * uy
}

/// The integer square root: the largest `r` with `r * r <= n`.
pub fn isqrt(n: u128) -> (r: u64)
    ensures
        r as int * r as int <= n as int,
        (n as int) < (r as int + 1) * (r as int + 1),
{
    let mut lo: u128 = 0;
    let mut hi: u128 = 0x1_0000_0000_0000_0000;
    assert(n < hi * hi) by (nonlinear_arith)
        requires
            hi == 0x1_0000_0000_0000_0000,
            n < 0x1_0000_0000_0000_0000_0000_0000_0000_0000,
    ;
    while hi - lo > 1
        invariant
            lo < hi <= 0x1_0000_0000_0000_0000,
            lo * lo <= n,
            n < hi * hi,
        decreases hi - lo,
    {
        let mid: u128 = lo + (hi - lo) / 2;
        assert(mid * mid < 0x1_0000_0000_0000_0000_0000_0000_0000_0000) by (nonlinear_arith)
            requires
                mid < 0x1_0000_0000_0000_0000,
        ;
        if mid * mid <= n {
            lo = mid;
        } else {
            hi = mid;
        }
    }
    assert(hi == lo + 1);
    lo as u64
}

} // verus!
