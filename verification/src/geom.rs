//! Plain 2D integer vectors, the coordinate range the simulation works in,
//! and per-axis clamping.

use vstd::prelude::*;

verus! {

/// Every coordinate, extent and velocity component the simulation handles is
/// kept within this bound, so that the few additions and one multiplication a
/// tick performs stay far away from `i64` overflow.
pub const COORD_LIMIT: i64 = 10_000_000_000_000;

/// Upper bound on a tick duration; `COORD_LIMIT * DT_LIMIT` still fits in `i64`.
pub const DT_LIMIT: i64 = 100_000;

/// A 2D vector of integer units: a position, a half-extent or a velocity.
#[derive(Clone, Copy, Debug, PartialEq, Eq)]
pub struct Vec2i {
    pub x: i64,
    pub y: i64,
}

pub open spec fn in_coord_range(x: int) -> bool {
    -COORD_LIMIT <= x <= COORD_LIMIT
}

pub open spec fn vec2_wf(v: Vec2i) -> bool {
    in_coord_range(v.x as int) && in_coord_range(v.y as int)
}

pub open spec fn vec2_nonneg(v: Vec2i) -> bool {
    v.x >= 0 && v.y >= 0
}

/// `x` pulled into `[lo, hi]`: the nearest bound when `x` lies outside.
pub open spec fn clamp_s(x: int, lo: int, hi: int) -> int {
    if x < lo {
        lo
    } else if x > hi {
        hi
    } else {
        x
    }
}

pub fn clamp_i64(x: i64, lo: i64, hi: i64) -> (r: i64)
    requires
        lo <= hi,
    ensures
        r == clamp_s(x as int, lo as int, hi as int),
{
    if x < lo {
        lo
    } else if x > hi {
        hi
    } else {
        x
    }
}

} // verus!
