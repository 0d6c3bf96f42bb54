//! Axis-aligned bounding-box geometry: positions, box sizes, and the
//! overlap test that collision detection is built on.

use vstd::prelude::*;

verus! {

/// Largest coordinate magnitude any entity may carry. Generous enough that
/// every sum and difference formed by the simulation stays far inside `i64`.
pub const COORD_LIMIT: i64 = 1_000_000_000_000_000;

/// Largest speed (milli-units per millisecond) any entity may carry.
pub const SPEED_LIMIT: i64 = 10_000;

/// Largest displacement a single tick can produce: `SPEED_LIMIT` times the
/// largest possible `u32` tick duration in milliseconds.
pub const STEP_LIMIT: i64 = 10_000 * 4_294_967_295;

/// Largest box width or height the overlap test accepts.
pub const SIZE_LIMIT: i64 = 1_000_000_000;

/// A point in the 2D play field, in milli-units.
#[derive(Clone, Copy, PartialEq, Eq, Structural, Debug)]
pub struct Pos {
    pub x: i64,
    pub y: i64,
}

/// Full width and height of an axis-aligned box, in milli-units.
#[derive(Clone, Copy, PartialEq, Eq, Structural, Debug)]
pub struct BoxSize {
    pub w: i64,
    pub h: i64,
}

pub open spec fn abs_val(a: int) -> int {
    if a >= 0 {
        a
    } else {
        -a
    }
}

pub open spec fn pos_in_field(p: Pos) -> bool {
    &&& -COORD_LIMIT <= p.x <= COORD_LIMIT
    &&& -COORD_LIMIT <= p.y <= COORD_LIMIT
}

pub open spec fn size_ok(s: BoxSize) -> bool {
    0 <= s.w <= SIZE_LIMIT && 0 <= s.h <= SIZE_LIMIT
}

/// Two boxes, each given by center and full size, overlap iff their
/// projections on both axes intersect: `|ax - bx| < (aw + bw) / 2` on each
/// axis. Stated over integers as `2 * |ax - bx| < aw + bw`, which is the
/// same strict comparison without the division.
pub open spec fn boxes_overlap(center_a: Pos, size_a: BoxSize, center_b: Pos, size_b: BoxSize) -> bool {
    &&& 2 * abs_val(center_a.x - center_b.x) < size_a.w + size_b.w
    &&& 2 * abs_val(center_a.y - center_b.y) < size_a.h + size_b.h
}

/// A speed within `SPEED_LIMIT` held for at most one `u32` worth of
/// milliseconds covers at most `STEP_LIMIT` milli-units.
pub proof fn lemma_step_bound(speed: int, dt: int)
    requires
        0 <= speed <= SPEED_LIMIT,
        0 <= dt <= 4_294_967_295,
    ensures
        0 <= speed * dt <= STEP_LIMIT,
{
    assert(0 <= speed * dt <= 10_000 * 4_294_967_295) by (nonlinear_arith)
        requires
            0 <= speed <= 10_000,
            0 <= dt <= 4_294_967_295,
    ;
}

/// The executable overlap test used by collision resolution.
pub fn overlaps(center_a: Pos, size_a: BoxSize, center_b: Pos, size_b: BoxSize) -> (r: bool)
    requires
        pos_in_field(center_a),
        pos_in_field(center_b),
        size_ok(size_a),
        size_ok(size_b),
    ensures
        r == boxes_overlap(center_a, size_a, center_b, size_b),
{
    let dx: i64 = if center_a.x >= center_b.x {
        center_a.x - center_b.x
    } else {
        center_b.x - center_a.x
    };
    let dy: i64 = if center_a.y >= center_b.y {
        center_a.y - center_b.y
    } else {
        center_b.y - center_a.y
    };
    2 * dx < size_a.w + size_b.w && 2 * dy < size_a.h + size_b.h
}

} // verus!
