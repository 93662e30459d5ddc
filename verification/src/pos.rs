//! Grid positions and the distance test shared by collision and
//! food-consumption checks.

use vstd::prelude::*;

verus! {

/// Bound on the coordinates that the distance test accepts; generous enough
/// that every position a game can produce stays far inside it, while keeping
/// the squared-distance arithmetic free of overflow.
pub const COORD_BOUND: i64 = 1_000_000_000_000;

/// Bound on grid dimensions, cell size and movement speed.
pub const DIM_LIMIT: i64 = 1_000_000;

/// A position on the cell grid.
#[derive(Clone, Copy, PartialEq, Eq, Structural, Debug)]
pub struct Pos {
    pub x: i64,
    pub y: i64,
}

/// Mathematical model of a position: unbounded integer coordinates.
#[verifier::ext_equal]
pub ghost struct PosV {
    pub x: int,
    pub y: int,
}

impl View for Pos {
    type V = PosV;

    open spec fn view(&self) -> PosV {
        PosV { x: self.x as int, y: self.y as int }
    }
}

/// True when `a` lies strictly within Euclidean distance `size` of `b`,
/// stated over squares so that it needs no roots.
pub open spec fn within_spec(a: PosV, b: PosV, size: int) -> bool {
    (a.x - b.x) * (a.x - b.x) + (a.y - b.y) * (a.y - b.y) < size * size
}

/// A position's coordinates are small enough that one step of movement
/// keeps them acceptable to the distance test.
pub open spec fn in_range(p: PosV) -> bool {
    &&& -COORD_BOUND <= p.x <= COORD_BOUND
    &&& -COORD_BOUND <= p.y <= COORD_BOUND
}

/// A position's coordinates are small enough for the distance test.
pub open spec fn in_wide(p: PosV) -> bool {
    &&& -2 * COORD_BOUND <= p.x <= 2 * COORD_BOUND
    &&& -2 * COORD_BOUND <= p.y <= 2 * COORD_BOUND
}

/// Decides whether `a` lies strictly within distance `size` of `b`.
pub fn within(a: Pos, b: Pos, size: i64) -> (r: bool)
    requires
        in_wide(a@),
        in_wide(b@),
        0 <= size <= COORD_BOUND,
    ensures
        r == within_spec(a@, b@, size as int),
{
    let dx: i128 = a.x as i128 - b.x as i128;
    let dy: i128 = a.y as i128 - b.y as i128;
    let s: i128 = size as i128;
    proof {
        assert(dx * dx <= 16_000_000_000_000_000_000_000_000_i128 && dx * dx >= 0)
            by (nonlinear_arith)
            requires -4_000_000_000_000_i128 <= dx <= 4_000_000_000_000_i128;
        assert(dy * dy <= 16_000_000_000_000_000_000_000_000_i128 && dy * dy >= 0)
            by (nonlinear_arith)
            requires -4_000_000_000_000_i128 <= dy <= 4_000_000_000_000_i128;
        assert(s * s <= 1_000_000_000_000_000_000_000_000_i128 && s * s >= 0)
            by (nonlinear_arith)
            requires 0 <= s <= 1_000_000_000_000_i128;
    }
    dx * dx + dy * dy < s * s
}

} // verus!
