//! Food items: grid-aligned positions the snake can consume.

use vstd::prelude::*;
use vstd::arithmetic::div_mod::{lemma_fundamental_div_mod, lemma_mod_bound, lemma_mod_multiples_basic};
use crate::pos::{Pos, PosV, DIM_LIMIT};
use crate::rng::gen_below;

verus! {

/// A single food item on the grid.
#[derive(Clone, Copy, PartialEq, Eq, Structural, Debug)]
pub struct Food {
    pub position: Pos,
}

impl View for Food {
    type V = PosV;

    open spec fn view(&self) -> PosV {
        self.position@
    }
}

/// A valid food position: grid-aligned and fully inside the visible area.
pub open spec fn food_ok(p: PosV, size: int, width: int, height: int) -> bool {
    &&& 0 <= p.x <= width - size
    &&& 0 <= p.y <= height - size
    &&& p.x % size == 0
    &&& p.y % size == 0
}

/// Picks a uniformly random cell index below `cells` and returns the
/// grid-aligned coordinate of that cell.
fn random_aligned(limit: i64, size: i64) -> (c: i64)
    requires
        1 <= size <= limit <= DIM_LIMIT,
    ensures
        0 <= c <= limit - size,
        c as int % size as int == 0,
{
    let cells = limit / size;
    proof {
        lemma_fundamental_div_mod(limit as int, size as int);
        lemma_mod_bound(limit as int, size as int);
        assert(cells >= 1) by (nonlinear_arith)
            requires
                limit as int == size as int * (cells as int) + (limit as int % size as int),
                0 <= (limit as int % size as int) && (limit as int % size as int) < size as int,
                1 <= size as int && size as int <= limit as int;
    }
    let k = gen_below(cells);
    proof {
        assert(k * size <= (cells - 1) * size) by (nonlinear_arith)
            requires k <= cells - 1, size >= 1;
        assert((cells - 1) * size == cells * size - size) by (nonlinear_arith);
        assert(cells as int * size as int <= limit) by {
            lemma_fundamental_div_mod(limit as int, size as int);
            assert(size as int * cells as int == limit - limit as int % size as int);
            assert(limit as int % size as int >= 0);
            assert(size as int * cells as int == cells as int * size as int) by (nonlinear_arith);
        }
        assert(k * size >= 0) by (nonlinear_arith)
            requires k >= 0, size >= 0;
        lemma_mod_multiples_basic(k as int, size as int);
    }
    k * size
}

impl Food {
    /// Creates a food item at a uniformly random grid-aligned position
    /// inside the visible area.
    pub fn new(width: i64, height: i64, size: i64) -> (f: Food)
        requires
            1 <= size <= width <= DIM_LIMIT,
            size <= height <= DIM_LIMIT,
        ensures
            food_ok(f@, size as int, width as int, height as int),
    {
        let x = random_aligned(width, size);
        let y = random_aligned(height, size);
        Food { position: Pos { x, y } }
    }
}

} // verus!
