//! Grid coordinates and the small arithmetic facts about them that the
//! board and the move resolver rely on.

use vstd::prelude::*;

verus! {

/// A cell coordinate on an `order`-by-`order` grid.
///
/// The coordinates are signed so that a neighbour candidate one step
/// outside the grid (for example `x - 1` when `x == 0`) can be formed and
/// then rejected by a bounds check, instead of underflowing.
#[derive(Clone, Copy, Debug, PartialEq, Eq, Hash, Structural)]
pub struct Position {
    pub x: isize,
    pub y: isize,
}

impl Position {
    /// Builds the position `(x, y)`.
    pub fn new(x: isize, y: isize) -> (p: Position)
        ensures
            p == (Position { x, y }),
    {
        Position { x, y }
    }

    /// True when this position lies on an `order`-by-`order` grid.
    pub fn in_bounds(&self, order: usize) -> (r: bool)
        ensures
            r == pos_in_bounds(*self, order as nat),
    {
        0 <= self.x && (self.x as usize) < order && 0 <= self.y && (self.y as usize) < order
    }
}

/// True when `p` lies on an `order`-by-`order` grid.
pub open spec fn pos_in_bounds(p: Position, order: nat) -> bool {
    &&& 0 <= p.x < order
    &&& 0 <= p.y < order
}

/// Row-major cell number of `p` on an `order`-by-`order` grid: row `y`,
/// column `x` becomes `y * order + x`.
pub open spec fn cell_index(p: Position, order: nat) -> int {
    p.y * order + p.x
}

/// The position whose row-major cell number is `i`.
pub open spec fn position_of_cell(i: int, order: nat) -> Position {
    Position { x: (i % (order as int)) as isize, y: (i / (order as int)) as isize }
}

/// Absolute difference of two integers.
pub open spec fn abs_diff(a: int, b: int) -> int {
    if a >= b {
        a - b
    } else {
        b - a
    }
}

/// Taxicab distance between two cells.
pub open spec fn manhattan(p: Position, q: Position) -> int {
    abs_diff(p.x as int, q.x as int) + abs_diff(p.y as int, q.y as int)
}

/// A position on the grid has its row-major cell number in `[0, order * order)`.
pub proof fn lemma_cell_index_bounds(p: Position, order: nat)
    requires
        pos_in_bounds(p, order),
    ensures
        0 <= cell_index(p, order) < order * order,
{
    assert(p.y * order + p.x < order * order) by (nonlinear_arith)
        requires
            0 <= p.x < order,
            0 <= p.y < order,
    ;
}

/// Distinct positions on the grid have distinct row-major cell numbers.
pub proof fn lemma_cell_index_injective(p: Position, q: Position, order: nat)
    requires
        pos_in_bounds(p, order),
        pos_in_bounds(q, order),
        cell_index(p, order) == cell_index(q, order),
    ensures
        p == q,
{
    assert(p.x == q.x && p.y == q.y) by (nonlinear_arith)
        requires
            0 <= p.x < order,
            0 <= p.y < order,
            0 <= q.x < order,
            0 <= q.y < order,
            p.y * order + p.x == q.y * order + q.x,
    ;
}

/// `position_of_cell` inverts `cell_index` on cell numbers in range.
pub proof fn lemma_position_of_cell(i: int, order: nat)
    requires
        1 <= order,
        order <= isize::MAX,
        0 <= i < order * order,
    ensures
        pos_in_bounds(position_of_cell(i, order), order),
        cell_index(position_of_cell(i, order), order) == i,
{
    let d = order as int;
    vstd::arithmetic::div_mod::lemma_mod_bound(i, d);
    vstd::arithmetic::div_mod::lemma_div_pos_is_pos(i, d);
    vstd::arithmetic::div_mod::lemma_multiply_divide_lt(i, d, d);
    vstd::arithmetic::div_mod::lemma_fundamental_div_mod(i, d);
    let p = position_of_cell(i, order);
    assert(p.x as int == i % d);
    assert(p.y as int == i / d);
    assert((i / d) * d == d * (i / d)) by (nonlinear_arith);
    assert(cell_index(p, order) == (i / d) * d + i % d);
}

} // verus!
