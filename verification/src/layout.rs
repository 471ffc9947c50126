//! The layout mapper: pure conversion between pixel space and grid space.
//!
//! A [`Layout`] is a function of the viewport dimensions and the puzzle
//! order alone: the board occupies a centred square whose side is 80% of
//! the smaller viewport dimension, and each cell is `board_size / order`
//! pixels wide. Pixel space has its origin at the bottom-left corner of the
//! viewport, so the vertical axis is flipped relative to the grid's rows:
//! row 0 of the grid sits at the top of the board square.

use vstd::prelude::*;

use crate::position::{pos_in_bounds, Position};

verus! {

/// Pixel geometry of the board within a viewport: offsets of the board
/// square from the bottom-left corner of the viewport, the side of the
/// board square, and the side of one cell.
#[derive(Clone, Copy, Debug, PartialEq, Eq, Structural)]
pub struct Layout {
    pub order: usize,
    pub offset_x: usize,
    pub offset_y: usize,
    pub board_size: usize,
    pub cell_size: usize,
}

/// Well-formedness of a layout: the cell size divides the board evenly
/// (by integer division) and every pixel of the board square fits in
/// `isize`, so pointer coordinates can be compared against it.
pub open spec fn layout_wf(l: Layout) -> bool {
    &&& 1 <= l.order
    &&& l.cell_size == l.board_size as int / l.order as int
    &&& l.offset_x + l.board_size <= isize::MAX
    &&& l.offset_y + l.board_size <= isize::MAX
}

/// The cells of a layout cover at most the board square.
pub proof fn lemma_span_le_board(l: Layout)
    requires
        layout_wf(l),
    ensures
        l.order * l.cell_size <= l.board_size,
{
    let b = l.board_size as int;
    let o = l.order as int;
    vstd::arithmetic::div_mod::lemma_fundamental_div_mod(b, o);
    vstd::arithmetic::div_mod::lemma_mod_bound(b, o);
}

/// The layout for a given viewport and order: a centred square of side
/// `4 * min(width, height) / 5`, split into `order` cells per axis.
pub open spec fn spec_layout(width: usize, height: usize, order: usize) -> Layout {
    let standard = if width <= height {
        width as int
    } else {
        height as int
    };
    let board = (standard * 4) / 5;
    Layout {
        order,
        offset_x: ((width - board) / 2) as usize,
        offset_y: ((height - board) / 2) as usize,
        board_size: board as usize,
        cell_size: (board / (order as int)) as usize,
    }
}

/// The pixel position of the centre of cell `p`: `x` grows with the grid
/// column, `y` shrinks as the grid row grows (the vertical axis is flipped).
pub open spec fn spec_cell_to_pixel(p: Position, l: Layout) -> (int, int) {
    (
        l.offset_x + l.cell_size * p.x + l.cell_size / 2,
        l.offset_y + l.board_size - (l.cell_size * p.y + l.cell_size / 2),
    )
}

/// The grid cell under a pixel, or `None` when the pixel lies outside the
/// cell-covered part of the board square (or the cells are degenerate).
pub open spec fn spec_pixel_to_cell(px: int, py: int, l: Layout) -> Option<Position> {
    let span = l.order * l.cell_size;
    let dx = px - l.offset_x;
    let dy = l.offset_y + l.board_size - py;
    if l.cell_size == 0 {
        None
    } else if 0 <= dx < span && 0 <= dy < span {
        Some(
            Position {
                x: (dx / l.cell_size as int) as isize,
                y: (dy / l.cell_size as int) as isize,
            },
        )
    } else {
        None
    }
}

impl Layout {
    /// Computes the layout for the given viewport dimensions and puzzle
    /// order; called once per viewport change, otherwise stable.
    pub fn new(width: usize, height: usize, order: usize) -> (l: Layout)
        requires
            1 <= order,
            width <= isize::MAX,
            height <= isize::MAX,
        ensures
            l == spec_layout(width, height, order),
            layout_wf(l),
    {
        let standard = if width <= height {
            width
        } else {
            height
        };
        proof {
            let s = standard as int;
            vstd::arithmetic::div_mod::lemma_div_multiples_vanish(s, 5);
            assert(4 * s <= 5 * s);
            vstd::arithmetic::div_mod::lemma_div_is_ordered(4 * s, 5 * s, 5);
            assert((s * 4) == (4 * s));
            assert((s * 5) == (5 * s));
            assert((s * 4) / 5 <= s);
            vstd::arithmetic::div_mod::lemma_div_pos_is_pos(s * 4, 5);
        }
        let board = (((standard as u128) * 4) / 5) as usize;
        let cell = board / order;
        let offset_x = (width - board) / 2;
        let offset_y = (height - board) / 2;
        proof {
            vstd::arithmetic::div_mod::lemma_div_nonincreasing((width - board) as int, 2);
            vstd::arithmetic::div_mod::lemma_div_nonincreasing((height - board) as int, 2);
        }
        Layout { order, offset_x, offset_y, board_size: board, cell_size: cell }
    }

    /// The centre pixel of an in-bounds grid cell, for placing visuals.
    pub fn cell_to_pixel(&self, p: Position) -> (r: (isize, isize))
        requires
            layout_wf(*self),
            pos_in_bounds(p, self.order as nat),
        ensures
            r.0 as int == spec_cell_to_pixel(p, *self).0,
            r.1 as int == spec_cell_to_pixel(p, *self).1,
    {
        proof {
            lemma_span_le_board(*self);
            let c = self.cell_size as int;
            let o = self.order as int;
            assert(c * p.x <= (o - 1) * c) by (nonlinear_arith)
                requires
                    0 <= c,
                    0 <= p.x,
                    p.x <= o - 1,
            ;
            assert(c * p.y <= (o - 1) * c) by (nonlinear_arith)
                requires
                    0 <= c,
                    0 <= p.y,
                    p.y <= o - 1,
            ;
            assert((o - 1) * c == o * c - c) by (nonlinear_arith);
            assert(0 <= c * p.x && 0 <= c * p.y) by (nonlinear_arith)
                requires
                    0 <= c,
                    0 <= p.x,
                    0 <= p.y,
            ;
            vstd::arithmetic::div_mod::lemma_div_nonincreasing(c, 2);
            vstd::arithmetic::div_mod::lemma_div_pos_is_pos(c, 2);
        }
        let sx = self.cell_size * (p.x as usize) + self.cell_size / 2;
        let sy = self.cell_size * (p.y as usize) + self.cell_size / 2;
        let px = (self.offset_x + sx) as isize;
        let py = (self.offset_y + self.board_size - sy) as isize;
        (px, py)
    }

    /// The grid cell under a pointer pixel, or `None` when the pointer is
    /// not over the board: no candidate cell is produced for such input.
    pub fn pixel_to_cell(&self, px: isize, py: isize) -> (r: Option<Position>)
        requires
            layout_wf(*self),
        ensures
            r == spec_pixel_to_cell(px as int, py as int, *self),
            r is Some ==> pos_in_bounds(r->Some_0, self.order as nat),
    {
        if self.cell_size == 0 {
            return None;
        }
        proof {
            lemma_span_le_board(*self);
        }
        let span = self.order * self.cell_size;
        let ox = self.offset_x as isize;
        if px < ox {
            return None;
        }
        let dx = (px - ox) as usize;
        if dx >= span {
            return None;
        }
        let top = (self.offset_y + self.board_size) as isize;
        if py > top {
            return None;
        }
        let ylow = top - (span as isize);
        if py <= ylow {
            return None;
        }
        let dy = (top - py) as usize;
        let cx = dx / self.cell_size;
        let cy = dy / self.cell_size;
        proof {
            let c = self.cell_size as int;
            let o = self.order as int;
            assert(o * c == c * o) by (nonlinear_arith);
            vstd::arithmetic::div_mod::lemma_multiply_divide_lt(dx as int, c, o);
            vstd::arithmetic::div_mod::lemma_multiply_divide_lt(dy as int, c, o);
            vstd::arithmetic::div_mod::lemma_div_pos_is_pos(dx as int, c);
            vstd::arithmetic::div_mod::lemma_div_pos_is_pos(dy as int, c);
        }
        Some(Position::new(cx as isize, cy as isize))
    }
}

/// Law: mapping a valid grid cell to its centre pixel and back yields the
/// same cell, for every layout whose cells are at least one pixel wide.
pub proof fn lemma_pixel_round_trip(p: Position, l: Layout)
    requires
        layout_wf(l),
        1 <= l.cell_size,
        pos_in_bounds(p, l.order as nat),
    ensures
        spec_pixel_to_cell(spec_cell_to_pixel(p, l).0, spec_cell_to_pixel(p, l).1, l) == Some(p),
{
    lemma_span_le_board(l);
    let c = l.cell_size as int;
    let o = l.order as int;
    let h = c / 2;
    vstd::arithmetic::div_mod::lemma_div_pos_is_pos(c, 2);
    vstd::arithmetic::div_mod::lemma_div_is_strictly_smaller(c, 2);
    let dx = spec_cell_to_pixel(p, l).0 - l.offset_x;
    let dy = l.offset_y + l.board_size - spec_cell_to_pixel(p, l).1;
    assert(dx == c * p.x + h);
    assert(dy == c * p.y + h);
    assert(c * p.x <= (o - 1) * c && 0 <= c * p.x) by (nonlinear_arith)
        requires
            0 <= c,
            0 <= p.x,
            p.x <= o - 1,
    ;
    assert(c * p.y <= (o - 1) * c && 0 <= c * p.y) by (nonlinear_arith)
        requires
            0 <= c,
            0 <= p.y,
            p.y <= o - 1,
    ;
    assert((o - 1) * c == o * c - c) by (nonlinear_arith);
    assert(c * p.x == (p.x as int) * c && c * p.y == (p.y as int) * c) by (nonlinear_arith);
    vstd::arithmetic::div_mod::lemma_fundamental_div_mod_converse(dx, c, p.x as int, h);
    vstd::arithmetic::div_mod::lemma_fundamental_div_mod_converse(dy, c, p.y as int, h);
}

} // verus!
