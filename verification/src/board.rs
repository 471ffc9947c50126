//! The board model: the authoritative grid state of a puzzle session.
//!
//! A board of order `N` keeps two mutually inverse mappings: `slot_of_tile`
//! maps each tile number (0 is the blank) to the position it occupies, and
//! `tile_at_position` maps each cell, by row-major cell number, to the tile
//! sitting on it. The well-formedness predicate [`board_wf`] pins both
//! directions of the inversion, so the tile numbers on the cells are always
//! a permutation of `0 .. N * N` with exactly one blank.

use vstd::pervasive::VecAdditionalExecFns;
use vstd::prelude::*;

use crate::position::{
    cell_index, lemma_cell_index_bounds, lemma_cell_index_injective, lemma_position_of_cell,
    pos_in_bounds, position_of_cell, Position,
};

verus! {

/// The abstract state of a board: its order, where each tile sits
/// (`slots`, indexed by tile number) and which tile sits on each cell
/// (`tiles`, indexed by row-major cell number).
#[verifier::ext_equal]
pub ghost struct BoardView {
    pub order: nat,
    pub slots: Seq<Position>,
    pub tiles: Seq<usize>,
}

/// The position of the blank: tile 0's slot.
pub open spec fn blank_of(v: BoardView) -> Position {
    v.slots[0]
}

/// Well-formedness of a board state: the two mappings are total over an
/// `order`-by-`order` grid and are mutual inverses. The bounds on `order`
/// keep every coordinate representable in `isize` and every cell number
/// representable in `usize`.
pub open spec fn board_wf(v: BoardView) -> bool {
    &&& 2 <= v.order
    &&& v.order * v.order <= usize::MAX
    &&& v.order <= isize::MAX
    &&& v.slots.len() == v.order * v.order
    &&& v.tiles.len() == v.order * v.order
    &&& forall|t: int|
        0 <= t < v.slots.len() ==> pos_in_bounds(#[trigger] v.slots[t], v.order)
    &&& forall|t: int|
        0 <= t < v.slots.len() ==> v.tiles[cell_index(#[trigger] v.slots[t], v.order)] == t
    &&& forall|i: int| 0 <= i < v.tiles.len() ==> (#[trigger] v.tiles[i]) < v.slots.len()
    &&& forall|i: int|
        0 <= i < v.tiles.len() ==> cell_index(v.slots[#[trigger] v.tiles[i] as int], v.order) == i
}

/// The state after exchanging the occupants of cells `a` and `b`:
/// both mappings are updated together.
pub open spec fn swap_view(v: BoardView, a: Position, b: Position) -> BoardView {
    let ia = cell_index(a, v.order);
    let ib = cell_index(b, v.order);
    let ta = v.tiles[ia];
    let tb = v.tiles[ib];
    BoardView {
        order: v.order,
        slots: v.slots.update(ta as int, b).update(tb as int, a),
        tiles: v.tiles.update(ia, tb).update(ib, ta),
    }
}

/// The deterministic starting arrangement of a board of the given order:
/// tiles `1, 2, ..., N * N - 1, 0` laid out along the row-major traversal,
/// so the blank ends on the last traversed cell.
pub open spec fn initial_view(order: nat) -> BoardView {
    let n2 = (order * order) as int;
    BoardView {
        order,
        slots: Seq::new(
            (order * order) as nat,
            |t: int|
                if t == 0 {
                    position_of_cell(n2 - 1, order)
                } else {
                    position_of_cell(t - 1, order)
                },
        ),
        tiles: Seq::new(
            (order * order) as nat,
            |i: int| if i == n2 - 1 { 0usize } else { (i + 1) as usize },
        ),
    }
}

/// The tile on cell `p`, or `None` when `p` is outside the grid.
pub open spec fn spec_tile_at(v: BoardView, p: Position) -> Option<usize> {
    if pos_in_bounds(p, v.order) {
        Some(v.tiles[cell_index(p, v.order)])
    } else {
        None
    }
}

/// The starting arrangement is well formed.
pub proof fn lemma_initial_wf(order: nat)
    requires
        2 <= order,
        order * order <= usize::MAX,
        order <= isize::MAX,
    ensures
        board_wf(initial_view(order)),
{
    let v = initial_view(order);
    let n2 = (order * order) as int;
    assert(4 <= order * order) by (nonlinear_arith)
        requires
            2 <= order,
    ;
    assert forall|t: int| 0 <= t < n2 implies pos_in_bounds(#[trigger] v.slots[t], order)
        && v.tiles[cell_index(v.slots[t], order)] == t by {
        let c = if t == 0 {
            n2 - 1
        } else {
            t - 1
        };
        lemma_position_of_cell(c, order);
        assert(v.slots[t] == position_of_cell(c, order));
        assert(cell_index(v.slots[t], order) == c);
    };
    assert forall|i: int| 0 <= i < n2 implies ((#[trigger] v.tiles[i]) < n2
        && cell_index(v.slots[v.tiles[i] as int], order) == i) by {
        let t = if i == n2 - 1 {
            0int
        } else {
            i + 1
        };
        assert(v.tiles[i] == t as usize);
        lemma_position_of_cell(i, order);
        assert(v.slots[t] == position_of_cell(i, order));
    };
}

/// Swapping the occupants of two grid cells keeps the board well formed.
pub proof fn lemma_swap_wf(v: BoardView, a: Position, b: Position)
    requires
        board_wf(v),
        pos_in_bounds(a, v.order),
        pos_in_bounds(b, v.order),
    ensures
        board_wf(swap_view(v, a, b)),
{
    let w = swap_view(v, a, b);
    let n2 = v.order * v.order;
    let ia = cell_index(a, v.order);
    let ib = cell_index(b, v.order);
    lemma_cell_index_bounds(a, v.order);
    lemma_cell_index_bounds(b, v.order);
    let ta = v.tiles[ia] as int;
    let tb = v.tiles[ib] as int;
    assert(v.slots[ta] == a) by {
        lemma_cell_index_injective(v.slots[ta], a, v.order);
    };
    assert(v.slots[tb] == b) by {
        lemma_cell_index_injective(v.slots[tb], b, v.order);
    };
    assert(ta == tb ==> a == b);
    assert(ia == ib ==> a == b) by {
        if ia == ib {
            lemma_cell_index_injective(a, b, v.order);
        }
    };
    assert forall|t: int| 0 <= t < n2 implies pos_in_bounds(#[trigger] w.slots[t], v.order)
        && w.tiles[cell_index(w.slots[t], v.order)] == t by {
        if t == tb {
            assert(w.slots[t] == a);
            if ia == ib {
                assert(w.tiles[ia] == ta as usize);
            } else {
                assert(w.tiles[ia] == tb as usize);
            }
        } else if t == ta {
            assert(w.slots[t] == b);
            assert(w.tiles[ib] == ta as usize);
        } else {
            assert(w.slots[t] == v.slots[t]);
            let j = cell_index(v.slots[t], v.order);
            lemma_cell_index_bounds(v.slots[t], v.order);
            assert(v.tiles[j] == t);
            assert(j != ia && j != ib);
            assert(w.tiles[j] == v.tiles[j]);
        }
    };
    assert forall|i: int| 0 <= i < n2 implies ((#[trigger] w.tiles[i]) < n2
        && cell_index(w.slots[w.tiles[i] as int], v.order) == i) by {
        if i == ib {
            assert(w.tiles[i] == ta as usize);
            if ta == tb {
                assert(w.slots[ta] == a);
            } else {
                assert(w.slots[ta] == b);
            }
        } else if i == ia {
            assert(w.tiles[i] == tb as usize);
            assert(ta != tb);
            assert(w.slots[tb] == a);
        } else {
            assert(w.tiles[i] == v.tiles[i]);
            let t = v.tiles[i] as int;
            assert(cell_index(v.slots[t], v.order) == i);
            assert(t != ta && t != tb);
            assert(w.slots[t] == v.slots[t]);
        }
    };
}

/// Swapping a cell with the blank's cell moves the blank onto that cell.
pub proof fn lemma_swap_with_blank(v: BoardView, c: Position)
    requires
        board_wf(v),
        pos_in_bounds(c, v.order),
    ensures
        blank_of(swap_view(v, c, blank_of(v))) == c,
{
    let blank = blank_of(v);
    assert(4 <= v.order * v.order) by (nonlinear_arith)
        requires
            2 <= v.order,
    ;
    lemma_cell_index_bounds(c, v.order);
    lemma_cell_index_bounds(blank, v.order);
    let ia = cell_index(c, v.order);
    let ib = cell_index(blank, v.order);
    let ta = v.tiles[ia] as int;
    assert(v.tiles[ib] == 0);
    assert(0 <= ta < v.order * v.order);
    let w = swap_view(v, c, blank);
    assert(w.slots == v.slots.update(ta, blank).update(0, c));
    assert(w.slots[0] == c);
}

/// Law: the two mappings are mutual inverses — looking up the cell where
/// tile `t` sits always finds tile `t` on it.
pub proof fn lemma_mapping_inverse(v: BoardView, t: int)
    requires
        board_wf(v),
        0 <= t < v.order * v.order,
    ensures
        spec_tile_at(v, v.slots[t]) == Some(t as usize),
{
}

/// Law: exactly one cell of a well-formed board holds the blank, and it
/// is the cell that `slots` records for tile 0.
pub proof fn lemma_unique_blank(v: BoardView)
    requires
        board_wf(v),
    ensures
        pos_in_bounds(blank_of(v), v.order),
        v.tiles[cell_index(blank_of(v), v.order)] == 0,
        forall|p: Position|
            pos_in_bounds(p, v.order) && v.tiles[#[trigger] cell_index(p, v.order)] == 0 ==> p
                == blank_of(v),
{
    assert(4 <= v.order * v.order) by (nonlinear_arith)
        requires
            2 <= v.order,
    ;
    assert forall|p: Position|
        pos_in_bounds(p, v.order) && v.tiles[#[trigger] cell_index(p, v.order)] == 0 implies p
        == blank_of(v) by {
        lemma_cell_index_bounds(p, v.order);
        let i = cell_index(p, v.order);
        assert(cell_index(v.slots[v.tiles[i] as int], v.order) == i);
        lemma_cell_index_injective(p, blank_of(v), v.order);
    };
}

/// The authoritative puzzle state. All mutation goes through [`Board::swap`]
/// and [`Board::restore_from_origin`], which update both internal mappings
/// together; neither mapping is ever exposed for independent mutation.
pub struct Board {
    order: usize,
    slot_of_tile: Vec<Position>,
    tile_at_position: Vec<usize>,
}

impl View for Board {
    type V = BoardView;

    closed spec fn view(&self) -> BoardView {
        BoardView {
            order: self.order as nat,
            slots: self.slot_of_tile@,
            tiles: self.tile_at_position@,
        }
    }
}

/// An immutable copy of a board's full state, taken at session start and
/// used to put the board back to its starting arrangement on demand.
pub struct Snapshot {
    order: usize,
    slot_of_tile: Vec<Position>,
    tile_at_position: Vec<usize>,
}

impl View for Snapshot {
    type V = BoardView;

    closed spec fn view(&self) -> BoardView {
        BoardView {
            order: self.order as nat,
            slots: self.slot_of_tile@,
            tiles: self.tile_at_position@,
        }
    }
}

/// Copies a vector of plainly copyable elements.
fn copy_vec<T: Copy>(src: &Vec<T>) -> (r: Vec<T>)
    ensures
        r@ == src@,
{
    let mut r: Vec<T> = Vec::new();
    let mut i: usize = 0;
    while i < src.len()
        invariant
            i <= src.len(),
            r@ == src@.subrange(0, i as int),
        decreases src.len() - i,
    {
        r.push(src[i]);
        i += 1;
        proof {
            assert(r@ =~= src@.subrange(0, i as int));
        }
    }
    proof {
        assert(r@ =~= src@);
    }
    r
}

/// The position whose row-major cell number is `i`.
fn index_position(i: usize, order: usize) -> (p: Position)
    requires
        1 <= order,
        order <= isize::MAX,
        i < order * order,
    ensures
        p == position_of_cell(i as int, order as nat),
        pos_in_bounds(p, order as nat),
        cell_index(p, order as nat) == i,
{
    proof {
        lemma_position_of_cell(i as int, order as nat);
        vstd::arithmetic::div_mod::lemma_multiply_divide_lt(i as int, order as int, order as int);
    }
    Position { x: (i % order) as isize, y: (i / order) as isize }
}

impl Board {
    /// Builds a board of size `order * order` in the deterministic starting
    /// arrangement: tiles `1, 2, ..., order * order - 1, 0` along the
    /// row-major traversal. Fails exactly when `order < 2`.
    pub fn new(order: usize) -> (r: Option<Board>)
        requires
            order * order <= usize::MAX,
            order <= isize::MAX,
        ensures
            r is Some <==> 2 <= order,
            r is Some ==> r->Some_0@ == initial_view(order as nat) && board_wf(r->Some_0@),
    {
        if order < 2 {
            return None;
        }
        let n2 = order * order;
        proof {
            assert(4 <= order * order) by (nonlinear_arith)
                requires
                    2 <= order,
            ;
        }
        let ghost iv = initial_view(order as nat);
        let mut tiles: Vec<usize> = Vec::new();
        let mut i: usize = 0;
        while i < n2
            invariant
                n2 == order * order,
                iv == initial_view(order as nat),
                i <= n2,
                tiles@.len() == i,
                forall|j: int| 0 <= j < i ==> tiles@[j] == iv.tiles[j],
            decreases n2 - i,
        {
            if i == n2 - 1 {
                tiles.push(0);
            } else {
                tiles.push(i + 1);
            }
            i += 1;
        }
        let mut slots: Vec<Position> = Vec::new();
        slots.push(index_position(n2 - 1, order));
        let mut t: usize = 1;
        while t < n2
            invariant
                2 <= order,
                order <= isize::MAX,
                n2 == order * order,
                iv == initial_view(order as nat),
                1 <= t <= n2,
                slots@.len() == t,
                forall|j: int| 0 <= j < t ==> slots@[j] == iv.slots[j],
            decreases n2 - t,
        {
            slots.push(index_position(t - 1, order));
            t += 1;
        }
        let board = Board { order, slot_of_tile: slots, tile_at_position: tiles };
        proof {
            assert(board@.slots =~= iv.slots);
            assert(board@.tiles =~= iv.tiles);
            assert(board@ =~= iv);
            lemma_initial_wf(order as nat);
        }
        Some(board)
    }

    /// The order `N` of this `N`-by-`N` board.
    pub fn order(&self) -> (r: usize)
        ensures
            r as nat == self@.order,
    {
        self.order
    }

    /// Row-major cell number of an in-bounds position.
    fn cell_of(&self, p: Position) -> (i: usize)
        requires
            board_wf(self@),
            pos_in_bounds(p, self@.order),
        ensures
            i as int == cell_index(p, self@.order),
            i < self@.order * self@.order,
    {
        proof {
            lemma_cell_index_bounds(p, self@.order);
        }
        (p.y as usize) * self.order + (p.x as usize)
    }

    /// The grid position currently occupied by the given tile number.
    pub fn position_of(&self, tile: usize) -> (p: Position)
        requires
            board_wf(self@),
            tile < self@.order * self@.order,
        ensures
            p == self@.slots[tile as int],
            pos_in_bounds(p, self@.order),
    {
        self.slot_of_tile[tile]
    }

    /// The position of the blank (tile 0).
    pub fn blank_position(&self) -> (p: Position)
        requires
            board_wf(self@),
        ensures
            p == blank_of(self@),
            pos_in_bounds(p, self@.order),
    {
        proof {
            assert(4 <= self@.order * self@.order) by (nonlinear_arith)
                requires
                    2 <= self@.order,
            ;
        }
        self.slot_of_tile[0]
    }

    /// The tile number on the given position, or `None` when the position
    /// lies outside the grid: an out-of-range lookup is "no match", never
    /// a failure.
    pub fn tile_at(&self, p: Position) -> (r: Option<usize>)
        requires
            board_wf(self@),
        ensures
            r == spec_tile_at(self@, p),
    {
        if p.in_bounds(self.order) {
            let i = self.cell_of(p);
            Some(self.tile_at_position[i])
        } else {
            None
        }
    }

    /// Unconditionally exchanges the tiles on cells `a` and `b`, updating
    /// both mappings together. Legality of a move is decided by the move
    /// resolver before it calls this.
    pub fn swap(&mut self, a: Position, b: Position)
        requires
            board_wf(old(self)@),
            pos_in_bounds(a, old(self)@.order),
            pos_in_bounds(b, old(self)@.order),
        ensures
            final(self)@ == swap_view(old(self)@, a, b),
            board_wf(final(self)@),
    {
        let ia = self.cell_of(a);
        let ib = self.cell_of(b);
        let ta = self.tile_at_position[ia];
        let tb = self.tile_at_position[ib];
        self.tile_at_position.set(ia, tb);
        self.tile_at_position.set(ib, ta);
        self.slot_of_tile.set(ta, b);
        self.slot_of_tile.set(tb, a);
        proof {
            assert(self@ =~= swap_view(old(self)@, a, b));
            lemma_swap_wf(old(self)@, a, b);
        }
    }

    /// Copies out the full current state, to be restored later.
    pub fn capture_origin(&self) -> (s: Snapshot)
        ensures
            s@ == self@,
    {
        let s = Snapshot {
            order: self.order,
            slot_of_tile: copy_vec(&self.slot_of_tile),
            tile_at_position: copy_vec(&self.tile_at_position),
        };
        proof {
            assert(s@ =~= self@);
        }
        s
    }

    /// Fully replaces the board state with the snapshot's state; nothing
    /// of the previous state is kept.
    pub fn restore_from_origin(&mut self, origin: &Snapshot)
        requires
            board_wf(origin@),
        ensures
            final(self)@ == origin@,
            board_wf(final(self)@),
    {
        self.order = origin.order;
        self.slot_of_tile = copy_vec(&origin.slot_of_tile);
        self.tile_at_position = copy_vec(&origin.tile_at_position);
        proof {
            assert(self@ =~= origin@);
        }
    }
}

} // verus!
