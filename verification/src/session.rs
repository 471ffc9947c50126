//! The session control surface: one puzzle session from start to reset,
//! owning the board, the origin snapshot taken at creation, and the
//! current layout.
//!
//! The surrounding shell drives a session with plain values only: pointer
//! pixels, direction keys, viewport sizes. Each tick's events are applied
//! one at a time, each against the board state as mutated by the previous
//! one, so a batch of inputs is processed in arrival order.

use vstd::prelude::*;

use crate::board::{board_wf, initial_view, Board, BoardView, Snapshot};
use crate::layout::{layout_wf, spec_layout, spec_pixel_to_cell, Layout};
use crate::resolver::{
    click_legal, direction_legal, step_view, try_move_click, try_move_direction, Command,
    Direction,
};

verus! {

/// The top-level screens of the surrounding application. The puzzle core
/// is active only in `Game`; the others carry no puzzle state.
#[derive(Clone, Copy, Debug, PartialEq, Eq, Hash, Structural)]
pub enum GameState {
    Start,
    Menu,
    Game,
}

impl Default for GameState {
    /// The application opens on the start screen.
    fn default() -> (r: GameState)
        ensures
            r == GameState::Start,
    {
        GameState::Start
    }
}

/// The abstract state of a session: the live board, the origin captured
/// at creation, and the current layout.
#[verifier::ext_equal]
pub ghost struct SessionView {
    pub board: BoardView,
    pub origin: BoardView,
    pub layout: Layout,
}

/// Well-formedness of a session: both board states are well formed, the
/// layout is well formed, and all three agree on the puzzle order.
pub open spec fn session_wf(s: SessionView) -> bool {
    &&& board_wf(s.board)
    &&& board_wf(s.origin)
    &&& layout_wf(s.layout)
    &&& s.layout.order == s.board.order
    &&& s.origin.order == s.board.order
}

/// One puzzle session. Created when the player picks an order, mutated by
/// every accepted move, restored by reset, and discarded at session end.
pub struct Session {
    board: Board,
    origin: Snapshot,
    layout: Layout,
}

impl View for Session {
    type V = SessionView;

    closed spec fn view(&self) -> SessionView {
        SessionView { board: self.board@, origin: self.origin@, layout: self.layout }
    }
}

impl Session {
    /// Starts a session of the given order within the given viewport.
    /// Fails exactly when `order < 2`; the origin snapshot is the freshly
    /// built starting arrangement.
    pub fn start_session(order: usize, width: usize, height: usize) -> (r: Option<Session>)
        requires
            order * order <= usize::MAX,
            order <= isize::MAX,
            width <= isize::MAX,
            height <= isize::MAX,
        ensures
            r is Some <==> 2 <= order,
            r is Some ==> {
                &&& session_wf(r->Some_0@)
                &&& r->Some_0@.board == initial_view(order as nat)
                &&& r->Some_0@.origin == initial_view(order as nat)
                &&& r->Some_0@.layout == spec_layout(width, height, order)
            },
    {
        let board = match Board::new(order) {
            Some(b) => b,
            None => {
                return None;
            },
        };
        let origin = board.capture_origin();
        let layout = Layout::new(width, height, order);
        Some(Session { board, origin, layout })
    }

    /// Recomputes the layout for a new viewport size; the board state is
    /// untouched.
    pub fn resize(&mut self, width: usize, height: usize)
        requires
            session_wf(old(self)@),
            width <= isize::MAX,
            height <= isize::MAX,
        ensures
            session_wf(final(self)@),
            final(self)@.board == old(self)@.board,
            final(self)@.origin == old(self)@.origin,
            final(self)@.layout == spec_layout(width, height, old(self)@.layout.order),
    {
        self.layout = Layout::new(width, height, self.board.order());
    }

    /// Handles a pointer press at the given pixel. The cell under the
    /// pointer, if any, becomes the candidate of a click move; a pointer
    /// off the board produces no candidate and changes nothing.
    pub fn pointer_click(&mut self, px: isize, py: isize) -> (moved: bool)
        requires
            session_wf(old(self)@),
        ensures
            session_wf(final(self)@),
            final(self)@.origin == old(self)@.origin,
            final(self)@.layout == old(self)@.layout,
            final(self)@.board == (match spec_pixel_to_cell(px as int, py as int, old(self)@.layout) {
                Some(c) => step_view(old(self)@.board, old(self)@.origin, Command::Click(c)),
                None => old(self)@.board,
            }),
            moved == (match spec_pixel_to_cell(px as int, py as int, old(self)@.layout) {
                Some(c) => click_legal(old(self)@.board, c),
                None => false,
            }),
    {
        match self.layout.pixel_to_cell(px, py) {
            Some(candidate) => try_move_click(&mut self.board, candidate),
            None => false,
        }
    }

    /// Handles a released direction key: the single cell that would slide
    /// into the blank from that side becomes the candidate; a direction
    /// pointing outside the grid changes nothing.
    pub fn key_move(&mut self, d: Direction) -> (moved: bool)
        requires
            session_wf(old(self)@),
        ensures
            session_wf(final(self)@),
            final(self)@.origin == old(self)@.origin,
            final(self)@.layout == old(self)@.layout,
            final(self)@.board == step_view(old(self)@.board, old(self)@.origin, Command::Move(d)),
            moved == direction_legal(old(self)@.board, d),
    {
        try_move_direction(&mut self.board, d)
    }

    /// Puts the board back to the origin captured at session start,
    /// replacing the whole state.
    pub fn reset_session(&mut self)
        requires
            session_wf(old(self)@),
        ensures
            session_wf(final(self)@),
            final(self)@.board == old(self)@.origin,
            final(self)@.origin == old(self)@.origin,
            final(self)@.layout == old(self)@.layout,
    {
        self.board.restore_from_origin(&self.origin);
    }

    /// Ends the session, discarding the board, its origin and the layout.
    pub fn end_session(self) {
    }

    /// Read access to the live board, for render consumers.
    pub fn board(&self) -> (b: &Board)
        ensures
            b@ == self@.board,
    {
        &self.board
    }

    /// The current layout parameters.
    pub fn layout(&self) -> (l: Layout)
        ensures
            l == self@.layout,
    {
        self.layout
    }
}

} // verus!
