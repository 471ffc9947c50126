//! The move resolver: translates a player command into zero or one board
//! mutation.
//!
//! A command yields a *candidate origin cell* — the cell the player wants
//! to slide into the blank. A move is legal exactly when that cell lies on
//! the grid and is orthogonally adjacent (taxicab distance 1) to the blank;
//! anything else is silently ignored and leaves the board unchanged.

use vstd::prelude::*;

use crate::board::{
    blank_of, board_wf, lemma_swap_with_blank, lemma_unique_blank, spec_tile_at, swap_view, Board,
    BoardView, Snapshot,
};
use crate::position::{manhattan, pos_in_bounds, Position};

verus! {

/// A direction key. The candidate cell of a directional move lies on the
/// side of the blank *opposite* the visual push direction: "left" pulls
/// the tile on the blank's right one step left, and so on.
#[derive(Clone, Copy, Debug, PartialEq, Eq, Structural)]
pub enum Direction {
    Up,
    Down,
    Left,
    Right,
}

/// A player command, decoupled from any particular input device:
/// a direction key, a click on a grid cell, or a reset to the origin.
#[derive(Clone, Copy, Debug, PartialEq, Eq, Structural)]
pub enum Command {
    Move(Direction),
    Click(Position),
    Reset,
}

/// The candidate origin cell of a directional move: the neighbour of the
/// blank that would slide into it.
pub open spec fn direction_target(blank: Position, d: Direction) -> Position {
    match d {
        Direction::Up => Position { x: blank.x, y: (blank.y + 1) as isize },
        Direction::Down => Position { x: blank.x, y: (blank.y - 1) as isize },
        Direction::Left => Position { x: (blank.x + 1) as isize, y: blank.y },
        Direction::Right => Position { x: (blank.x - 1) as isize, y: blank.y },
    }
}

/// A directional move is legal iff its candidate cell lies on the grid
/// (it is adjacent to the blank by construction).
pub open spec fn direction_legal(v: BoardView, d: Direction) -> bool {
    pos_in_bounds(direction_target(blank_of(v), d), v.order)
}

/// A pointer move is legal iff the clicked cell lies on the grid and is
/// orthogonally adjacent to the blank; in particular a click on the blank
/// itself (distance 0) is rejected.
pub open spec fn click_legal(v: BoardView, c: Position) -> bool {
    pos_in_bounds(c, v.order) && manhattan(c, blank_of(v)) == 1
}

/// A legal click candidate always holds a numbered tile, never the blank:
/// rejecting a click on the blank itself needs no check beyond adjacency.
pub proof fn lemma_click_candidate_not_blank(v: BoardView, c: Position)
    requires
        board_wf(v),
        click_legal(v, c),
    ensures
        c != blank_of(v),
        spec_tile_at(v, c) is Some,
        spec_tile_at(v, c) != Some(0usize),
{
    lemma_unique_blank(v);
}

/// The board state after one command, starting from state `v`, with
/// `origin` the state captured when the session began.
pub open spec fn step_view(v: BoardView, origin: BoardView, cmd: Command) -> BoardView {
    match cmd {
        Command::Move(d) => if direction_legal(v, d) {
            swap_view(v, direction_target(blank_of(v), d), blank_of(v))
        } else {
            v
        },
        Command::Click(c) => if click_legal(v, c) {
            swap_view(v, c, blank_of(v))
        } else {
            v
        },
        Command::Reset => origin,
    }
}

/// The board state after a whole sequence of commands.
pub open spec fn run_view(v: BoardView, origin: BoardView, cmds: Seq<Command>) -> BoardView
    decreases cmds.len(),
{
    if cmds.len() == 0 {
        v
    } else {
        run_view(step_view(v, origin, cmds[0]), origin, cmds.drop_first())
    }
}

/// Law: reset is a true inverse. After any sequence of commands played
/// from the starting state, a reset returns exactly the starting state.
pub proof fn lemma_reset_true_inverse(origin: BoardView, cmds: Seq<Command>)
    ensures
        step_view(run_view(origin, origin, cmds), origin, Command::Reset) == origin,
{
}

/// Attempts a directional move. Returns whether the board changed: the
/// move is applied exactly when the candidate cell lies on the grid, and
/// then the blank ends on the candidate's previous cell; an out-of-grid
/// candidate leaves the board untouched.
pub fn try_move_direction(board: &mut Board, d: Direction) -> (moved: bool)
    requires
        board_wf(old(board)@),
    ensures
        board_wf(final(board)@),
        moved == direction_legal(old(board)@, d),
        final(board)@ == step_view(old(board)@, old(board)@, Command::Move(d)),
        moved ==> manhattan(direction_target(blank_of(old(board)@), d), blank_of(old(board)@))
            == 1,
        moved ==> blank_of(final(board)@) == direction_target(blank_of(old(board)@), d),
{
    let blank = board.blank_position();
    let candidate = match d {
        Direction::Up => Position::new(blank.x, blank.y + 1),
        Direction::Down => Position::new(blank.x, blank.y - 1),
        Direction::Left => Position::new(blank.x + 1, blank.y),
        Direction::Right => Position::new(blank.x - 1, blank.y),
    };
    if candidate.in_bounds(board.order()) {
        proof {
            lemma_swap_with_blank(board@, candidate);
        }
        board.swap(candidate, blank);
        true
    } else {
        false
    }
}

/// Attempts a pointer move onto the given candidate cell. Returns whether
/// the board changed: the move is applied exactly when the cell lies on
/// the grid at taxicab distance 1 from the blank, and then the blank ends
/// on the candidate cell; any other candidate leaves the board untouched.
pub fn try_move_click(board: &mut Board, candidate: Position) -> (moved: bool)
    requires
        board_wf(old(board)@),
    ensures
        board_wf(final(board)@),
        moved == click_legal(old(board)@, candidate),
        final(board)@ == step_view(old(board)@, old(board)@, Command::Click(candidate)),
        moved ==> blank_of(final(board)@) == candidate,
{
    let blank = board.blank_position();
    if !candidate.in_bounds(board.order()) {
        return false;
    }
    let dx = if candidate.x >= blank.x {
        candidate.x - blank.x
    } else {
        blank.x - candidate.x
    };
    let dy = if candidate.y >= blank.y {
        candidate.y - blank.y
    } else {
        blank.y - candidate.y
    };
    if (dx == 1 && dy == 0) || (dx == 0 && dy == 1) {
        proof {
            lemma_swap_with_blank(board@, candidate);
        }
        board.swap(candidate, blank);
        true
    } else {
        false
    }
}

/// Applies one command to the board: the single entry point through which
/// all board mutation goes. Returns whether the board may have changed,
/// so consumers can skip redundant work when nothing moved.
pub fn apply(board: &mut Board, origin: &Snapshot, cmd: Command) -> (changed: bool)
    requires
        board_wf(old(board)@),
        board_wf(origin@),
    ensures
        board_wf(final(board)@),
        final(board)@ == step_view(old(board)@, origin@, cmd),
        changed == (match cmd {
            Command::Move(d) => direction_legal(old(board)@, d),
            Command::Click(c) => click_legal(old(board)@, c),
            Command::Reset => true,
        }),
{
    match cmd {
        Command::Move(d) => try_move_direction(board, d),
        Command::Click(c) => try_move_click(board, c),
        Command::Reset => {
            board.restore_from_origin(origin);
            true
        },
    }
}

} // verus!
