use sliding_puzzle_game::board::Board;
use sliding_puzzle_game::position::Position;
use sliding_puzzle_game::resolver::{apply, try_move_click, try_move_direction, Command, Direction};

#[test]
fn direction_left_pulls_right_neighbour() {
    // Order 3: blank starts on (2, 2), the right edge, so "left" is a no-op.
    let mut b = Board::new(3).unwrap();
    assert!(!try_move_direction(&mut b, Direction::Left));
    assert_eq!(b.position_of(0), Position::new(2, 2));
    assert_eq!(b.tile_at(Position::new(1, 2)).unwrap(), 8);
    // "Right" pulls the left-hand neighbour (tile 8) onto the blank's cell.
    assert!(try_move_direction(&mut b, Direction::Right));
    assert_eq!(b.position_of(0), Position::new(1, 2));
    assert_eq!(b.tile_at(Position::new(2, 2)).unwrap(), 8);
    // The blank is now off the right edge, so "left" swaps it back.
    assert!(try_move_direction(&mut b, Direction::Left));
    assert_eq!(b.position_of(0), Position::new(2, 2));
    assert_eq!(b.tile_at(Position::new(1, 2)).unwrap(), 8);
}

#[test]
fn directions_outside_grid_are_no_ops() {
    // Blank on (2, 2) of an order-3 board: both "left" (candidate x = 3)
    // and "up" (candidate y = 3) point outside the grid.
    let mut b = Board::new(3).unwrap();
    assert!(!try_move_direction(&mut b, Direction::Left));
    assert!(!try_move_direction(&mut b, Direction::Up));
    assert_eq!(b.position_of(0), Position::new(2, 2));
    for t in 0..9 {
        assert_eq!(b.tile_at(b.position_of(t)).unwrap(), t);
    }
}

#[test]
fn direction_moves_blank_onto_candidate() {
    let mut b = Board::new(3).unwrap();
    assert!(try_move_direction(&mut b, Direction::Down));
    // Candidate of "down" is the cell above in grid terms: (2, 1).
    assert_eq!(b.position_of(0), Position::new(2, 1));
    assert_eq!(b.tile_at(Position::new(2, 2)).unwrap(), 6);
}

#[test]
fn click_two_rows_away_is_rejected() {
    // Order 4: blank on (3, 3); (3, 1) is two rows away.
    let mut b = Board::new(4).unwrap();
    assert!(!try_move_click(&mut b, Position::new(3, 1)));
    for t in 0..16 {
        let fresh = Board::new(4).unwrap();
        assert_eq!(b.position_of(t), fresh.position_of(t));
    }
}

#[test]
fn click_adjacent_swaps_exactly_those_two() {
    let mut b = Board::new(4).unwrap();
    let candidate = Position::new(3, 2);
    let moved_tile = b.tile_at(candidate).unwrap();
    assert_eq!(moved_tile, 12);
    assert!(try_move_click(&mut b, candidate));
    assert_eq!(b.position_of(0), candidate);
    assert_eq!(b.tile_at(Position::new(3, 3)).unwrap(), 12);
    // No other tile moved.
    let fresh = Board::new(4).unwrap();
    for t in 1..16 {
        if t != moved_tile {
            assert_eq!(b.position_of(t), fresh.position_of(t));
        }
    }
}

#[test]
fn click_on_blank_is_rejected() {
    let mut b = Board::new(4).unwrap();
    assert!(!try_move_click(&mut b, Position::new(3, 3)));
    assert_eq!(b.position_of(0), Position::new(3, 3));
}

#[test]
fn click_diagonal_is_rejected() {
    let mut b = Board::new(4).unwrap();
    assert!(!try_move_click(&mut b, Position::new(2, 2)));
    assert_eq!(b.position_of(0), Position::new(3, 3));
}

#[test]
fn click_outside_grid_is_rejected() {
    let mut b = Board::new(3).unwrap();
    assert!(!try_move_click(&mut b, Position::new(3, 2)));
    assert!(!try_move_click(&mut b, Position::new(-1, 0)));
    assert_eq!(b.position_of(0), Position::new(2, 2));
}

#[test]
fn command_sequence_then_reset_recovers_origin() {
    let mut b = Board::new(3).unwrap();
    let origin = b.capture_origin();
    assert!(apply(&mut b, &origin, Command::Move(Direction::Right)));
    assert!(apply(&mut b, &origin, Command::Click(Position::new(1, 1))));
    assert!(!apply(&mut b, &origin, Command::Click(Position::new(0, 0))));
    assert!(apply(&mut b, &origin, Command::Reset));
    let fresh = Board::new(3).unwrap();
    for t in 0..9 {
        assert_eq!(b.position_of(t), fresh.position_of(t));
        assert_eq!(b.tile_at(b.position_of(t)).unwrap(), t);
    }
}

#[test]
fn batched_keys_apply_sequentially() {
    // Two keys released in one batch: each applies against the board as
    // mutated by the previous one.
    let mut b = Board::new(3).unwrap();
    assert!(try_move_direction(&mut b, Direction::Right));
    assert!(try_move_direction(&mut b, Direction::Right));
    assert_eq!(b.position_of(0), Position::new(0, 2));
    assert_eq!(b.tile_at(Position::new(1, 2)).unwrap(), 7);
    assert_eq!(b.tile_at(Position::new(2, 2)).unwrap(), 8);
}
