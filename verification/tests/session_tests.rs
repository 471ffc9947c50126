use sliding_puzzle_game::position::Position;
use sliding_puzzle_game::resolver::Direction;
use sliding_puzzle_game::session::{GameState, Session};

#[test]
fn game_state_opens_on_start_screen() {
    assert_eq!(GameState::default(), GameState::Start);
    assert_ne!(GameState::Menu, GameState::Game);
}

#[test]
fn start_session_rejects_small_orders() {
    assert!(Session::start_session(0, 800, 600).is_none());
    assert!(Session::start_session(1, 800, 600).is_none());
    assert!(Session::start_session(2, 800, 600).is_some());
}

#[test]
fn pointer_click_moves_adjacent_tile() {
    // Order 3 in an 800x600 viewport: blank on (2, 2); cell (1, 2) is its
    // left neighbour. Click the centre pixel of (1, 2).
    let mut s = Session::start_session(3, 800, 600).unwrap();
    let (px, py) = s.layout().cell_to_pixel(Position::new(1, 2));
    assert!(s.pointer_click(px, py));
    assert_eq!(s.board().position_of(0), Position::new(1, 2));
    assert_eq!(s.board().tile_at(Position::new(2, 2)).unwrap(), 8);
}

#[test]
fn pointer_click_far_from_blank_changes_nothing() {
    let mut s = Session::start_session(3, 800, 600).unwrap();
    let (px, py) = s.layout().cell_to_pixel(Position::new(0, 0));
    assert!(!s.pointer_click(px, py));
    assert_eq!(s.board().position_of(0), Position::new(2, 2));
}

#[test]
fn pointer_click_off_the_board_changes_nothing() {
    let mut s = Session::start_session(3, 800, 600).unwrap();
    assert!(!s.pointer_click(10, 10));
    assert!(!s.pointer_click(-50, 300));
    assert_eq!(s.board().position_of(0), Position::new(2, 2));
}

#[test]
fn key_moves_and_reset_recover_origin() {
    let mut s = Session::start_session(4, 1024, 1024).unwrap();
    assert!(s.key_move(Direction::Right));
    assert!(s.key_move(Direction::Down));
    assert!(s.key_move(Direction::Left));
    assert_ne!(s.board().position_of(0), Position::new(3, 3));
    s.reset_session();
    assert_eq!(s.board().position_of(0), Position::new(3, 3));
    for t in 0..16 {
        assert_eq!(s.board().tile_at(s.board().position_of(t)).unwrap(), t);
        if t > 0 {
            assert_eq!(s.board().position_of(t), Position::new((t as isize - 1) % 4, (t as isize - 1) / 4));
        }
    }
}

#[test]
fn resize_keeps_the_board() {
    let mut s = Session::start_session(3, 800, 600).unwrap();
    assert!(s.key_move(Direction::Right));
    s.resize(400, 400);
    assert_eq!(s.layout().board_size, 320);
    assert_eq!(s.layout().cell_size, 106);
    assert_eq!(s.board().position_of(0), Position::new(1, 2));
}

#[test]
fn end_session_discards_state() {
    let s = Session::start_session(3, 800, 600).unwrap();
    s.end_session();
}
