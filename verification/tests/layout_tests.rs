use sliding_puzzle_game::layout::Layout;
use sliding_puzzle_game::position::Position;

#[test]
fn layout_of_square_viewport() {
    // The board square is 80% of the smaller dimension, centred.
    let l = Layout::new(800, 800, 4);
    assert_eq!(l.order, 4);
    assert_eq!(l.board_size, 640);
    assert_eq!(l.cell_size, 160);
    assert_eq!(l.offset_x, 80);
    assert_eq!(l.offset_y, 80);
}

#[test]
fn layout_of_wide_viewport() {
    let l = Layout::new(800, 600, 3);
    assert_eq!(l.board_size, 480);
    assert_eq!(l.cell_size, 160);
    assert_eq!(l.offset_x, 160);
    assert_eq!(l.offset_y, 60);
}

#[test]
fn layout_of_tall_viewport() {
    let l = Layout::new(600, 1000, 3);
    assert_eq!(l.board_size, 480);
    assert_eq!(l.cell_size, 160);
    assert_eq!(l.offset_x, 60);
    assert_eq!(l.offset_y, 260);
}

#[test]
fn cell_centre_pixels() {
    let l = Layout::new(800, 600, 3);
    // Cell (0, 0) is the top-left cell of the board square: the vertical
    // axis is flipped, so its centre sits near the top of the square.
    assert_eq!(l.cell_to_pixel(Position::new(0, 0)), (240, 460));
    assert_eq!(l.cell_to_pixel(Position::new(2, 2)), (560, 140));
    assert_eq!(l.cell_to_pixel(Position::new(1, 0)), (400, 460));
    assert_eq!(l.cell_to_pixel(Position::new(0, 1)), (240, 300));
}

#[test]
fn pixel_to_cell_maps_centres_back() {
    let l = Layout::new(800, 600, 3);
    assert_eq!(l.pixel_to_cell(240, 460), Some(Position::new(0, 0)));
    assert_eq!(l.pixel_to_cell(560, 140), Some(Position::new(2, 2)));
}

#[test]
fn pixel_round_trip_covers_every_cell() {
    for order in [2usize, 3, 4] {
        for (w, h) in [(800isize, 600isize), (333, 777), (1024, 1024)] {
            let l = Layout::new(w as usize, h as usize, order);
            assert!(l.cell_size >= 1);
            for y in 0..order as isize {
                for x in 0..order as isize {
                    let p = Position::new(x, y);
                    let (px, py) = l.cell_to_pixel(p);
                    assert_eq!(l.pixel_to_cell(px, py), Some(p));
                }
            }
        }
    }
}

#[test]
fn pixels_off_the_board_give_no_cell() {
    let l = Layout::new(800, 600, 3);
    // Left of, right of, below and above the cell-covered square.
    assert_eq!(l.pixel_to_cell(159, 300), None);
    assert_eq!(l.pixel_to_cell(640, 300), None);
    assert_eq!(l.pixel_to_cell(400, 60), None);
    assert_eq!(l.pixel_to_cell(400, 541), None);
    assert_eq!(l.pixel_to_cell(-5, -5), None);
    // The first pixel column of the board maps to column 0.
    assert_eq!(l.pixel_to_cell(160, 300), Some(Position::new(0, 1)));
}

#[test]
fn degenerate_viewport_gives_no_cell() {
    // A viewport so small that a cell is zero pixels wide produces no
    // candidate anywhere.
    let l = Layout::new(3, 3, 4);
    assert_eq!(l.cell_size, 0);
    assert_eq!(l.pixel_to_cell(1, 1), None);
}
