use tetris::constants::{GRID_HEIGHT, GRID_WIDTH};
use tetris::{Color, GameBoard, Position, Tetromino, TetrominoType};

#[test]
fn test_new_board() {
    let board = GameBoard::new();
    for y in 0..GRID_HEIGHT {
        for x in 0..GRID_WIDTH {
            assert_eq!(board.get_cell(x, y).unwrap(), Color::black());
        }
    }
}

#[test]
fn test_set_cell() {
    let mut board = GameBoard::new();
    let test_color = Color::red();

    assert!(board.set_cell(5, 5, test_color));
    assert_eq!(board.get_cell(5, 5).unwrap(), test_color);

    assert!(!board.set_cell(GRID_WIDTH, 5, test_color));
    assert!(!board.set_cell(5, GRID_HEIGHT, test_color));
    assert!(!board.set_cell(-1, 5, test_color));
}

#[test]
fn mod_test_line_clearing() {
    let mut board = GameBoard::new();
    for x in 0..GRID_WIDTH {
        board.set_cell(x, 10, Color::red());
    }
    let lines = board.clear_lines();
    assert_eq!(lines, 1);
    for x in 0..GRID_WIDTH {
        assert_eq!(board.get_cell(x, 10).unwrap(), Color::black());
    }
}

#[test]
fn get_cell_outside_the_board_is_none() {
    let board = GameBoard::new();
    assert_eq!(board.get_cell(-1, 0), None);
    assert_eq!(board.get_cell(0, -1), None);
    assert_eq!(board.get_cell(GRID_WIDTH, 0), None);
    assert_eq!(board.get_cell(0, GRID_HEIGHT), None);
}

#[test]
fn collision_at_each_wall_and_floor() {
    let board = GameBoard::new();
    let mut piece = Tetromino::new(TetrominoType::O);
    piece.position = Position::new(-1, 5);
    assert!(board.check_collision(&piece));
    piece.position = Position::new(GRID_WIDTH - 1, 5);
    assert!(board.check_collision(&piece));
    piece.position = Position::new(4, GRID_HEIGHT - 1);
    assert!(board.check_collision(&piece));
    piece.position = Position::new(4, GRID_HEIGHT - 2);
    assert!(!board.check_collision(&piece));
    piece.position = Position::new(0, 0);
    assert!(!board.check_collision(&piece));
    piece.position = Position::new(GRID_WIDTH - 2, 0);
    assert!(!board.check_collision(&piece));
}

#[test]
fn rows_above_the_board_only_meet_the_walls() {
    let mut board = GameBoard::new();
    for x in 0..GRID_WIDTH {
        board.set_cell(x, 0, Color::red());
    }
    let mut piece = Tetromino::new(TetrominoType::O);
    piece.position = Position::new(4, -2);
    assert!(!board.check_collision(&piece));
    piece.position = Position::new(4, -1);
    assert!(board.check_collision(&piece));
    piece.position = Position::new(-1, -2);
    assert!(board.check_collision(&piece));
}

#[test]
fn single_full_row_clears_to_an_empty_board() {
    let mut board = GameBoard::new();
    for x in 0..GRID_WIDTH {
        board.set_cell(x, 19, Color::blue());
    }
    assert_eq!(board.clear_lines(), 1);
    for y in 0..GRID_HEIGHT {
        for x in 0..GRID_WIDTH {
            assert_eq!(board.get_cell(x, y).unwrap(), Color::black());
        }
    }
    assert_eq!(board.lines_cleared(), 1);
}

#[test]
fn partial_row_above_a_cleared_row_moves_down_intact() {
    let mut board = GameBoard::new();
    for x in 0..GRID_WIDTH {
        board.set_cell(x, 12, Color::red());
    }
    board.set_cell(1, 11, Color::green());
    board.set_cell(4, 11, Color::green());
    board.set_cell(9, 11, Color::green());
    board.set_cell(2, 5, Color::yellow());
    assert_eq!(board.clear_lines(), 1);
    for x in 0..GRID_WIDTH {
        let expected = if x == 1 || x == 4 || x == 9 { Color::green() } else { Color::black() };
        assert_eq!(board.get_cell(x, 12).unwrap(), expected);
        assert_eq!(board.get_cell(x, 11).unwrap(), Color::black());
    }
    assert_eq!(board.get_cell(2, 6).unwrap(), Color::yellow());
    assert_eq!(board.get_cell(2, 5).unwrap(), Color::black());
}

#[test]
fn adjacent_and_separate_full_rows_clear_in_one_call() {
    let mut board = GameBoard::new();
    for x in 0..GRID_WIDTH {
        board.set_cell(x, 19, Color::red());
        board.set_cell(x, 18, Color::red());
        board.set_cell(x, 15, Color::red());
    }
    board.set_cell(3, 17, Color::cyan());
    board.set_cell(6, 16, Color::magenta());
    assert_eq!(board.clear_lines(), 3);
    assert_eq!(board.get_cell(3, 19).unwrap(), Color::cyan());
    assert_eq!(board.get_cell(6, 18).unwrap(), Color::magenta());
    for x in 0..GRID_WIDTH {
        assert_eq!(board.get_cell(x, 17).unwrap(), Color::black());
    }
    assert_eq!(board.lines_cleared(), 3);
    assert_eq!(board.clear_lines(), 0);
    assert_eq!(board.lines_cleared(), 3);
}

#[test]
fn lock_writes_the_piece_and_drops_cells_above_the_board() {
    let mut board = GameBoard::new();
    let mut piece = Tetromino::new(TetrominoType::T);
    piece.position = Position::new(2, -1);
    board.lock_piece(&piece);
    // T: .#. / ### ; the top row is above the board
    assert_eq!(board.get_cell(2, 0).unwrap(), Color::magenta());
    assert_eq!(board.get_cell(3, 0).unwrap(), Color::magenta());
    assert_eq!(board.get_cell(4, 0).unwrap(), Color::magenta());
    assert_eq!(board.get_cell(3, 1).unwrap(), Color::black());
    let mut filled = 0;
    for y in 0..GRID_HEIGHT {
        for x in 0..GRID_WIDTH {
            if board.get_cell(x, y).unwrap() != Color::black() {
                filled += 1;
            }
        }
    }
    assert_eq!(filled, 3);
}

#[test]
fn drop_position_on_empty_board_and_onto_a_stack() {
    let mut board = GameBoard::new();
    let mut piece = Tetromino::new(TetrominoType::I);
    piece.position = Position::new(3, 0);
    assert_eq!(board.calculate_drop_position(&piece), 19);
    for x in 0..GRID_WIDTH {
        board.set_cell(x, 15, Color::red());
    }
    assert_eq!(board.calculate_drop_position(&piece), 14);
    // the query leaves the piece where it was
    assert_eq!(piece.position, Position::new(3, 0));
    piece.position = Position::new(3, 15);
    assert_eq!(board.calculate_drop_position(&piece), -1);
}

#[test]
fn reset_empties_the_board_and_its_total() {
    let mut board = GameBoard::new();
    for x in 0..GRID_WIDTH {
        board.set_cell(x, 19, Color::red());
    }
    board.set_cell(0, 3, Color::red());
    assert_eq!(board.clear_lines(), 1);
    board.reset();
    assert_eq!(board.lines_cleared(), 0);
    assert_eq!(board.get_cell(0, 4).unwrap(), Color::black());
    assert_eq!(board.cells().len(), 20);
    assert!(board.cells().iter().all(|row| row.len() == 10));
}
