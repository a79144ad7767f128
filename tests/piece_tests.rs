use tetris::{Color, Tetromino, TetrominoType};

const KINDS: [TetrominoType; 7] = [
    TetrominoType::I,
    TetrominoType::O,
    TetrominoType::T,
    TetrominoType::S,
    TetrominoType::Z,
    TetrominoType::J,
    TetrominoType::L,
];

#[test]
fn test_tetromino_creation() {
    let i_piece = Tetromino::new(TetrominoType::I);
    assert_eq!(i_piece.shape.len(), 1);
    assert_eq!(i_piece.shape[0].len(), 4);
    assert!(i_piece.shape[0].iter().all(|&cell| cell));
    assert_eq!(i_piece.color, Color::cyan());

    let o_piece = Tetromino::new(TetrominoType::O);
    assert_eq!(o_piece.shape.len(), 2);
    assert_eq!(o_piece.shape[0].len(), 2);
    assert!(o_piece.shape.iter().all(|row| row.iter().all(|&cell| cell)));
    assert_eq!(o_piece.color, Color::yellow());
}

#[test]
fn test_tetromino_movement() {
    let mut piece = Tetromino::new(TetrominoType::I);
    let initial_pos = piece.position;

    piece.move_left();
    assert_eq!(piece.position.x, initial_pos.x - 1);
    assert_eq!(piece.position.y, initial_pos.y);

    piece.move_right();
    assert_eq!(piece.position.x, initial_pos.x);
    assert_eq!(piece.position.y, initial_pos.y);

    piece.move_down();
    assert_eq!(piece.position.x, initial_pos.x);
    assert_eq!(piece.position.y, initial_pos.y + 1);
}

#[test]
fn tetromino_test_tetromino_rotation() {
    let mut piece = Tetromino::new(TetrominoType::I);
    let original_shape = piece.shape.clone();

    piece.rotate();
    assert_eq!(piece.shape.len(), 4);
    assert_eq!(piece.shape[0].len(), 1);

    piece.rotate();
    piece.rotate();
    piece.rotate();
    assert_eq!(piece.shape, original_shape);
}

#[test]
fn test_random_tetromino() {
    for _ in 0..100 {
        let piece = Tetromino::random();
        assert!(!piece.shape.is_empty());
        assert!(!piece.shape[0].is_empty());
        assert!(piece.shape.iter().all(|row| !row.is_empty()));
    }
}

#[test]
fn integration_test_test_tetromino_rotation() {
    let mut i_piece = Tetromino::new(TetrominoType::I);
    let original_shape = i_piece.shape.clone();

    i_piece.rotate();
    assert_eq!(i_piece.shape.len(), 4, "After first rotation, height should be 4");
    assert_eq!(i_piece.shape[0].len(), 1, "After first rotation, width should be 1");

    i_piece.rotate();
    assert_eq!(i_piece.shape.len(), 1, "After second rotation, height should be 1");
    assert_eq!(i_piece.shape[0].len(), 4, "After second rotation, width should be 4");

    i_piece.rotate();
    i_piece.rotate();
    assert_eq!(i_piece.shape, original_shape, "After 4 rotations, should return to original shape");

    let mut o_piece = Tetromino::new(TetrominoType::O);
    let o_original = o_piece.shape.clone();
    o_piece.rotate();
    assert_eq!(o_piece.shape, o_original, "O piece should not change when rotated");
}

#[test]
fn four_turns_give_every_shape_back() {
    for kind in KINDS {
        let mut piece = Tetromino::new(kind);
        let original = piece.shape.clone();
        let position = piece.position;
        for _ in 0..4 {
            piece.rotate();
            assert_eq!(piece.position, position);
        }
        assert_eq!(piece.shape, original);
    }
}

#[test]
fn one_turn_of_the_t_piece() {
    let mut piece = Tetromino::new(TetrominoType::T);
    piece.rotate();
    assert_eq!(
        piece.shape,
        vec![vec![true, false], vec![true, true], vec![true, false]]
    );
    piece.rotate();
    assert_eq!(piece.shape, vec![vec![true, true, true], vec![false, true, false]]);
}

#[test]
fn every_kind_spawns_at_the_spawn_point_with_its_colour() {
    let colors = [
        Color::cyan(),
        Color::yellow(),
        Color::magenta(),
        Color::green(),
        Color::red(),
        Color::blue(),
        Color::orange(),
    ];
    for (kind, color) in KINDS.iter().zip(colors.iter()) {
        let piece = Tetromino::new(*kind);
        assert_eq!(piece.color, *color);
        assert_eq!(piece.position.x, 3);
        assert_eq!(piece.position.y, 0);
        let cells: usize = piece.shape.iter().map(|r| r.iter().filter(|c| **c).count()).sum();
        assert_eq!(cells, 4);
    }
}

#[test]
fn a_copy_keeps_shape_colour_and_position() {
    let mut piece = Tetromino::new(TetrominoType::S);
    piece.position.x = 6;
    piece.position.y = 11;
    let copy = piece.copied();
    assert_eq!(copy.shape, piece.shape);
    assert_eq!(copy.color, piece.color);
    assert_eq!(copy.position, piece.position);
    assert_eq!(TetrominoType::from_index(6), TetrominoType::L);
    assert_eq!(Color::from_rgb(255, 165, 0), Color::orange());
}
