use tetris_thinker::board::PieceSet;
use tetris_thinker::{Board, FallingPiece, Piece, PieceState, PlacementKind, RotationState, TspinStatus};

fn empty_field() -> Vec<Vec<bool>> {
    vec![vec![false; 10]; 40]
}

fn no_bag() -> PieceSet {
    PieceSet { i: false, o: false, t: false, s: false, z: false, j: false, l: false }
}

fn board_from(field: Vec<Vec<bool>>) -> Board {
    Board::new_with_state(field, no_bag(), None, false, 0).expect("valid field")
}

fn piece(kind: Piece, rotation: RotationState, x: i32, y: i32) -> FallingPiece {
    FallingPiece { kind: PieceState(kind, rotation), x, y, tspin: TspinStatus::NoSpin }
}

#[test]
fn rejects_malformed_fields() {
    assert!(Board::new_with_state(vec![vec![false; 10]; 39], no_bag(), None, false, 0).is_none());
    assert!(Board::new_with_state(vec![vec![false; 9]; 40], no_bag(), None, false, 0).is_none());
    let mut full_row = empty_field();
    for x in 0..10 {
        full_row[5][x] = true;
    }
    assert!(Board::new_with_state(full_row, no_bag(), None, false, 0).is_none());
}

#[test]
fn lock_without_clear_marks_cells() {
    let mut board = board_from(empty_field());
    let result = board.lock_piece(piece(Piece::T, RotationState::North, 4, 0));
    assert_eq!(result.placement_kind, PlacementKind::NoClear);
    assert_eq!(result.combo, None);
    assert!(!result.b2b);
    assert!(!result.perfect_clear);
    assert!(result.cleared_lines.is_empty());
    assert!(board.occupied(3, 0));
    assert!(board.occupied(4, 0));
    assert!(board.occupied(5, 0));
    assert!(board.occupied(4, 1));
    assert!(!board.occupied(4, 2));
    let heights = board.column_heights();
    assert_eq!(heights[3], 1);
    assert_eq!(heights[4], 2);
    assert_eq!(heights[5], 1);
    assert_eq!(board.combo, 0);
}

#[test]
fn lock_clears_full_row_and_shifts_stack() {
    let mut field = empty_field();
    // bottom row filled except column 9
    for x in 0..9 {
        field[0][x] = true;
    }
    let mut board = board_from(field);
    // a vertical I fills rows 0..4 of column 9; row 0 becomes full
    let result = board.lock_piece(piece(Piece::I, RotationState::East, 9, 2));
    assert_eq!(result.placement_kind, PlacementKind::Clear1);
    assert_eq!(result.cleared_lines, vec![0]);
    let copy = result.clone();
    assert_eq!(copy.placement_kind, result.placement_kind);
    assert_eq!(copy.cleared_lines, result.cleared_lines);
    assert_eq!(result.combo, Some(0));
    assert!(!result.perfect_clear);
    // the stack shifted down one row: the I's upper cells now sit at 0..2
    assert!(board.occupied(9, 0));
    assert!(board.occupied(9, 1));
    assert!(board.occupied(9, 2));
    assert!(!board.occupied(9, 3));
    assert_eq!(board.combo, 1);
}

#[test]
fn perfect_clear_is_detected() {
    let mut field = empty_field();
    for x in 0..6 {
        field[0][x] = true;
    }
    let mut board = board_from(field);
    // a flat I covers the remaining four cells of the bottom row
    let result = board.lock_piece(piece(Piece::I, RotationState::North, 7, 0));
    assert_eq!(result.placement_kind, PlacementKind::Clear1);
    assert!(result.perfect_clear);
}

#[test]
fn full_tspin_classification_follows_tag_and_lines() {
    let mut board = board_from(empty_field());
    let mut p = piece(Piece::T, RotationState::South, 4, 1);
    p.tspin = TspinStatus::Full;
    let result = board.lock_piece(p);
    assert_eq!(result.placement_kind, PlacementKind::Tspin);

    let mut field = empty_field();
    for x in 0..10 {
        if x < 3 || x > 5 {
            field[0][x] = true;
        }
    }
    let mut board = board_from(field);
    let mut p = piece(Piece::T, RotationState::North, 4, 0);
    p.tspin = TspinStatus::Full;
    let result = board.lock_piece(p);
    assert_eq!(result.placement_kind, PlacementKind::Tspin1);

    let mut field = empty_field();
    for x in 0..10 {
        if x != 4 {
            field[0][x] = true;
        }
    }
    let mut board = board_from(field);
    let mut p = piece(Piece::T, RotationState::East, 4, 1);
    p.tspin = TspinStatus::Mini;
    let result = board.lock_piece(p);
    assert_eq!(result.placement_kind, PlacementKind::MiniTspin1);
}

#[test]
fn back_to_back_and_combo_bookkeeping() {
    // first difficult clear arms the streak, the second reports it
    let mut field = empty_field();
    for x in 0..9 {
        for y in 0..4 {
            field[y][x] = true;
        }
    }
    let mut board = board_from(field);
    let result = board.lock_piece(piece(Piece::I, RotationState::East, 9, 2));
    assert_eq!(result.placement_kind, PlacementKind::Clear4);
    assert!(!result.b2b);
    assert_eq!(result.combo, Some(0));
    assert!(board.b2b_bonus);
    assert_eq!(board.combo, 1);

    let mut field = empty_field();
    for x in 0..9 {
        for y in 0..4 {
            field[y][x] = true;
        }
    }
    let mut board = board_from(field);
    board.b2b_bonus = true;
    board.combo = 3;
    let result = board.lock_piece(piece(Piece::I, RotationState::East, 9, 2));
    assert!(result.b2b);
    assert_eq!(result.combo, Some(3));
    assert_eq!(board.combo, 4);

    // a non-clearing lock resets the combo and leaves back-to-back alone
    let mut board = board_from(empty_field());
    board.b2b_bonus = true;
    board.combo = 5;
    let result = board.lock_piece(piece(Piece::O, RotationState::North, 0, 0));
    assert_eq!(result.placement_kind, PlacementKind::NoClear);
    assert_eq!(result.combo, None);
    assert!(board.b2b_bonus);
    assert_eq!(board.combo, 0);
}

#[test]
fn sonic_drop_rests_on_stack_and_floor() {
    let board = board_from(empty_field());
    let mut p = piece(Piece::T, RotationState::North, 4, 20);
    p.sonic_drop(&board);
    assert_eq!(p.y, 0);

    let mut field = empty_field();
    field[4][4] = true;
    let board = board_from(field);
    let mut p = piece(Piece::T, RotationState::North, 4, 20);
    p.sonic_drop(&board);
    assert_eq!(p.y, 5);
    assert!(board.on_stack(&p));
}

#[test]
fn placement_bounds_guard() {
    let inside = piece(Piece::T, RotationState::North, 4, 0);
    assert!(inside.in_bounds());
    let off_left = piece(Piece::T, RotationState::North, 0, 0);
    assert!(!off_left.in_bounds());
    let below_floor = piece(Piece::T, RotationState::South, 4, 0);
    assert!(!below_floor.in_bounds());
    let far_out = piece(Piece::T, RotationState::North, 1000000, 0);
    assert!(!far_out.in_bounds());
}
