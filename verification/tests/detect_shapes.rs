use tetris_thinker::board::PieceSet;
use tetris_thinker::cutout::{cutout_tslot, t_availability};
use tetris_thinker::detect::{
    cave_tslot, find_tslot, fin_left, fin_right, sky_tslot_left, sky_tslot_right, tst_twist_left,
    tst_twist_right,
};
use tetris_thinker::{Board, Piece, PieceState, RotationState, Standard, TspinStatus};

fn empty_field() -> Vec<Vec<bool>> {
    vec![vec![false; 10]; 40]
}

fn no_bag() -> PieceSet {
    PieceSet { i: false, o: false, t: false, s: false, z: false, j: false, l: false }
}

fn board_from(field: Vec<Vec<bool>>) -> Board {
    Board::new_with_state(field, no_bag(), None, false, 0).expect("valid field")
}

fn sky_left_field() -> Vec<Vec<bool>> {
    // window at column 0: column 0 two high, the notch column empty, and
    // column 2 showing the filled-empty-filled profile at rows 3, 2, 1
    let mut field = empty_field();
    field[0][0] = true;
    field[1][0] = true;
    field[1][2] = true;
    field[3][2] = true;
    field
}

#[test]
fn sky_left_fires_on_canonical_shape() {
    let board = board_from(sky_left_field());
    let found = sky_tslot_left(&board).expect("shape present");
    assert_eq!(found.kind, PieceState(Piece::T, RotationState::South));
    assert_eq!((found.x, found.y), (1, 2));
    assert_eq!(found.tspin, TspinStatus::NoSpin);
    // the cascade agrees, since sky (left) has the highest priority
    let cascade = find_tslot(&board).expect("shape present");
    assert_eq!((cascade.x, cascade.y), (1, 2));
}

#[test]
fn sky_right_fires_on_mirrored_shape() {
    // window at column 0: notch at column 1 below column 2, and column 0
    // showing the filled-empty-filled profile at rows 3, 2, 1
    let mut field = empty_field();
    field[0][2] = true;
    field[1][2] = true;
    field[1][0] = true;
    field[3][0] = true;
    let board = board_from(field);
    let found = sky_tslot_right(&board).expect("shape present");
    assert_eq!(found.kind, PieceState(Piece::T, RotationState::South));
    assert_eq!((found.x, found.y), (1, 2));
}

#[test]
fn empty_board_has_no_tslot() {
    let board = board_from(empty_field());
    assert!(sky_tslot_left(&board).is_none());
    assert!(sky_tslot_right(&board).is_none());
    assert!(tst_twist_left(&board).is_none());
    assert!(tst_twist_right(&board).is_none());
    assert!(fin_left(&board).is_none());
    assert!(fin_right(&board).is_none());
    assert!(find_tslot(&board).is_none());
}

#[test]
fn tst_twist_left_fires_on_stepped_shape() {
    // window at column 0: columns 0 and 1 three high (column 1 with only a
    // floating block at row 2), column 2 filled at row 4 and open below
    let mut field = empty_field();
    field[0][0] = true;
    field[1][0] = true;
    field[2][0] = true;
    field[2][1] = true;
    field[4][2] = true;
    let board = board_from(field);
    let found = tst_twist_left(&board).expect("shape present");
    assert_eq!(found.kind, PieceState(Piece::T, RotationState::West));
    assert_eq!((found.x, found.y), (2, 1));
}

#[test]
fn cave_refines_a_seed_into_a_south_placement() {
    // an east-facing T seed dropped into a pocket: the in-place cave
    // template matches around its rest position
    let mut field = empty_field();
    // pocket walls for a seed resting at (4, 1)
    field[0][3] = true;
    field[2][3] = true;
    field[0][5] = true;
    let board = board_from(field);
    let seed = tetris_thinker::FallingPiece {
        kind: PieceState(Piece::T, RotationState::East),
        x: 4,
        y: 10,
        tspin: TspinStatus::NoSpin,
    };
    let refined = cave_tslot(&board, seed).expect("cave matches");
    assert_eq!(refined.kind, PieceState(Piece::T, RotationState::South));
    assert_eq!((refined.x, refined.y), (4, 1));
}

#[test]
fn cutout_of_sky_slot_without_lines_stops_chain() {
    let board = board_from(sky_left_field());
    let found = sky_tslot_left(&board).expect("shape present");
    let cut = cutout_tslot(board, found);
    assert_eq!(cut.lines, 0);
    assert!(cut.result.is_none());
}

#[test]
fn cutout_double_hands_back_cleared_board() {
    // rows 0 and 1 full except the notch a south T fills: locking it as a
    // full T-spin clears both rows and lets the chain continue
    let mut field = empty_field();
    for x in 0..10 {
        if x < 3 || x > 5 {
            field[1][x] = true;
        }
        if x != 4 {
            field[0][x] = true;
        }
    }
    field[3][4] = true;
    let board = board_from(field);
    let piece = tetris_thinker::FallingPiece {
        kind: PieceState(Piece::T, RotationState::South),
        x: 4,
        y: 1,
        tspin: TspinStatus::NoSpin,
    };
    let cut = cutout_tslot(board, piece);
    assert_eq!(cut.lines, 2);
    let next = cut.result.expect("chain continues");
    // the floating marker dropped by the two cleared rows
    assert!(next.occupied(4, 1));
    assert!(!next.occupied(4, 0));
}

#[test]
fn t_availability_counts_bag_and_hold() {
    let mut bag = no_bag();
    bag.t = true;
    bag.s = true;
    let board = Board::new_with_state(empty_field(), bag, Some(Piece::T), false, 0).unwrap();
    let config = Standard::default();
    // T in bag, bag of two pieces, T held
    assert_eq!(t_availability(&config, &board), 3);

    let mut full_bag = no_bag();
    full_bag.i = true;
    full_bag.o = true;
    full_bag.s = true;
    full_bag.z = true;
    let board = Board::new_with_state(empty_field(), full_bag, None, false, 0).unwrap();
    assert_eq!(t_availability(&config, &board), 0);

    let mut no_bag_config = Standard::default();
    no_bag_config.use_bag = false;
    let board = Board::new_with_state(empty_field(), no_bag(), None, false, 0).unwrap();
    assert_eq!(t_availability(&no_bag_config, &board), 1);
    let board = Board::new_with_state(empty_field(), no_bag(), Some(Piece::T), false, 0).unwrap();
    assert_eq!(t_availability(&no_bag_config, &board), 2);
}
