use tetris_thinker::board::PieceSet;
use tetris_thinker::grid_placements::{apply_placements, Placement};
use tetris_thinker::{
    choose_best_board, Board, FallingPiece, LockResult, Piece, PieceState, PlacementKind,
    RotationState, Standard, TspinStatus,
};

fn empty_field() -> Vec<Vec<bool>> {
    vec![vec![false; 10]; 40]
}

fn no_bag() -> PieceSet {
    PieceSet { i: false, o: false, t: false, s: false, z: false, j: false, l: false }
}

fn board_from(field: Vec<Vec<bool>>) -> Board {
    Board::new_with_state(field, no_bag(), None, false, 0).expect("valid field")
}

fn quiet_lock(marker: Vec<i32>) -> LockResult {
    LockResult {
        placement_kind: PlacementKind::NoClear,
        b2b: false,
        combo: None,
        perfect_clear: false,
        cleared_lines: marker,
    }
}

#[test]
fn apply_placements_locks_each_on_its_own_clone() {
    let board = board_from(empty_field());
    let placements = [
        Placement {
            location: FallingPiece {
                kind: PieceState(Piece::T, RotationState::North),
                x: 4,
                y: 0,
                tspin: TspinStatus::NoSpin,
            },
        },
        Placement {
            location: FallingPiece {
                kind: PieceState(Piece::O, RotationState::North),
                x: 0,
                y: 0,
                tspin: TspinStatus::NoSpin,
            },
        },
    ];
    let results = apply_placements(&board, &placements);
    assert_eq!(results.len(), 2);
    // first candidate holds only the T
    assert!(results[0].occupied(4, 1));
    assert!(!results[0].occupied(0, 0));
    // second candidate holds only the O
    assert!(results[1].occupied(0, 0));
    assert!(results[1].occupied(1, 1));
    assert!(!results[1].occupied(4, 0));
    // the source board is untouched
    assert!(!board.occupied(4, 0));
}

#[test]
fn choose_best_board_picks_maximum() {
    // a flat board beats one with a buried hole under the default weights
    let flat = board_from(empty_field());
    let mut holey = empty_field();
    holey[1][0] = true;
    let holey = board_from(holey);
    let config = Standard::default();
    let best = choose_best_board(
        vec![
            (holey, quiet_lock(vec![1]), 0, Piece::S),
            (flat, quiet_lock(vec![2]), 0, Piece::S),
        ],
        &config,
    )
    .expect("candidates present");
    assert_eq!(best.lock.cleared_lines, vec![2]);

    let empty: Vec<(Board, LockResult, u32, Piece)> = vec![];
    assert!(choose_best_board(empty, &config).is_none());
}

#[test]
fn choose_best_board_ties_resolve_to_last() {
    // two identical boards score identically; the selector keeps the last,
    // told apart here by the cleared-lines marker
    let config = Standard::default();
    let best = choose_best_board(
        vec![
            (board_from(empty_field()), quiet_lock(vec![7]), 0, Piece::S),
            (board_from(empty_field()), quiet_lock(vec![8]), 0, Piece::S),
        ],
        &config,
    )
    .expect("candidates present");
    assert_eq!(best.lock.cleared_lines, vec![8]);
    // empty-board score under default weights: the bumpiness accumulators
    // start at -1 and are absolute-valued to 1 each, under weight -24
    assert_eq!(best.score, -48);
}
