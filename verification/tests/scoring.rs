use tetris_thinker::board::PieceSet;
use tetris_thinker::weights::combo_garbage;
use tetris_thinker::{Board, FallingPiece, Piece, PieceState, RotationState, Standard, TspinStatus};

fn empty_field() -> Vec<Vec<bool>> {
    vec![vec![false; 10]; 40]
}

fn no_bag() -> PieceSet {
    PieceSet { i: false, o: false, t: false, s: false, z: false, j: false, l: false }
}

fn board_from(field: Vec<Vec<bool>>) -> Board {
    Board::new_with_state(field, no_bag(), None, false, 0).expect("valid field")
}

#[test]
fn default_preset_values() {
    let w = Standard::default();
    assert_eq!(w.back_to_back, 52);
    assert_eq!(w.bumpiness, -24);
    assert_eq!(w.cavity_cells, -173);
    assert_eq!(w.tslot, [8, 148, 192, 407]);
    assert_eq!(w.well_column, [20, 23, 20, 50, 59, 21, 59, 10, -10, 24]);
    assert_eq!(w.perfect_clear, 999);
    assert_eq!(w.wasted_t, -152);
    assert!(w.use_bag);
    assert!(!w.timed_jeopardy);
    assert_eq!(w.sub_name, None);
}

#[test]
fn fast_preset_values() {
    let w = Standard::fast_config();
    assert_eq!(w.back_to_back, 10);
    assert_eq!(w.bumpiness_sq, -28);
    assert_eq!(w.tslot, [0, 150, 296, 207]);
    assert_eq!(w.perfect_clear, 991);
    assert_eq!(w.mini_tspin2, -682);
}

#[test]
fn combo_garbage_table() {
    let expected = [0u32, 0, 1, 1, 2, 2, 3, 3, 4, 4, 4, 5];
    for (i, v) in expected.iter().enumerate() {
        assert_eq!(combo_garbage(i), *v);
    }
}

#[test]
fn empty_board_wasted_t_baseline() {
    // an empty board, default weights, a T dropped at the lowest flat
    // position: no clears and no T-spin, so the accumulated score is the
    // wasted-T penalty alone (move time is zero), and the transient score
    // is driven purely by the resulting height and bumpiness
    let mut board = board_from(empty_field());
    let lock = board.lock_piece(FallingPiece {
        kind: PieceState(Piece::T, RotationState::North),
        x: 4,
        y: 0,
        tspin: TspinStatus::NoSpin,
    });
    let w = Standard::default();
    let (transient, accumulated) = w.evaluate_board(&board, &lock, 0, Piece::T);
    // height term: -39 * 2; bumpiness terms: -24 * 3 twice, from the raw
    // accumulator -1 + four unit steps around the T
    assert_eq!(transient, -39 * 2 + -24 * 3 + -24 * 3);
    assert_eq!(accumulated, w.wasted_t);
}

#[test]
fn move_time_penalty_scales_and_clears_cost_extra() {
    let mut board = board_from(empty_field());
    let lock = board.lock_piece(FallingPiece {
        kind: PieceState(Piece::O, RotationState::North),
        x: 0,
        y: 0,
        tspin: TspinStatus::NoSpin,
    });
    let w = Standard::default();
    let (_, slow) = w.evaluate_board(&board, &lock, 100, Piece::O);
    let (_, fast) = w.evaluate_board(&board, &lock, 0, Piece::O);
    assert_eq!(slow - fast, w.move_time * 100);

    // a clearing lock pays the penalty on move time plus a bonus of forty
    let mut field = empty_field();
    for x in 0..6 {
        field[0][x] = true;
    }
    let mut board = board_from(field);
    let lock = board.lock_piece(FallingPiece {
        kind: PieceState(Piece::I, RotationState::North),
        x: 7,
        y: 0,
        tspin: TspinStatus::NoSpin,
    });
    assert!(lock.placement_kind.is_clear());
    let (_, acc) = w.evaluate_board(&board, &lock, 10, Piece::I);
    let (_, acc0) = w.evaluate_board(&board, &lock, 0, Piece::I);
    assert_eq!(acc - acc0, w.move_time * 10);
    // against a non-clearing lock at the same time, the forty-tick bonus
    // shows up once
    assert_eq!(acc0, w.perfect_clear + w.move_time * 40);
}

#[test]
fn perfect_clear_suppresses_event_bonuses() {
    // a perfect clear with an armed back-to-back and running combo: the
    // accumulated score holds only the perfect-clear bonus and the
    // move-time penalty; the b2b, combo and clear bonuses are suppressed
    let mut field = empty_field();
    for x in 0..6 {
        field[0][x] = true;
    }
    let mut board = board_from(field);
    board.b2b_bonus = true;
    board.combo = 5;
    let lock = board.lock_piece(FallingPiece {
        kind: PieceState(Piece::I, RotationState::North),
        x: 7,
        y: 0,
        tspin: TspinStatus::NoSpin,
    });
    assert!(lock.perfect_clear);
    // a single-line clear is not difficult, so no back-to-back is reported
    assert!(!lock.b2b);
    assert_eq!(lock.combo, Some(5));
    let w = Standard::default();
    let (_, acc) = w.evaluate_board(&board, &lock, 0, Piece::I);
    assert_eq!(acc, w.perfect_clear + w.move_time * 40);
    // the wasted-T penalty is an event term too: a T placed into a perfect
    // clear pays nothing beyond the always-applied move-time penalty
    let (_, acc_t) = w.evaluate_board(&board, &lock, 0, Piece::T);
    assert_eq!(acc_t, acc);
}

#[test]
fn mini_tspins_do_not_waste_the_t() {
    // a mini T-spin is a T-spin variant: the T was spent well, so no
    // wasted-T penalty comes on top of the mini bonus
    let mut field = empty_field();
    for x in 0..10 {
        if x != 4 {
            field[0][x] = true;
        }
    }
    field[5][0] = true;
    let mut board = board_from(field);
    let p = FallingPiece {
        kind: PieceState(Piece::T, RotationState::East),
        x: 4,
        y: 1,
        tspin: TspinStatus::Mini,
    };
    let lock = board.lock_piece(p);
    assert_eq!(lock.placement_kind, tetris_thinker::PlacementKind::MiniTspin1);
    assert!(!lock.perfect_clear);
    let w = Standard::default();
    let (_, acc_t) = w.evaluate_board(&board, &lock, 0, Piece::T);
    let (_, acc_other) = w.evaluate_board(&board, &lock, 0, Piece::L);
    assert_eq!(acc_t, acc_other);
}

#[test]
fn wasted_t_applies_exactly_once() {
    let mut board = board_from(empty_field());
    let lock = board.lock_piece(FallingPiece {
        kind: PieceState(Piece::T, RotationState::North),
        x: 4,
        y: 0,
        tspin: TspinStatus::NoSpin,
    });
    let w = Standard::default();
    let (_, with_t) = w.evaluate_board(&board, &lock, 0, Piece::T);
    let (_, with_other) = w.evaluate_board(&board, &lock, 0, Piece::L);
    assert_eq!(with_t - with_other, w.wasted_t);
}

fn sky_left_field() -> Vec<Vec<bool>> {
    let mut field = empty_field();
    field[0][0] = true;
    field[1][0] = true;
    field[1][2] = true;
    field[3][2] = true;
    field
}

#[test]
fn sky_slot_earns_tslot_credit() {
    // a board with a canonical sky T-slot and a T in the bag: the
    // evaluation must include a nonzero tslot contribution, isolated here
    // by zeroing the tslot table in a second weight vector
    let mut bag = no_bag();
    bag.t = true;
    let board =
        Board::new_with_state(sky_left_field(), bag, None, false, 0).expect("valid field");
    let lock = tetris_thinker::LockResult {
        placement_kind: tetris_thinker::PlacementKind::NoClear,
        b2b: false,
        combo: None,
        perfect_clear: false,
        cleared_lines: vec![],
    };
    let w = Standard::default();
    let mut w_no_tslot = Standard::default();
    w_no_tslot.tslot = [0, 0, 0, 0];
    let (with_credit, _) = w.evaluate_board(&board, &lock, 0, Piece::S);
    let (without_credit, _) = w_no_tslot.evaluate_board(&board, &lock, 0, Piece::S);
    // the discovered cutout clears no lines, so the credit is tslot[0]
    assert_eq!(with_credit - without_credit, w.tslot[0]);
    assert_ne!(with_credit, without_credit);

    // with the T removed from the bag and bag awareness disabled, the
    // fixed fallback count still grants the same single credit
    let board_no_t =
        Board::new_with_state(sky_left_field(), no_bag(), None, false, 0).expect("valid field");
    let mut w_no_bag = Standard::default();
    w_no_bag.use_bag = false;
    let (fallback_credit, _) = w_no_bag.evaluate_board(&board_no_t, &lock, 0, Piece::S);
    let (with_credit_no_t, _) = w.evaluate_board(&board_no_t, &lock, 0, Piece::S);
    assert_eq!(fallback_credit, with_credit);
    // with bag awareness on and no T anywhere, the bag-size bonus alone
    // still allows the attempt on this small bag
    assert_eq!(with_credit_no_t, with_credit);
}

#[test]
fn chained_double_cutout_earns_the_double_credit() {
    // a sky T-slot whose simulated T-spin clears two rows: the chain earns
    // tslot[2] and continues on the cleared board, where no further shape
    // exists
    let mut field = empty_field();
    for x in 0..10 {
        if x != 2 {
            field[0][x] = true;
        }
        if x != 1 {
            field[1][x] = true;
        }
        if x > 2 {
            field[2][x] = true;
        }
    }
    field[3][2] = true;
    let mut bag = no_bag();
    bag.t = true;
    let board = Board::new_with_state(field, bag, None, false, 0).expect("valid field");
    let lock = tetris_thinker::LockResult {
        placement_kind: tetris_thinker::PlacementKind::NoClear,
        b2b: false,
        combo: None,
        perfect_clear: false,
        cleared_lines: vec![],
    };
    let w = Standard::default();
    let mut w_no_tslot = Standard::default();
    w_no_tslot.tslot = [0, 0, 0, 0];
    let (with_credit, _) = w.evaluate_board(&board, &lock, 0, Piece::S);
    let (without_credit, _) = w_no_tslot.evaluate_board(&board, &lock, 0, Piece::S);
    assert_eq!(with_credit - without_credit, w.tslot[2]);
}

#[test]
fn shield_cell_swaps_cavity_for_overhang() {
    // two boards differing in a single filled cell at (3, 0): without it
    // the hole at (4, 1) is an overhang, with it a cavity. The covered-cell
    // totals agree, so the score difference is exactly the reclassification
    // delta plus the squared-bumpiness effect of the one height step the
    // shielding cell introduces.
    let mut field_a = empty_field();
    field_a[2][4] = true;
    field_a[3][4] = true;
    field_a[0][5] = true;
    let mut field_b = field_a.clone();
    field_b[0][3] = true;
    let board_a = board_from(field_a);
    let board_b = board_from(field_b);
    let lock = tetris_thinker::LockResult {
        placement_kind: tetris_thinker::PlacementKind::NoClear,
        b2b: false,
        combo: None,
        perfect_clear: false,
        cleared_lines: vec![],
    };
    let w = Standard::default();
    let (ta, aa) = w.evaluate_board(&board_a, &lock, 0, Piece::S);
    let (tb, ab) = w.evaluate_board(&board_b, &lock, 0, Piece::S);
    assert_eq!(aa, ab);
    // reclassification: one more cavity (-173), the unweighted squared
    // cavity term grows by 3, the overhang ledger drops by one linear
    // (cross-wired weight -3) and one squared (-1) entry; the height step
    // changes the squared bumpiness sum from 25 to 19 under weight -24
    let reclassification = -173 + 3 + 3 + 1;
    let bumpiness_step = -24 * (19 - 25);
    assert_eq!(tb - ta, reclassification + bumpiness_step);
}
