use vstd::prelude::*;
use crate::board::{
    can_drop, col_h, dropped_y, grid_dims, lemma_above_height_empty, lemma_col_h_bounds, occ,
    piece_fits, spec_on_stack, Board,
};
use crate::piece::{FallingPiece, Piece, PieceState, RotationState, TspinStatus};

verus! {

/// A T placement proposed by a detector: a T piece whose four cells are all
/// free and inside the playfield, with its T-spin tag deliberately unset.
pub open spec fn tslot_candidate(g: Seq<Seq<bool>>, p: FallingPiece) -> bool {
    &&& p.kind.0 == Piece::T
    &&& p.tspin == TspinStatus::NoSpin
    &&& p.cells_in_bounds()
    &&& piece_fits(g, p)
}

/// A south-facing T whose four cells are free is a T-slot candidate.
proof fn lemma_south_candidate(g: Seq<Seq<bool>>, p: FallingPiece)
    requires
        p.kind == PieceState(Piece::T, RotationState::South),
        p.tspin == TspinStatus::NoSpin,
        !occ(g, p.x - 1, p.y as int),
        !occ(g, p.x as int, p.y as int),
        !occ(g, p.x + 1, p.y as int),
        !occ(g, p.x as int, p.y - 1),
    ensures
        tslot_candidate(g, p),
{
    assert forall|i: int| 0 <= i < 4 implies !occ(g, #[trigger] p.cell_x(i), p.cell_y(i)) by {
        if i == 0 {
            assert(p.cell_x(0) == p.x + 1 && p.cell_y(0) == p.y as int);
        } else if i == 1 {
            assert(p.cell_x(1) == p.x as int && p.cell_y(1) == p.y as int);
        } else if i == 2 {
            assert(p.cell_x(2) == p.x - 1 && p.cell_y(2) == p.y as int);
        } else {
            assert(p.cell_x(3) == p.x as int && p.cell_y(3) == p.y - 1);
        }
    }
    assert forall|i: int| 0 <= i < 4 implies 0 <= #[trigger] p.cell_x(i) < 10 by {
        assert(!occ(g, p.cell_x(i), p.cell_y(i)));
    }
    assert forall|i: int| 0 <= i < 4 implies 0 <= #[trigger] p.cell_y(i) < 40 by {
        assert(!occ(g, p.cell_x(i), p.cell_y(i)));
    }
}

/// A west-facing T whose four cells are free is a T-slot candidate.
proof fn lemma_west_candidate(g: Seq<Seq<bool>>, p: FallingPiece)
    requires
        p.kind == PieceState(Piece::T, RotationState::West),
        p.tspin == TspinStatus::NoSpin,
        !occ(g, p.x as int, p.y + 1),
        !occ(g, p.x as int, p.y as int),
        !occ(g, p.x as int, p.y - 1),
        !occ(g, p.x - 1, p.y as int),
    ensures
        tslot_candidate(g, p),
{
    assert forall|i: int| 0 <= i < 4 implies !occ(g, #[trigger] p.cell_x(i), p.cell_y(i)) by {
        if i == 0 {
            assert(p.cell_x(0) == p.x as int && p.cell_y(0) == p.y - 1);
        } else if i == 1 {
            assert(p.cell_x(1) == p.x as int && p.cell_y(1) == p.y as int);
        } else if i == 2 {
            assert(p.cell_x(2) == p.x as int && p.cell_y(2) == p.y + 1);
        } else {
            assert(p.cell_x(3) == p.x - 1 && p.cell_y(3) == p.y as int);
        }
    }
    assert forall|i: int| 0 <= i < 4 implies 0 <= #[trigger] p.cell_x(i) < 10 by {
        assert(!occ(g, p.cell_x(i), p.cell_y(i)));
    }
    assert forall|i: int| 0 <= i < 4 implies 0 <= #[trigger] p.cell_y(i) < 40 by {
        assert(!occ(g, p.cell_x(i), p.cell_y(i)));
    }
}

/// An east-facing T whose four cells are free is a T-slot candidate.
proof fn lemma_east_candidate(g: Seq<Seq<bool>>, p: FallingPiece)
    requires
        p.kind == PieceState(Piece::T, RotationState::East),
        p.tspin == TspinStatus::NoSpin,
        !occ(g, p.x as int, p.y + 1),
        !occ(g, p.x as int, p.y as int),
        !occ(g, p.x as int, p.y - 1),
        !occ(g, p.x + 1, p.y as int),
    ensures
        tslot_candidate(g, p),
{
    assert forall|i: int| 0 <= i < 4 implies !occ(g, #[trigger] p.cell_x(i), p.cell_y(i)) by {
        if i == 0 {
            assert(p.cell_x(0) == p.x as int && p.cell_y(0) == p.y + 1);
        } else if i == 1 {
            assert(p.cell_x(1) == p.x as int && p.cell_y(1) == p.y as int);
        } else if i == 2 {
            assert(p.cell_x(2) == p.x as int && p.cell_y(2) == p.y - 1);
        } else {
            assert(p.cell_x(3) == p.x + 1 && p.cell_y(3) == p.y as int);
        }
    }
    assert forall|i: int| 0 <= i < 4 implies 0 <= #[trigger] p.cell_x(i) < 10 by {
        assert(!occ(g, p.cell_x(i), p.cell_y(i)));
    }
    assert forall|i: int| 0 <= i < 4 implies 0 <= #[trigger] p.cell_y(i) < 40 by {
        assert(!occ(g, p.cell_x(i), p.cell_y(i)));
    }
}

// --- sky T-slot, left variant -------------------------------------------

/// The sky T-slot (left) template matches with its window at column `x`:
/// the notch column is at least one row lower than the column left of it,
/// and the column two to the right shows the filled-empty-filled profile.
pub open spec fn sky_left_match(g: Seq<Seq<bool>>, x: int) -> bool {
    let h1 = col_h(g, x);
    let h2 = col_h(g, x + 1);
    &&& h2 <= h1 - 1
    &&& occ(g, x + 2, h1 + 1)
    &&& !occ(g, x + 2, h1)
    &&& occ(g, x + 2, h1 - 1)
}

/// The placement the sky (left) detector proposes at window `x`.
pub open spec fn sky_left_piece(g: Seq<Seq<bool>>, x: int) -> FallingPiece {
    FallingPiece {
        kind: PieceState(Piece::T, RotationState::South),
        x: (x + 1) as i32,
        y: col_h(g, x) as i32,
        tspin: TspinStatus::NoSpin,
    }
}

/// First sky (left) match at or after window `x`.
pub open spec fn sky_left_scan(g: Seq<Seq<bool>>, x: int) -> Option<FallingPiece>
    decreases 8 - x,
{
    if x < 0 || x >= 8 {
        None
    } else if sky_left_match(g, x) {
        Some(sky_left_piece(g, x))
    } else {
        sky_left_scan(g, x + 1)
    }
}

/// The sky (left) detector's result.
pub open spec fn spec_sky_tslot_left(g: Seq<Seq<bool>>) -> Option<FallingPiece> {
    sky_left_scan(g, 0)
}

proof fn lemma_sky_left_candidate(g: Seq<Seq<bool>>, x: int)
    requires
        grid_dims(g),
        0 <= x <= 7,
        sky_left_match(g, x),
    ensures
        tslot_candidate(g, sky_left_piece(g, x)),
{
    let h1 = col_h(g, x);
    let h2 = col_h(g, x + 1);
    lemma_col_h_bounds(g, x, 40);
    lemma_col_h_bounds(g, x + 1, 40);
    assert(0 <= h1 < 40);
    lemma_above_height_empty(g, x, h1, 40);
    lemma_above_height_empty(g, x + 1, h1, 40);
    lemma_above_height_empty(g, x + 1, h1 - 1, 40);
    lemma_south_candidate(g, sky_left_piece(g, x));
}

// --- sky T-slot, right variant ------------------------------------------

/// The sky T-slot (right) template matches with its window at column `x`.
pub open spec fn sky_right_match(g: Seq<Seq<bool>>, x: int) -> bool {
    let h1 = col_h(g, x + 1);
    let h2 = col_h(g, x + 2);
    &&& h1 <= h2 - 1
    &&& occ(g, x, h2 + 1)
    &&& !occ(g, x, h2)
    &&& occ(g, x, h2 - 1)
}

/// The placement the sky (right) detector proposes at window `x`.
pub open spec fn sky_right_piece(g: Seq<Seq<bool>>, x: int) -> FallingPiece {
    FallingPiece {
        kind: PieceState(Piece::T, RotationState::South),
        x: (x + 1) as i32,
        y: col_h(g, x + 2) as i32,
        tspin: TspinStatus::NoSpin,
    }
}

/// First sky (right) match at or after window `x`.
pub open spec fn sky_right_scan(g: Seq<Seq<bool>>, x: int) -> Option<FallingPiece>
    decreases 8 - x,
{
    if x < 0 || x >= 8 {
        None
    } else if sky_right_match(g, x) {
        Some(sky_right_piece(g, x))
    } else {
        sky_right_scan(g, x + 1)
    }
}

/// The sky (right) detector's result.
pub open spec fn spec_sky_tslot_right(g: Seq<Seq<bool>>) -> Option<FallingPiece> {
    sky_right_scan(g, 0)
}

proof fn lemma_sky_right_candidate(g: Seq<Seq<bool>>, x: int)
    requires
        grid_dims(g),
        0 <= x <= 7,
        sky_right_match(g, x),
    ensures
        tslot_candidate(g, sky_right_piece(g, x)),
{
    let h1 = col_h(g, x + 1);
    let h2 = col_h(g, x + 2);
    lemma_col_h_bounds(g, x + 1, 40);
    lemma_col_h_bounds(g, x + 2, 40);
    assert(0 <= h2 < 40);
    lemma_above_height_empty(g, x + 2, h2, 40);
    lemma_above_height_empty(g, x + 1, h2, 40);
    lemma_above_height_empty(g, x + 1, h2 - 1, 40);
    lemma_south_candidate(g, sky_right_piece(g, x));
}

// --- TST twist, left variant --------------------------------------------

/// The TST twist (left) template matches with its window at column `x`.
pub open spec fn tst_left_match(g: Seq<Seq<bool>>, x: int) -> bool {
    let h1 = col_h(g, x);
    let h2 = col_h(g, x + 1);
    &&& h1 <= h2
    &&& occ(g, x - 1, h2) == occ(g, x - 1, h2 + 1)
    &&& occ(g, x + 2, h2 + 1)
    &&& !occ(g, x + 2, h2)
    &&& !occ(g, x + 2, h2 - 1)
    &&& !occ(g, x + 1, h2 - 2)
    &&& !occ(g, x + 2, h2 - 2)
    &&& !occ(g, x + 2, h2 - 3)
}

/// The placement the TST (left) detector proposes at window `x`.
pub open spec fn tst_left_piece(g: Seq<Seq<bool>>, x: int) -> FallingPiece {
    FallingPiece {
        kind: PieceState(Piece::T, RotationState::West),
        x: (x + 2) as i32,
        y: (col_h(g, x + 1) - 2) as i32,
        tspin: TspinStatus::NoSpin,
    }
}

/// First TST (left) match at or after window `x`.
pub open spec fn tst_left_scan(g: Seq<Seq<bool>>, x: int) -> Option<FallingPiece>
    decreases 8 - x,
{
    if x < 0 || x >= 8 {
        None
    } else if tst_left_match(g, x) {
        Some(tst_left_piece(g, x))
    } else {
        tst_left_scan(g, x + 1)
    }
}

/// The TST (left) detector's result.
pub open spec fn spec_tst_twist_left(g: Seq<Seq<bool>>) -> Option<FallingPiece> {
    tst_left_scan(g, 0)
}

proof fn lemma_tst_left_candidate(g: Seq<Seq<bool>>, x: int)
    requires
        grid_dims(g),
        0 <= x <= 7,
        tst_left_match(g, x),
    ensures
        tslot_candidate(g, tst_left_piece(g, x)),
{
    let h2 = col_h(g, x + 1);
    lemma_col_h_bounds(g, x + 1, 40);
    lemma_west_candidate(g, tst_left_piece(g, x));
}

// --- TST twist, right variant -------------------------------------------

/// The TST twist (right) template matches with its window at column `x`.
pub open spec fn tst_right_match(g: Seq<Seq<bool>>, x: int) -> bool {
    let h1 = col_h(g, x + 1);
    let h2 = col_h(g, x + 2);
    &&& h2 <= h1
    &&& occ(g, x + 3, h1) == occ(g, x + 3, h1 + 1)
    &&& occ(g, x, h1 + 1)
    &&& !occ(g, x, h1)
    &&& !occ(g, x, h1 - 1)
    &&& !occ(g, x, h1 - 2)
    &&& !occ(g, x + 1, h1 - 2)
    &&& !occ(g, x, h1 - 3)
}

/// The placement the TST (right) detector proposes at window `x`.
pub open spec fn tst_right_piece(g: Seq<Seq<bool>>, x: int) -> FallingPiece {
    FallingPiece {
        kind: PieceState(Piece::T, RotationState::East),
        x: x as i32,
        y: (col_h(g, x + 1) - 2) as i32,
        tspin: TspinStatus::NoSpin,
    }
}

/// First TST (right) match at or after window `x`.
pub open spec fn tst_right_scan(g: Seq<Seq<bool>>, x: int) -> Option<FallingPiece>
    decreases 8 - x,
{
    if x < 0 || x >= 8 {
        None
    } else if tst_right_match(g, x) {
        Some(tst_right_piece(g, x))
    } else {
        tst_right_scan(g, x + 1)
    }
}

/// The TST (right) detector's result.
pub open spec fn spec_tst_twist_right(g: Seq<Seq<bool>>) -> Option<FallingPiece> {
    tst_right_scan(g, 0)
}

proof fn lemma_tst_right_candidate(g: Seq<Seq<bool>>, x: int)
    requires
        grid_dims(g),
        0 <= x <= 7,
        tst_right_match(g, x),
    ensures
        tslot_candidate(g, tst_right_piece(g, x)),
{
    let h1 = col_h(g, x + 1);
    lemma_col_h_bounds(g, x + 1, 40);
    lemma_east_candidate(g, tst_right_piece(g, x));
}

// --- fin, left variant --------------------------------------------------

/// The fin (left) template matches with its window at column `x`: a longer
/// stepped profile with a floating block two rows below the notch.
pub open spec fn fin_left_match(g: Seq<Seq<bool>>, x: int) -> bool {
    let h1 = col_h(g, x);
    let h2 = col_h(g, x + 1);
    &&& h1 <= h2 + 1
    &&& occ(g, x + 2, h2 + 2)
    &&& occ(g, x + 3, h2 + 2)
    &&& !occ(g, x + 2, h2 + 1)
    &&& !occ(g, x + 3, h2 + 1)
    &&& !occ(g, x + 2, h2)
    &&& !occ(g, x + 3, h2)
    &&& occ(g, x + 4, h2)
    &&& !occ(g, x + 2, h2 - 1)
    &&& !occ(g, x + 3, h2 - 1)
    &&& occ(g, x + 2, h2 - 2)
    &&& !occ(g, x + 3, h2 - 2)
    &&& occ(g, x + 4, h2 - 2)
}

/// The placement the fin (left) detector proposes at window `x`.
pub open spec fn fin_left_piece(g: Seq<Seq<bool>>, x: int) -> FallingPiece {
    FallingPiece {
        kind: PieceState(Piece::T, RotationState::West),
        x: (x + 3) as i32,
        y: (col_h(g, x + 1) - 1) as i32,
        tspin: TspinStatus::NoSpin,
    }
}

/// First fin (left) match at or after window `x`; the window is four
/// columns wide, so seven positions exist.
pub open spec fn fin_left_scan(g: Seq<Seq<bool>>, x: int) -> Option<FallingPiece>
    decreases 7 - x,
{
    if x < 0 || x >= 7 {
        None
    } else if fin_left_match(g, x) {
        Some(fin_left_piece(g, x))
    } else {
        fin_left_scan(g, x + 1)
    }
}

/// The fin (left) detector's result.
pub open spec fn spec_fin_left(g: Seq<Seq<bool>>) -> Option<FallingPiece> {
    fin_left_scan(g, 0)
}

proof fn lemma_fin_left_candidate(g: Seq<Seq<bool>>, x: int)
    requires
        grid_dims(g),
        0 <= x <= 6,
        fin_left_match(g, x),
    ensures
        tslot_candidate(g, fin_left_piece(g, x)),
{
    let h2 = col_h(g, x + 1);
    lemma_col_h_bounds(g, x + 1, 40);
    lemma_west_candidate(g, fin_left_piece(g, x));
}

// --- fin, right variant -------------------------------------------------

/// The fin (right) template matches with its window at column `x`.
pub open spec fn fin_right_match(g: Seq<Seq<bool>>, x: int) -> bool {
    let h1 = col_h(g, x + 2);
    let h2 = col_h(g, x + 3);
    &&& h2 <= h1 + 1
    &&& occ(g, x - 1, h1)
    &&& occ(g, x - 1, h1 - 2)
    &&& occ(g, x, h1 + 2)
    &&& occ(g, x + 1, h1 + 2)
    &&& !occ(g, x, h1 + 1)
    &&& !occ(g, x + 1, h1 + 1)
    &&& !occ(g, x, h1)
    &&& !occ(g, x + 1, h1)
    &&& !occ(g, x, h1 - 1)
    &&& !occ(g, x + 1, h1 - 1)
    &&& !occ(g, x, h1 - 2)
    &&& occ(g, x + 1, h1 - 2)
}

/// The placement the fin (right) detector proposes at window `x`.
pub open spec fn fin_right_piece(g: Seq<Seq<bool>>, x: int) -> FallingPiece {
    FallingPiece {
        kind: PieceState(Piece::T, RotationState::East),
        x: x as i32,
        y: (col_h(g, x + 2) - 1) as i32,
        tspin: TspinStatus::NoSpin,
    }
}

/// First fin (right) match at or after window `x`.
pub open spec fn fin_right_scan(g: Seq<Seq<bool>>, x: int) -> Option<FallingPiece>
    decreases 7 - x,
{
    if x < 0 || x >= 7 {
        None
    } else if fin_right_match(g, x) {
        Some(fin_right_piece(g, x))
    } else {
        fin_right_scan(g, x + 1)
    }
}

/// The fin (right) detector's result.
pub open spec fn spec_fin_right(g: Seq<Seq<bool>>) -> Option<FallingPiece> {
    fin_right_scan(g, 0)
}

proof fn lemma_fin_right_candidate(g: Seq<Seq<bool>>, x: int)
    requires
        grid_dims(g),
        0 <= x <= 6,
        fin_right_match(g, x),
    ensures
        tslot_candidate(g, fin_right_piece(g, x)),
{
    let h1 = col_h(g, x + 2);
    lemma_col_h_bounds(g, x + 2, 40);
    lemma_east_candidate(g, fin_right_piece(g, x));
}

// --- executable detectors -----------------------------------------------

/// Detects a south-facing sky T-slot whose notch opens to the left.
pub fn sky_tslot_left(board: &Board) -> (r: Option<FallingPiece>)
    requires
        board.wf(),
    ensures
        r == spec_sky_tslot_left(board.grid()),
        r is Some ==> tslot_candidate(board.grid(), r->Some_0),
{
    let heights = board.column_heights();
    let mut x: usize = 0;
    while x < 8
        invariant
            x <= 8,
            board.wf(),
            heights@.len() == 10,
            forall|k: int| 0 <= k < 10 ==> heights@[k] == col_h(board.grid(), k),
            forall|k: int| 0 <= k < 10 ==> 0 <= #[trigger] heights@[k] <= 40,
            spec_sky_tslot_left(board.grid()) == sky_left_scan(board.grid(), x as int),
        decreases 8 - x,
    {
        let h1 = heights[x];
        let h2 = heights[x + 1];
        if h2 <= h1 - 1 && board.occupied(x as i32 + 2, h1 + 1) && !board.occupied(
            x as i32 + 2,
            h1,
        ) && board.occupied(x as i32 + 2, h1 - 1) {
            proof {
                lemma_sky_left_candidate(board.grid(), x as int);
            }
            return Some(
                FallingPiece {
                    kind: PieceState(Piece::T, RotationState::South),
                    x: x as i32 + 1,
                    y: h1,
                    tspin: TspinStatus::NoSpin,
                },
            );
        }
        x += 1;
    }
    None
}

/// Detects a south-facing sky T-slot whose notch opens to the right.
pub fn sky_tslot_right(board: &Board) -> (r: Option<FallingPiece>)
    requires
        board.wf(),
    ensures
        r == spec_sky_tslot_right(board.grid()),
        r is Some ==> tslot_candidate(board.grid(), r->Some_0),
{
    let heights = board.column_heights();
    let mut x: usize = 0;
    while x < 8
        invariant
            x <= 8,
            board.wf(),
            heights@.len() == 10,
            forall|k: int| 0 <= k < 10 ==> heights@[k] == col_h(board.grid(), k),
            forall|k: int| 0 <= k < 10 ==> 0 <= #[trigger] heights@[k] <= 40,
            spec_sky_tslot_right(board.grid()) == sky_right_scan(board.grid(), x as int),
        decreases 8 - x,
    {
        let h1 = heights[x + 1];
        let h2 = heights[x + 2];
        if h1 <= h2 - 1 && board.occupied(x as i32, h2 + 1) && !board.occupied(x as i32, h2)
            && board.occupied(x as i32, h2 - 1) {
            proof {
                lemma_sky_right_candidate(board.grid(), x as int);
            }
            return Some(
                FallingPiece {
                    kind: PieceState(Piece::T, RotationState::South),
                    x: x as i32 + 1,
                    y: h2,
                    tspin: TspinStatus::NoSpin,
                },
            );
        }
        x += 1;
    }
    None
}

/// Detects a west-facing TST twist slot.
pub fn tst_twist_left(board: &Board) -> (r: Option<FallingPiece>)
    requires
        board.wf(),
    ensures
        r == spec_tst_twist_left(board.grid()),
        r is Some ==> tslot_candidate(board.grid(), r->Some_0),
{
    let heights = board.column_heights();
    let mut x: usize = 0;
    while x < 8
        invariant
            x <= 8,
            board.wf(),
            heights@.len() == 10,
            forall|k: int| 0 <= k < 10 ==> heights@[k] == col_h(board.grid(), k),
            forall|k: int| 0 <= k < 10 ==> 0 <= #[trigger] heights@[k] <= 40,
            spec_tst_twist_left(board.grid()) == tst_left_scan(board.grid(), x as int),
        decreases 8 - x,
    {
        let h1 = heights[x];
        let h2 = heights[x + 1];
        if h1 <= h2 && board.occupied(x as i32 - 1, h2) == board.occupied(x as i32 - 1, h2 + 1)
            && board.occupied(x as i32 + 2, h2 + 1) && !board.occupied(x as i32 + 2, h2)
            && !board.occupied(x as i32 + 2, h2 - 1) && !board.occupied(x as i32 + 1, h2 - 2)
            && !board.occupied(x as i32 + 2, h2 - 2) && !board.occupied(x as i32 + 2, h2 - 3) {
            proof {
                lemma_tst_left_candidate(board.grid(), x as int);
            }
            return Some(
                FallingPiece {
                    kind: PieceState(Piece::T, RotationState::West),
                    x: x as i32 + 2,
                    y: h2 - 2,
                    tspin: TspinStatus::NoSpin,
                },
            );
        }
        x += 1;
    }
    None
}

/// Detects an east-facing TST twist slot.
pub fn tst_twist_right(board: &Board) -> (r: Option<FallingPiece>)
    requires
        board.wf(),
    ensures
        r == spec_tst_twist_right(board.grid()),
        r is Some ==> tslot_candidate(board.grid(), r->Some_0),
{
    let heights = board.column_heights();
    let mut x: usize = 0;
    while x < 8
        invariant
            x <= 8,
            board.wf(),
            heights@.len() == 10,
            forall|k: int| 0 <= k < 10 ==> heights@[k] == col_h(board.grid(), k),
            forall|k: int| 0 <= k < 10 ==> 0 <= #[trigger] heights@[k] <= 40,
            spec_tst_twist_right(board.grid()) == tst_right_scan(board.grid(), x as int),
        decreases 8 - x,
    {
        let h1 = heights[x + 1];
        let h2 = heights[x + 2];
        if h2 <= h1 && board.occupied(x as i32 + 3, h1) == board.occupied(x as i32 + 3, h1 + 1)
            && board.occupied(x as i32, h1 + 1) && !board.occupied(x as i32, h1)
            && !board.occupied(x as i32, h1 - 1) && !board.occupied(x as i32, h1 - 2)
            && !board.occupied(x as i32 + 1, h1 - 2) && !board.occupied(x as i32, h1 - 3) {
            proof {
                lemma_tst_right_candidate(board.grid(), x as int);
            }
            return Some(
                FallingPiece {
                    kind: PieceState(Piece::T, RotationState::East),
                    x: x as i32,
                    y: h1 - 2,
                    tspin: TspinStatus::NoSpin,
                },
            );
        }
        x += 1;
    }
    None
}

/// Detects a west-facing fin slot.
pub fn fin_left(board: &Board) -> (r: Option<FallingPiece>)
    requires
        board.wf(),
    ensures
        r == spec_fin_left(board.grid()),
        r is Some ==> tslot_candidate(board.grid(), r->Some_0),
{
    let heights = board.column_heights();
    let mut x: usize = 0;
    while x < 7
        invariant
            x <= 7,
            board.wf(),
            heights@.len() == 10,
            forall|k: int| 0 <= k < 10 ==> heights@[k] == col_h(board.grid(), k),
            forall|k: int| 0 <= k < 10 ==> 0 <= #[trigger] heights@[k] <= 40,
            spec_fin_left(board.grid()) == fin_left_scan(board.grid(), x as int),
        decreases 7 - x,
    {
        let h1 = heights[x];
        let h2 = heights[x + 1];
        if h1 <= h2 + 1 && board.occupied(x as i32 + 2, h2 + 2) && board.occupied(
            x as i32 + 3,
            h2 + 2,
        ) && !board.occupied(x as i32 + 2, h2 + 1) && !board.occupied(x as i32 + 3, h2 + 1)
            && !board.occupied(x as i32 + 2, h2) && !board.occupied(x as i32 + 3, h2)
            && board.occupied(x as i32 + 4, h2) && !board.occupied(x as i32 + 2, h2 - 1)
            && !board.occupied(x as i32 + 3, h2 - 1) && board.occupied(x as i32 + 2, h2 - 2)
            && !board.occupied(x as i32 + 3, h2 - 2) && board.occupied(x as i32 + 4, h2 - 2) {
            proof {
                lemma_fin_left_candidate(board.grid(), x as int);
            }
            return Some(
                FallingPiece {
                    kind: PieceState(Piece::T, RotationState::West),
                    x: x as i32 + 3,
                    y: h2 - 1,
                    tspin: TspinStatus::NoSpin,
                },
            );
        }
        x += 1;
    }
    None
}

/// Detects an east-facing fin slot.
pub fn fin_right(board: &Board) -> (r: Option<FallingPiece>)
    requires
        board.wf(),
    ensures
        r == spec_fin_right(board.grid()),
        r is Some ==> tslot_candidate(board.grid(), r->Some_0),
{
    let heights = board.column_heights();
    let mut x: usize = 0;
    while x < 7
        invariant
            x <= 7,
            board.wf(),
            heights@.len() == 10,
            forall|k: int| 0 <= k < 10 ==> heights@[k] == col_h(board.grid(), k),
            forall|k: int| 0 <= k < 10 ==> 0 <= #[trigger] heights@[k] <= 40,
            spec_fin_right(board.grid()) == fin_right_scan(board.grid(), x as int),
        decreases 7 - x,
    {
        let h1 = heights[x + 2];
        let h2 = heights[x + 3];
        if h2 <= h1 + 1 && board.occupied(x as i32 - 1, h1) && board.occupied(x as i32 - 1, h1 - 2)
            && board.occupied(x as i32, h1 + 2) && board.occupied(x as i32 + 1, h1 + 2)
            && !board.occupied(x as i32, h1 + 1) && !board.occupied(x as i32 + 1, h1 + 1)
            && !board.occupied(x as i32, h1) && !board.occupied(x as i32 + 1, h1)
            && !board.occupied(x as i32, h1 - 1) && !board.occupied(x as i32 + 1, h1 - 1)
            && !board.occupied(x as i32, h1 - 2) && board.occupied(x as i32 + 1, h1 - 2) {
            proof {
                lemma_fin_right_candidate(board.grid(), x as int);
            }
            return Some(
                FallingPiece {
                    kind: PieceState(Piece::T, RotationState::East),
                    x: x as i32,
                    y: h1 - 1,
                    tspin: TspinStatus::NoSpin,
                },
            );
        }
        x += 1;
    }
    None
}

// --- cave T-spin refinement ---------------------------------------------

/// In-place cave template around a dropped east-facing T.
pub open spec fn cave_east_first(g: Seq<Seq<bool>>, x: int, y: int) -> bool {
    !occ(g, x - 1, y) && occ(g, x - 1, y - 1) && occ(g, x + 1, y - 1) && occ(g, x - 1, y + 1)
}

/// Wall-shadow cave template one column over from a dropped east-facing T.
pub open spec fn cave_east_second(g: Seq<Seq<bool>>, x: int, y: int) -> bool {
    &&& !occ(g, x + 1, y - 1)
    &&& !occ(g, x + 2, y - 1)
    &&& !occ(g, x + 1, y - 2)
    &&& occ(g, x - 1, y)
    &&& occ(g, x + 2, y)
    &&& occ(g, x, y - 2)
    &&& occ(g, x + 2, y - 2)
}

/// In-place cave template around a dropped west-facing T.
pub open spec fn cave_west_first(g: Seq<Seq<bool>>, x: int, y: int) -> bool {
    !occ(g, x + 1, y) && occ(g, x + 1, y + 1) && occ(g, x + 1, y - 1) && occ(g, x - 1, y - 1)
}

/// Wall-shadow cave template one column over from a dropped west-facing T.
pub open spec fn cave_west_second(g: Seq<Seq<bool>>, x: int, y: int) -> bool {
    &&& !occ(g, x - 1, y - 1)
    &&& !occ(g, x - 2, y - 1)
    &&& !occ(g, x - 1, y - 2)
    &&& occ(g, x + 1, y)
    &&& occ(g, x - 2, y)
    &&& occ(g, x - 2, y - 2)
    &&& occ(g, x, y - 2)
}

/// A south-facing T with an unset T-spin tag at the given cell.
pub open spec fn south_t(x: int, y: int) -> FallingPiece {
    FallingPiece {
        kind: PieceState(Piece::T, RotationState::South),
        x: x as i32,
        y: y as i32,
        tspin: TspinStatus::NoSpin,
    }
}

/// The cave refinement of a seed placement: drop it straight down, then try
/// the in-place cave and the wall-shadow cave for its facing.
pub open spec fn spec_cave_tslot(g: Seq<Seq<bool>>, p0: FallingPiece) -> Option<FallingPiece> {
    let x = p0.x as int;
    let y = dropped_y(g, p0, p0.y as int);
    match p0.kind.1 {
        RotationState::East => if cave_east_first(g, x, y) {
            Some(south_t(x, y))
        } else if cave_east_second(g, x, y) {
            Some(south_t(x + 1, y - 1))
        } else {
            None
        },
        RotationState::West => if cave_west_first(g, x, y) {
            Some(south_t(x, y))
        } else if cave_west_second(g, x, y) {
            Some(south_t(x - 1, y - 1))
        } else {
            None
        },
        _ => None,
    }
}

/// Dropping a piece that fits leaves it fitting: each step down moves its
/// cells into cells that the drop check saw free.
pub proof fn lemma_drop_fits(g: Seq<Seq<bool>>, p0: FallingPiece, y: int)
    requires
        -1000 <= y <= 1000,
        piece_fits(g, FallingPiece { y: y as i32, ..p0 }),
    ensures
        dropped_y(g, p0, y) <= y,
        y >= 0 ==> dropped_y(g, p0, y) >= 0,
        y < 0 ==> dropped_y(g, p0, y) == y,
        piece_fits(g, FallingPiece { y: dropped_y(g, p0, y) as i32, ..p0 }),
    decreases y + 1001,
{
    if y >= 0 && can_drop(g, FallingPiece { y: y as i32, ..p0 }) {
        let py = FallingPiece { y: y as i32, ..p0 };
        crate::piece::lemma_anchor_cell(p0.kind);
        let i = choose|i: int|
            0 <= i < 4 && #[trigger] crate::piece::cell_dx(p0.kind, i) == 0
                && crate::piece::cell_dy(p0.kind, i) == 0;
        assert(!occ(g, py.cell_x(i), py.cell_y(i) - 1));
        assert(y >= 1);
        let pd = FallingPiece { y: (y - 1) as i32, ..p0 };
        assert forall|j: int| 0 <= j < 4 implies !occ(g, #[trigger] pd.cell_x(j), pd.cell_y(
            j,
        )) by {
            assert(!occ(g, py.cell_x(j), py.cell_y(j) - 1));
            assert(pd.cell_x(j) == py.cell_x(j) && pd.cell_y(j) == py.cell_y(j) - 1);
        }
        lemma_drop_fits(g, p0, y - 1);
        assert(dropped_y(g, p0, y) == dropped_y(g, p0, y - 1));
    }
}

/// Refines a seed placement into a cave T-spin placement if one of the two
/// cave templates around its dropped position matches.
pub fn cave_tslot(board: &Board, starting_point: FallingPiece) -> (r: Option<FallingPiece>)
    requires
        board.wf(),
        tslot_candidate(board.grid(), starting_point),
    ensures
        r == spec_cave_tslot(board.grid(), starting_point),
        r is Some ==> tslot_candidate(board.grid(), r->Some_0),
{
    let ghost g = board.grid();
    let ghost p0 = starting_point;
    let mut piece = starting_point;
    proof {
        assert forall|i: int| 0 <= i < 4 implies -2 <= #[trigger] crate::piece::cell_dx(
            piece.kind,
            i,
        ) <= 2 && -2 <= crate::piece::cell_dy(piece.kind, i) <= 2 by {
            crate::piece::lemma_cell_offsets_bounded(piece.kind, i);
        }
        assert(0 <= piece.cell_x(0) < 10 && 0 <= piece.cell_y(0) < 40);
        assert(-2 <= piece.x <= 11 && -2 <= piece.y <= 41);
        assert(FallingPiece { y: (p0.y as int) as i32, ..p0 } == p0);
        lemma_drop_fits(g, p0, p0.y as int);
    }
    piece.sonic_drop(board);
    let x = piece.x;
    let y = piece.y;
    proof {
        assert(piece == FallingPiece {
            y: (dropped_y(g, p0, p0.y as int)) as i32,
            ..p0
        });
        assert(piece_fits(g, piece));
        assert(-2 <= y <= 41);
    }
    match piece.kind.1 {
        RotationState::East => {
            if !board.occupied(x - 1, y) && board.occupied(x - 1, y - 1) && board.occupied(
                x + 1,
                y - 1,
            ) && board.occupied(x - 1, y + 1) {
                let p = FallingPiece {
                    x,
                    y,
                    kind: PieceState(Piece::T, RotationState::South),
                    tspin: TspinStatus::NoSpin,
                };
                proof {
                    assert(piece.cell_x(1) == x as int && piece.cell_y(1) == y as int);
                    assert(piece.cell_x(2) == x as int && piece.cell_y(2) == y - 1);
                    assert(piece.cell_x(3) == x + 1 && piece.cell_y(3) == y as int);
                    assert(!occ(g, piece.cell_x(1), piece.cell_y(1)));
                    assert(!occ(g, piece.cell_x(2), piece.cell_y(2)));
                    assert(!occ(g, piece.cell_x(3), piece.cell_y(3)));
                    lemma_south_candidate(g, p);
                }
                Some(p)
            } else if !board.occupied(x + 1, y - 1) && !board.occupied(x + 2, y - 1)
                && !board.occupied(x + 1, y - 2) && board.occupied(x - 1, y) && board.occupied(
                x + 2,
                y,
            ) && board.occupied(x, y - 2) && board.occupied(x + 2, y - 2) {
                let p = FallingPiece {
                    x: x + 1,
                    y: y - 1,
                    kind: PieceState(Piece::T, RotationState::South),
                    tspin: TspinStatus::NoSpin,
                };
                proof {
                    assert(piece.cell_x(2) == x as int && piece.cell_y(2) == y - 1);
                    assert(!occ(g, piece.cell_x(2), piece.cell_y(2)));
                    lemma_south_candidate(g, p);
                }
                Some(p)
            } else {
                None
            }
        },
        RotationState::West => {
            if !board.occupied(x + 1, y) && board.occupied(x + 1, y + 1) && board.occupied(
                x + 1,
                y - 1,
            ) && board.occupied(x - 1, y - 1) {
                let p = FallingPiece {
                    x,
                    y,
                    kind: PieceState(Piece::T, RotationState::South),
                    tspin: TspinStatus::NoSpin,
                };
                proof {
                    assert(piece.cell_x(0) == x as int && piece.cell_y(0) == y - 1);
                    assert(piece.cell_x(1) == x as int && piece.cell_y(1) == y as int);
                    assert(piece.cell_x(3) == x - 1 && piece.cell_y(3) == y as int);
                    assert(!occ(g, piece.cell_x(0), piece.cell_y(0)));
                    assert(!occ(g, piece.cell_x(1), piece.cell_y(1)));
                    assert(!occ(g, piece.cell_x(3), piece.cell_y(3)));
                    lemma_south_candidate(g, p);
                }
                Some(p)
            } else if !board.occupied(x - 1, y - 1) && !board.occupied(x - 2, y - 1)
                && !board.occupied(x - 1, y - 2) && board.occupied(x + 1, y) && board.occupied(
                x - 2,
                y,
            ) && board.occupied(x - 2, y - 2) && board.occupied(x, y - 2) {
                let p = FallingPiece {
                    x: x - 1,
                    y: y - 1,
                    kind: PieceState(Piece::T, RotationState::South),
                    tspin: TspinStatus::NoSpin,
                };
                proof {
                    assert(piece.cell_x(0) == x as int && piece.cell_y(0) == y - 1);
                    assert(!occ(g, piece.cell_x(0), piece.cell_y(0)));
                    lemma_south_candidate(g, p);
                }
                Some(p)
            } else {
                None
            }
        },
        _ => None,
    }
}

/// Occupancy agreement between two boards on the window of cells the cave
/// templates consult around two dropped seed positions: two columns either
/// side, from two rows below to one row above.
pub open spec fn cave_window_agrees(
    g1: Seq<Seq<bool>>,
    x1: int,
    y1: int,
    g2: Seq<Seq<bool>>,
    x2: int,
    y2: int,
) -> bool {
    forall|dx: int, dy: int|
        -2 <= dx <= 2 && -2 <= dy <= 1 ==> #[trigger] occ(g1, x1 + dx, y1 + dy) == occ(
            g2,
            x2 + dx,
            y2 + dy,
        )
}

/// The cave refinement is local: for two seeds of the same facing whose
/// dropped positions see the same occupancy cell for cell inside the cave
/// window, the refinement fires on both boards or on neither, and the
/// proposed placements sit at the same offset from the respective drop
/// positions.
pub proof fn lemma_cave_local(
    g1: Seq<Seq<bool>>,
    p1: FallingPiece,
    g2: Seq<Seq<bool>>,
    p2: FallingPiece,
)
    requires
        p1.kind == p2.kind,
        cave_window_agrees(
            g1,
            p1.x as int,
            dropped_y(g1, p1, p1.y as int),
            g2,
            p2.x as int,
            dropped_y(g2, p2, p2.y as int),
        ),
    ensures
        ({
            let x1 = p1.x as int;
            let y1 = dropped_y(g1, p1, p1.y as int);
            let x2 = p2.x as int;
            let y2 = dropped_y(g2, p2, p2.y as int);
            let r1 = spec_cave_tslot(g1, p1);
            let r2 = spec_cave_tslot(g2, p2);
            &&& (r1 is Some) == (r2 is Some)
            &&& (r1 is Some ==> {
                let q1 = r1->Some_0;
                let q2 = r2->Some_0;
                &&& q1.kind == q2.kind
                &&& q1.tspin == q2.tspin
                &&& q1.x - x1 == q2.x - x2
                &&& q1.y - y1 == q2.y - y2
            })
        }),
{
    let x1 = p1.x as int;
    let y1 = dropped_y(g1, p1, p1.y as int);
    let x2 = p2.x as int;
    let y2 = dropped_y(g2, p2, p2.y as int);
    // instantiate the agreement at each offset the templates read
    assert(occ(g1, x1 + (-2), y1 + (-2)) == occ(g2, x2 + (-2), y2 + (-2)));
    assert(occ(g1, x1 + (-2), y1 + (-1)) == occ(g2, x2 + (-2), y2 + (-1)));
    assert(occ(g1, x1 + (-2), y1 + 0) == occ(g2, x2 + (-2), y2 + 0));
    assert(occ(g1, x1 + (-1), y1 + (-2)) == occ(g2, x2 + (-1), y2 + (-2)));
    assert(occ(g1, x1 + (-1), y1 + (-1)) == occ(g2, x2 + (-1), y2 + (-1)));
    assert(occ(g1, x1 + (-1), y1 + 0) == occ(g2, x2 + (-1), y2 + 0));
    assert(occ(g1, x1 + (-1), y1 + 1) == occ(g2, x2 + (-1), y2 + 1));
    assert(occ(g1, x1 + 0, y1 + (-2)) == occ(g2, x2 + 0, y2 + (-2)));
    assert(occ(g1, x1 + 1, y1 + (-2)) == occ(g2, x2 + 1, y2 + (-2)));
    assert(occ(g1, x1 + 1, y1 + (-1)) == occ(g2, x2 + 1, y2 + (-1)));
    assert(occ(g1, x1 + 1, y1 + 0) == occ(g2, x2 + 1, y2 + 0));
    assert(occ(g1, x1 + 1, y1 + 1) == occ(g2, x2 + 1, y2 + 1));
    assert(occ(g1, x1 + 2, y1 + (-2)) == occ(g2, x2 + 2, y2 + (-2)));
    assert(occ(g1, x1 + 2, y1 + (-1)) == occ(g2, x2 + 2, y2 + (-1)));
    assert(occ(g1, x1 + 2, y1 + 0) == occ(g2, x2 + 2, y2 + 0));
    assert(cave_east_first(g1, x1, y1) == cave_east_first(g2, x2, y2));
    assert(cave_east_second(g1, x1, y1) == cave_east_second(g2, x2, y2));
    assert(cave_west_first(g1, x1, y1) == cave_west_first(g2, x2, y2));
    assert(cave_west_second(g1, x1, y1) == cave_west_second(g2, x2, y2));
    crate::board::lemma_dropped_range(g1, p1, p1.y as int);
    crate::board::lemma_dropped_range(g2, p2, p2.y as int);
}

// --- combined detector cascade ------------------------------------------

/// How many of the four diagonal corners around the placement are occupied.
pub open spec fn corners_filled(g: Seq<Seq<bool>>, p: FallingPiece) -> int {
    let x = p.x as int;
    let y = p.y as int;
    (if occ(g, x - 1, y - 1) {
        1int
    } else {
        0
    }) + (if occ(g, x + 1, y - 1) {
        1int
    } else {
        0
    }) + (if occ(g, x - 1, y + 1) {
        1int
    } else {
        0
    }) + (if occ(g, x + 1, y + 1) {
        1int
    } else {
        0
    })
}

/// The detector cascade, in its fixed priority order: sky left, sky right,
/// the TST twist pair refined by the cave templates or accepted on three
/// filled corners, then the fin pair. The first success wins.
pub open spec fn spec_find_tslot(g: Seq<Seq<bool>>) -> Option<FallingPiece> {
    if spec_sky_tslot_left(g) is Some {
        spec_sky_tslot_left(g)
    } else if spec_sky_tslot_right(g) is Some {
        spec_sky_tslot_right(g)
    } else {
        let tst = if spec_tst_twist_left(g) is Some {
            spec_tst_twist_left(g)
        } else {
            spec_tst_twist_right(g)
        };
        let mid = match tst {
            Option::None => None,
            Option::Some(t) => match spec_cave_tslot(g, t) {
                Option::Some(c) => Some(c),
                Option::None => if corners_filled(g, t) >= 3 && spec_on_stack(g, t) {
                    Some(t)
                } else {
                    None
                },
            },
        };
        if mid is Some {
            mid
        } else if spec_fin_left(g) is Some {
            spec_fin_left(g)
        } else {
            spec_fin_right(g)
        }
    }
}

/// Runs the detector cascade on a board.
pub fn find_tslot(board: &Board) -> (r: Option<FallingPiece>)
    requires
        board.wf(),
    ensures
        r == spec_find_tslot(board.grid()),
        r is Some ==> tslot_candidate(board.grid(), r->Some_0),
{
    let ghost g = board.grid();
    if let Some(p) = sky_tslot_left(board) {
        return Some(p);
    }
    if let Some(p) = sky_tslot_right(board) {
        return Some(p);
    }
    let tst = match tst_twist_left(board) {
        Some(t) => Some(t),
        None => tst_twist_right(board),
    };
    if let Some(t) = tst {
        if let Some(c) = cave_tslot(board, t) {
            return Some(c);
        }
        proof {
            assert forall|i: int| 0 <= i < 4 implies -2 <= #[trigger] crate::piece::cell_dx(
                t.kind,
                i,
            ) <= 2 && -2 <= crate::piece::cell_dy(t.kind, i) <= 2 by {
                crate::piece::lemma_cell_offsets_bounded(t.kind, i);
            }
            assert(0 <= t.cell_x(0) < 10 && 0 <= t.cell_y(0) < 40);
            assert(-2 <= t.x <= 11 && -2 <= t.y <= 41);
        }
        let mut corners: i32 = 0;
        if board.occupied(t.x - 1, t.y - 1) {
            corners += 1;
        }
        if board.occupied(t.x + 1, t.y - 1) {
            corners += 1;
        }
        if board.occupied(t.x - 1, t.y + 1) {
            corners += 1;
        }
        if board.occupied(t.x + 1, t.y + 1) {
            corners += 1;
        }
        proof {
            assert(corners == corners_filled(g, t));
        }
        if corners >= 3 && board.on_stack(&t) {
            return Some(t);
        }
    }
    if let Some(p) = fin_left(board) {
        return Some(p);
    }
    fin_right(board)
}

// --- locality of the shape detectors ------------------------------------

/// Occupancy queries on a column agree between two grids whose cells agree
/// on that column, out-of-bounds rows counting as solid in both.
proof fn lemma_occ_col_same(g1: Seq<Seq<bool>>, g2: Seq<Seq<bool>>, cx: int)
    requires
        forall|y: int| 0 <= y < 40 ==> g1[y][cx] == g2[y][cx],
    ensures
        forall|y: int| #[trigger] occ(g1, cx, y) == occ(g2, cx, y),
{
}

/// Carries cell agreement on a column range over to each single column and
/// its height.
proof fn lemma_cols_same(g1: Seq<Seq<bool>>, g2: Seq<Seq<bool>>, lo: int, hi: int, c: int)
    requires
        forall|cx: int, cy: int|
            lo <= cx <= hi && 0 <= cy < 40 ==> #[trigger] g1[cy][cx] == g2[cy][cx],
        lo <= c <= hi,
    ensures
        col_h(g1, c) == col_h(g2, c),
        forall|y: int| #[trigger] occ(g1, c, y) == occ(g2, c, y),
{
    assert forall|y: int| 0 <= y < 40 implies g1[y][c] == g2[y][c] by {
        assert(g1[y][c] == g2[y][c]);
    }
    crate::board::lemma_col_h_same(g1, g2, c, 40);
    lemma_occ_col_same(g1, g2, c);
}

/// The sky (left) detector is local: whether its template matches at a
/// window depends only on the three columns the window covers, so board
/// contents elsewhere cannot change the verdict.
pub proof fn lemma_sky_left_local(g1: Seq<Seq<bool>>, g2: Seq<Seq<bool>>, x: int)
    requires
        forall|cx: int, cy: int|
            x <= cx <= x + 2 && 0 <= cy < 40 ==> #[trigger] g1[cy][cx] == g2[cy][cx],
    ensures
        sky_left_match(g1, x) == sky_left_match(g2, x),
{
    lemma_cols_same(g1, g2, x, x + 2, x);
    lemma_cols_same(g1, g2, x, x + 2, x + 1);
    lemma_cols_same(g1, g2, x, x + 2, x + 2);
}

/// The sky (right) detector is local to its three-column window.
pub proof fn lemma_sky_right_local(g1: Seq<Seq<bool>>, g2: Seq<Seq<bool>>, x: int)
    requires
        forall|cx: int, cy: int|
            x <= cx <= x + 2 && 0 <= cy < 40 ==> #[trigger] g1[cy][cx] == g2[cy][cx],
    ensures
        sky_right_match(g1, x) == sky_right_match(g2, x),
{
    lemma_cols_same(g1, g2, x, x + 2, x);
    lemma_cols_same(g1, g2, x, x + 2, x + 1);
    lemma_cols_same(g1, g2, x, x + 2, x + 2);
}

/// The TST (left) detector is local to its window and the column just left
/// of it, which its step check consults.
pub proof fn lemma_tst_left_local(g1: Seq<Seq<bool>>, g2: Seq<Seq<bool>>, x: int)
    requires
        forall|cx: int, cy: int|
            x - 1 <= cx <= x + 2 && 0 <= cy < 40 ==> #[trigger] g1[cy][cx] == g2[cy][cx],
    ensures
        tst_left_match(g1, x) == tst_left_match(g2, x),
{
    lemma_cols_same(g1, g2, x - 1, x + 2, x - 1);
    lemma_cols_same(g1, g2, x - 1, x + 2, x);
    lemma_cols_same(g1, g2, x - 1, x + 2, x + 1);
    lemma_cols_same(g1, g2, x - 1, x + 2, x + 2);
}

/// The TST (right) detector is local to its window and the column just
/// right of it.
pub proof fn lemma_tst_right_local(g1: Seq<Seq<bool>>, g2: Seq<Seq<bool>>, x: int)
    requires
        forall|cx: int, cy: int|
            x <= cx <= x + 3 && 0 <= cy < 40 ==> #[trigger] g1[cy][cx] == g2[cy][cx],
    ensures
        tst_right_match(g1, x) == tst_right_match(g2, x),
{
    lemma_cols_same(g1, g2, x, x + 3, x);
    lemma_cols_same(g1, g2, x, x + 3, x + 1);
    lemma_cols_same(g1, g2, x, x + 3, x + 2);
    lemma_cols_same(g1, g2, x, x + 3, x + 3);
}

/// The fin (left) detector is local to the five columns its template
/// reads.
pub proof fn lemma_fin_left_local(g1: Seq<Seq<bool>>, g2: Seq<Seq<bool>>, x: int)
    requires
        forall|cx: int, cy: int|
            x <= cx <= x + 4 && 0 <= cy < 40 ==> #[trigger] g1[cy][cx] == g2[cy][cx],
    ensures
        fin_left_match(g1, x) == fin_left_match(g2, x),
{
    lemma_cols_same(g1, g2, x, x + 4, x);
    lemma_cols_same(g1, g2, x, x + 4, x + 1);
    lemma_cols_same(g1, g2, x, x + 4, x + 2);
    lemma_cols_same(g1, g2, x, x + 4, x + 3);
    lemma_cols_same(g1, g2, x, x + 4, x + 4);
}

/// The fin (right) detector is local to its window and the column just
/// left of it.
pub proof fn lemma_fin_right_local(g1: Seq<Seq<bool>>, g2: Seq<Seq<bool>>, x: int)
    requires
        forall|cx: int, cy: int|
            x - 1 <= cx <= x + 3 && 0 <= cy < 40 ==> #[trigger] g1[cy][cx] == g2[cy][cx],
    ensures
        fin_right_match(g1, x) == fin_right_match(g2, x),
{
    lemma_cols_same(g1, g2, x - 1, x + 3, x - 1);
    lemma_cols_same(g1, g2, x - 1, x + 3, x);
    lemma_cols_same(g1, g2, x - 1, x + 3, x + 1);
    lemma_cols_same(g1, g2, x - 1, x + 3, x + 2);
    lemma_cols_same(g1, g2, x - 1, x + 3, x + 3);
}

} // verus!
