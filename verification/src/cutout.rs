use vstd::prelude::*;
use crate::board::Board;
use crate::detect::spec_find_tslot;
use crate::lock::{
    clear_rows, count_full, lemma_t_lock_lines_le_3, placed_grid, spec_b2b_after, spec_classify,
    spec_combo_after, PlacementKind,
};
use crate::piece::{FallingPiece, Piece, TspinStatus};
use crate::weights::Standard;

verus! {

/// The outcome of simulating a forced full T-spin lock: how many lines it
/// cleared, and the resulting board when the chain may continue (a double
/// or triple clear).
pub struct Cutout {
    pub lines: usize,
    pub result: Option<Board>,
}

/// The piece with its T-spin tag forced to the full variant, as the cutout
/// simulator locks it.
pub open spec fn with_full_tag(p: FallingPiece) -> FallingPiece {
    FallingPiece { tspin: TspinStatus::Full, ..p }
}

/// The number of lines a forced full T-spin lock of the piece would clear.
pub open spec fn spec_cut_lines(g: Seq<Seq<bool>>, p: FallingPiece) -> int {
    count_full(placed_grid(g, with_full_tag(p)))
}

/// The grid left behind by a forced full T-spin lock of the piece.
pub open spec fn spec_cut_grid(g: Seq<Seq<bool>>, p: FallingPiece) -> Seq<Seq<bool>> {
    clear_rows(placed_grid(g, with_full_tag(p)))
}

/// Simulates locking the candidate T placement as a full T-spin on the
/// given board. A plain or single-line T-spin stops the chain; a double or
/// triple hands back the post-lock board so detection can continue on it.
pub fn cutout_tslot(board: Board, piece: FallingPiece) -> (r: Cutout)
    requires
        board.wf(),
        piece.cells_in_bounds(),
        piece.kind.0 == Piece::T,
    ensures
        r.lines as int == spec_cut_lines(board.grid(), piece),
        r.lines <= 3,
        (r.result is Some) == (r.lines == 2 || r.lines == 3),
        r.result is Some ==> {
            let b = r.result->Some_0;
            &&& b.wf()
            &&& b.grid() == spec_cut_grid(board.grid(), piece)
            &&& b.bag == board.bag
            &&& b.hold_piece == board.hold_piece
            &&& b.b2b_bonus == spec_b2b_after(
                board.b2b_bonus,
                spec_classify(spec_cut_lines(board.grid(), piece), TspinStatus::Full),
            )
            &&& b.combo == spec_combo_after(
                board.combo,
                spec_classify(spec_cut_lines(board.grid(), piece), TspinStatus::Full),
            )
        },
{
    let ghost g0 = board.grid();
    let ghost p_orig = piece;
    let mut board = board;
    let mut piece = piece;
    piece.tspin = TspinStatus::Full;
    let ghost p2 = piece;
    proof {
        assert(p2 == with_full_tag(p_orig));
        assert forall|i: int| 0 <= i < 4 implies 0 <= #[trigger] p2.cell_x(i) < 10 by {
            assert(p2.cell_x(i) == p_orig.cell_x(i));
        }
        assert forall|i: int| 0 <= i < 4 implies 0 <= #[trigger] p2.cell_y(i) < 40 by {
            assert(p2.cell_y(i) == p_orig.cell_y(i));
        }
        lemma_t_lock_lines_le_3(g0, p2);
    }
    let result = board.lock_piece(piece);
    proof {
        assert(result.placement_kind == spec_classify(spec_cut_lines(g0, p2), TspinStatus::Full));
    }
    match result.placement_kind {
        PlacementKind::Tspin => Cutout { lines: 0, result: None },
        PlacementKind::Tspin1 => Cutout { lines: 1, result: None },
        PlacementKind::Tspin2 => Cutout { lines: 2, result: Some(board) },
        PlacementKind::Tspin3 => Cutout { lines: 3, result: Some(board) },
        _ => {
            // a full-tagged T lock of at most three lines always classifies
            // as one of the four T-spin kinds above
            proof {
                assert(false);
            }
            Cutout { lines: 0, result: None }
        },
    }
}

/// How many chained cutouts the engine may attempt: the number of T pieces
/// in sight, with a bonus when the bag is nearly empty and one for a held
/// T; or a fixed assumption of one plus the held T when bag knowledge is
/// disabled.
pub open spec fn spec_t_availability(w: Standard, b: Board) -> int {
    if w.use_bag {
        (if b.bag.spec_contains(Piece::T) {
            1int
        } else {
            0
        }) + (if b.bag.spec_len() <= 3 {
            1int
        } else {
            0
        }) + (if b.hold_piece == Some(Piece::T) {
            1int
        } else {
            0
        })
    } else {
        1 + (if b.hold_piece == Some(Piece::T) {
            1int
        } else {
            0
        })
    }
}

/// Computes the T-availability count that caps the cutout chain.
pub fn t_availability(config: &Standard, board: &Board) -> (r: usize)
    ensures
        r as int == spec_t_availability(*config, *board),
        r <= 3,
{
    let holds_t = if let Some(p) = board.hold_piece {
        p == Piece::T
    } else {
        false
    };
    proof {
        assert(holds_t == (board.hold_piece == Some(Piece::T)));
    }
    if config.use_bag {
        let mut ts: usize = 0;
        if board.bag.contains(Piece::T) {
            ts += 1;
        }
        if board.bag.len() <= 3 {
            ts += 1;
        }
        if holds_t {
            ts += 1;
        }
        ts
    } else {
        if holds_t {
            2
        } else {
            1
        }
    }
}

/// The total T-slot bonus the cutout chain earns on a grid with up to `n`
/// attempts: each discovered cutout adds the table entry for its cleared
/// lines, and only a double or triple continues the chain on the post-lock
/// grid.
pub open spec fn spec_tslot_bonus(w: Standard, g: Seq<Seq<bool>>, n: nat) -> int
    decreases n,
{
    if n == 0 {
        0
    } else {
        match spec_find_tslot(g) {
            Option::None => 0,
            Option::Some(p) => {
                let lines = spec_cut_lines(g, p);
                w.tslot@[lines] + if lines == 2 || lines == 3 {
                    spec_tslot_bonus(w, spec_cut_grid(g, p), (n - 1) as nat)
                } else {
                    0
                }
            },
        }
    }
}

/// The number of cutouts the chain performs on a grid with up to `n`
/// attempts.
pub open spec fn spec_tslot_chain_len(g: Seq<Seq<bool>>, n: nat) -> nat
    decreases n,
{
    if n == 0 {
        0
    } else {
        match spec_find_tslot(g) {
            Option::None => 0,
            Option::Some(p) => {
                let lines = spec_cut_lines(g, p);
                1 + if lines == 2 || lines == 3 {
                    spec_tslot_chain_len(spec_cut_grid(g, p), (n - 1) as nat)
                } else {
                    0
                }
            },
        }
    }
}

/// With bag knowledge disabled, at least one cutout attempt is always
/// granted, whatever the bag holds: the fixed fallback assumption of one
/// visible T, plus one more for a held T.
pub proof fn lemma_fallback_attempts(w: Standard, b: Board)
    requires
        !w.use_bag,
    ensures
        spec_t_availability(w, b) >= 1,
{
}

/// Whenever an attempt is left and the detector cascade finds a slot, the
/// chain credits it: the bonus opens with the table entry for the cutout's
/// cleared lines, and continues on the post-cutout grid exactly for a
/// double or triple.
pub proof fn lemma_found_tslot_credited(w: Standard, g: Seq<Seq<bool>>, n: nat)
    requires
        n >= 1,
        spec_find_tslot(g) is Some,
    ensures
        ({
            let p = spec_find_tslot(g)->Some_0;
            let lines = spec_cut_lines(g, p);
            spec_tslot_bonus(w, g, n) == w.tslot@[lines] + (if lines == 2 || lines == 3 {
                spec_tslot_bonus(w, spec_cut_grid(g, p), (n - 1) as nat)
            } else {
                0
            })
        }),
{
}

/// The cutout chain always terminates: it never performs more cutouts than
/// the attempt cap it was given, on any board.
pub proof fn lemma_tslot_chain_len_bounded(g: Seq<Seq<bool>>, n: nat)
    ensures
        spec_tslot_chain_len(g, n) <= n,
    decreases n,
{
    if n > 0 {
        if spec_find_tslot(g) is Some {
            let p = spec_find_tslot(g)->Some_0;
            let lines = spec_cut_lines(g, p);
            if lines == 2 || lines == 3 {
                lemma_tslot_chain_len_bounded(spec_cut_grid(g, p), (n - 1) as nat);
            }
        }
    }
}

} // verus!
