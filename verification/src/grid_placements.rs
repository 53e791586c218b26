use vstd::prelude::*;
use crate::board::Board;
use crate::lock::{
    count_full, lock_grid, placed_grid, spec_b2b_after, spec_classify, spec_combo_after,
};
use crate::piece::FallingPiece;

verus! {

/// A placement handed over by the legal-move search: the location at which
/// the piece is to be locked.
#[derive(Clone, Copy, Debug, PartialEq, Eq, Structural)]
pub struct Placement {
    pub location: FallingPiece,
}

/// Applies each placement to an independent clone of the board and returns
/// the resulting boards, one per placement, in order.
pub fn apply_placements(board: &Board, placements: &[Placement]) -> (r: Vec<Board>)
    requires
        board.wf(),
        forall|i: int|
            0 <= i < placements@.len() ==> (#[trigger] placements@[i]).location.cells_in_bounds(),
    ensures
        r@.len() == placements@.len(),
        forall|i: int|
            0 <= i < r@.len() ==> {
                let b = #[trigger] r@[i];
                let p = placements@[i].location;
                &&& b.wf()
                &&& b.grid() == lock_grid(board.grid(), p)
                &&& b.bag == board.bag
                &&& b.hold_piece == board.hold_piece
                &&& b.b2b_bonus == spec_b2b_after(
                    board.b2b_bonus,
                    spec_classify(count_full(placed_grid(board.grid(), p)), p.tspin),
                )
                &&& b.combo == spec_combo_after(
                    board.combo,
                    spec_classify(count_full(placed_grid(board.grid(), p)), p.tspin),
                )
            },
{
    let mut result_boards: Vec<Board> = Vec::new();
    let mut i: usize = 0;
    while i < placements.len()
        invariant
            i <= placements@.len(),
            board.wf(),
            forall|k: int|
                0 <= k < placements@.len() ==> (
                #[trigger] placements@[k]).location.cells_in_bounds(),
            result_boards@.len() == i,
            forall|k: int|
                0 <= k < i ==> {
                    let b = #[trigger] result_boards@[k];
                    let p = placements@[k].location;
                    &&& b.wf()
                    &&& b.grid() == lock_grid(board.grid(), p)
                    &&& b.bag == board.bag
                    &&& b.hold_piece == board.hold_piece
                    &&& b.b2b_bonus == spec_b2b_after(
                        board.b2b_bonus,
                        spec_classify(count_full(placed_grid(board.grid(), p)), p.tspin),
                    )
                    &&& b.combo == spec_combo_after(
                        board.combo,
                        spec_classify(count_full(placed_grid(board.grid(), p)), p.tspin),
                    )
                },
        decreases placements@.len() - i,
    {
        let mut new_board = board.clone_board();
        let _lock = new_board.lock_piece(placements[i].location);
        result_boards.push(new_board);
        i += 1;
    }
    result_boards
}

} // verus!
