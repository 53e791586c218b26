use vstd::prelude::*;
use crate::board::Board;
use crate::lock::LockResult;
use crate::metrics::spec_max_height;
use crate::piece::Piece;
use crate::score::{spec_accumulated, spec_transient};
use crate::weights::Standard;

verus! {

/// A candidate board paired with the lock outcome that produced it and its
/// summed score.
pub struct ScoredBoard {
    pub board: Board,
    pub lock: LockResult,
    pub score: i32,
}

/// The summed score of a candidate: transient plus accumulated.
pub open spec fn spec_score(w: Standard, cand: (Board, LockResult, u32, Piece)) -> int {
    spec_transient(w, cand.0) + spec_accumulated(
        w,
        cand.1,
        cand.2 as int,
        cand.3,
        spec_max_height(cand.0.grid()),
    )
}

/// Scores every candidate and returns the one with the maximum summed
/// score. Ties resolve to the candidate that appears last in the list: the
/// deterministic tie-break this selector commits to.
pub fn choose_best_board(mut boards: Vec<(Board, LockResult, u32, Piece)>, config: &Standard) -> (r:
    Option<ScoredBoard>)
    requires
        config.bounded(),
        forall|i: int|
            0 <= i < boards@.len() ==> (#[trigger] boards@[i]).0.wf() && boards@[i].2 <= 10000,
    ensures
        (r is Some) == (boards@.len() > 0),
        r is Some ==> {
            let sb = r->Some_0;
            exists|i: int|
                {
                    &&& 0 <= i < boards@.len()
                    &&& sb.board == (#[trigger] boards@[i]).0
                    &&& sb.lock == boards@[i].1
                    &&& sb.score as int == spec_score(*config, boards@[i])
                    &&& forall|j: int|
                        0 <= j < boards@.len() ==> spec_score(*config, #[trigger] boards@[j])
                            <= sb.score
                    &&& forall|j: int|
                        i < j < boards@.len() ==> spec_score(*config, #[trigger] boards@[j])
                            < sb.score
                }
        },
{
    if boards.len() == 0 {
        return None;
    }
    let first = &boards[0];
    let (t0, a0) = config.evaluate_board(&first.0, &first.1, first.2, first.3);
    let mut best_score: i32 = t0 + a0;
    let mut best_i: usize = 0;
    let mut j: usize = 1;
    while j < boards.len()
        invariant
            1 <= j <= boards@.len(),
            best_i < j,
            config.bounded(),
            forall|i: int|
                0 <= i < boards@.len() ==> (#[trigger] boards@[i]).0.wf() && boards@[i].2 <= 10000,
            best_score as int == spec_score(*config, boards@[best_i as int]),
            -500_000_000 <= best_score <= 500_000_000,
            forall|k: int|
                0 <= k < j ==> spec_score(*config, #[trigger] boards@[k]) <= best_score,
            forall|k: int|
                best_i < k < j ==> spec_score(*config, #[trigger] boards@[k]) < best_score,
        decreases boards@.len() - j,
    {
        let cand = &boards[j];
        let (t, a) = config.evaluate_board(&cand.0, &cand.1, cand.2, cand.3);
        let score = t + a;
        if score >= best_score {
            best_score = score;
            best_i = j;
        }
        j += 1;
    }
    let (board, lock, _move_time, _placed) = boards.remove(best_i);
    Some(ScoredBoard { board, lock, score: best_score })
}

} // verus!
