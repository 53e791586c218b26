use vstd::prelude::*;
use crate::board::Board;
use crate::cutout::{cutout_tslot, spec_t_availability, spec_tslot_bonus, t_availability};
use crate::detect::find_tslot;
use crate::lock::{kind_is_clear, LockResult, PlacementKind};
use crate::board::col_h;
use crate::metrics::{
    abs_val, bumpiness, cav_cell, cavities_and_overhangs, cov_limit, cov_val, covered_cells,
    find_well, lemma_one_cell_fill_metrics, max_height, one_cell_filled, ovh_cell, spec_bump_raw,
    spec_bump_sq_raw, spec_cavities, spec_covered, spec_covered_sq, spec_max_height,
    spec_overhangs, spec_well,
};
use crate::piece::Piece;
use crate::weights::{combo_garbage, spec_combo_garbage, Standard};

verus! {

/// The non-negative part of a value.
pub open spec fn max0(v: int) -> int {
    if v > 0 {
        v
    } else {
        0
    }
}

/// A combo count capped at eleven, the table's last entry.
pub open spec fn cap11(c: int) -> int {
    if c < 11 {
        c
    } else {
        11
    }
}

/// Division by ten that truncates toward zero, as the scoring arithmetic
/// performs it on machine integers.
pub open spec fn tdiv10(n: int) -> int {
    if n >= 0 {
        n / 10
    } else {
        -((-n) / 10)
    }
}

/// A product of two values within symmetric bounds stays within the
/// product of the bounds.
pub proof fn lemma_mul_bound(a: int, b: int, ca: int, cb: int)
    requires
        -ca <= a <= ca,
        -cb <= b <= cb,
        0 <= ca,
        0 <= cb,
    ensures
        -(ca * cb) <= a * b <= ca * cb,
{
    assert(-(ca * cb) <= a * b <= ca * cb) by (nonlinear_arith)
        requires
            -ca <= a <= ca,
            -cb <= b <= cb,
            0 <= ca,
            0 <= cb,
    ;
}

/// The perfect-clear bonus, owed exactly when the lock was a perfect clear.
pub open spec fn spec_pc_term(w: Standard, lock: LockResult) -> int {
    if lock.perfect_clear {
        w.perfect_clear as int
    } else {
        0
    }
}

/// The back-to-back event bonus, suppressed on a perfect clear.
pub open spec fn spec_b2b_term(w: Standard, lock: LockResult) -> int {
    if !lock.perfect_clear && lock.b2b {
        w.b2b_clear as int
    } else {
        0
    }
}

/// The combo bonus: the combo weight scaled by the capped combo-garbage
/// table entry, suppressed on a perfect clear.
pub open spec fn spec_combo_term(w: Standard, lock: LockResult) -> int {
    if !lock.perfect_clear {
        match lock.combo {
            Option::Some(c) => w.combo_garbage * spec_combo_garbage(cap11(c as int)),
            Option::None => 0,
        }
    } else {
        0
    }
}

/// The weight owed for the placement kind itself.
pub open spec fn kind_weight(w: Standard, k: PlacementKind) -> int {
    match k {
        PlacementKind::Clear1 => w.clear1 as int,
        PlacementKind::Clear2 => w.clear2 as int,
        PlacementKind::Clear3 => w.clear3 as int,
        PlacementKind::Clear4 => w.clear4 as int,
        PlacementKind::Tspin1 => w.tspin1 as int,
        PlacementKind::Tspin2 => w.tspin2 as int,
        PlacementKind::Tspin3 => w.tspin3 as int,
        PlacementKind::MiniTspin1 => w.mini_tspin1 as int,
        PlacementKind::MiniTspin2 => w.mini_tspin2 as int,
        _ => 0,
    }
}

/// The placement-kind bonus, suppressed on a perfect clear.
pub open spec fn spec_kind_term(w: Standard, lock: LockResult) -> int {
    if !lock.perfect_clear {
        kind_weight(w, lock.placement_kind)
    } else {
        0
    }
}

/// Whether the placement is a line-clearing T-spin variant, full or mini:
/// the locks that spend a T piece well.
pub open spec fn kind_is_tspin_variant(k: PlacementKind) -> bool {
    match k {
        PlacementKind::Tspin1 | PlacementKind::Tspin2 | PlacementKind::Tspin3
        | PlacementKind::MiniTspin1 | PlacementKind::MiniTspin2 => true,
        _ => false,
    }
}

/// The wasted-T penalty: owed when a T piece was placed without scoring any
/// line-clearing T-spin variant, and suppressed like the other event terms
/// on a perfect clear.
pub open spec fn spec_wasted_term(w: Standard, lock: LockResult, placed: Piece) -> int {
    if !lock.perfect_clear && placed == Piece::T && !kind_is_tspin_variant(lock.placement_kind) {
        w.wasted_t as int
    } else {
        0
    }
}

/// The move time used for penalties: raised by a fixed bonus of forty when
/// the lock cleared lines, so slow non-scoring placements cost more.
pub open spec fn spec_mt_adj(lock: LockResult, mt: int) -> int {
    if kind_is_clear(lock.placement_kind) {
        mt + 40
    } else {
        mt
    }
}

/// The move-time penalty, always applied.
pub open spec fn spec_movetime_term(w: Standard, lock: LockResult, mt: int) -> int {
    w.move_time * spec_mt_adj(lock, mt)
}

/// The jeopardy penalty: scaled by the height above ten and, when timed
/// jeopardy is enabled, by the adjusted move time, else by a fixed ten;
/// then divided by ten, truncating toward zero.
pub open spec fn spec_jeopardy_term(w: Standard, lock: LockResult, mt: int, hp: int) -> int {
    tdiv10(
        w.jeopardy * max0(hp - 10) * (if w.timed_jeopardy {
            spec_mt_adj(lock, mt)
        } else {
            10
        }),
    )
}

/// The event-accumulated score: one-time rewards tied to the lock that just
/// happened. On a perfect clear every event term except the perfect-clear
/// bonus is suppressed; only the move-time and jeopardy penalties apply
/// regardless.
pub open spec fn spec_accumulated(
    w: Standard,
    lock: LockResult,
    mt: int,
    placed: Piece,
    hp: int,
) -> int {
    spec_pc_term(w, lock) + spec_b2b_term(w, lock) + spec_combo_term(w, lock) + spec_kind_term(
        w,
        lock,
    ) + spec_wasted_term(w, lock, placed) + spec_movetime_term(w, lock, mt) + spec_jeopardy_term(
        w,
        lock,
        mt,
        hp,
    )
}

/// The board-shape terms of the transient score. The squared bumpiness
/// shares the linear bumpiness weight, the squared cavity count goes
/// unweighted, and the linear overhang count uses the squared-cavity
/// weight: the cross-wired weight usage of the tuned presets, preserved
/// exactly.
pub open spec fn spec_transient_base(w: Standard, b: Board) -> int {
    let g = b.grid();
    let hp = spec_max_height(g);
    let well = spec_well(g);
    let cav = spec_cavities(g);
    let ovh = spec_overhangs(g);
    (if b.b2b_bonus {
        w.back_to_back as int
    } else {
        0
    }) + w.top_quarter * max0(hp - 15) + w.top_half * max0(hp - 10) + w.height * hp + w.bumpiness
        * abs_val(spec_bump_raw(g, well)) + w.bumpiness * abs_val(spec_bump_sq_raw(g, well))
        + w.cavity_cells * cav + cav * cav + w.cavity_cells_sq * ovh + w.overhang_cells_sq * ovh
        * ovh + w.covered_cells * spec_covered(g) + w.covered_cells_sq * spec_covered_sq(g)
}

/// The transient score: the board-shape terms plus the T-slot potential
/// earned by the cutout chain.
pub open spec fn spec_transient(w: Standard, b: Board) -> int {
    spec_transient_base(w, b) + spec_tslot_bonus(
        w,
        b.grid(),
        spec_t_availability(w, b) as nat,
    )
}

/// On a perfect clear, the accumulated score holds the perfect-clear bonus
/// and only the always-applied penalties beside it: the back-to-back,
/// combo, placement-kind and wasted-T terms are all suppressed.
pub proof fn lemma_perfect_clear_suppresses_events(
    w: Standard,
    lock: LockResult,
    mt: int,
    placed: Piece,
    hp: int,
)
    requires
        lock.perfect_clear,
    ensures
        spec_accumulated(w, lock, mt, placed, hp) == w.perfect_clear + spec_movetime_term(
            w,
            lock,
            mt,
        ) + spec_jeopardy_term(w, lock, mt, hp),
{
}

/// A T piece placed without scoring any line-clearing T-spin variant incurs
/// the wasted-T penalty exactly once (outside a perfect clear): against any
/// other placed piece, the accumulated score differs by exactly that
/// weight.
pub proof fn lemma_wasted_t_exactly_once(
    w: Standard,
    lock: LockResult,
    mt: int,
    other: Piece,
    hp: int,
)
    requires
        !lock.perfect_clear,
        !kind_is_tspin_variant(lock.placement_kind),
        other != Piece::T,
    ensures
        spec_accumulated(w, lock, mt, Piece::T, hp) == spec_accumulated(w, lock, mt, other, hp)
            + w.wasted_t,
{
}

/// Filling one cell strictly below its column's top, with the bag, hold,
/// back-to-back state and discovered T-slot chain unchanged, moves the
/// transient score by exactly the terms that cell sat in: its cavity or
/// overhang ledger entry and its covered-cell contribution. Every height,
/// bumpiness and well term cancels, and the accumulated score, which reads
/// the board only through its maximum height, is unaffected.
pub proof fn lemma_one_cell_fill_transient(w: Standard, b1: Board, b2: Board, cx: int, cy: int)
    requires
        one_cell_filled(b1.grid(), b2.grid(), cx, cy),
        cy < col_h(b1.grid(), cx),
        b1.b2b_bonus == b2.b2b_bonus,
        b1.bag == b2.bag,
        b1.hold_piece == b2.hold_piece,
        spec_tslot_bonus(w, b2.grid(), spec_t_availability(w, b2) as nat) == spec_tslot_bonus(
            w,
            b1.grid(),
            spec_t_availability(w, b1) as nat,
        ),
    ensures
        spec_max_height(b2.grid()) == spec_max_height(b1.grid()),
        spec_cavities(b2.grid()) == spec_cavities(b1.grid()) - (if cav_cell(b1.grid(), cx, cy) {
            1int
        } else {
            0
        }),
        spec_overhangs(b2.grid()) == spec_overhangs(b1.grid()) - (if ovh_cell(
            b1.grid(),
            cx,
            cy,
        ) {
            1int
        } else {
            0
        }),
        spec_covered(b2.grid()) == spec_covered(b1.grid()) - (if cy < cov_limit(
            b1.grid(),
            cx,
        ) {
            cov_val(b1.grid(), cx, cy)
        } else {
            0
        }),
        spec_covered_sq(b2.grid()) == spec_covered_sq(b1.grid()) - (if cy < cov_limit(
            b1.grid(),
            cx,
        ) {
            cov_val(b1.grid(), cx, cy) * cov_val(b1.grid(), cx, cy)
        } else {
            0
        }),
        spec_transient(w, b2) - spec_transient(w, b1) == (w.cavity_cells * spec_cavities(
            b2.grid(),
        ) - w.cavity_cells * spec_cavities(b1.grid())) + (spec_cavities(b2.grid())
            * spec_cavities(b2.grid()) - spec_cavities(b1.grid()) * spec_cavities(b1.grid())) + (
        w.cavity_cells_sq * spec_overhangs(b2.grid()) - w.cavity_cells_sq * spec_overhangs(
            b1.grid(),
        )) + (w.overhang_cells_sq * spec_overhangs(b2.grid()) * spec_overhangs(b2.grid())
            - w.overhang_cells_sq * spec_overhangs(b1.grid()) * spec_overhangs(b1.grid())) + (
        w.covered_cells * spec_covered(b2.grid()) - w.covered_cells * spec_covered(b1.grid())) + (
        w.covered_cells_sq * spec_covered_sq(b2.grid()) - w.covered_cells_sq * spec_covered_sq(
            b1.grid(),
        )),
{
    let g1 = b1.grid();
    let g2 = b2.grid();
    lemma_one_cell_fill_metrics(g1, g2, cx, cy);
    assert(spec_t_availability(w, b2) == spec_t_availability(w, b1));
    assert(spec_well(g2) == spec_well(g1));
    assert(spec_max_height(g2) == spec_max_height(g1));
    assert(abs_val(spec_bump_raw(g2, spec_well(g2))) == abs_val(spec_bump_raw(g1, spec_well(g1))));
    assert(abs_val(spec_bump_sq_raw(g2, spec_well(g2))) == abs_val(
        spec_bump_sq_raw(g1, spec_well(g1)),
    ));
}

impl Standard {
    /// Computes the event-accumulated score for a lock outcome.
    #[verifier::rlimit(100)]
    fn accumulated(
        &self,
        lock: &LockResult,
        move_time: u32,
        placed: Piece,
        highest_point: i32,
    ) -> (r: i32)
        requires
            self.bounded(),
            move_time <= 10000,
            0 <= highest_point <= 40,
        ensures
            r as int == spec_accumulated(
                *self,
                *lock,
                move_time as int,
                placed,
                highest_point as int,
            ),
            -100_000_000 <= r <= 100_000_000,
    {
        let mut acc_eval: i32 = 0;

        if lock.perfect_clear {
            acc_eval += self.perfect_clear;
        }
        if !lock.perfect_clear {
            if lock.b2b {
                acc_eval += self.b2b_clear;
            }
            if let Some(combo) = lock.combo {
                let capped: u32 = if combo < 11 {
                    combo
                } else {
                    11
                };
                let garbage = combo_garbage(capped as usize);
                proof {
                    lemma_mul_bound(self.combo_garbage as int, garbage as int, 2000, 5);
                }
                acc_eval += self.combo_garbage * (garbage as i32);
            }
            acc_eval += self.kind_bonus(lock.placement_kind);

            if placed == Piece::T {
                match lock.placement_kind {
                    PlacementKind::Tspin1 | PlacementKind::Tspin2 | PlacementKind::Tspin3
                    | PlacementKind::MiniTspin1 | PlacementKind::MiniTspin2 => {},
                    _ => {
                        acc_eval += self.wasted_t;
                    },
                }
            }
        }

        let move_time: i32 = if lock.placement_kind.is_clear() {
            move_time as i32 + 40
        } else {
            move_time as i32
        };
        proof {
            lemma_mul_bound(self.move_time as int, move_time as int, 2000, 10040);
        }
        acc_eval += self.move_time * move_time;

        let jeopardy_term = self.jeopardy_penalty(move_time, highest_point);
        acc_eval += jeopardy_term;
        acc_eval
    }

    /// Looks up the weight owed for a placement kind.
    fn kind_bonus(&self, k: PlacementKind) -> (r: i32)
        requires
            self.bounded(),
        ensures
            r as int == kind_weight(*self, k),
            -2000 <= r <= 2000,
    {
        match k {
            PlacementKind::Clear1 => self.clear1,
            PlacementKind::Clear2 => self.clear2,
            PlacementKind::Clear3 => self.clear3,
            PlacementKind::Clear4 => self.clear4,
            PlacementKind::Tspin1 => self.tspin1,
            PlacementKind::Tspin2 => self.tspin2,
            PlacementKind::Tspin3 => self.tspin3,
            PlacementKind::MiniTspin1 => self.mini_tspin1,
            PlacementKind::MiniTspin2 => self.mini_tspin2,
            _ => 0,
        }
    }

    /// Computes the jeopardy penalty from the already-adjusted move time.
    fn jeopardy_penalty(&self, adjusted_move_time: i32, highest_point: i32) -> (r: i32)
        requires
            self.bounded(),
            0 <= adjusted_move_time <= 10040,
            0 <= highest_point <= 40,
        ensures
            r as int == tdiv10(
                (self.jeopardy as int) * max0(highest_point as int - 10) * (
                if self.timed_jeopardy {
                    adjusted_move_time as int
                } else {
                    10
                }),
            ),
            -60_240_000 <= r <= 60_240_000,
    {
        let top_h = if highest_point - 10 > 0 {
            highest_point - 10
        } else {
            0
        };
        let jeopardy_factor: i32 = if self.timed_jeopardy {
            adjusted_move_time
        } else {
            10
        };
        proof {
            lemma_mul_bound(self.jeopardy as int, top_h as int, 2000, 30);
        }
        let jeopardy_prod = self.jeopardy * top_h;
        proof {
            lemma_mul_bound(jeopardy_prod as int, jeopardy_factor as int, 60000, 10040);
        }
        let jeopardy_scaled = jeopardy_prod * jeopardy_factor;
        let jeopardy_term: i32 = if jeopardy_scaled >= 0 {
            ((jeopardy_scaled as u32) / 10) as i32
        } else {
            -((((-jeopardy_scaled) as u32) / 10) as i32)
        };
        proof {
            assert(-60_240_000 <= jeopardy_term <= 60_240_000);
            assert(jeopardy_term as int == tdiv10(jeopardy_scaled as int));
        }
        jeopardy_term
    }

    /// Computes the board-shape terms of the transient score.
    fn transient_base(&self, board: &Board) -> (r: i32)
        requires
            self.bounded(),
            board.wf(),
        ensures
            r as int == spec_transient_base(*self, *board),
            -390_000_000 <= r <= 390_000_000,
    {
        let ghost g = board.grid();
        let mut transient_eval: i32 = 0;

        if board.b2b_bonus {
            transient_eval += self.back_to_back;
        }

        let highest_point = max_height(board);
        let top_q = if highest_point - 15 > 0 {
            highest_point - 15
        } else {
            0
        };
        let top_h = if highest_point - 10 > 0 {
            highest_point - 10
        } else {
            0
        };
        proof {
            lemma_mul_bound(self.top_quarter as int, top_q as int, 2000, 25);
            lemma_mul_bound(self.top_half as int, top_h as int, 2000, 30);
            lemma_mul_bound(self.height as int, highest_point as int, 2000, 40);
        }
        transient_eval += self.top_quarter * top_q;
        transient_eval += self.top_half * top_h;
        transient_eval += self.height * highest_point;

        let well = find_well(board);
        let (bump, bump_sq) = bumpiness(board, well);
        proof {
            lemma_mul_bound(self.bumpiness as int, bump as int, 2000, 360);
            lemma_mul_bound(self.bumpiness as int, bump_sq as int, 2000, 14400);
        }
        transient_eval += self.bumpiness * bump;
        transient_eval += self.bumpiness * bump_sq;

        let (cavity_cells, overhang_cells) = cavities_and_overhangs(board);
        proof {
            lemma_mul_bound(cavity_cells as int, self.cavity_cells as int, 400, 2000);
            lemma_mul_bound(cavity_cells as int, cavity_cells as int, 400, 400);
            lemma_mul_bound(overhang_cells as int, self.cavity_cells_sq as int, 400, 2000);
            lemma_mul_bound(overhang_cells as int, overhang_cells as int, 400, 400);
        }
        transient_eval += cavity_cells * self.cavity_cells;
        transient_eval += cavity_cells * cavity_cells;
        transient_eval += overhang_cells * self.cavity_cells_sq;
        let overhang_sq = overhang_cells * overhang_cells;
        proof {
            lemma_mul_bound(overhang_sq as int, self.overhang_cells_sq as int, 160000, 2000);
        }
        transient_eval += overhang_sq * self.overhang_cells_sq;

        let (covered, covered_sq) = covered_cells(board);
        proof {
            lemma_mul_bound(covered as int, self.covered_cells as int, 2400, 2000);
            lemma_mul_bound(covered_sq as int, self.covered_cells_sq as int, 14400, 2000);
        }
        transient_eval += covered * self.covered_cells;
        transient_eval += covered_sq * self.covered_cells_sq;
        proof {
            let cc = cavity_cells as int;
            let oc = overhang_cells as int;
            let cv = covered as int;
            let cvs = covered_sq as int;
            assert(cc * (self.cavity_cells as int) == (self.cavity_cells as int) * cc)
                by (nonlinear_arith);
            assert(oc * (self.cavity_cells_sq as int) == (self.cavity_cells_sq as int) * oc)
                by (nonlinear_arith);
            assert((oc * oc) * (self.overhang_cells_sq as int) == (self.overhang_cells_sq as int)
                * oc * oc) by (nonlinear_arith);
            assert(cv * (self.covered_cells as int) == (self.covered_cells as int) * cv)
                by (nonlinear_arith);
            assert(cvs * (self.covered_cells_sq as int) == (self.covered_cells_sq as int) * cvs)
                by (nonlinear_arith);
        }
        transient_eval
    }

    /// Evaluates a board and the lock that produced it: returns the pair of
    /// the transient (board-shape) score and the event-accumulated score,
    /// unsummed.
    pub fn evaluate_board(
        &self,
        board: &Board,
        lock: &LockResult,
        move_time: u32,
        placed: Piece,
    ) -> (r: (i32, i32))
        requires
            board.wf(),
            self.bounded(),
            move_time <= 10000,
        ensures
            r.0 as int == spec_transient(*self, *board),
            r.1 as int == spec_accumulated(
                *self,
                *lock,
                move_time as int,
                placed,
                spec_max_height(board.grid()),
            ),
            -400_000_000 <= r.0 <= 400_000_000,
            -100_000_000 <= r.1 <= 100_000_000,
    {
        let ghost g = board.grid();
        let highest_point = max_height(board);
        let acc_eval = self.accumulated(lock, move_time, placed, highest_point);
        let mut transient_eval = self.transient_base(board);

        let ts = t_availability(self, board);
        let ghost t_base = transient_eval as int;
        let mut cur = board.clone_board();
        let mut k: usize = 0;
        while k < ts
            invariant_except_break
                k <= ts,
                ts <= 3,
                self.bounded(),
                cur.wf(),
                transient_eval as int == t_base + spec_tslot_bonus(*self, g, ts as nat)
                    - spec_tslot_bonus(*self, cur.grid(), (ts - k) as nat),
                -390_000_000 <= t_base <= 390_000_000,
                -390_000_000 - 2000 * (k as int) <= transient_eval as int <= 390_000_000 + 2000 * (
                k as int),
            ensures
                transient_eval as int == t_base + spec_tslot_bonus(*self, g, ts as nat),
                -396_000_000 <= transient_eval <= 396_000_000,
            decreases ts - k,
        {
            let cutout_location = find_tslot(&cur);
            match cutout_location {
                None => {
                    proof {
                        assert(spec_tslot_bonus(*self, cur.grid(), (ts - k) as nat) == 0);
                    }
                    break ;
                },
                Some(location) => {
                    let cut = cutout_tslot(cur.clone_board(), location);
                    proof {
                        assert(-2000 <= self.tslot@[cut.lines as int] <= 2000);
                    }
                    transient_eval += self.tslot[cut.lines];
                    match cut.result {
                        Some(next_board) => {
                            cur = next_board;
                        },
                        None => {
                            proof {
                                assert(spec_tslot_bonus(*self, cur.grid(), (ts - k) as nat)
                                    == self.tslot@[cut.lines as int]);
                            }
                            break ;
                        },
                    }
                },
            }
            k += 1;
        }

        (transient_eval, acc_eval)
    }
}

} // verus!
