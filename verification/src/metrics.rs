use vstd::prelude::*;
use crate::board::{col_h, col_h_upto, lemma_col_h_bounds, Board};

verus! {

/// Absolute value of a mathematical integer.
pub open spec fn abs_val(x: int) -> int {
    if x < 0 {
        -x
    } else {
        x
    }
}

/// A value capped at six, the depth bound for buried-hole penalties.
pub open spec fn min6(v: int) -> int {
    if v < 6 {
        v
    } else {
        6
    }
}

/// The well column considering the first `n` columns: the lowest column,
/// ties broken by the lowest index.
pub open spec fn well_upto(g: Seq<Seq<bool>>, n: nat) -> int
    decreases n,
{
    if n <= 1 {
        0
    } else {
        let prev = well_upto(g, (n - 1) as nat);
        if col_h(g, n - 1) < col_h(g, prev) {
            n - 1
        } else {
            prev
        }
    }
}

/// The well column of the board: the lowest column, ties broken by the
/// lowest index.
pub open spec fn spec_well(g: Seq<Seq<bool>>) -> int {
    well_upto(g, 10)
}

/// The `prev` comparison column when the bumpiness scan reaches column `i`:
/// the last non-well column scanned, or the initial column.
pub open spec fn prev_idx(well: int, i: int) -> int
    decreases i,
{
    if i <= 1 {
        if well == 0 {
            1
        } else {
            0
        }
    } else if i - 1 == well {
        prev_idx(well, i - 1)
    } else {
        i - 1
    }
}

/// The raw bumpiness accumulator after scanning columns below `i`: starts
/// at minus one and adds each non-well column's height step.
pub open spec fn bump_upto(g: Seq<Seq<bool>>, well: int, i: int) -> int
    decreases i,
{
    if i <= 1 {
        -1
    } else {
        bump_upto(g, well, i - 1) + if i - 1 == well {
            0int
        } else {
            abs_val(col_h(g, prev_idx(well, i - 1)) - col_h(g, i - 1))
        }
    }
}

/// The raw squared-bumpiness accumulator after scanning columns below `i`.
pub open spec fn bump_sq_upto(g: Seq<Seq<bool>>, well: int, i: int) -> int
    decreases i,
{
    if i <= 1 {
        -1
    } else {
        bump_sq_upto(g, well, i - 1) + if i - 1 == well {
            0int
        } else {
            (col_h(g, prev_idx(well, i - 1)) - col_h(g, i - 1)) * (col_h(g, prev_idx(well, i - 1))
                - col_h(g, i - 1))
        }
    }
}

/// The raw bumpiness sum, before the absolute-value correction.
pub open spec fn spec_bump_raw(g: Seq<Seq<bool>>, well: int) -> int {
    bump_upto(g, well, 10)
}

/// The raw squared-bumpiness sum, before the absolute-value correction.
pub open spec fn spec_bump_sq_raw(g: Seq<Seq<bool>>, well: int) -> int {
    bump_sq_upto(g, well, 10)
}

/// Both raw bumpiness accumulators start at minus one and only ever add
/// non-negative steps, so they never fall below minus one.
pub proof fn lemma_bump_raw_lower_bound(g: Seq<Seq<bool>>, well: int, i: int)
    ensures
        bump_upto(g, well, i) >= -1,
        bump_sq_upto(g, well, i) >= -1,
    decreases i,
{
    if i > 1 {
        lemma_bump_raw_lower_bound(g, well, i - 1);
        let d = col_h(g, prev_idx(well, i - 1)) - col_h(g, i - 1);
        assert(d * d >= 0) by (nonlinear_arith);
    }
}

/// An empty cell below its column's height that is shielded diagonally by a
/// neighbouring pair of columns on either side.
pub open spec fn ovh_cell(g: Seq<Seq<bool>>, x: int, y: int) -> bool {
    &&& !g[y][x]
    &&& y < col_h(g, x)
    &&& {
        ||| (x > 1 && col_h(g, x - 1) <= y - 1 && col_h(g, x - 2) <= y)
        ||| (x < 8 && col_h(g, x + 1) <= y - 1 && col_h(g, x + 2) <= y)
    }
}

/// An empty cell below its column's height that is not an overhang.
pub open spec fn cav_cell(g: Seq<Seq<bool>>, x: int, y: int) -> bool {
    !g[y][x] && y < col_h(g, x) && !ovh_cell(g, x, y)
}

/// Cavities in row `y` among the first `m` columns.
pub open spec fn cav_row(g: Seq<Seq<bool>>, y: int, m: nat) -> int
    decreases m,
{
    if m == 0 {
        0
    } else {
        cav_row(g, y, (m - 1) as nat) + if cav_cell(g, m - 1, y) {
            1int
        } else {
            0
        }
    }
}

/// Overhangs in row `y` among the first `m` columns.
pub open spec fn ovh_row(g: Seq<Seq<bool>>, y: int, m: nat) -> int
    decreases m,
{
    if m == 0 {
        0
    } else {
        ovh_row(g, y, (m - 1) as nat) + if ovh_cell(g, m - 1, y) {
            1int
        } else {
            0
        }
    }
}

/// Cavities in the lowest `n` rows.
pub open spec fn cav_upto(g: Seq<Seq<bool>>, n: nat) -> int
    decreases n,
{
    if n == 0 {
        0
    } else {
        cav_upto(g, (n - 1) as nat) + cav_row(g, n - 1, 10)
    }
}

/// Overhangs in the lowest `n` rows.
pub open spec fn ovh_upto(g: Seq<Seq<bool>>, n: nat) -> int
    decreases n,
{
    if n == 0 {
        0
    } else {
        ovh_upto(g, (n - 1) as nat) + ovh_row(g, n - 1, 10)
    }
}

/// The board's cavity count.
pub open spec fn spec_cavities(g: Seq<Seq<bool>>) -> int {
    cav_upto(g, 40)
}

/// The board's overhang count.
pub open spec fn spec_overhangs(g: Seq<Seq<bool>>) -> int {
    ovh_upto(g, 40)
}

/// The covered-cell depth value of one cell: how deeply the hole is buried,
/// capped at six; zero for occupied cells.
pub open spec fn cov_val(g: Seq<Seq<bool>>, x: int, y: int) -> int {
    if !g[y][x] {
        min6(col_h(g, x) - y - 1)
    } else {
        0
    }
}

/// The number of rows of column `x` scanned for covered cells: everything
/// from two rows below the column top downward.
pub open spec fn cov_limit(g: Seq<Seq<bool>>, x: int) -> int {
    if col_h(g, x) - 2 > 0 {
        col_h(g, x) - 2
    } else {
        0
    }
}

/// Linear covered-cell sum of column `x` over its lowest `m` rows.
pub open spec fn cov_lin_col(g: Seq<Seq<bool>>, x: int, m: nat) -> int
    decreases m,
{
    if m == 0 {
        0
    } else {
        cov_lin_col(g, x, (m - 1) as nat) + cov_val(g, x, m - 1)
    }
}

/// Quadratic covered-cell sum of column `x` over its lowest `m` rows.
pub open spec fn cov_sq_col(g: Seq<Seq<bool>>, x: int, m: nat) -> int
    decreases m,
{
    if m == 0 {
        0
    } else {
        cov_sq_col(g, x, (m - 1) as nat) + cov_val(g, x, m - 1) * cov_val(g, x, m - 1)
    }
}

/// Linear covered-cell sum over the first `n` columns.
pub open spec fn cov_lin_upto(g: Seq<Seq<bool>>, n: nat) -> int
    decreases n,
{
    if n == 0 {
        0
    } else {
        cov_lin_upto(g, (n - 1) as nat) + cov_lin_col(g, n - 1, cov_limit(g, n - 1) as nat)
    }
}

/// Quadratic covered-cell sum over the first `n` columns.
pub open spec fn cov_sq_upto(g: Seq<Seq<bool>>, n: nat) -> int
    decreases n,
{
    if n == 0 {
        0
    } else {
        cov_sq_upto(g, (n - 1) as nat) + cov_sq_col(g, n - 1, cov_limit(g, n - 1) as nat)
    }
}

/// The board's linear covered-cell total.
pub open spec fn spec_covered(g: Seq<Seq<bool>>) -> int {
    cov_lin_upto(g, 10)
}

/// The board's quadratic covered-cell total.
pub open spec fn spec_covered_sq(g: Seq<Seq<bool>>) -> int {
    cov_sq_upto(g, 10)
}

/// The tallest column's height considering the first `n` columns.
pub open spec fn max_h_upto(g: Seq<Seq<bool>>, n: nat) -> int
    decreases n,
{
    if n == 0 {
        0
    } else {
        let rest = max_h_upto(g, (n - 1) as nat);
        if col_h(g, n - 1) > rest {
            col_h(g, n - 1)
        } else {
            rest
        }
    }
}

/// The tallest column's height.
pub open spec fn spec_max_height(g: Seq<Seq<bool>>) -> int {
    max_h_upto(g, 10)
}

/// Finds the tallest column's height.
pub fn max_height(board: &Board) -> (r: i32)
    requires
        board.wf(),
    ensures
        r == spec_max_height(board.grid()),
        0 <= r <= 40,
{
    let heights = board.column_heights();
    let mut m: i32 = 0;
    let mut x: usize = 0;
    while x < 10
        invariant
            x <= 10,
            heights@.len() == 10,
            forall|k: int| 0 <= k < 10 ==> heights@[k] == col_h(board.grid(), k),
            forall|k: int| 0 <= k < 10 ==> 0 <= #[trigger] heights@[k] <= 40,
            m == max_h_upto(board.grid(), x as nat),
            0 <= m <= 40,
        decreases 10 - x,
    {
        if heights[x] > m {
            m = heights[x];
        }
        x += 1;
    }
    m
}

/// Finds the well column: the lowest column, ties broken by the lowest
/// index.
pub fn find_well(board: &Board) -> (r: usize)
    requires
        board.wf(),
    ensures
        r as int == spec_well(board.grid()),
        r < 10,
{
    let heights = board.column_heights();
    let mut well: usize = 0;
    let mut x: usize = 1;
    while x < 10
        invariant
            1 <= x <= 10,
            well < x,
            heights@.len() == 10,
            forall|k: int| 0 <= k < 10 ==> heights@[k] == col_h(board.grid(), k),
            well as int == well_upto(board.grid(), x as nat),
        decreases 10 - x,
    {
        if heights[x] < heights[well] {
            well = x;
        }
        x += 1;
    }
    well
}

/// Evaluates the bumpiness of the playfield: the sum of height steps between
/// consecutive non-well columns, and the sum of their squares. Both
/// accumulators start at minus one, and the absolute value of each total is
/// returned.
pub fn bumpiness(board: &Board, well: usize) -> (r: (i32, i32))
    requires
        board.wf(),
        well < 10,
    ensures
        r.0 == abs_val(spec_bump_raw(board.grid(), well as int)),
        r.1 == abs_val(spec_bump_sq_raw(board.grid(), well as int)),
        0 <= r.0 <= 360,
        0 <= r.1 <= 14400,
{
    let heights = board.column_heights();
    let mut bump: i32 = -1;
    let mut bump_sq: i32 = -1;
    let mut prev: usize = if well == 0 {
        1
    } else {
        0
    };
    let mut i: usize = 1;
    while i < 10
        invariant
            1 <= i <= 10,
            well < 10,
            prev < 10,
            heights@.len() == 10,
            forall|k: int| 0 <= k < 10 ==> heights@[k] == col_h(board.grid(), k),
            forall|k: int| 0 <= k < 10 ==> 0 <= #[trigger] heights@[k] <= 40,
            prev as int == prev_idx(well as int, i as int),
            bump == bump_upto(board.grid(), well as int, i as int),
            bump_sq == bump_sq_upto(board.grid(), well as int, i as int),
            -1 <= bump <= 40 * (i as int - 1),
            -1 <= bump_sq <= 1600 * (i as int - 1),
        decreases 10 - i,
    {
        if i != well {
            let dh_raw = heights[prev] - heights[i];
            let dh = if dh_raw < 0 {
                -dh_raw
            } else {
                dh_raw
            };
            proof {
                assert(dh <= 40);
                assert(bump_upto(board.grid(), well as int, i as int + 1) == bump + dh);
                assert(dh_raw * dh_raw <= 1600) by (nonlinear_arith)
                    requires
                        -40 <= dh_raw <= 40,
                ;
                assert(dh_raw * dh_raw >= 0) by (nonlinear_arith);
            }
            bump = bump + dh;
            bump_sq = bump_sq + dh_raw * dh_raw;
            prev = i;
        }
        i += 1;
    }
    let b = if bump < 0 {
        -bump
    } else {
        bump
    };
    let bs = if bump_sq < 0 {
        -bump_sq
    } else {
        bump_sq
    };
    (b, bs)
}

/// Evaluates the holes in the playfield: every empty cell below its column's
/// height is an overhang when a neighbouring pair of columns shields it
/// diagonally, and a cavity otherwise. Returns (cavities, overhangs).
pub fn cavities_and_overhangs(board: &Board) -> (r: (i32, i32))
    requires
        board.wf(),
    ensures
        r.0 == spec_cavities(board.grid()),
        r.1 == spec_overhangs(board.grid()),
        0 <= r.0 <= 400,
        0 <= r.1 <= 400,
{
    let heights = board.column_heights();
    let mut cavities: i32 = 0;
    let mut overhangs: i32 = 0;
    let mut y: usize = 0;
    while y < 40
        invariant
            y <= 40,
            board.wf(),
            heights@.len() == 10,
            forall|k: int| 0 <= k < 10 ==> heights@[k] == col_h(board.grid(), k),
            cavities == cav_upto(board.grid(), y as nat),
            overhangs == ovh_upto(board.grid(), y as nat),
            0 <= cavities <= 10 * y,
            0 <= overhangs <= 10 * y,
        decreases 40 - y,
    {
        let mut x: usize = 0;
        while x < 10
            invariant
                x <= 10,
                y < 40,
                board.wf(),
                heights@.len() == 10,
                forall|k: int| 0 <= k < 10 ==> heights@[k] == col_h(board.grid(), k),
                cavities == cav_upto(board.grid(), y as nat) + cav_row(
                    board.grid(),
                    y as int,
                    x as nat,
                ),
                overhangs == ovh_upto(board.grid(), y as nat) + ovh_row(
                    board.grid(),
                    y as int,
                    x as nat,
                ),
                0 <= cavities <= 10 * y + x,
                0 <= overhangs <= 10 * y + x,
            decreases 10 - x,
        {
            if !board.occupied(x as i32, y as i32) && (y as i32) < heights[x] {
                let mut shielded = false;
                if x > 1 {
                    if heights[x - 1] <= y as i32 - 1 && heights[x - 2] <= y as i32 {
                        shielded = true;
                    }
                }
                if !shielded && x < 8 {
                    if heights[x + 1] <= y as i32 - 1 && heights[x + 2] <= y as i32 {
                        shielded = true;
                    }
                }
                proof {
                    assert(shielded == ovh_cell(board.grid(), x as int, y as int));
                }
                if shielded {
                    overhangs += 1;
                } else {
                    cavities += 1;
                }
            } else {
                proof {
                    assert(!cav_cell(board.grid(), x as int, y as int));
                    assert(!ovh_cell(board.grid(), x as int, y as int));
                }
            }
            x += 1;
        }
        y += 1;
    }
    (cavities, overhangs)
}

/// Evaluates how deeply the holes in the playfield are covered: every empty
/// cell from two rows below a column's top downward contributes its burial
/// depth, capped at six, linearly and squared. Returns (covered, covered_sq).
pub fn covered_cells(board: &Board) -> (r: (i32, i32))
    requires
        board.wf(),
    ensures
        r.0 == spec_covered(board.grid()),
        r.1 == spec_covered_sq(board.grid()),
        0 <= r.0 <= 2400,
        0 <= r.1 <= 14400,
{
    let heights = board.column_heights();
    let mut covered: i32 = 0;
    let mut covered_sq: i32 = 0;
    let mut x: usize = 0;
    while x < 10
        invariant
            x <= 10,
            board.wf(),
            heights@.len() == 10,
            forall|k: int| 0 <= k < 10 ==> heights@[k] == col_h(board.grid(), k),
            forall|k: int| 0 <= k < 10 ==> 0 <= #[trigger] heights@[k] <= 40,
            covered == cov_lin_upto(board.grid(), x as nat),
            covered_sq == cov_sq_upto(board.grid(), x as nat),
            0 <= covered <= 240 * x,
            0 <= covered_sq <= 1440 * x,
        decreases 10 - x,
    {
        let hx = heights[x];
        let limit: usize = if hx - 2 > 0 {
            (hx - 2) as usize
        } else {
            0
        };
        proof {
            assert(limit as int == cov_limit(board.grid(), x as int));
        }
        let mut y: usize = 0;
        while y < limit
            invariant
                y <= limit,
                x < 10,
                board.wf(),
                heights@.len() == 10,
                forall|k: int| 0 <= k < 10 ==> heights@[k] == col_h(board.grid(), k),
                hx == col_h(board.grid(), x as int),
                0 <= hx <= 40,
                limit as int == cov_limit(board.grid(), x as int),
                covered == cov_lin_upto(board.grid(), x as nat) + cov_lin_col(
                    board.grid(),
                    x as int,
                    y as nat,
                ),
                covered_sq == cov_sq_upto(board.grid(), x as nat) + cov_sq_col(
                    board.grid(),
                    x as int,
                    y as nat,
                ),
                0 <= covered <= 240 * x + 6 * y,
                0 <= covered_sq <= 1440 * x + 36 * y,
            decreases limit - y,
        {
            if !board.occupied(x as i32, y as i32) {
                let d = hx - y as i32 - 1;
                let cells = if d < 6 {
                    d
                } else {
                    6
                };
                proof {
                    assert(1 <= cells <= 6);
                    assert(cells == cov_val(board.grid(), x as int, y as int));
                    assert(1 <= cells * cells <= 36) by (nonlinear_arith)
                        requires
                            1 <= cells <= 6,
                    ;
                }
                covered += cells;
                covered_sq += cells * cells;
            } else {
                proof {
                    assert(cov_val(board.grid(), x as int, y as int) == 0);
                }
            }
            y += 1;
        }
        x += 1;
    }
    (covered, covered_sq)
}

// --- effect of filling a single buried cell ------------------------------

/// Two grids identical except one cell, empty in the first and filled in
/// the second.
pub open spec fn one_cell_filled(g1: Seq<Seq<bool>>, g2: Seq<Seq<bool>>, cx: int, cy: int) -> bool {
    &&& 0 <= cx < 10
    &&& 0 <= cy < 40
    &&& !g1[cy][cx]
    &&& g2[cy][cx]
    &&& forall|x: int, y: int|
        0 <= x < 10 && 0 <= y < 40 && !(x == cx && y == cy) ==> #[trigger] g1[y][x] == g2[y][x]
}

/// Filling a cell strictly below a column's top leaves that column's height
/// unchanged: the scan from the top still stops at the same topmost cell.
proof fn lemma_col_h_fill_below(g1: Seq<Seq<bool>>, g2: Seq<Seq<bool>>, cx: int, cy: int, n: nat)
    requires
        one_cell_filled(g1, g2, cx, cy),
        cy < col_h_upto(g1, cx, n),
        n <= 40,
    ensures
        col_h_upto(g2, cx, n) == col_h_upto(g1, cx, n),
    decreases n,
{
    if n > 0 {
        crate::board::lemma_col_h_bounds(g1, cx, (n - 1) as nat);
        if g1[n - 1][cx] {
            assert(n - 1 != cy);
            assert(g2[n - 1][cx]);
        } else {
            assert(col_h_upto(g1, cx, n) == col_h_upto(g1, cx, (n - 1) as nat));
            assert(n - 1 != cy);
            assert(!g2[n - 1][cx]);
            lemma_col_h_fill_below(g1, g2, cx, cy, (n - 1) as nat);
        }
    }
}

/// Under a single buried fill, every column keeps its height.
pub proof fn lemma_fill_below_heights(g1: Seq<Seq<bool>>, g2: Seq<Seq<bool>>, cx: int, cy: int)
    requires
        one_cell_filled(g1, g2, cx, cy),
        cy < col_h(g1, cx),
    ensures
        forall|x: int| 0 <= x < 10 ==> #[trigger] col_h(g2, x) == col_h(g1, x),
{
    assert forall|x: int| 0 <= x < 10 implies #[trigger] col_h(g2, x) == col_h(g1, x) by {
        if x == cx {
            lemma_col_h_fill_below(g1, g2, cx, cy, 40);
        } else {
            assert forall|y: int| 0 <= y < 40 implies g1[y][x] == g2[y][x] by {
                assert(g1[y][x] == g2[y][x]);
            }
            crate::board::lemma_col_h_same(g1, g2, x, 40);
        }
    }
}

/// The well scan always lands on a board column.
proof fn lemma_well_range(g: Seq<Seq<bool>>, n: nat)
    requires
        n <= 10,
    ensures
        0 <= well_upto(g, n) <= 9,
    decreases n,
{
    if n > 1 {
        lemma_well_range(g, (n - 1) as nat);
    }
}

/// Equal height profiles give equal wells.
proof fn lemma_well_same(g1: Seq<Seq<bool>>, g2: Seq<Seq<bool>>, n: nat)
    requires
        forall|x: int| 0 <= x < 10 ==> #[trigger] col_h(g2, x) == col_h(g1, x),
        n <= 10,
    ensures
        well_upto(g2, n) == well_upto(g1, n),
    decreases n,
{
    if n > 1 {
        lemma_well_same(g1, g2, (n - 1) as nat);
        lemma_well_range(g1, (n - 1) as nat);
        assert(col_h(g2, well_upto(g1, (n - 1) as nat)) == col_h(g1, well_upto(g1, (n - 1) as nat)));
        assert(col_h(g2, n - 1) == col_h(g1, n - 1));
    }
}

/// The bumpiness scan's comparison column always lies on the board.
proof fn lemma_prev_idx_range(well: int, i: int)
    requires
        i <= 10,
    ensures
        0 <= prev_idx(well, i) <= 9,
    decreases i,
{
    if i > 1 && i - 1 == well {
        lemma_prev_idx_range(well, i - 1);
    }
}

/// Equal height profiles give equal bumpiness accumulators.
proof fn lemma_bump_same(g1: Seq<Seq<bool>>, g2: Seq<Seq<bool>>, well: int, i: int)
    requires
        forall|x: int| 0 <= x < 10 ==> #[trigger] col_h(g2, x) == col_h(g1, x),
        i <= 10,
    ensures
        bump_upto(g2, well, i) == bump_upto(g1, well, i),
        bump_sq_upto(g2, well, i) == bump_sq_upto(g1, well, i),
    decreases i,
{
    if i > 1 {
        lemma_bump_same(g1, g2, well, i - 1);
        lemma_prev_idx_range(well, i - 1);
        assert(col_h(g2, prev_idx(well, i - 1)) == col_h(g1, prev_idx(well, i - 1)));
        assert(col_h(g2, i - 1) == col_h(g1, i - 1));
    }
}

/// Equal height profiles give equal maximum heights.
proof fn lemma_max_same(g1: Seq<Seq<bool>>, g2: Seq<Seq<bool>>, n: nat)
    requires
        forall|x: int| 0 <= x < 10 ==> #[trigger] col_h(g2, x) == col_h(g1, x),
        n <= 10,
    ensures
        max_h_upto(g2, n) == max_h_upto(g1, n),
    decreases n,
{
    if n > 0 {
        lemma_max_same(g1, g2, (n - 1) as nat);
    }
}

/// One row's cavity and overhang counts under the single fill: the filled
/// cell leaves the ledger it was on, every other cell keeps its class.
proof fn lemma_holes_row_delta(
    g1: Seq<Seq<bool>>,
    g2: Seq<Seq<bool>>,
    cx: int,
    cy: int,
    y: int,
    m: nat,
)
    requires
        forall|x: int, yy: int|
            0 <= x < 10 && 0 <= yy < 40 && !(x == cx && yy == cy) ==> (#[trigger] cav_cell(
                g2,
                x,
                yy,
            ) == cav_cell(g1, x, yy) && ovh_cell(g2, x, yy) == ovh_cell(g1, x, yy)),
        !cav_cell(g2, cx, cy) && !ovh_cell(g2, cx, cy),
        0 <= y < 40,
        m <= 10,
        0 <= cx < 10,
        0 <= cy < 40,
    ensures
        cav_row(g2, y, m) == cav_row(g1, y, m) - (if y == cy && cx < m && cav_cell(g1, cx, cy) {
            1int
        } else {
            0
        }),
        ovh_row(g2, y, m) == ovh_row(g1, y, m) - (if y == cy && cx < m && ovh_cell(g1, cx, cy) {
            1int
        } else {
            0
        }),
    decreases m,
{
    if m > 0 {
        lemma_holes_row_delta(g1, g2, cx, cy, y, (m - 1) as nat);
        if !(m - 1 == cx && y == cy) {
            assert(cav_cell(g2, m - 1, y) == cav_cell(g1, m - 1, y) && ovh_cell(g2, m - 1, y)
                == ovh_cell(g1, m - 1, y));
        }
    }
}

/// The grid-wide cavity and overhang counts under the single fill.
proof fn lemma_holes_upto_delta(g1: Seq<Seq<bool>>, g2: Seq<Seq<bool>>, cx: int, cy: int, n: nat)
    requires
        forall|x: int, yy: int|
            0 <= x < 10 && 0 <= yy < 40 && !(x == cx && yy == cy) ==> (#[trigger] cav_cell(
                g2,
                x,
                yy,
            ) == cav_cell(g1, x, yy) && ovh_cell(g2, x, yy) == ovh_cell(g1, x, yy)),
        !cav_cell(g2, cx, cy) && !ovh_cell(g2, cx, cy),
        0 <= cx < 10,
        0 <= cy < 40,
        n <= 40,
    ensures
        cav_upto(g2, n) == cav_upto(g1, n) - (if cy < n && cav_cell(g1, cx, cy) {
            1int
        } else {
            0
        }),
        ovh_upto(g2, n) == ovh_upto(g1, n) - (if cy < n && ovh_cell(g1, cx, cy) {
            1int
        } else {
            0
        }),
    decreases n,
{
    if n > 0 {
        lemma_holes_upto_delta(g1, g2, cx, cy, (n - 1) as nat);
        lemma_holes_row_delta(g1, g2, cx, cy, n - 1, 10);
    }
}

/// One column's covered-cell sums under the single fill.
proof fn lemma_cov_col_delta(
    g1: Seq<Seq<bool>>,
    g2: Seq<Seq<bool>>,
    cx: int,
    cy: int,
    x: int,
    m: nat,
)
    requires
        forall|xx: int, yy: int|
            0 <= xx < 10 && 0 <= yy < 40 && !(xx == cx && yy == cy) ==> #[trigger] cov_val(
                g2,
                xx,
                yy,
            ) == cov_val(g1, xx, yy),
        cov_val(g2, cx, cy) == 0,
        0 <= x < 10,
        0 <= cx < 10,
        0 <= cy < 40,
        m <= 40,
    ensures
        cov_lin_col(g2, x, m) == cov_lin_col(g1, x, m) - (if x == cx && cy < m {
            cov_val(g1, cx, cy)
        } else {
            0
        }),
        cov_sq_col(g2, x, m) == cov_sq_col(g1, x, m) - (if x == cx && cy < m {
            cov_val(g1, cx, cy) * cov_val(g1, cx, cy)
        } else {
            0
        }),
    decreases m,
{
    if m > 0 {
        lemma_cov_col_delta(g1, g2, cx, cy, x, (m - 1) as nat);
    }
}

/// The grid-wide covered-cell sums under the single fill.
proof fn lemma_cov_upto_delta(g1: Seq<Seq<bool>>, g2: Seq<Seq<bool>>, cx: int, cy: int, n: nat)
    requires
        forall|xx: int, yy: int|
            0 <= xx < 10 && 0 <= yy < 40 && !(xx == cx && yy == cy) ==> #[trigger] cov_val(
                g2,
                xx,
                yy,
            ) == cov_val(g1, xx, yy),
        cov_val(g2, cx, cy) == 0,
        forall|x: int| 0 <= x < 10 ==> #[trigger] col_h(g2, x) == col_h(g1, x),
        0 <= cx < 10,
        0 <= cy < 40,
        n <= 10,
    ensures
        cov_lin_upto(g2, n) == cov_lin_upto(g1, n) - (if cx < n && cy < cov_limit(g1, cx) {
            cov_val(g1, cx, cy)
        } else {
            0
        }),
        cov_sq_upto(g2, n) == cov_sq_upto(g1, n) - (if cx < n && cy < cov_limit(g1, cx) {
            cov_val(g1, cx, cy) * cov_val(g1, cx, cy)
        } else {
            0
        }),
    decreases n,
{
    if n > 0 {
        lemma_cov_upto_delta(g1, g2, cx, cy, (n - 1) as nat);
        crate::board::lemma_col_h_bounds(g1, n - 1, 40);
        assert(col_h(g2, n - 1) == col_h(g1, n - 1));
        assert(cov_limit(g2, n - 1) == cov_limit(g1, n - 1));
        lemma_cov_col_delta(g1, g2, cx, cy, n - 1, cov_limit(g1, n - 1) as nat);
    }
}

/// Filling a single cell strictly below its column's top changes exactly
/// that cell's ledger entries and nothing else: every column height, the
/// well, the bumpiness accumulators and the maximum height are unchanged;
/// the filled cell leaves whichever of the cavity or overhang counts it was
/// on and withdraws its covered-cell contribution.
pub proof fn lemma_one_cell_fill_metrics(g1: Seq<Seq<bool>>, g2: Seq<Seq<bool>>, cx: int, cy: int)
    requires
        one_cell_filled(g1, g2, cx, cy),
        cy < col_h(g1, cx),
    ensures
        forall|x: int| 0 <= x < 10 ==> #[trigger] col_h(g2, x) == col_h(g1, x),
        spec_well(g2) == spec_well(g1),
        spec_max_height(g2) == spec_max_height(g1),
        spec_bump_raw(g2, spec_well(g2)) == spec_bump_raw(g1, spec_well(g1)),
        spec_bump_sq_raw(g2, spec_well(g2)) == spec_bump_sq_raw(g1, spec_well(g1)),
        spec_cavities(g2) == spec_cavities(g1) - (if cav_cell(g1, cx, cy) {
            1int
        } else {
            0
        }),
        spec_overhangs(g2) == spec_overhangs(g1) - (if ovh_cell(g1, cx, cy) {
            1int
        } else {
            0
        }),
        spec_covered(g2) == spec_covered(g1) - (if cy < cov_limit(g1, cx) {
            cov_val(g1, cx, cy)
        } else {
            0
        }),
        spec_covered_sq(g2) == spec_covered_sq(g1) - (if cy < cov_limit(g1, cx) {
            cov_val(g1, cx, cy) * cov_val(g1, cx, cy)
        } else {
            0
        }),
{
    lemma_fill_below_heights(g1, g2, cx, cy);
    lemma_well_same(g1, g2, 10);
    lemma_max_same(g1, g2, 10);
    lemma_bump_same(g1, g2, spec_well(g1), 10);
    assert forall|x: int, yy: int|
        0 <= x < 10 && 0 <= yy < 40 && !(x == cx && yy == cy) implies (#[trigger] cav_cell(
        g2,
        x,
        yy,
    ) == cav_cell(g1, x, yy) && ovh_cell(g2, x, yy) == ovh_cell(g1, x, yy)) by {
        assert(g1[yy][x] == g2[yy][x]);
        assert(col_h(g2, x) == col_h(g1, x));
        if x > 1 {
            assert(col_h(g2, x - 1) == col_h(g1, x - 1));
            assert(col_h(g2, x - 2) == col_h(g1, x - 2));
        }
        if x < 8 {
            assert(col_h(g2, x + 1) == col_h(g1, x + 1));
            assert(col_h(g2, x + 2) == col_h(g1, x + 2));
        }
    }
    assert(!cav_cell(g2, cx, cy) && !ovh_cell(g2, cx, cy));
    lemma_holes_upto_delta(g1, g2, cx, cy, 40);
    assert forall|xx: int, yy: int|
        0 <= xx < 10 && 0 <= yy < 40 && !(xx == cx && yy == cy) implies #[trigger] cov_val(
        g2,
        xx,
        yy,
    ) == cov_val(g1, xx, yy) by {
        assert(g1[yy][xx] == g2[yy][xx]);
        assert(col_h(g2, xx) == col_h(g1, xx));
    }
    assert(cov_val(g2, cx, cy) == 0);
    lemma_cov_upto_delta(g1, g2, cx, cy, 10);
}

} // verus!
