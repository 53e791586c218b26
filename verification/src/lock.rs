use vstd::prelude::*;
use crate::board::{
    col_h, grid_dims, grid_is_empty, no_full_rows, row_is_empty, row_is_full, Board,
};
use crate::piece::{lemma_cell_offsets_bounded, lemma_t_cell_rows, FallingPiece, Piece, TspinStatus};

verus! {

/// Classification of a committed placement: how many lines it cleared and
/// which T-spin variant, if any, it was.
#[derive(Clone, Copy, Debug, PartialEq, Eq, Hash, Structural)]
pub enum PlacementKind {
    NoClear,
    Clear1,
    Clear2,
    Clear3,
    Clear4,
    MiniTspin,
    MiniTspin1,
    MiniTspin2,
    Tspin,
    Tspin1,
    Tspin2,
    Tspin3,
}

/// Whether the placement cleared at least one line.
pub open spec fn kind_is_clear(k: PlacementKind) -> bool {
    match k {
        PlacementKind::NoClear | PlacementKind::MiniTspin | PlacementKind::Tspin => false,
        _ => true,
    }
}

/// Whether the placement is a "difficult" clear that sustains back-to-back:
/// a four-line clear or any line-clearing T-spin.
pub open spec fn kind_is_hard(k: PlacementKind) -> bool {
    match k {
        PlacementKind::Clear4 | PlacementKind::Tspin1 | PlacementKind::Tspin2
        | PlacementKind::Tspin3 | PlacementKind::MiniTspin1 | PlacementKind::MiniTspin2 => true,
        _ => false,
    }
}

/// The placement kind determined by the cleared-line count and the piece's
/// pre-set T-spin tag.
pub open spec fn spec_classify(lines: int, tspin: TspinStatus) -> PlacementKind {
    match tspin {
        TspinStatus::NoSpin => if lines <= 0 {
            PlacementKind::NoClear
        } else if lines == 1 {
            PlacementKind::Clear1
        } else if lines == 2 {
            PlacementKind::Clear2
        } else if lines == 3 {
            PlacementKind::Clear3
        } else {
            PlacementKind::Clear4
        },
        TspinStatus::Mini => if lines <= 0 {
            PlacementKind::MiniTspin
        } else if lines == 1 {
            PlacementKind::MiniTspin1
        } else {
            PlacementKind::MiniTspin2
        },
        TspinStatus::Full => if lines <= 0 {
            PlacementKind::Tspin
        } else if lines == 1 {
            PlacementKind::Tspin1
        } else if lines == 2 {
            PlacementKind::Tspin2
        } else {
            PlacementKind::Tspin3
        },
    }
}

/// The back-to-back flag reported for this lock: the streak was active and
/// this placement was a difficult clear.
pub open spec fn spec_b2b_result(prev: bool, k: PlacementKind) -> bool {
    prev && kind_is_clear(k) && kind_is_hard(k)
}

/// The board's back-to-back flag after this lock: a clear resets it to
/// whether the clear was difficult; a non-clearing lock leaves it alone.
pub open spec fn spec_b2b_after(prev: bool, k: PlacementKind) -> bool {
    if kind_is_clear(k) {
        kind_is_hard(k)
    } else {
        prev
    }
}

/// The combo count reported for this lock: the running count when it
/// cleared, nothing otherwise.
pub open spec fn spec_combo_result(combo: u32, k: PlacementKind) -> Option<u32> {
    if kind_is_clear(k) {
        Some(combo)
    } else {
        None
    }
}

/// The board's combo count after this lock: a clear extends the run
/// (saturating), anything else resets it.
pub open spec fn spec_combo_after(combo: u32, k: PlacementKind) -> u32 {
    if kind_is_clear(k) {
        if combo < u32::MAX {
            (combo + 1) as u32
        } else {
            combo
        }
    } else {
        0
    }
}

/// The outcome of committing a falling piece to a board.
#[derive(Debug)]
pub struct LockResult {
    pub placement_kind: PlacementKind,
    pub b2b: bool,
    pub combo: Option<u32>,
    pub perfect_clear: bool,
    pub cleared_lines: Vec<i32>,
}

impl PlacementKind {
    /// Whether this placement cleared at least one line.
    pub fn is_clear(&self) -> (r: bool)
        ensures
            r == kind_is_clear(*self),
    {
        match *self {
            PlacementKind::NoClear | PlacementKind::MiniTspin | PlacementKind::Tspin => false,
            _ => true,
        }
    }

    /// Whether this placement sustains back-to-back.
    pub fn is_hard(&self) -> (r: bool)
        ensures
            r == kind_is_hard(*self),
    {
        match *self {
            PlacementKind::Clear4 | PlacementKind::Tspin1 | PlacementKind::Tspin2
            | PlacementKind::Tspin3 | PlacementKind::MiniTspin1 | PlacementKind::MiniTspin2 =>
                true,
            _ => false,
        }
    }
}

impl Clone for LockResult {
    /// An independent copy carrying the same outcome.
    fn clone(&self) -> (r: LockResult)
        ensures
            r.placement_kind == self.placement_kind,
            r.b2b == self.b2b,
            r.combo == self.combo,
            r.perfect_clear == self.perfect_clear,
            r.cleared_lines@ == self.cleared_lines@,
    {
        let mut lines: Vec<i32> = Vec::new();
        let mut i: usize = 0;
        while i < self.cleared_lines.len()
            invariant
                i <= self.cleared_lines@.len(),
                lines@.len() == i,
                forall|k: int| 0 <= k < i ==> lines@[k] == self.cleared_lines@[k],
            decreases self.cleared_lines@.len() - i,
        {
            lines.push(self.cleared_lines[i]);
            i += 1;
        }
        proof {
            assert(lines@ =~= self.cleared_lines@);
        }
        LockResult {
            placement_kind: self.placement_kind,
            b2b: self.b2b,
            combo: self.combo,
            perfect_clear: self.perfect_clear,
            cleared_lines: lines,
        }
    }
}

/// The grid with one extra cell marked occupied.
pub open spec fn set_cell_spec(g: Seq<Seq<bool>>, x: int, y: int) -> Seq<Seq<bool>> {
    g.update(y, g[y].update(x, true))
}

/// The grid after marking the first `n` cells of the piece occupied.
pub open spec fn place_cells(g: Seq<Seq<bool>>, p: FallingPiece, n: nat) -> Seq<Seq<bool>>
    decreases n,
{
    if n == 0 {
        g
    } else {
        set_cell_spec(place_cells(g, p, (n - 1) as nat), p.cell_x(n - 1), p.cell_y(n - 1))
    }
}

/// The grid after marking all four cells of the piece occupied.
pub open spec fn placed_grid(g: Seq<Seq<bool>>, p: FallingPiece) -> Seq<Seq<bool>> {
    place_cells(g, p, 4)
}

/// Whether `(x, y)` is one of the first `n` cells of the piece.
pub open spec fn is_piece_cell_upto(p: FallingPiece, x: int, y: int, n: nat) -> bool {
    exists|i: int| 0 <= i < n && #[trigger] p.cell_x(i) == x && p.cell_y(i) == y
}

/// Placing cells sets exactly the piece's cells, leaving the rest alone.
pub proof fn lemma_place_cells_effect(g: Seq<Seq<bool>>, p: FallingPiece, n: nat)
    requires
        grid_dims(g),
        p.cells_in_bounds(),
        n <= 4,
    ensures
        grid_dims(place_cells(g, p, n)),
        forall|x: int, y: int|
            0 <= x < 10 && 0 <= y < 40 ==> #[trigger] place_cells(g, p, n)[y][x] == (g[y][x]
                || is_piece_cell_upto(p, x, y, n)),
    decreases n,
{
    if n == 0 {
        assert forall|x: int, y: int| 0 <= x < 10 && 0 <= y < 40 implies #[trigger] place_cells(
            g,
            p,
            n,
        )[y][x] == (g[y][x] || is_piece_cell_upto(p, x, y, n)) by {
            assert(!is_piece_cell_upto(p, x, y, 0));
        }
    } else {
        lemma_place_cells_effect(g, p, (n - 1) as nat);
        let prev = place_cells(g, p, (n - 1) as nat);
        let cx = p.cell_x(n - 1);
        let cy = p.cell_y(n - 1);
        assert(0 <= cx < 10 && 0 <= cy < 40);
        assert forall|x: int, y: int| 0 <= x < 10 && 0 <= y < 40 implies #[trigger] place_cells(
            g,
            p,
            n,
        )[y][x] == (g[y][x] || is_piece_cell_upto(p, x, y, n)) by {
            if x == cx && y == cy {
                assert(place_cells(g, p, n)[y][x]);
                assert(p.cell_x(n - 1) == x && p.cell_y(n - 1) == y);
                assert(is_piece_cell_upto(p, x, y, n));
            } else {
                assert(place_cells(g, p, n)[y][x] == prev[y][x]);
                if is_piece_cell_upto(p, x, y, n) {
                    let i = choose|i: int|
                        0 <= i < n && #[trigger] p.cell_x(i) == x && p.cell_y(i) == y;
                    assert(i < n - 1);
                    assert(is_piece_cell_upto(p, x, y, (n - 1) as nat));
                } else if is_piece_cell_upto(p, x, y, (n - 1) as nat) {
                    assert(is_piece_cell_upto(p, x, y, n));
                }
            }
        }
        assert forall|y: int| 0 <= y < 40 implies (#[trigger] place_cells(g, p, n)[y]).len()
            == 10 by {
            assert(prev[y].len() == 10);
        }
    }
}

/// The number of full rows among the lowest `n` rows.
pub open spec fn count_full_upto(g: Seq<Seq<bool>>, n: nat) -> int
    decreases n,
{
    if n == 0 {
        0
    } else {
        count_full_upto(g, (n - 1) as nat) + if row_is_full(g[n - 1]) {
            1int
        } else {
            0
        }
    }
}

/// The number of full rows of the grid.
pub open spec fn count_full(g: Seq<Seq<bool>>) -> int {
    count_full_upto(g, 40)
}

/// The indices of the full rows among the lowest `n`, in increasing order.
pub open spec fn full_rows_upto(g: Seq<Seq<bool>>, n: nat) -> Seq<int>
    decreases n,
{
    if n == 0 {
        Seq::empty()
    } else {
        let rest = full_rows_upto(g, (n - 1) as nat);
        if row_is_full(g[n - 1]) {
            rest.push(n - 1)
        } else {
            rest
        }
    }
}

/// The non-full rows of the lowest `n`, in order.
pub open spec fn kept_rows_upto(g: Seq<Seq<bool>>, n: nat) -> Seq<Seq<bool>>
    decreases n,
{
    if n == 0 {
        Seq::empty()
    } else {
        let rest = kept_rows_upto(g, (n - 1) as nat);
        if row_is_full(g[n - 1]) {
            rest
        } else {
            rest.push(g[n - 1])
        }
    }
}

/// A row of ten empty cells.
pub open spec fn empty_row() -> Seq<bool> {
    Seq::new(10, |x: int| false)
}

/// The grid after removing its full rows and padding with empty rows on top.
pub open spec fn clear_rows(g: Seq<Seq<bool>>) -> Seq<Seq<bool>> {
    let kept = kept_rows_upto(g, 40);
    kept + Seq::new((40 - kept.len()) as nat, |i: int| empty_row())
}

/// The grid after locking a piece: its cells placed, then full rows cleared.
pub open spec fn lock_grid(g: Seq<Seq<bool>>, p: FallingPiece) -> Seq<Seq<bool>> {
    clear_rows(placed_grid(g, p))
}

/// Counting, indexing and keeping rows stay consistent, and kept rows are
/// well-dimensioned and non-full.
pub proof fn lemma_kept_rows(g: Seq<Seq<bool>>, n: nat)
    requires
        n <= 40,
        forall|y: int| 0 <= y < n ==> (#[trigger] g[y]).len() == 10,
    ensures
        0 <= count_full_upto(g, n) <= n,
        kept_rows_upto(g, n).len() == n - count_full_upto(g, n),
        full_rows_upto(g, n).len() == count_full_upto(g, n),
        forall|j: int|
            0 <= j < kept_rows_upto(g, n).len() ==> (#[trigger] kept_rows_upto(g, n)[j]).len()
                == 10 && !row_is_full(kept_rows_upto(g, n)[j]),
        forall|j: int|
            0 <= j < full_rows_upto(g, n).len() ==> 0 <= #[trigger] full_rows_upto(g, n)[j] < n
                && row_is_full(g[full_rows_upto(g, n)[j]]),
    decreases n,
{
    if n > 0 {
        lemma_kept_rows(g, (n - 1) as nat);
    }
}

/// A piece can never fill more than three rows beyond those already full;
/// for a T piece, at most the three rows its cells touch.
pub proof fn lemma_t_lock_lines_le_3(g: Seq<Seq<bool>>, p: FallingPiece)
    requires
        grid_dims(g),
        no_full_rows(g),
        p.cells_in_bounds(),
        p.kind.0 == Piece::T,
    ensures
        0 <= count_full(placed_grid(g, p)) <= 3,
{
    let pg = placed_grid(g, p);
    lemma_place_cells_effect(g, p, 4);
    let a = p.y as int - 1;
    let b = p.y as int;
    let c = p.y as int + 1;
    assert forall|y: int| 0 <= y < 40 && row_is_full(#[trigger] pg[y]) implies y == a || y == b
        || y == c by {
        assert(!row_is_full(g[y]));
        let x = choose|x: int| !(0 <= x < 10 ==> g[y][x]);
        assert(pg[y][x]);
        assert(is_piece_cell_upto(p, x, y, 4));
        let i = choose|i: int| 0 <= i < 4 && #[trigger] p.cell_x(i) == x && p.cell_y(i) == y;
        lemma_t_cell_rows(p.kind, i);
    }
    lemma_count_full_few(pg, a, b, c, 40);
    lemma_kept_rows(pg, 40);
}

/// If only three row indices can be full, at most three rows are counted.
proof fn lemma_count_full_few(g: Seq<Seq<bool>>, a: int, b: int, c: int, n: nat)
    requires
        forall|y: int| 0 <= y < n && row_is_full(#[trigger] g[y]) ==> y == a || y == b || y == c,
    ensures
        count_full_upto(g, n) <= (if 0 <= a < n {
            1int
        } else {
            0
        }) + (if 0 <= b < n {
            1int
        } else {
            0
        }) + (if 0 <= c < n {
            1int
        } else {
            0
        }),
    decreases n,
{
    if n > 0 {
        lemma_count_full_few(g, a, b, c, (n - 1) as nat);
    }
}

/// Builds an executable row of ten empty cells.
pub(crate) fn empty_row_exec() -> (r: Vec<bool>)
    ensures
        r@ == empty_row(),
{
    let mut row: Vec<bool> = Vec::new();
    let mut x: usize = 0;
    while x < 10
        invariant
            x <= 10,
            row@.len() == x,
            forall|k: int| 0 <= k < x ==> !row@[k],
        decreases 10 - x,
    {
        row.push(false);
        x += 1;
    }
    proof {
        assert(row@ =~= empty_row());
    }
    row
}

/// Copies one row of cells.
fn clone_row(src: &Vec<bool>) -> (r: Vec<bool>)
    ensures
        r@ == src@,
{
    let mut row: Vec<bool> = Vec::new();
    let mut x: usize = 0;
    while x < src.len()
        invariant
            x <= src@.len(),
            row@.len() == x,
            forall|k: int| 0 <= k < x ==> row@[k] == src@[k],
        decreases src@.len() - x,
    {
        row.push(src[x]);
        x += 1;
    }
    proof {
        assert(row@ =~= src@);
    }
    row
}

impl Board {
    /// Whether every cell of the board is empty.
    pub fn is_empty_field(&self) -> (r: bool)
        requires
            self.wf(),
        ensures
            r == grid_is_empty(self.grid()),
    {
        let mut y: usize = 0;
        while y < 40
            invariant
                y <= 40,
                self.wf(),
                forall|k: int| 0 <= k < y ==> row_is_empty(#[trigger] self.grid()[k]),
            decreases 40 - y,
        {
            proof {
                assert(self.grid()[y as int] == self.cells@[y as int]@);
            }
            let row: &Vec<bool> = &self.cells[y];
            let mut x: usize = 0;
            while x < 10
                invariant
                    x <= 10,
                    y < 40,
                    self.wf(),
                    row@.len() == 10,
                    row@ == self.grid()[y as int],
                    forall|k: int| 0 <= k < x ==> !row@[k],
                decreases 10 - x,
            {
                if row[x] {
                    proof {
                        assert(self.grid()[y as int][x as int]);
                        assert(!row_is_empty(self.grid()[y as int]));
                    }
                    return false;
                }
                x += 1;
            }
            y += 1;
        }
        true
    }

    /// Commits a falling piece to the board: marks its cells occupied, clears
    /// full rows, and updates the back-to-back and combo bookkeeping. The
    /// placement kind is classified from the cleared-line count and the
    /// piece's pre-set T-spin tag.
    pub fn lock_piece(&mut self, piece: FallingPiece) -> (r: LockResult)
        requires
            old(self).wf(),
            piece.cells_in_bounds(),
        ensures
            final(self).wf(),
            final(self).grid() == lock_grid(old(self).grid(), piece),
            final(self).bag == old(self).bag,
            final(self).hold_piece == old(self).hold_piece,
            r.placement_kind == spec_classify(
                count_full(placed_grid(old(self).grid(), piece)),
                piece.tspin,
            ),
            r.b2b == spec_b2b_result(old(self).b2b_bonus, r.placement_kind),
            final(self).b2b_bonus == spec_b2b_after(old(self).b2b_bonus, r.placement_kind),
            r.combo == spec_combo_result(old(self).combo, r.placement_kind),
            final(self).combo == spec_combo_after(old(self).combo, r.placement_kind),
            r.perfect_clear == grid_is_empty(final(self).grid()),
            r.cleared_lines@.len() == count_full(placed_grid(old(self).grid(), piece)),
            forall|j: int|
                0 <= j < r.cleared_lines@.len() ==> #[trigger] r.cleared_lines@[j] as int
                    == full_rows_upto(placed_grid(old(self).grid(), piece), 40)[j],
    {
        let ghost g0 = self.grid();
        proof {
            assert forall|i: int| 0 <= i < 4 implies -2 <= #[trigger] crate::piece::cell_dx(
                piece.kind,
                i,
            ) <= 2 && -2 <= crate::piece::cell_dy(piece.kind, i) <= 2 by {
                lemma_cell_offsets_bounded(piece.kind, i);
            }
            assert(0 <= piece.cell_x(0) < 10 && 0 <= piece.cell_y(0) < 40);
            assert(-2 <= piece.x <= 11 && -2 <= piece.y <= 41);
        }
        // place the four cells of the piece
        let mut i: usize = 0;
        while i < 4
            invariant
                i <= 4,
                piece.cells_in_bounds(),
                -2 <= piece.x <= 11,
                -2 <= piece.y <= 41,
                grid_dims(self.grid()),
                self.grid() == place_cells(g0, piece, i as nat),
                self.bag == old(self).bag,
                self.hold_piece == old(self).hold_piece,
                self.b2b_bonus == old(self).b2b_bonus,
                self.combo == old(self).combo,
            decreases 4 - i,
        {
            let (cx, cy) = piece.cell(i);
            self.set_cell(cx as usize, cy as usize);
            proof {
                assert(self.grid() == place_cells(g0, piece, (i + 1) as nat));
            }
            i += 1;
        }
        let ghost pg = placed_grid(g0, piece);
        proof {
            assert(self.grid() == pg);
            lemma_place_cells_effect(g0, piece, 4);
        }
        // collect cleared row indices and the surviving rows
        let mut cleared: Vec<i32> = Vec::new();
        let mut kept: Vec<Vec<bool>> = Vec::new();
        let mut y: usize = 0;
        while y < 40
            invariant
                y <= 40,
                grid_dims(pg),
                self.grid() == pg,
                self.cells@.len() == 40,
                cleared@.len() == count_full_upto(pg, y as nat),
                cleared@.len() <= y,
                forall|j: int| 0 <= j < cleared@.len() ==> #[trigger] cleared@[j] as int
                    == full_rows_upto(pg, y as nat)[j],
                kept@.map_values(|row: Vec<bool>| row@) == kept_rows_upto(pg, y as nat),
            decreases 40 - y,
        {
            proof {
                lemma_kept_rows(pg, y as nat);
                lemma_kept_rows(pg, (y + 1) as nat);
                assert(self.grid()[y as int] == self.cells@[y as int]@);
            }
            if Board::row_full_exec(&self.cells, y) {
                cleared.push(y as i32);
            } else {
                let row = clone_row(&self.cells[y]);
                kept.push(row);
                proof {
                    assert(kept@.map_values(|row: Vec<bool>| row@) =~= kept_rows_upto(
                        pg,
                        (y + 1) as nat,
                    ));
                }
            }
            y += 1;
        }
        let lines: usize = cleared.len();
        proof {
            lemma_kept_rows(pg, 40);
            assert(kept@.map_values(|row: Vec<bool>| row@) =~= kept_rows_upto(pg, 40) + Seq::new(
                0,
                |i: int| empty_row(),
            ));
        }
        // pad the surviving rows with empty rows on top
        while kept.len() < 40
            invariant
                grid_dims(pg),
                kept@.len() >= kept_rows_upto(pg, 40).len(),
                kept@.len() <= 40,
                kept@.map_values(|row: Vec<bool>| row@) == kept_rows_upto(pg, 40) + Seq::new(
                    (kept@.len() - kept_rows_upto(pg, 40).len()) as nat,
                    |i: int| empty_row(),
                ),
            decreases 40 - kept@.len(),
        {
            let ghost kept0 = kept@;
            let row = empty_row_exec();
            kept.push(row);
            proof {
                let kr = kept_rows_upto(pg, 40);
                let m0 = (kept0.len() - kr.len()) as nat;
                let v = kept@.map_values(|row: Vec<bool>| row@);
                let v0 = kept0.map_values(|row: Vec<bool>| row@);
                let tgt = kr + Seq::new((kept@.len() - kr.len()) as nat, |i: int| empty_row());
                assert forall|j: int| 0 <= j < v.len() implies v[j] == tgt[j] by {
                    assert(v[j] == kept@[j]@);
                    if j < kept0.len() {
                        assert(kept@[j] == kept0[j]);
                        assert(v0[j] == kept0[j]@);
                        assert(v0[j] == (kr + Seq::new(m0, |i: int| empty_row()))[j]);
                        if j >= kr.len() {
                            assert((kr + Seq::new(m0, |i: int| empty_row()))[j] == empty_row());
                            assert(tgt[j] == empty_row());
                        }
                    } else {
                        assert(kept@[j] == row);
                        assert(tgt[j] == empty_row());
                    }
                }
                assert(v =~= tgt);
            }
        }
        proof {
            assert(kept@.map_values(|row: Vec<bool>| row@) =~= clear_rows(pg));
            lemma_kept_rows(pg, 40);
            assert forall|yy: int| 0 <= yy < 40 implies (#[trigger] kept@[yy])@.len() == 10
                && !row_is_full(kept@[yy]@) by {
                let v = kept@.map_values(|row: Vec<bool>| row@);
                assert(v[yy] == kept@[yy]@);
                if yy < kept_rows_upto(pg, 40).len() {
                    assert(v[yy] == kept_rows_upto(pg, 40)[yy]);
                } else {
                    assert(v[yy] == empty_row());
                    assert(!empty_row()[0]);
                    assert(!row_is_full(empty_row()));
                }
            }
        }
        self.replace_grid(kept);
        // classify and update the lock bookkeeping
        let kind = classify_exec(lines, piece.tspin);
        let is_clear = lines > 0;
        proof {
            assert(kind_is_clear(kind) == (lines > 0));
        }
        let b2b_out = self.b2b_bonus && is_clear && kind.is_hard();
        if is_clear {
            self.b2b_bonus = kind.is_hard();
        }
        let combo_out = if is_clear {
            Some(self.combo)
        } else {
            None
        };
        if is_clear {
            if self.combo < u32::MAX {
                self.combo = self.combo + 1;
            }
        } else {
            self.combo = 0;
        }
        let perfect_clear = self.is_empty_field();
        LockResult {
            placement_kind: kind,
            b2b: b2b_out,
            combo: combo_out,
            perfect_clear,
            cleared_lines: cleared,
        }
    }
}

/// Classifies a placement from its cleared-line count and T-spin tag.
fn classify_exec(lines: usize, tspin: TspinStatus) -> (r: PlacementKind)
    ensures
        r == spec_classify(lines as int, tspin),
{
    match tspin {
        TspinStatus::NoSpin => if lines == 0 {
            PlacementKind::NoClear
        } else if lines == 1 {
            PlacementKind::Clear1
        } else if lines == 2 {
            PlacementKind::Clear2
        } else if lines == 3 {
            PlacementKind::Clear3
        } else {
            PlacementKind::Clear4
        },
        TspinStatus::Mini => if lines == 0 {
            PlacementKind::MiniTspin
        } else if lines == 1 {
            PlacementKind::MiniTspin1
        } else {
            PlacementKind::MiniTspin2
        },
        TspinStatus::Full => if lines == 0 {
            PlacementKind::Tspin
        } else if lines == 1 {
            PlacementKind::Tspin1
        } else if lines == 2 {
            PlacementKind::Tspin2
        } else {
            PlacementKind::Tspin3
        },
    }
}

} // verus!
