use vstd::prelude::*;
use vstd::pervasive::VecAdditionalExecFns;
use crate::piece::{FallingPiece, Piece};

verus! {

/// The set of piece kinds still visible in the upcoming bag.
#[derive(Clone, Copy, Debug, PartialEq, Eq, Structural)]
pub struct PieceSet {
    pub i: bool,
    pub o: bool,
    pub t: bool,
    pub s: bool,
    pub z: bool,
    pub j: bool,
    pub l: bool,
}

impl PieceSet {
    /// Whether the set holds the given piece kind.
    pub open spec fn spec_contains(self, p: Piece) -> bool {
        match p {
            Piece::I => self.i,
            Piece::O => self.o,
            Piece::T => self.t,
            Piece::S => self.s,
            Piece::Z => self.z,
            Piece::J => self.j,
            Piece::L => self.l,
        }
    }

    /// The number of piece kinds in the set.
    pub open spec fn spec_len(self) -> int {
        (if self.i { 1int } else { 0 }) + (if self.o { 1int } else { 0 })
            + (if self.t { 1int } else { 0 }) + (if self.s { 1int } else { 0 })
            + (if self.z { 1int } else { 0 }) + (if self.j { 1int } else { 0 })
            + (if self.l { 1int } else { 0 })
    }

    /// A set with no piece kinds in it.
    pub fn empty() -> (r: PieceSet)
        ensures
            r.spec_len() == 0,
            forall|p: Piece| !r.spec_contains(p),
    {
        PieceSet { i: false, o: false, t: false, s: false, z: false, j: false, l: false }
    }

    /// Membership query.
    pub fn contains(&self, p: Piece) -> (r: bool)
        ensures
            r == self.spec_contains(p),
    {
        match p {
            Piece::I => self.i,
            Piece::O => self.o,
            Piece::T => self.t,
            Piece::S => self.s,
            Piece::Z => self.z,
            Piece::J => self.j,
            Piece::L => self.l,
        }
    }

    /// Adds a piece kind to the set.
    pub fn insert(&mut self, p: Piece)
        ensures
            final(self).spec_contains(p),
            forall|q: Piece| q != p ==> final(self).spec_contains(q) == old(self).spec_contains(q),
    {
        match p {
            Piece::I => { self.i = true; },
            Piece::O => { self.o = true; },
            Piece::T => { self.t = true; },
            Piece::S => { self.s = true; },
            Piece::Z => { self.z = true; },
            Piece::J => { self.j = true; },
            Piece::L => { self.l = true; },
        }
    }

    /// Size query.
    pub fn len(&self) -> (r: usize)
        ensures
            r == self.spec_len(),
    {
        let mut n: usize = 0;
        if self.i { n += 1; }
        if self.o { n += 1; }
        if self.t { n += 1; }
        if self.s { n += 1; }
        if self.z { n += 1; }
        if self.j { n += 1; }
        if self.l { n += 1; }
        n
    }
}

/// The playfield grid: forty rows, bottom to top, of ten cells each.
pub open spec fn grid_dims(g: Seq<Seq<bool>>) -> bool {
    g.len() == 40 && forall|y: int| 0 <= y < 40 ==> (#[trigger] g[y]).len() == 10
}

/// Occupancy with solid borders: any coordinate outside the playfield counts
/// as occupied, so walls and floor behave like stack cells.
pub open spec fn occ(g: Seq<Seq<bool>>, x: int, y: int) -> bool {
    !(0 <= x < 10 && 0 <= y < 40) || g[y][x]
}

/// Height of column `x` considering only the lowest `n` rows: one more than
/// the topmost occupied row, or zero if the column is empty there.
pub open spec fn col_h_upto(g: Seq<Seq<bool>>, x: int, n: nat) -> int
    decreases n,
{
    if n == 0 {
        0
    } else if g[n - 1][x] {
        n as int
    } else {
        col_h_upto(g, x, (n - 1) as nat)
    }
}

/// Height of column `x`: one more than its topmost occupied row, or zero.
pub open spec fn col_h(g: Seq<Seq<bool>>, x: int) -> int {
    col_h_upto(g, x, 40)
}

/// A row with every one of its ten cells filled.
pub open spec fn row_is_full(r: Seq<bool>) -> bool {
    forall|x: int| 0 <= x < 10 ==> r[x]
}

/// A row with none of its ten cells filled.
pub open spec fn row_is_empty(r: Seq<bool>) -> bool {
    forall|x: int| 0 <= x < 10 ==> !r[x]
}

/// No row of the grid is completely full; locking always clears full rows,
/// so every board handed to or produced by the engine satisfies this.
pub open spec fn no_full_rows(g: Seq<Seq<bool>>) -> bool {
    forall|y: int| 0 <= y < 40 ==> !row_is_full(#[trigger] g[y])
}

/// Every cell of the grid is empty.
pub open spec fn grid_is_empty(g: Seq<Seq<bool>>) -> bool {
    forall|y: int| 0 <= y < 40 ==> row_is_empty(#[trigger] g[y])
}

pub proof fn lemma_col_h_bounds(g: Seq<Seq<bool>>, x: int, n: nat)
    ensures
        0 <= col_h_upto(g, x, n) <= n,
    decreases n,
{
    if n > 0 {
        lemma_col_h_bounds(g, x, (n - 1) as nat);
    }
}

/// Every cell of a column at or above its height is empty.
pub proof fn lemma_above_height_empty(g: Seq<Seq<bool>>, x: int, y: int, n: nat)
    requires
        col_h_upto(g, x, n) <= y < n,
    ensures
        !g[y][x],
    decreases n,
{
    if n > 0 && y < n - 1 {
        lemma_above_height_empty(g, x, y, (n - 1) as nat);
    }
}

/// A column of positive height is occupied just below its height.
pub proof fn lemma_top_occupied(g: Seq<Seq<bool>>, x: int, n: nat)
    requires
        col_h_upto(g, x, n) > 0,
    ensures
        g[col_h_upto(g, x, n) - 1][x],
    decreases n,
{
    if n > 0 && !g[n - 1][x] {
        lemma_top_occupied(g, x, (n - 1) as nat);
    }
}

/// Column height depends only on that column's cells.
pub proof fn lemma_col_h_same(g1: Seq<Seq<bool>>, g2: Seq<Seq<bool>>, x: int, n: nat)
    requires
        forall|y: int| 0 <= y < n ==> g1[y][x] == g2[y][x],
    ensures
        col_h_upto(g1, x, n) == col_h_upto(g2, x, n),
    decreases n,
{
    if n > 0 {
        lemma_col_h_same(g1, g2, x, (n - 1) as nat);
    }
}

/// A board: occupancy grid, derived column heights, upcoming-bag summary,
/// hold piece, and back-to-back/combo state.
pub struct Board {
    pub cells: Vec<Vec<bool>>,
    pub heights: Vec<i32>,
    pub bag: PieceSet,
    pub hold_piece: Option<Piece>,
    pub b2b_bonus: bool,
    pub combo: u32,
}

impl Board {
    /// The mathematical view of the occupancy grid.
    pub open spec fn grid(self) -> Seq<Seq<bool>> {
        self.cells@.map_values(|r: Vec<bool>| r@)
    }

    /// The height cache agrees with the occupancy grid.
    pub open spec fn heights_ok(self) -> bool {
        self.heights@.len() == 10 && forall|x: int|
            0 <= x < 10 ==> #[trigger] self.heights@[x] == col_h(self.grid(), x)
    }

    /// Well-formedness: the grid has its fixed dimensions, the height cache
    /// is consistent with occupancy, and no row is left completely full.
    pub open spec fn wf(self) -> bool {
        &&& grid_dims(self.grid())
        &&& self.heights_ok()
        &&& no_full_rows(self.grid())
    }

    /// Occupancy query; coordinates outside the playfield count as occupied.
    pub fn occupied(&self, x: i32, y: i32) -> (r: bool)
        requires
            self.wf(),
        ensures
            r == occ(self.grid(), x as int, y as int),
    {
        if x < 0 || x >= 10 || y < 0 || y >= 40 {
            true
        } else {
            proof {
                assert(self.grid().len() == self.cells@.len());
                assert(self.grid()[y as int] == self.cells@[y as int]@);
            }
            let row: &Vec<bool> = &self.cells[y as usize];
            row[x as usize]
        }
    }

    /// The cached column heights, one entry per column.
    pub fn column_heights(&self) -> (r: &Vec<i32>)
        requires
            self.wf(),
        ensures
            r@.len() == 10,
            forall|x: int| 0 <= x < 10 ==> r@[x] == col_h(self.grid(), x),
            forall|x: int| 0 <= x < 10 ==> 0 <= #[trigger] r@[x] <= 40,
    {
        proof {
            assert forall|x: int| 0 <= x < 10 implies 0 <= #[trigger] self.heights@[x] <= 40 by {
                assert(self.heights@[x] == col_h(self.grid(), x));
                lemma_col_h_bounds(self.grid(), x, 40);
            }
        }
        &self.heights
    }

    /// An owned, independent copy of the board.
    pub fn clone_board(&self) -> (r: Board)
        ensures
            r.grid() == self.grid(),
            r.bag == self.bag,
            r.hold_piece == self.hold_piece,
            r.b2b_bonus == self.b2b_bonus,
            r.combo == self.combo,
            self.wf() ==> r.wf(),
    {
        let mut cells: Vec<Vec<bool>> = Vec::new();
        let mut y: usize = 0;
        while y < self.cells.len()
            invariant
                y <= self.cells@.len(),
                cells@.len() == y,
                forall|k: int| 0 <= k < y ==> cells@[k]@ == self.cells@[k]@,
            decreases self.cells@.len() - y,
        {
            let srow: &Vec<bool> = &self.cells[y];
            let mut row: Vec<bool> = Vec::new();
            let mut x: usize = 0;
            while x < srow.len()
                invariant
                    x <= srow@.len(),
                    row@.len() == x,
                    forall|k: int| 0 <= k < x ==> row@[k] == srow@[k],
                decreases srow@.len() - x,
            {
                row.push(srow[x]);
                x += 1;
            }
            proof {
                assert(row@ =~= srow@);
            }
            cells.push(row);
            y += 1;
        }
        let mut heights: Vec<i32> = Vec::new();
        let mut x: usize = 0;
        while x < self.heights.len()
            invariant
                x <= self.heights@.len(),
                heights@.len() == x,
                forall|k: int| 0 <= k < x ==> heights@[k] == self.heights@[k],
            decreases self.heights@.len() - x,
        {
            heights.push(self.heights[x]);
            x += 1;
        }
        let r = Board {
            cells,
            heights,
            bag: self.bag,
            hold_piece: self.hold_piece,
            b2b_bonus: self.b2b_bonus,
            combo: self.combo,
        };
        proof {
            assert(r.grid() =~= self.grid());
            assert(r.heights@ =~= self.heights@);
        }
        r
    }

    /// Recomputes the height of one column of a grid by scanning downward.
    fn compute_height(cells: &Vec<Vec<bool>>, x: usize) -> (r: i32)
        requires
            x < 10,
            cells@.len() == 40,
            forall|y: int| 0 <= y < 40 ==> (#[trigger] cells@[y])@.len() == 10,
        ensures
            r == col_h(cells@.map_values(|row: Vec<bool>| row@), x as int),
            0 <= r <= 40,
    {
        let ghost g = cells@.map_values(|row: Vec<bool>| row@);
        let mut y: usize = 40;
        while y > 0
            invariant
                y <= 40,
                x < 10,
                cells@.len() == 40,
                forall|k: int| 0 <= k < 40 ==> (#[trigger] cells@[k])@.len() == 10,
                g == cells@.map_values(|row: Vec<bool>| row@),
                col_h(g, x as int) == col_h_upto(g, x as int, y as nat),
            decreases y,
        {
            let row: &Vec<bool> = &cells[y - 1];
            if row[x] {
                proof {
                    lemma_col_h_bounds(g, x as int, y as nat);
                }
                return y as i32;
            }
            y -= 1;
        }
        0
    }

    /// Builds the full height cache for a grid.
    fn compute_heights(cells: &Vec<Vec<bool>>) -> (r: Vec<i32>)
        requires
            cells@.len() == 40,
            forall|y: int| 0 <= y < 40 ==> (#[trigger] cells@[y])@.len() == 10,
        ensures
            r@.len() == 10,
            forall|x: int| 0 <= x < 10 ==> r@[x] == col_h(
                cells@.map_values(|row: Vec<bool>| row@),
                x,
            ),
    {
        let mut heights: Vec<i32> = Vec::new();
        let mut x: usize = 0;
        while x < 10
            invariant
                x <= 10,
                heights@.len() == x,
                cells@.len() == 40,
                forall|y: int| 0 <= y < 40 ==> (#[trigger] cells@[y])@.len() == 10,
                forall|k: int| 0 <= k < x ==> heights@[k] == col_h(
                    cells@.map_values(|row: Vec<bool>| row@),
                    k,
                ),
            decreases 10 - x,
        {
            let h = Self::compute_height(cells, x);
            heights.push(h);
            x += 1;
        }
        heights
    }

    /// Whether row `y` of a grid is completely full.
    pub(crate) fn row_full_exec(cells: &Vec<Vec<bool>>, y: usize) -> (r: bool)
        requires
            y < cells@.len(),
            cells@[y as int]@.len() == 10,
        ensures
            r == row_is_full(cells@[y as int]@),
    {
        let row: &Vec<bool> = &cells[y];
        let mut x: usize = 0;
        while x < 10
            invariant
                x <= 10,
                row@.len() == 10,
                row@ == cells@[y as int]@,
                forall|k: int| 0 <= k < x ==> row@[k],
            decreases 10 - x,
        {
            if !row[x] {
                return false;
            }
            x += 1;
        }
        true
    }

    /// Builds a board from a full state description. Returns `None` when the
    /// field does not have forty rows of ten cells, or when some row is
    /// already completely full (a state the engine never produces, since
    /// locking clears full rows).
    pub fn new_with_state(
        field: Vec<Vec<bool>>,
        bag: PieceSet,
        hold_piece: Option<Piece>,
        b2b_bonus: bool,
        combo: u32,
    ) -> (r: Option<Board>)
        ensures
            match r {
                Some(b) => {
                    &&& b.wf()
                    &&& b.grid() == field@.map_values(|row: Vec<bool>| row@)
                    &&& b.bag == bag
                    &&& b.hold_piece == hold_piece
                    &&& b.b2b_bonus == b2b_bonus
                    &&& b.combo == combo
                },
                None => !(grid_dims(field@.map_values(|row: Vec<bool>| row@)) && no_full_rows(
                    field@.map_values(|row: Vec<bool>| row@),
                )),
            },
    {
        let ghost g = field@.map_values(|row: Vec<bool>| row@);
        if field.len() != 40 {
            return None;
        }
        let mut y: usize = 0;
        while y < 40
            invariant
                y <= 40,
                field@.len() == 40,
                g == field@.map_values(|row: Vec<bool>| row@),
                forall|k: int| 0 <= k < y ==> (#[trigger] g[k]).len() == 10 && !row_is_full(g[k]),
            decreases 40 - y,
        {
            proof {
                assert(g[y as int] == field@[y as int]@);
            }
            if field[y].len() != 10 {
                proof {
                    assert(!grid_dims(g));
                }
                return None;
            }
            if Self::row_full_exec(&field, y) {
                proof {
                    assert(!no_full_rows(g));
                }
                return None;
            }
            y += 1;
        }
        proof {
            assert forall|k: int| 0 <= k < 40 implies (#[trigger] field@[k])@.len() == 10 by {
                assert(g[k] == field@[k]@);
            }
        }
        let heights = Self::compute_heights(&field);
        let b = Board { cells: field, heights, bag, hold_piece, b2b_bonus, combo };
        proof {
            assert(b.grid() == g);
            assert(grid_dims(g));
        }
        Some(b)
    }

    /// Direct access to one grid cell for in-bounds coordinates.
    pub(crate) fn cell_at(&self, x: usize, y: usize) -> (r: bool)
        requires
            self.wf(),
            x < 10,
            y < 40,
        ensures
            r == self.grid()[y as int][x as int],
    {
        proof {
            assert(self.grid().len() == self.cells@.len());
            assert(self.grid()[y as int] == self.cells@[y as int]@);
        }
        let row: &Vec<bool> = &self.cells[y];
        row[x]
    }

    /// Marks one in-bounds grid cell occupied.
    pub(crate) fn set_cell(&mut self, x: usize, y: usize)
        requires
            grid_dims(old(self).grid()),
            x < 10,
            y < 40,
        ensures
            final(self).grid() == old(self).grid().update(
                y as int,
                old(self).grid()[y as int].update(x as int, true),
            ),
            grid_dims(final(self).grid()),
            final(self).bag == old(self).bag,
            final(self).hold_piece == old(self).hold_piece,
            final(self).b2b_bonus == old(self).b2b_bonus,
            final(self).combo == old(self).combo,
            final(self).heights@ == old(self).heights@,
    {
        proof {
            assert(self.grid().len() == self.cells@.len());
            assert(self.grid()[y as int] == self.cells@[y as int]@);
        }
        let row: &mut Vec<bool> = &mut self.cells[y];
        row.set(x, true);
        proof {
            assert forall|k: int| 0 <= k < 40 implies self.grid()[k] == old(self).grid().update(
                y as int,
                old(self).grid()[y as int].update(x as int, true),
            )[k] by {
                assert(self.grid()[k] == self.cells@[k]@);
                assert(old(self).grid()[k] == old(self).cells@[k]@);
            }
            assert(self.grid() =~= old(self).grid().update(
                y as int,
                old(self).grid()[y as int].update(x as int, true),
            ));
            assert forall|k: int| 0 <= k < 40 implies (#[trigger] self.grid()[k]).len() == 10 by {
                assert(old(self).grid()[k].len() == 10);
            }
        }
    }

    /// Replaces the grid and recomputes the height cache; the new grid must
    /// have no full rows.
    pub(crate) fn replace_grid(&mut self, cells: Vec<Vec<bool>>)
        requires
            cells@.len() == 40,
            forall|y: int| 0 <= y < 40 ==> (#[trigger] cells@[y])@.len() == 10,
            no_full_rows(cells@.map_values(|row: Vec<bool>| row@)),
        ensures
            final(self).grid() == cells@.map_values(|row: Vec<bool>| row@),
            final(self).wf(),
            final(self).bag == old(self).bag,
            final(self).hold_piece == old(self).hold_piece,
            final(self).b2b_bonus == old(self).b2b_bonus,
            final(self).combo == old(self).combo,
    {
        let heights = Self::compute_heights(&cells);
        self.cells = cells;
        self.heights = heights;
    }
}

/// Whether the piece could fall one more row: true when every cell directly
/// below one of its cells is free.
pub open spec fn can_drop(g: Seq<Seq<bool>>, p: FallingPiece) -> bool {
    forall|i: int| 0 <= i < 4 ==> !occ(g, #[trigger] p.cell_x(i), p.cell_y(i) - 1)
}

/// The anchor row the piece reaches when dropped straight down until it
/// rests on the stack or the floor.
pub open spec fn dropped_y(g: Seq<Seq<bool>>, p: FallingPiece, y: int) -> int
    decreases y + 1,
{
    if y < 0 {
        y
    } else if can_drop(g, FallingPiece { y: y as i32, ..p }) {
        dropped_y(g, p, y - 1)
    } else {
        y
    }
}

/// The drop never raises a piece and never carries one below the floor:
/// from a non-negative row it lands on a row between zero and where it
/// started, and from below zero it stays put.
pub proof fn lemma_dropped_range(g: Seq<Seq<bool>>, p: FallingPiece, y: int)
    ensures
        dropped_y(g, p, y) <= y,
        y >= 0 ==> dropped_y(g, p, y) >= 0,
        y < 0 ==> dropped_y(g, p, y) == y,
    decreases y + 1,
{
    if y >= 1 && can_drop(g, FallingPiece { y: y as i32, ..p }) {
        lemma_dropped_range(g, p, y - 1);
    } else if y == 0 {
        crate::piece::lemma_anchor_cell(p.kind);
        let i = choose|i: int|
            0 <= i < 4 && #[trigger] crate::piece::cell_dx(p.kind, i) == 0
                && crate::piece::cell_dy(p.kind, i) == 0;
        let p0 = FallingPiece { y: 0i32, ..p };
        assert(occ(g, p0.cell_x(i), p0.cell_y(i) - 1));
        assert(!can_drop(g, p0));
    }
}

/// All four cells of the piece are free.
pub open spec fn piece_fits(g: Seq<Seq<bool>>, p: FallingPiece) -> bool {
    forall|i: int| 0 <= i < 4 ==> !occ(g, #[trigger] p.cell_x(i), p.cell_y(i))
}

/// The piece fits and rests on the stack: some cell sits directly above an
/// occupied cell or the floor.
pub open spec fn spec_on_stack(g: Seq<Seq<bool>>, p: FallingPiece) -> bool {
    piece_fits(g, p) && exists|i: int|
        0 <= i < 4 && occ(g, #[trigger] p.cell_x(i), p.cell_y(i) - 1)
}

impl Board {
    /// Whether the piece fits freely on the board and rests on the stack.
    pub fn on_stack(&self, piece: &FallingPiece) -> (r: bool)
        requires
            self.wf(),
            -1000 <= piece.x <= 1000,
            -1000 <= piece.y <= 1000,
        ensures
            r == spec_on_stack(self.grid(), *piece),
    {
        let mut i: usize = 0;
        while i < 4
            invariant
                i <= 4,
                self.wf(),
                -1000 <= piece.x <= 1000,
                -1000 <= piece.y <= 1000,
                forall|k: int| 0 <= k < i ==> !occ(
                    self.grid(),
                    #[trigger] piece.cell_x(k),
                    piece.cell_y(k),
                ),
            decreases 4 - i,
        {
            let (cx, cy) = piece.cell(i);
            if self.occupied(cx, cy) {
                return false;
            }
            i += 1;
        }
        let mut i: usize = 0;
        while i < 4
            invariant
                i <= 4,
                self.wf(),
                -1000 <= piece.x <= 1000,
                -1000 <= piece.y <= 1000,
                piece_fits(self.grid(), *piece),
                forall|k: int| 0 <= k < i ==> !occ(
                    self.grid(),
                    #[trigger] piece.cell_x(k),
                    piece.cell_y(k) - 1,
                ),
            decreases 4 - i,
        {
            let (cx, cy) = piece.cell(i);
            if cy > -1000 && self.occupied(cx, cy - 1) {
                return true;
            }
            i += 1;
        }
        false
    }

    /// Whether the piece could fall one more row on this board.
    fn piece_can_drop(&self, piece: &FallingPiece) -> (r: bool)
        requires
            self.wf(),
            -1000 <= piece.x <= 1000,
            -1000 <= piece.y <= 1000,
        ensures
            r == can_drop(self.grid(), *piece),
    {
        let mut i: usize = 0;
        while i < 4
            invariant
                i <= 4,
                self.wf(),
                -1000 <= piece.x <= 1000,
                -1000 <= piece.y <= 1000,
                forall|k: int| 0 <= k < i ==> !occ(
                    self.grid(),
                    #[trigger] piece.cell_x(k),
                    piece.cell_y(k) - 1,
                ),
            decreases 4 - i,
        {
            let (cx, cy) = piece.cell(i);
            if cy <= -1000 || self.occupied(cx, cy - 1) {
                return false;
            }
            i += 1;
        }
        true
    }
}

impl FallingPiece {
    /// Drops the piece straight down until it rests on the stack or floor.
    pub fn sonic_drop(&mut self, board: &Board)
        requires
            board.wf(),
            -1000 <= old(self).x <= 1000,
            -1000 <= old(self).y <= 1000,
        ensures
            final(self).kind == old(self).kind,
            final(self).x == old(self).x,
            final(self).tspin == old(self).tspin,
            final(self).y == dropped_y(board.grid(), *old(self), old(self).y as int),
            old(self).y >= 0 ==> 0 <= final(self).y <= old(self).y,
            final(self).y <= old(self).y,
    {
        let ghost g = board.grid();
        let ghost p0 = *self;
        while board.piece_can_drop(self)
            invariant
                board.wf(),
                g == board.grid(),
                self.kind == p0.kind,
                self.x == p0.x,
                self.tspin == p0.tspin,
                -1000 <= self.x <= 1000,
                -1000 <= self.y <= 1000,
                self.y <= p0.y,
                p0.y >= 0 ==> self.y >= 0,
                dropped_y(g, p0, p0.y as int) == dropped_y(g, p0, self.y as int),
            decreases self.y + 1001,
        {
            proof {
                // every piece has a cell at its anchor, and that cell has a free
                // cell below it, which pins the anchor row above the floor
                crate::piece::lemma_anchor_cell(self.kind);
                let i = choose|i: int|
                    0 <= i < 4 && #[trigger] crate::piece::cell_dx(self.kind, i) == 0
                        && crate::piece::cell_dy(self.kind, i) == 0;
                assert(!occ(g, self.cell_x(i), self.cell_y(i) - 1));
                assert(self.y >= 1);
                assert(FallingPiece { y: (self.y as int) as i32, ..p0 } == *self);
            }
            self.y = self.y - 1;
        }
        proof {
            assert(FallingPiece { y: (self.y as int) as i32, ..p0 } == *self);
            if self.y >= 0 {
                assert(dropped_y(g, p0, self.y as int) == self.y as int);
            }
        }
    }
}

} // verus!
