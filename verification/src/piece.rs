use vstd::prelude::*;

verus! {

/// One of the seven tetromino kinds.
#[derive(Clone, Copy, Debug, PartialEq, Eq, Hash, Structural)]
pub enum Piece {
    I,
    O,
    T,
    S,
    Z,
    J,
    L,
}

/// One of the four cardinal facings a piece can take.
#[derive(Clone, Copy, Debug, PartialEq, Eq, Hash, Structural)]
pub enum RotationState {
    North,
    East,
    South,
    West,
}

/// The T-spin classification tag carried by a falling piece.
#[derive(Clone, Copy, Debug, PartialEq, Eq, Hash, Structural)]
pub enum TspinStatus {
    NoSpin,
    Mini,
    Full,
}

/// A piece kind together with its rotation state.
#[derive(Clone, Copy, Debug, PartialEq, Eq, Hash, Structural)]
pub struct PieceState(pub Piece, pub RotationState);

/// A piece committed to a position: kind, rotation, anchor cell and T-spin tag.
#[derive(Clone, Copy, Debug, PartialEq, Eq, Structural)]
pub struct FallingPiece {
    pub kind: PieceState,
    pub x: i32,
    pub y: i32,
    pub tspin: TspinStatus,
}

/// Horizontal offset of cell `i` of a north-facing piece, relative to its anchor.
pub open spec fn base_dx(p: Piece, i: int) -> int {
    match p {
        Piece::I => if i == 0 { -1 } else if i == 1 { 0 } else if i == 2 { 1 } else { 2 },
        Piece::O => if i == 0 { 0 } else if i == 1 { 1 } else if i == 2 { 0 } else { 1 },
        Piece::T => if i == 0 { -1 } else if i == 1 { 0 } else if i == 2 { 1 } else { 0 },
        Piece::S => if i == 0 { -1 } else if i == 1 { 0 } else if i == 2 { 0 } else { 1 },
        Piece::Z => if i == 0 { -1 } else if i == 1 { 0 } else if i == 2 { 0 } else { 1 },
        Piece::J => if i == 0 { -1 } else if i == 1 { -1 } else if i == 2 { 0 } else { 1 },
        Piece::L => if i == 0 { -1 } else if i == 1 { 0 } else if i == 2 { 1 } else { 1 },
    }
}

/// Vertical offset of cell `i` of a north-facing piece, relative to its anchor.
pub open spec fn base_dy(p: Piece, i: int) -> int {
    match p {
        Piece::I => 0,
        Piece::O => if i == 0 { 0 } else if i == 1 { 0 } else { 1 },
        Piece::T => if i == 3 { 1 } else { 0 },
        Piece::S => if i == 0 { 0 } else if i == 1 { 0 } else { 1 },
        Piece::Z => if i == 0 { 1 } else if i == 1 { 1 } else { 0 },
        Piece::J => if i == 0 { 1 } else { 0 },
        Piece::L => if i == 3 { 1 } else { 0 },
    }
}

/// Horizontal offset of cell `i` after applying the rotation state.
pub open spec fn cell_dx(kind: PieceState, i: int) -> int {
    match kind.1 {
        RotationState::North => base_dx(kind.0, i),
        RotationState::East => base_dy(kind.0, i),
        RotationState::South => -base_dx(kind.0, i),
        RotationState::West => -base_dy(kind.0, i),
    }
}

/// Vertical offset of cell `i` after applying the rotation state.
pub open spec fn cell_dy(kind: PieceState, i: int) -> int {
    match kind.1 {
        RotationState::North => base_dy(kind.0, i),
        RotationState::East => -base_dx(kind.0, i),
        RotationState::South => -base_dy(kind.0, i),
        RotationState::West => base_dx(kind.0, i),
    }
}

/// Every cell of a piece lies within two columns and two rows of its anchor.
pub proof fn lemma_cell_offsets_bounded(kind: PieceState, i: int)
    requires
        0 <= i < 4,
    ensures
        -2 <= cell_dx(kind, i) <= 2,
        -2 <= cell_dy(kind, i) <= 2,
{
}

/// Every piece has a cell at its anchor position, in every rotation.
pub proof fn lemma_anchor_cell(kind: PieceState)
    ensures
        exists|i: int| 0 <= i < 4 && #[trigger] cell_dx(kind, i) == 0 && cell_dy(kind, i) == 0,
{
    match kind.0 {
        Piece::I | Piece::T | Piece::S | Piece::L => {
            assert(cell_dx(kind, 1) == 0 && cell_dy(kind, 1) == 0);
        },
        Piece::O => {
            assert(cell_dx(kind, 0) == 0 && cell_dy(kind, 0) == 0);
        },
        Piece::Z | Piece::J => {
            assert(cell_dx(kind, 2) == 0 && cell_dy(kind, 2) == 0);
        },
    }
}

/// Cell `i` of a T piece never leaves the anchor's row by more than one.
pub proof fn lemma_t_cell_rows(kind: PieceState, i: int)
    requires
        0 <= i < 4,
        kind.0 == Piece::T,
    ensures
        -1 <= cell_dy(kind, i) <= 1,
{
}

impl FallingPiece {
    /// The column of cell `i` of this piece.
    pub open spec fn cell_x(self, i: int) -> int {
        self.x + cell_dx(self.kind, i)
    }

    /// The row of cell `i` of this piece.
    pub open spec fn cell_y(self, i: int) -> int {
        self.y + cell_dy(self.kind, i)
    }

    /// All four cells fall inside the ten-by-forty playfield.
    pub open spec fn cells_in_bounds(self) -> bool {
        (forall|i: int| 0 <= i < 4 ==> 0 <= #[trigger] self.cell_x(i) < 10) && (forall|i: int|
            0 <= i < 4 ==> 0 <= #[trigger] self.cell_y(i) < 40)
    }

    /// Computes the base offsets of cell `i` before rotation.
    fn base_cell(p: Piece, i: usize) -> (r: (i32, i32))
        requires
            i < 4,
        ensures
            r.0 == base_dx(p, i as int),
            r.1 == base_dy(p, i as int),
    {
        match p {
            Piece::I => if i == 0 { (-1, 0) } else if i == 1 { (0, 0) } else if i == 2 { (1, 0) } else { (2, 0) },
            Piece::O => if i == 0 { (0, 0) } else if i == 1 { (1, 0) } else if i == 2 { (0, 1) } else { (1, 1) },
            Piece::T => if i == 0 { (-1, 0) } else if i == 1 { (0, 0) } else if i == 2 { (1, 0) } else { (0, 1) },
            Piece::S => if i == 0 { (-1, 0) } else if i == 1 { (0, 0) } else if i == 2 { (0, 1) } else { (1, 1) },
            Piece::Z => if i == 0 { (-1, 1) } else if i == 1 { (0, 1) } else if i == 2 { (0, 0) } else { (1, 0) },
            Piece::J => if i == 0 { (-1, 1) } else if i == 1 { (-1, 0) } else if i == 2 { (0, 0) } else { (1, 0) },
            Piece::L => if i == 0 { (-1, 0) } else if i == 1 { (0, 0) } else if i == 2 { (1, 0) } else { (1, 1) },
        }
    }

    /// Computes the playfield coordinates of cell `i` of this piece.
    pub fn cell(&self, i: usize) -> (r: (i32, i32))
        requires
            i < 4,
            -1000 <= self.x <= 1000,
            -1000 <= self.y <= 1000,
        ensures
            r.0 == self.cell_x(i as int),
            r.1 == self.cell_y(i as int),
    {
        let (bx, by) = Self::base_cell(self.kind.0, i);
        match self.kind.1 {
            RotationState::North => (self.x + bx, self.y + by),
            RotationState::East => (self.x + by, self.y - bx),
            RotationState::South => (self.x - bx, self.y - by),
            RotationState::West => (self.x - by, self.y + bx),
        }
    }

    /// Checks at run time that all four cells of this piece lie inside the
    /// playfield, so a caller can guard a lock with it.
    pub fn in_bounds(&self) -> (r: bool)
        ensures
            r == self.cells_in_bounds(),
    {
        proof {
            assert forall|i: int| 0 <= i < 4 implies -2 <= #[trigger] cell_dx(self.kind, i) <= 2
                && -2 <= cell_dy(self.kind, i) <= 2 by {
                lemma_cell_offsets_bounded(self.kind, i);
            }
        }
        if self.x < -2 || self.x > 11 || self.y < -2 || self.y > 41 {
            proof {
                if self.cells_in_bounds() {
                    assert(0 <= self.cell_x(0) < 10 && 0 <= self.cell_y(0) < 40);
                }
            }
            return false;
        }
        let mut i: usize = 0;
        while i < 4
            invariant
                i <= 4,
                -2 <= self.x <= 11,
                -2 <= self.y <= 41,
                forall|k: int| 0 <= k < i ==> 0 <= #[trigger] self.cell_x(k) < 10,
                forall|k: int| 0 <= k < i ==> 0 <= #[trigger] self.cell_y(k) < 40,
            decreases 4 - i,
        {
            let (cx, cy) = self.cell(i);
            if cx < 0 || cx >= 10 || cy < 0 || cy >= 40 {
                return false;
            }
            i += 1;
        }
        true
    }
}

} // verus!
