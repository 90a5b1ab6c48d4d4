use vstd::prelude::*;
use crate::rotation::{shape, spec_shape};

verus! {

/// The seven tetromino kinds.
#[derive(Copy, Clone, PartialEq, Eq, Structural, Hash, Debug)]
pub enum PieceKind {
    I,
    J,
    L,
    O,
    S,
    Z,
    T,
}

/// All seven kinds in canonical order, as a sequence.
pub open spec fn all_kinds() -> Seq<PieceKind> {
    seq![PieceKind::I, PieceKind::J, PieceKind::L, PieceKind::O, PieceKind::S, PieceKind::Z, PieceKind::T]
}

impl PieceKind {
    pub const ALL: [PieceKind; 7] = [
        PieceKind::I,
        PieceKind::J,
        PieceKind::L,
        PieceKind::O,
        PieceKind::S,
        PieceKind::Z,
        PieceKind::T,
    ];

    /// 1..=7 in canonical order; 0 is reserved for "empty" in flat buffers.
    pub open spec fn spec_code(self) -> u8 {
        match self {
            PieceKind::I => 1,
            PieceKind::J => 2,
            PieceKind::L => 3,
            PieceKind::O => 4,
            PieceKind::S => 5,
            PieceKind::Z => 6,
            PieceKind::T => 7,
        }
    }

    /// 1..=7, 0 reserved for "empty" in flat buffers.
    pub fn as_u8(self) -> (r: u8)
        ensures
            r == self.spec_code(),
            1 <= r <= 7,
    {
        match self {
            PieceKind::I => 1,
            PieceKind::J => 2,
            PieceKind::L => 3,
            PieceKind::O => 4,
            PieceKind::S => 5,
            PieceKind::Z => 6,
            PieceKind::T => 7,
        }
    }

    pub open spec fn spec_box_size(self) -> i32 {
        match self {
            PieceKind::I => 4,
            PieceKind::O => 2,
            _ => 3,
        }
    }

    /// Side length of this piece's rotation bounding box (3 for JLSTZ, 4 for I; O uses 2).
    pub fn box_size(self) -> (r: i32)
        ensures
            r == self.spec_box_size(),
    {
        match self {
            PieceKind::I => 4,
            PieceKind::O => 2,
            _ => 3,
        }
    }

    pub open spec fn spec_spawn_col(self) -> i32 {
        match self {
            PieceKind::O => 4,
            _ => 3,
        }
    }

    /// Column (relative to the board) of the bounding box's top-left at spawn,
    /// chosen so the piece is horizontally centered on a 10-wide board.
    pub fn spawn_col(self) -> (r: i32)
        ensures
            r == self.spec_spawn_col(),
    {
        match self {
            PieceKind::O => 4,
            _ => 3,
        }
    }
}

/// SRS rotation states, in the order they cycle under a clockwise rotation.
#[derive(Copy, Clone, PartialEq, Eq, Structural, Debug)]
pub enum Rotation {
    R0,
    R,
    R2,
    L,
}

impl Rotation {
    pub open spec fn spec_cw(self) -> Rotation {
        match self {
            Rotation::R0 => Rotation::R,
            Rotation::R => Rotation::R2,
            Rotation::R2 => Rotation::L,
            Rotation::L => Rotation::R0,
        }
    }

    pub open spec fn spec_ccw(self) -> Rotation {
        match self {
            Rotation::R0 => Rotation::L,
            Rotation::L => Rotation::R2,
            Rotation::R2 => Rotation::R,
            Rotation::R => Rotation::R0,
        }
    }

    /// Next state under a clockwise rotation.
    pub fn cw(self) -> (r: Rotation)
        ensures
            r == self.spec_cw(),
    {
        match self {
            Rotation::R0 => Rotation::R,
            Rotation::R => Rotation::R2,
            Rotation::R2 => Rotation::L,
            Rotation::L => Rotation::R0,
        }
    }

    /// Next state under a counter-clockwise rotation.
    pub fn ccw(self) -> (r: Rotation)
        ensures
            r == self.spec_ccw(),
    {
        match self {
            Rotation::R0 => Rotation::L,
            Rotation::L => Rotation::R2,
            Rotation::R2 => Rotation::R,
            Rotation::R => Rotation::R0,
        }
    }
}

/// Four clockwise turns are the identity, and a counter-clockwise turn undoes a clockwise one.
pub proof fn law_rotation_cycle(r: Rotation)
    ensures
        r.spec_cw().spec_cw().spec_cw().spec_cw() == r,
        r.spec_ccw().spec_ccw().spec_ccw().spec_ccw() == r,
        r.spec_cw().spec_ccw() == r,
        r.spec_ccw().spec_cw() == r,
{
}

/// Bound on piece coordinates: every shape offset (at most 3), kick (at
/// most 2) and one-cell move computed on a piece within it stays inside `i32`.
pub const COORD_LIMIT: i32 = 0x7FFF_FFEF;

/// An active, falling piece. `row`/`col` locate the top-left of its rotation
/// bounding box in board coordinates (may be negative or extend into hidden rows).
#[derive(Copy, Clone, PartialEq, Eq, Structural, Debug)]
pub struct ActivePiece {
    pub kind: PieceKind,
    pub rotation: Rotation,
    pub row: i32,
    pub col: i32,
}

impl ActivePiece {
    /// The coordinates are small enough that offsets and kicks never overflow.
    pub open spec fn in_range(self) -> bool {
        -COORD_LIMIT <= self.row <= COORD_LIMIT && -COORD_LIMIT <= self.col <= COORD_LIMIT
    }

    /// Two cells inside `in_range` on every side: after any one move or turn
    /// the piece is still `in_range`.
    pub open spec fn well_inside(self) -> bool {
        -(COORD_LIMIT - 2) <= self.row <= COORD_LIMIT - 2 && -(COORD_LIMIT - 2) <= self.col <= COORD_LIMIT - 2
    }

    /// Adding a shape offset (at most 3) to either coordinate stays inside `i32`.
    pub open spec fn offsets_fit(self) -> bool {
        self.row <= i32::MAX - 3 && self.col <= i32::MAX - 3
    }

    /// The `i`-th occupied cell, as absolute (row, col).
    pub open spec fn cell(self, i: int) -> (int, int) {
        let s = spec_shape(self.kind, self.rotation)[i];
        (self.row + s.0, self.col + s.1)
    }

    pub open spec fn spec_spawn(kind: PieceKind, spawn_row: i32) -> ActivePiece {
        ActivePiece { kind, rotation: Rotation::R0, row: spawn_row, col: kind.spec_spawn_col() }
    }

    pub fn spawn(kind: PieceKind, spawn_row: i32) -> (r: Self)
        ensures
            r == Self::spec_spawn(kind, spawn_row),
    {
        ActivePiece { kind, rotation: Rotation::R0, row: spawn_row, col: kind.spawn_col() }
    }

    /// Cell offsets (row, col) occupied by this piece, relative to (self.row, self.col).
    pub fn cells(&self) -> (r: [(i32, i32); 4])
        ensures
            r@ == spec_shape(self.kind, self.rotation),
    {
        shape(self.kind, self.rotation)
    }

    /// Absolute board (row, col) coordinates occupied by this piece.
    pub fn occupied_cells(&self) -> (r: [(i32, i32); 4])
        requires
            self.offsets_fit(),
        ensures
            forall|i: int| 0 <= i < 4 ==> (r@[i].0 as int, r@[i].1 as int) == self.cell(i),
    {
        let s = self.cells();
        proof {
            crate::rotation::lemma_shape_bounds(self.kind, self.rotation);
        }
        let mut out = [(0i32, 0i32); 4];
        let mut i: usize = 0;
        while i < 4
            invariant
                i <= 4,
                self.offsets_fit(),
                s@ == spec_shape(self.kind, self.rotation),
                forall|j: int| 0 <= j < 4 ==> 0 <= #[trigger] s@[j].0 <= 3 && 0 <= s@[j].1 <= 3,
                forall|j: int| 0 <= j < i ==> (out@[j].0 as int, out@[j].1 as int) == self.cell(j),
            decreases 4 - i,
        {
            let (dr, dc) = s[i];
            out[i] = (self.row + dr, self.col + dc);
            i += 1;
        }
        out
    }

    /// Whether the coordinates are small enough for every move, turn and
    /// placement computation (`in_range`).
    pub fn coords_in_range(&self) -> (r: bool)
        ensures
            r == self.in_range(),
    {
        -COORD_LIMIT <= self.row && self.row <= COORD_LIMIT && -COORD_LIMIT <= self.col && self.col <= COORD_LIMIT
    }

    pub fn with_rotation(&self, rotation: Rotation, row: i32, col: i32) -> (r: ActivePiece)
        ensures
            r == (ActivePiece { kind: self.kind, rotation, row, col }),
    {
        ActivePiece { kind: self.kind, rotation, row, col }
    }
}

} // verus!
