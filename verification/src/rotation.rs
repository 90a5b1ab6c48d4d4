//! SRS (Super Rotation System) piece shapes and wall-kick tables.
//!
//! Shape and kick data are transcribed from the standard Tetris Guideline SRS
//! specification. Kick offsets are stored in the conventional `(dx, dy)` form
//! where `+x` is right and `+y` is *up*; because this engine's `row` increases
//! downward, a kick is applied as `col += dx; row -= dy`.

use vstd::prelude::*;
use crate::board::{Board, Cell, view_occupied};
use crate::piece::{ActivePiece, PieceKind, Rotation};

verus! {

/// The 4 occupied cells of `kind` in `rotation`, as (row, col) offsets from the
/// piece's bounding-box top-left.
pub open spec fn spec_shape(kind: PieceKind, rotation: Rotation) -> Seq<(i32, i32)> {
    match kind {
        PieceKind::O => seq![(0i32, 0i32), (0, 1), (1, 0), (1, 1)],
        PieceKind::I => match rotation {
            Rotation::R0 => seq![(1i32, 0i32), (1, 1), (1, 2), (1, 3)],
            Rotation::R => seq![(0i32, 2i32), (1, 2), (2, 2), (3, 2)],
            Rotation::R2 => seq![(2i32, 0i32), (2, 1), (2, 2), (2, 3)],
            Rotation::L => seq![(0i32, 1i32), (1, 1), (2, 1), (3, 1)],
        },
        PieceKind::J => match rotation {
            Rotation::R0 => seq![(0i32, 0i32), (1, 0), (1, 1), (1, 2)],
            Rotation::R => seq![(0i32, 1i32), (0, 2), (1, 1), (2, 1)],
            Rotation::R2 => seq![(1i32, 0i32), (1, 1), (1, 2), (2, 2)],
            Rotation::L => seq![(0i32, 1i32), (1, 1), (2, 0), (2, 1)],
        },
        PieceKind::L => match rotation {
            Rotation::R0 => seq![(0i32, 2i32), (1, 0), (1, 1), (1, 2)],
            Rotation::R => seq![(0i32, 1i32), (1, 1), (2, 1), (2, 2)],
            Rotation::R2 => seq![(1i32, 0i32), (1, 1), (1, 2), (2, 0)],
            Rotation::L => seq![(0i32, 0i32), (0, 1), (1, 1), (2, 1)],
        },
        PieceKind::S => match rotation {
            Rotation::R0 => seq![(0i32, 1i32), (0, 2), (1, 0), (1, 1)],
            Rotation::R => seq![(0i32, 1i32), (1, 1), (1, 2), (2, 2)],
            Rotation::R2 => seq![(1i32, 1i32), (1, 2), (2, 0), (2, 1)],
            Rotation::L => seq![(0i32, 0i32), (1, 0), (1, 1), (2, 1)],
        },
        PieceKind::Z => match rotation {
            Rotation::R0 => seq![(0i32, 0i32), (0, 1), (1, 1), (1, 2)],
            Rotation::R => seq![(0i32, 2i32), (1, 1), (1, 2), (2, 1)],
            Rotation::R2 => seq![(1i32, 0i32), (1, 1), (2, 1), (2, 2)],
            Rotation::L => seq![(0i32, 1i32), (1, 0), (1, 1), (2, 0)],
        },
        PieceKind::T => match rotation {
            Rotation::R0 => seq![(0i32, 1i32), (1, 0), (1, 1), (1, 2)],
            Rotation::R => seq![(0i32, 1i32), (1, 1), (1, 2), (2, 1)],
            Rotation::R2 => seq![(1i32, 0i32), (1, 1), (1, 2), (2, 1)],
            Rotation::L => seq![(0i32, 1i32), (1, 0), (1, 1), (2, 1)],
        },
    }
}

/// Every shape has four cells, each inside the piece's bounding box.
pub proof fn lemma_shape_bounds(kind: PieceKind, rotation: Rotation)
    ensures
        spec_shape(kind, rotation).len() == 4,
        forall|i: int|
            0 <= i < 4 ==> 0 <= #[trigger] spec_shape(kind, rotation)[i].0 < kind.spec_box_size()
                && 0 <= spec_shape(kind, rotation)[i].1 < kind.spec_box_size(),
{
}

/// A cell of an `n` x `n` box turned a quarter clockwise inside the box.
pub open spec fn turn_cell(cell: (i32, i32), n: i32) -> (int, int) {
    (cell.1 as int, n - 1 - cell.0)
}

/// `x` is one of the four cells of `s`.
pub open spec fn has_cell(s: Seq<(i32, i32)>, x: (int, int)) -> bool {
    ||| (s[0].0 as int, s[0].1 as int) == x
    ||| (s[1].0 as int, s[1].1 as int) == x
    ||| (s[2].0 as int, s[2].1 as int) == x
    ||| (s[3].0 as int, s[3].1 as int) == x
}

/// The four cells of `s`, turned a quarter clockwise in an `n` x `n` box, are
/// exactly the four cells of `t`.
pub open spec fn turns_into(s: Seq<(i32, i32)>, t: Seq<(i32, i32)>, n: i32) -> bool {
    let u = seq![(turn_cell(s[0], n).0 as i32, turn_cell(s[0], n).1 as i32), (turn_cell(s[1], n).0 as i32, turn_cell(s[1], n).1 as i32),
        (turn_cell(s[2], n).0 as i32, turn_cell(s[2], n).1 as i32), (turn_cell(s[3], n).0 as i32, turn_cell(s[3], n).1 as i32)];
    &&& has_cell(t, turn_cell(s[0], n))
    &&& has_cell(t, turn_cell(s[1], n))
    &&& has_cell(t, turn_cell(s[2], n))
    &&& has_cell(t, turn_cell(s[3], n))
    &&& has_cell(u, (t[0].0 as int, t[0].1 as int))
    &&& has_cell(u, (t[1].0 as int, t[1].1 as int))
    &&& has_cell(u, (t[2].0 as int, t[2].1 as int))
    &&& has_cell(u, (t[3].0 as int, t[3].1 as int))
}

/// Each clockwise rotation state of a piece is the previous state turned a
/// quarter clockwise inside the piece's bounding box.
pub proof fn law_shape_turns_clockwise(kind: PieceKind, rot: Rotation)
    ensures
        turns_into(spec_shape(kind, rot), spec_shape(kind, rot.spec_cw()), kind.spec_box_size()),
{
    match kind {
        PieceKind::I => match rot {
            Rotation::R0 => {},
            Rotation::R => {},
            Rotation::R2 => {},
            Rotation::L => {},
        },
        PieceKind::J => match rot {
            Rotation::R0 => {},
            Rotation::R => {},
            Rotation::R2 => {},
            Rotation::L => {},
        },
        PieceKind::L => match rot {
            Rotation::R0 => {},
            Rotation::R => {},
            Rotation::R2 => {},
            Rotation::L => {},
        },
        PieceKind::O => {},
        PieceKind::S => match rot {
            Rotation::R0 => {},
            Rotation::R => {},
            Rotation::R2 => {},
            Rotation::L => {},
        },
        PieceKind::Z => match rot {
            Rotation::R0 => {},
            Rotation::R => {},
            Rotation::R2 => {},
            Rotation::L => {},
        },
        PieceKind::T => match rot {
            Rotation::R0 => {},
            Rotation::R => {},
            Rotation::R2 => {},
            Rotation::L => {},
        },
    }
}

/// The 4 occupied cells of `kind` in `rotation`, as (row, col) offsets from the
/// piece's bounding-box top-left.
pub fn shape(kind: PieceKind, rotation: Rotation) -> (r: [(i32, i32); 4])
    ensures
        r@ == spec_shape(kind, rotation),
{
    match kind {
        PieceKind::O => [(0, 0), (0, 1), (1, 0), (1, 1)],
        PieceKind::I => match rotation {
            Rotation::R0 => [(1, 0), (1, 1), (1, 2), (1, 3)],
            Rotation::R => [(0, 2), (1, 2), (2, 2), (3, 2)],
            Rotation::R2 => [(2, 0), (2, 1), (2, 2), (2, 3)],
            Rotation::L => [(0, 1), (1, 1), (2, 1), (3, 1)],
        },
        PieceKind::J => match rotation {
            Rotation::R0 => [(0, 0), (1, 0), (1, 1), (1, 2)],
            Rotation::R => [(0, 1), (0, 2), (1, 1), (2, 1)],
            Rotation::R2 => [(1, 0), (1, 1), (1, 2), (2, 2)],
            Rotation::L => [(0, 1), (1, 1), (2, 0), (2, 1)],
        },
        PieceKind::L => match rotation {
            Rotation::R0 => [(0, 2), (1, 0), (1, 1), (1, 2)],
            Rotation::R => [(0, 1), (1, 1), (2, 1), (2, 2)],
            Rotation::R2 => [(1, 0), (1, 1), (1, 2), (2, 0)],
            Rotation::L => [(0, 0), (0, 1), (1, 1), (2, 1)],
        },
        PieceKind::S => match rotation {
            Rotation::R0 => [(0, 1), (0, 2), (1, 0), (1, 1)],
            Rotation::R => [(0, 1), (1, 1), (1, 2), (2, 2)],
            Rotation::R2 => [(1, 1), (1, 2), (2, 0), (2, 1)],
            Rotation::L => [(0, 0), (1, 0), (1, 1), (2, 1)],
        },
        PieceKind::Z => match rotation {
            Rotation::R0 => [(0, 0), (0, 1), (1, 1), (1, 2)],
            Rotation::R => [(0, 2), (1, 1), (1, 2), (2, 1)],
            Rotation::R2 => [(1, 0), (1, 1), (2, 1), (2, 2)],
            Rotation::L => [(0, 1), (1, 0), (1, 1), (2, 0)],
        },
        PieceKind::T => match rotation {
            Rotation::R0 => [(0, 1), (1, 0), (1, 1), (1, 2)],
            Rotation::R => [(0, 1), (1, 1), (1, 2), (2, 1)],
            Rotation::R2 => [(1, 0), (1, 1), (1, 2), (2, 1)],
            Rotation::L => [(0, 1), (1, 0), (1, 1), (2, 1)],
        },
    }
}

/// SRS kick offsets `(dx, dy)` for a J, L, S, T or Z piece turning `from` -> `to`.
pub open spec fn spec_jlstz_kicks(from: Rotation, to: Rotation) -> Seq<(i32, i32)> {
    match (from, to) {
        (Rotation::R0, Rotation::R) => seq![(0i32, 0i32), (-1i32, 0), (-1i32, 1), (0, -2i32), (-1i32, -2i32)],
        (Rotation::R, Rotation::R0) => seq![(0i32, 0i32), (1, 0), (1, -1i32), (0, 2), (1, 2)],
        (Rotation::R, Rotation::R2) => seq![(0i32, 0i32), (1, 0), (1, -1i32), (0, 2), (1, 2)],
        (Rotation::R2, Rotation::R) => seq![(0i32, 0i32), (-1i32, 0), (-1i32, 1), (0, -2i32), (-1i32, -2i32)],
        (Rotation::R2, Rotation::L) => seq![(0i32, 0i32), (1, 0), (1, 1), (0, -2i32), (1, -2i32)],
        (Rotation::L, Rotation::R2) => seq![(0i32, 0i32), (-1i32, 0), (-1i32, -1i32), (0, 2), (-1i32, 2)],
        (Rotation::L, Rotation::R0) => seq![(0i32, 0i32), (-1i32, 0), (-1i32, -1i32), (0, 2), (-1i32, 2)],
        (Rotation::R0, Rotation::L) => seq![(0i32, 0i32), (1, 0), (1, 1), (0, -2i32), (1, -2i32)],
        _ => seq![(0i32, 0i32), (0, 0), (0, 0), (0, 0), (0, 0)],
    }
}

/// SRS kick offsets `(dx, dy)` for an I piece turning `from` -> `to`.
pub open spec fn spec_i_kicks(from: Rotation, to: Rotation) -> Seq<(i32, i32)> {
    match (from, to) {
        (Rotation::R0, Rotation::R) => seq![(0i32, 0i32), (-2i32, 0), (1, 0), (-2i32, -1i32), (1, 2)],
        (Rotation::R, Rotation::R0) => seq![(0i32, 0i32), (2, 0), (-1i32, 0), (2, 1), (-1i32, -2i32)],
        (Rotation::R, Rotation::R2) => seq![(0i32, 0i32), (-1i32, 0), (2, 0), (-1i32, 2), (2, -1i32)],
        (Rotation::R2, Rotation::R) => seq![(0i32, 0i32), (1, 0), (-2i32, 0), (1, -2i32), (-2i32, 1)],
        (Rotation::R2, Rotation::L) => seq![(0i32, 0i32), (2, 0), (-1i32, 0), (2, 1), (-1i32, -2i32)],
        (Rotation::L, Rotation::R2) => seq![(0i32, 0i32), (-2i32, 0), (1, 0), (-2i32, -1i32), (1, 2)],
        (Rotation::L, Rotation::R0) => seq![(0i32, 0i32), (1, 0), (-2i32, 0), (1, -2i32), (-2i32, 1)],
        (Rotation::R0, Rotation::L) => seq![(0i32, 0i32), (-1i32, 0), (2, 0), (-1i32, 2), (2, -1i32)],
        _ => seq![(0i32, 0i32), (0, 0), (0, 0), (0, 0), (0, 0)],
    }
}

/// The 5 kick offsets to try for `kind` turning `from` -> `to`, in order; the
/// first is always (0, 0), the unkicked attempt.
pub open spec fn spec_kicks(kind: PieceKind, from: Rotation, to: Rotation) -> Seq<(i32, i32)> {
    match kind {
        PieceKind::O => seq![(0i32, 0i32), (0, 0), (0, 0), (0, 0), (0, 0)],
        PieceKind::I => spec_i_kicks(from, to),
        _ => spec_jlstz_kicks(from, to),
    }
}

/// The 5 kick offsets to try, in order (first is always (0,0), the unkicked attempt).
fn jlstz_kicks(from: Rotation, to: Rotation) -> (r: [(i32, i32); 5])
    ensures
        r@ == spec_jlstz_kicks(from, to),
{
    match (from, to) {
        (Rotation::R0, Rotation::R) => [(0, 0), (-1, 0), (-1, 1), (0, -2), (-1, -2)],
        (Rotation::R, Rotation::R0) => [(0, 0), (1, 0), (1, -1), (0, 2), (1, 2)],
        (Rotation::R, Rotation::R2) => [(0, 0), (1, 0), (1, -1), (0, 2), (1, 2)],
        (Rotation::R2, Rotation::R) => [(0, 0), (-1, 0), (-1, 1), (0, -2), (-1, -2)],
        (Rotation::R2, Rotation::L) => [(0, 0), (1, 0), (1, 1), (0, -2), (1, -2)],
        (Rotation::L, Rotation::R2) => [(0, 0), (-1, 0), (-1, -1), (0, 2), (-1, 2)],
        (Rotation::L, Rotation::R0) => [(0, 0), (-1, 0), (-1, -1), (0, 2), (-1, 2)],
        (Rotation::R0, Rotation::L) => [(0, 0), (1, 0), (1, 1), (0, -2), (1, -2)],
        _ => [(0, 0); 5],
    }
}

fn i_kicks(from: Rotation, to: Rotation) -> (r: [(i32, i32); 5])
    ensures
        r@ == spec_i_kicks(from, to),
{
    match (from, to) {
        (Rotation::R0, Rotation::R) => [(0, 0), (-2, 0), (1, 0), (-2, -1), (1, 2)],
        (Rotation::R, Rotation::R0) => [(0, 0), (2, 0), (-1, 0), (2, 1), (-1, -2)],
        (Rotation::R, Rotation::R2) => [(0, 0), (-1, 0), (2, 0), (-1, 2), (2, -1)],
        (Rotation::R2, Rotation::R) => [(0, 0), (1, 0), (-2, 0), (1, -2), (-2, 1)],
        (Rotation::R2, Rotation::L) => [(0, 0), (2, 0), (-1, 0), (2, 1), (-1, -2)],
        (Rotation::L, Rotation::R2) => [(0, 0), (-2, 0), (1, 0), (-2, -1), (1, 2)],
        (Rotation::L, Rotation::R0) => [(0, 0), (1, 0), (-2, 0), (1, -2), (-2, 1)],
        (Rotation::R0, Rotation::L) => [(0, 0), (-1, 0), (2, 0), (-1, 2), (2, -1)],
        _ => [(0, 0); 5],
    }
}

fn kicks_for(kind: PieceKind, from: Rotation, to: Rotation) -> (r: [(i32, i32); 5])
    ensures
        r@ == spec_kicks(kind, from, to),
{
    match kind {
        PieceKind::O => [(0, 0); 5],
        PieceKind::I => i_kicks(from, to),
        _ => jlstz_kicks(from, to),
    }
}

/// Every kick offset moves a piece by at most two rows and two columns.
pub proof fn lemma_kick_bounds(kind: PieceKind, from: Rotation, to: Rotation)
    ensures
        spec_kicks(kind, from, to).len() == 5,
        spec_kicks(kind, from, to)[0] == (0i32, 0i32),
        forall|k: int|
            0 <= k < 5 ==> -2 <= #[trigger] spec_kicks(kind, from, to)[k].0 <= 2 && -2
                <= spec_kicks(kind, from, to)[k].1 <= 2,
{
}

/// No cell of `piece` collides with the board, its walls or its floor.
pub open spec fn spec_fits(board: Seq<Cell>, piece: ActivePiece) -> bool {
    forall|i: int|
        0 <= i < 4 ==> !view_occupied(board, #[trigger] piece.cell(i).0, piece.cell(i).1)
}

pub fn piece_fits(board: &Board, piece: &ActivePiece) -> (r: bool)
    requires
        piece.offsets_fit(),
    ensures
        r == spec_fits(board@, *piece),
{
    let cells = piece.occupied_cells();
    let mut i: usize = 0;
    while i < 4
        invariant
            i <= 4,
            forall|j: int|
                0 <= j < 4 ==> (cells@[j].0 as int, cells@[j].1 as int) == #[trigger] piece.cell(j),
            forall|j: int| 0 <= j < i ==> !view_occupied(board@, #[trigger] piece.cell(j).0, piece.cell(j).1),
        decreases 4 - i,
    {
        let (row, col) = cells[i];
        if board.is_occupied(row, col) {
            assert(view_occupied(board@, piece.cell(i as int).0, piece.cell(i as int).1));
            return false;
        }
        i += 1;
    }
    true
}

/// The rotation a turn in the given direction leads to.
pub open spec fn spec_turn(rotation: Rotation, cw: bool) -> Rotation {
    if cw {
        rotation.spec_cw()
    } else {
        rotation.spec_ccw()
    }
}

/// `piece` turned in direction `cw` and shifted by its `k`-th kick offset.
pub open spec fn kick_candidate(piece: ActivePiece, cw: bool, k: int) -> ActivePiece {
    let to = spec_turn(piece.rotation, cw);
    let kick = spec_kicks(piece.kind, piece.rotation, to)[k];
    ActivePiece { kind: piece.kind, rotation: to, row: (piece.row - kick.1) as i32, col: (piece.col + kick.0) as i32 }
}

/// The first kick candidate, from the `k`-th on, that fits.
pub open spec fn first_fitting_kick(board: Seq<Cell>, piece: ActivePiece, cw: bool, k: int) -> Option<ActivePiece>
    decreases 5 - k,
{
    if k >= 5 || k < 0 {
        None
    } else if spec_fits(board, kick_candidate(piece, cw, k)) {
        Some(kick_candidate(piece, cw, k))
    } else {
        first_fitting_kick(board, piece, cw, k + 1)
    }
}

/// The Guideline SRS offset data `(dx, dy)` (`+y` up) of rotation state
/// `state`, test `k`: turning from `a` to `b`, test `k` moves the piece by
/// `offset(a, k) - offset(b, k)`, taken relative to test 0 (which places the
/// turned shape in the same bounding box).
pub open spec fn srs_offset(kind: PieceKind, state: Rotation, k: int) -> (int, int) {
    let t: Seq<(int, int)> = match kind {
        PieceKind::O => seq![(0int, 0int), (0, 0), (0, 0), (0, 0), (0, 0)],
        PieceKind::I => match state {
            Rotation::R0 => seq![(0int, 0int), (-1, 0), (2, 0), (-1, 0), (2, 0)],
            Rotation::R => seq![(-1int, 0int), (0, 0), (0, 0), (0, 1), (0, -2)],
            Rotation::R2 => seq![(-1int, 1int), (1, 1), (-2, 1), (1, 0), (-2, 0)],
            Rotation::L => seq![(0int, 1int), (0, 1), (0, 1), (0, -1), (0, 2)],
        },
        _ => match state {
            Rotation::R0 => seq![(0int, 0int), (0, 0), (0, 0), (0, 0), (0, 0)],
            Rotation::R => seq![(0int, 0int), (1, 0), (1, -1), (0, 2), (1, 2)],
            Rotation::R2 => seq![(0int, 0int), (0, 0), (0, 0), (0, 0), (0, 0)],
            Rotation::L => seq![(0int, 0int), (-1, 0), (-1, -1), (0, 2), (-1, 2)],
        },
    };
    t[k]
}

/// The SRS kick of test `k` turning `kind` from `from` to `to`.
pub open spec fn srs_kick(kind: PieceKind, from: Rotation, to: Rotation, k: int) -> (int, int) {
    let d = (srs_offset(kind, from, k).0 - srs_offset(kind, to, k).0, srs_offset(kind, from, k).1 - srs_offset(kind, to, k).1);
    let d0 = (srs_offset(kind, from, 0).0 - srs_offset(kind, to, 0).0, srs_offset(kind, from, 0).1 - srs_offset(kind, to, 0).1);
    (d.0 - d0.0, d.1 - d0.1)
}

/// The first of the SRS tests `k..5` at which the turned piece, moved by the
/// test's kick (`dx` right, `dy` up), fits.
pub open spec fn srs_first_fit(board: Seq<Cell>, piece: ActivePiece, cw: bool, k: int) -> Option<ActivePiece>
    decreases 5 - k,
{
    if k >= 5 || k < 0 {
        None
    } else {
        let to = spec_turn(piece.rotation, cw);
        let kick = srs_kick(piece.kind, piece.rotation, to, k);
        let cand = ActivePiece { kind: piece.kind, rotation: to, row: (piece.row - kick.1) as i32, col: (piece.col + kick.0) as i32 };
        if spec_fits(board, cand) {
            Some(cand)
        } else {
            srs_first_fit(board, piece, cw, k + 1)
        }
    }
}

/// Every kick tried is the one the SRS offset data gives: each turn tries the
/// five SRS tests in order.
pub proof fn law_kicks_are_srs(kind: PieceKind, from: Rotation, cw: bool, k: int)
    requires
        0 <= k < 5,
    ensures
        spec_kicks(kind, from, spec_turn(from, cw))[k].0 == srs_kick(kind, from, spec_turn(from, cw), k).0,
        spec_kicks(kind, from, spec_turn(from, cw))[k].1 == srs_kick(kind, from, spec_turn(from, cw), k).1,
{
    if k == 0 {
    } else if k == 1 {
    } else if k == 2 {
    } else if k == 3 {
    } else {
    }
}

/// Turning a piece on any board gives the piece turned and moved by the first
/// SRS test (from the Guideline offset data) at which it fits, or `None` when
/// none of the five fits.
pub proof fn law_rotation_follows_srs(board: Seq<Cell>, piece: ActivePiece, cw: bool)
    ensures
        spec_try_rotate(board, piece, cw) == srs_first_fit(board, piece, cw, 0),
{
    lemma_srs_from(board, piece, cw, 0);
}

proof fn lemma_srs_from(board: Seq<Cell>, piece: ActivePiece, cw: bool, k: int)
    requires
        0 <= k,
    ensures
        first_fitting_kick(board, piece, cw, k) == srs_first_fit(board, piece, cw, k),
    decreases 5 - k,
{
    if k < 5 {
        law_kicks_are_srs(piece.kind, piece.rotation, cw, k);
        lemma_srs_from(board, piece, cw, k + 1);
    }
}

/// The result of an SRS rotation: the first legal kick candidate, if any.
pub open spec fn spec_try_rotate(board: Seq<Cell>, piece: ActivePiece, cw: bool) -> Option<ActivePiece> {
    first_fitting_kick(board, piece, cw, 0)
}

/// Attempts to rotate `piece` clockwise (`cw = true`) or counter-clockwise,
/// trying each SRS kick offset in order. Returns the first legal resulting
/// piece, or `None` if all kicks fail.
pub fn try_rotate(board: &Board, piece: &ActivePiece, cw: bool) -> (r: Option<ActivePiece>)
    requires
        piece.in_range(),
    ensures
        r == spec_try_rotate(board@, *piece, cw),
        r matches Some(p) ==> spec_fits(board@, p) && p.kind == piece.kind && p.rotation
            == spec_turn(piece.rotation, cw) && piece.row - 2 <= p.row <= piece.row + 2
            && piece.col - 2 <= p.col <= piece.col + 2,
{
    let to = if cw {
        piece.rotation.cw()
    } else {
        piece.rotation.ccw()
    };
    let from = piece.rotation;
    let kicks = kicks_for(piece.kind, from, to);
    proof {
        lemma_kick_bounds(piece.kind, from, to);
    }
    let mut k: usize = 0;
    while k < 5
        invariant
            k <= 5,
            piece.in_range(),
            to == spec_turn(piece.rotation, cw),
            from == piece.rotation,
            kicks@ == spec_kicks(piece.kind, from, to),
            forall|j: int|
                0 <= j < 5 ==> -2 <= #[trigger] kicks@[j].0 <= 2 && -2 <= kicks@[j].1 <= 2,
            first_fitting_kick(board@, *piece, cw, 0) == first_fitting_kick(board@, *piece, cw, k as int),
        decreases 5 - k,
    {
        let (dx, dy) = kicks[k];
        let candidate = piece.with_rotation(to, piece.row - dy, piece.col + dx);
        assert(candidate == kick_candidate(*piece, cw, k as int));
        if piece_fits(board, &candidate) {
            return Some(candidate);
        }
        k += 1;
    }
    None
}

/// On a board where a piece and its turned copy both fit unshifted, a turn
/// needs no kick.
pub proof fn lemma_unkicked_rotation(board: Seq<Cell>, piece: ActivePiece, cw: bool)
    requires
        spec_fits(board, kick_candidate(piece, cw, 0)),
    ensures
        spec_try_rotate(board, piece, cw) == Some(
            ActivePiece { rotation: spec_turn(piece.rotation, cw), ..piece },
        ),
{
    lemma_kick_bounds(piece.kind, piece.rotation, spec_turn(piece.rotation, cw));
}

/// Whatever rotation succeeds is legal and keeps the piece's kind.
pub proof fn lemma_first_fitting_kick_fits(board: Seq<Cell>, piece: ActivePiece, cw: bool, k: int)
    ensures
        first_fitting_kick(board, piece, cw, k) matches Some(p) ==> spec_fits(board, p) && p.kind == piece.kind,
    decreases 5 - k,
{
    if 0 <= k < 5 && !spec_fits(board, kick_candidate(piece, cw, k)) {
        lemma_first_fitting_kick_fits(board, piece, cw, k + 1);
    }
}

/// `piece` in rotation state `r`, same position.
pub open spec fn with_rotation_state(piece: ActivePiece, r: Rotation) -> ActivePiece {
    ActivePiece { rotation: r, ..piece }
}

/// Where a piece fits unshifted in every rotation state, four turns in the
/// same direction bring it back to exactly where it started.
pub proof fn law_four_turns_return(board: Seq<Cell>, piece: ActivePiece, cw: bool)
    requires
        forall|r: Rotation| #[trigger] spec_fits(board, with_rotation_state(piece, r)),
    ensures
        ({
            let p1 = spec_try_rotate(board, piece, cw).unwrap();
            let p2 = spec_try_rotate(board, p1, cw).unwrap();
            let p3 = spec_try_rotate(board, p2, cw).unwrap();
            spec_try_rotate(board, piece, cw) is Some && spec_try_rotate(board, p1, cw) is Some
                && spec_try_rotate(board, p2, cw) is Some && spec_try_rotate(board, p3, cw) == Some(piece)
        }),
{
    let t1 = with_rotation_state(piece, spec_turn(piece.rotation, cw));
    let t2 = with_rotation_state(piece, spec_turn(t1.rotation, cw));
    let t3 = with_rotation_state(piece, spec_turn(t2.rotation, cw));
    let t4 = with_rotation_state(piece, spec_turn(t3.rotation, cw));
    assert(spec_fits(board, t1) && spec_fits(board, t2) && spec_fits(board, t3));
    lemma_kick_bounds(piece.kind, piece.rotation, t1.rotation);
    assert(kick_candidate(piece, cw, 0) == t1);
    lemma_unkicked_rotation(board, piece, cw);
    lemma_kick_bounds(piece.kind, t1.rotation, t2.rotation);
    assert(kick_candidate(t1, cw, 0) == t2);
    lemma_unkicked_rotation(board, t1, cw);
    lemma_kick_bounds(piece.kind, t2.rotation, t3.rotation);
    assert(kick_candidate(t2, cw, 0) == t3);
    lemma_unkicked_rotation(board, t2, cw);
    lemma_kick_bounds(piece.kind, t3.rotation, t4.rotation);
    assert(kick_candidate(t3, cw, 0) == t4);
    lemma_unkicked_rotation(board, t3, cw);
    assert(t4 == piece);
}

} // verus!
