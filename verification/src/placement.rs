//! Board mechanics shared by every evaluator: where a piece comes to rest when
//! dropped straight down, and what locking it there does to a board.

use vstd::prelude::*;
use crate::bitboard::{self, BitBoard};
use crate::board::{BOARD_TOTAL_HEIGHT, BOARD_WIDTH, Cell, view_occupied};
use crate::grid::{Grid, grid_occ, grid_fits, grid_placed, grid_cleared, grid_full_count, grid_col_top, grid_first_filled, board_grid};
use crate::piece::{ActivePiece, PieceKind, Rotation};
use crate::rotation::{shape, spec_shape, lemma_shape_bounds, spec_fits};
use crate::motion::moved;

verus! {

/// 40 rows of 10 cells.
pub open spec fn grid_shaped(g: Grid) -> bool {
    g.len() == BOARD_TOTAL_HEIGHT && forall|r: int| 0 <= r < BOARD_TOTAL_HEIGHT ==> #[trigger] g[r].len() == BOARD_WIDTH
}

pub open spec fn min_int(a: int, b: int) -> int {
    if a <= b { a } else { b }
}

pub open spec fn max_int(a: int, b: int) -> int {
    if a >= b { a } else { b }
}

/// Leftmost column offset of the shape.
pub open spec fn shape_min_dc(kind: PieceKind, rot: Rotation) -> int {
    let s = spec_shape(kind, rot);
    min_int(min_int(s[0].1 as int, s[1].1 as int), min_int(s[2].1 as int, s[3].1 as int))
}

/// Rightmost column offset of the shape.
pub open spec fn shape_max_dc(kind: PieceKind, rot: Rotation) -> int {
    let s = spec_shape(kind, rot);
    max_int(max_int(s[0].1 as int, s[1].1 as int), max_int(s[2].1 as int, s[3].1 as int))
}

/// Highest row at which the shape's cell `i`, in box column `col`, rests on its column.
pub open spec fn cell_rest_row(g: Grid, kind: PieceKind, rot: Rotation, col: int, i: int) -> int {
    let s = spec_shape(kind, rot)[i];
    grid_col_top(g, col + s.1) - s.0 - 1
}

/// Row at which the piece dropped straight down in box column `col` comes to
/// rest: the most constraining of its four cells.
pub open spec fn landing_row(g: Grid, kind: PieceKind, rot: Rotation, col: int) -> int {
    min_int(
        min_int(min_int(cell_rest_row(g, kind, rot, col, 0), cell_rest_row(g, kind, rot, col, 1)), cell_rest_row(g, kind, rot, col, 2)),
        cell_rest_row(g, kind, rot, col, 3),
    )
}

pub open spec fn landing_piece(g: Grid, kind: PieceKind, rot: Rotation, col: int) -> ActivePiece {
    ActivePiece { kind, rotation: rot, row: landing_row(g, kind, rot, col) as i32, col: col as i32 }
}

/// Resting placements in one rotation, for every in-bounds column, left to right.
pub open spec fn rotation_placements(g: Grid, kind: PieceKind, rot: Rotation) -> Seq<ActivePiece> {
    let lo = -shape_min_dc(kind, rot);
    let hi = BOARD_WIDTH - 1 - shape_max_dc(kind, rot);
    Seq::new((hi - lo + 1) as nat, |k: int| landing_piece(g, kind, rot, lo + k))
}

pub open spec fn rotation_at(i: int) -> Rotation {
    if i == 0 {
        Rotation::R0
    } else if i == 1 {
        Rotation::R
    } else if i == 2 {
        Rotation::R2
    } else {
        Rotation::L
    }
}

/// Placements of the first `n` rotations in the order R0, R, R2, L.
pub open spec fn placements_upto(g: Grid, kind: PieceKind, n: int) -> Seq<ActivePiece>
    decreases n,
{
    if n <= 0 {
        Seq::empty()
    } else {
        placements_upto(g, kind, n - 1) + rotation_placements(g, kind, rotation_at(n - 1))
    }
}

/// Every resting placement of `kind` dropped straight down: rotations R0, R,
/// R2, L in turn (only R0 for the O piece, whose states coincide), columns
/// left to right.
pub open spec fn spec_placements(g: Grid, kind: PieceKind) -> Seq<ActivePiece> {
    if kind == PieceKind::O {
        rotation_placements(g, kind, Rotation::R0)
    } else {
        rotation_placements(g, kind, Rotation::R0) + rotation_placements(g, kind, Rotation::R)
            + rotation_placements(g, kind, Rotation::R2) + rotation_placements(g, kind, Rotation::L)
    }
}

proof fn lemma_first_filled_bounds(g: Grid, col: int, r: int)
    requires
        grid_shaped(g),
        0 <= col < BOARD_WIDTH,
        0 <= r,
    ensures
        r <= grid_first_filled(g, col, r) <= BOARD_TOTAL_HEIGHT || r > BOARD_TOTAL_HEIGHT,
        grid_first_filled(g, col, r) < BOARD_TOTAL_HEIGHT ==> g[grid_first_filled(g, col, r)][col],
        forall|rr: int| r <= rr < grid_first_filled(g, col, r) && rr < BOARD_TOTAL_HEIGHT ==> !#[trigger] g[rr][col],
    decreases BOARD_TOTAL_HEIGHT - r,
{
    if r < BOARD_TOTAL_HEIGHT && !g[r][col] {
        lemma_first_filled_bounds(g, col, r + 1);
    }
}

/// Column tops: above the top everything is open, the top itself (or the
/// floor) is occupied.
pub proof fn lemma_col_top(g: Grid, col: int)
    requires
        grid_shaped(g),
        0 <= col < BOARD_WIDTH,
    ensures
        0 <= grid_col_top(g, col) <= BOARD_TOTAL_HEIGHT,
        grid_occ(g, grid_col_top(g, col), col),
        forall|rr: int| rr < grid_col_top(g, col) ==> !#[trigger] grid_occ(g, rr, col),
{
    lemma_first_filled_bounds(g, col, 0);
}

/// The shape fits between the walls in box column `col` exactly for the
/// columns `placements` enumerates.
proof fn lemma_shape_columns(kind: PieceKind, rot: Rotation)
    ensures
        -3 <= -shape_min_dc(kind, rot) <= 0,
        6 <= BOARD_WIDTH - 1 - shape_max_dc(kind, rot) <= 9,
        forall|i: int|
            0 <= i < 4 ==> shape_min_dc(kind, rot) <= #[trigger] spec_shape(kind, rot)[i].1 <= shape_max_dc(kind, rot),
        exists|i: int| 0 <= i < 4 && #[trigger] spec_shape(kind, rot)[i].1 == shape_min_dc(kind, rot),
        exists|i: int| 0 <= i < 4 && #[trigger] spec_shape(kind, rot)[i].1 == shape_max_dc(kind, rot),
{
    lemma_shape_bounds(kind, rot);
    let s = spec_shape(kind, rot);
    if s[0].1 == shape_min_dc(kind, rot) {
    } else if s[1].1 == shape_min_dc(kind, rot) {
    } else if s[2].1 == shape_min_dc(kind, rot) {
    } else {
        assert(s[3].1 == shape_min_dc(kind, rot));
    }
    if s[0].1 == shape_max_dc(kind, rot) {
    } else if s[1].1 == shape_max_dc(kind, rot) {
    } else if s[2].1 == shape_max_dc(kind, rot) {
    } else {
        assert(s[3].1 == shape_max_dc(kind, rot));
    }
}

/// Dropped straight down in an in-bounds column, a piece passes every row down
/// to its landing row, fits there, and cannot go one row further: the landing
/// row is exactly where a row-by-row drop stops.
pub proof fn law_landing_row_is_drop_rest(g: Grid, kind: PieceKind, rot: Rotation, col: int, row: int)
    requires
        grid_shaped(g),
        -shape_min_dc(kind, rot) <= col <= BOARD_WIDTH - 1 - shape_max_dc(kind, rot),
        row <= landing_row(g, kind, rot, col),
    ensures
        -4 <= landing_row(g, kind, rot, col) < BOARD_TOTAL_HEIGHT,
        grid_fits(g, ActivePiece { kind, rotation: rot, row: row as i32, col: col as i32 }) || row < i32::MIN,
        grid_fits(g, landing_piece(g, kind, rot, col)),
        !grid_fits(g, moved(landing_piece(g, kind, rot, col), 1, 0)),
{
    lemma_shape_bounds(kind, rot);
    lemma_shape_columns(kind, rot);
    let s = spec_shape(kind, rot);
    let land = landing_row(g, kind, rot, col);
    assert forall|i: int| 0 <= i < 4 implies 0 <= col + #[trigger] s[i].1 < BOARD_WIDTH by {}
    assert forall|i: int| 0 <= i < 4 implies land <= #[trigger] cell_rest_row(g, kind, rot, col, i) by {}
    assert forall|i: int| 0 <= i < 4 implies 0 <= grid_col_top(g, col + #[trigger] s[i].1) <= BOARD_TOTAL_HEIGHT by {
        lemma_col_top(g, col + s[i].1);
    }
    let k = if land == cell_rest_row(g, kind, rot, col, 0) {
        0int
    } else if land == cell_rest_row(g, kind, rot, col, 1) {
        1int
    } else if land == cell_rest_row(g, kind, rot, col, 2) {
        2int
    } else {
        3int
    };
    assert(land == cell_rest_row(g, kind, rot, col, k));
    let any = |r: int| ActivePiece { kind, rotation: rot, row: r as i32, col: col as i32 };
    assert forall|r: int| i32::MIN <= r <= land implies grid_fits(g, #[trigger] any(r)) by {
        let p = any(r);
        assert forall|i: int| 0 <= i < 4 implies !grid_occ(g, #[trigger] p.cell(i).0, p.cell(i).1) by {
            lemma_col_top(g, col + s[i].1);
            assert(p.cell(i) == (r + s[i].0, col + s[i].1));
        }
    }
    if row >= i32::MIN {
        assert(grid_fits(g, any(row)));
    }
    assert(grid_fits(g, any(land)));
    let down = moved(landing_piece(g, kind, rot, col), 1, 0);
    lemma_col_top(g, col + s[k].1);
    assert(down.cell(k) == (grid_col_top(g, col + s[k].1), col + s[k].1));
    assert(grid_occ(g, down.cell(k).0, down.cell(k).1));
}

/// Row where a piece of `kind` in rotation `rot` and box column `col`, let
/// fall one row at a time from row `r`, stops: the first row whose next row
/// does not fit.
pub open spec fn drop_from(g: Grid, kind: PieceKind, rot: Rotation, col: int, r: int) -> int
    decreases BOARD_TOTAL_HEIGHT - r,
{
    if r < BOARD_TOTAL_HEIGHT && grid_fits(g, ActivePiece { kind, rotation: rot, row: (r + 1) as i32, col: col as i32 }) {
        drop_from(g, kind, rot, col, r + 1)
    } else {
        r
    }
}

/// One rotation's pieces dropped row by row from 40 rows above the board,
/// for every in-bounds column, left to right.
pub open spec fn naive_rotation_placements(g: Grid, kind: PieceKind, rot: Rotation) -> Seq<ActivePiece> {
    let lo = -shape_min_dc(kind, rot);
    let hi = BOARD_WIDTH - 1 - shape_max_dc(kind, rot);
    Seq::new(
        (hi - lo + 1) as nat,
        |k: int| ActivePiece { kind, rotation: rot, row: drop_from(g, kind, rot, lo + k, -40) as i32, col: (lo + k) as i32 },
    )
}

/// Every placement of `kind` found by dropping it row by row, in the order
/// of `spec_placements`.
pub open spec fn naive_placements(g: Grid, kind: PieceKind) -> Seq<ActivePiece> {
    if kind == PieceKind::O {
        naive_rotation_placements(g, kind, Rotation::R0)
    } else {
        naive_rotation_placements(g, kind, Rotation::R0) + naive_rotation_placements(g, kind, Rotation::R)
            + naive_rotation_placements(g, kind, Rotation::R2) + naive_rotation_placements(g, kind, Rotation::L)
    }
}

proof fn lemma_drop_from(g: Grid, kind: PieceKind, rot: Rotation, col: int, r: int)
    requires
        grid_shaped(g),
        -shape_min_dc(kind, rot) <= col <= BOARD_WIDTH - 1 - shape_max_dc(kind, rot),
        -40 <= r <= landing_row(g, kind, rot, col),
    ensures
        drop_from(g, kind, rot, col, r) == landing_row(g, kind, rot, col),
    decreases BOARD_TOTAL_HEIGHT - r,
{
    law_landing_row_is_drop_rest(g, kind, rot, col, r);
    let land = landing_row(g, kind, rot, col);
    if r < land {
        law_landing_row_is_drop_rest(g, kind, rot, col, r + 1);
        lemma_drop_from(g, kind, rot, col, r + 1);
    } else {
        assert(moved(landing_piece(g, kind, rot, col), 1, 0) == ActivePiece { kind, rotation: rot, row: (r + 1) as i32, col: col as i32 });
    }
}

proof fn lemma_naive_rotation(g: Grid, kind: PieceKind, rot: Rotation)
    requires
        grid_shaped(g),
    ensures
        naive_rotation_placements(g, kind, rot) == rotation_placements(g, kind, rot),
        forall|k: int| 0 <= k < rotation_placements(g, kind, rot).len() ==> grid_fits(g, #[trigger] rotation_placements(g, kind, rot)[k]),
{
    lemma_shape_columns(kind, rot);
    let lo = -shape_min_dc(kind, rot);
    assert forall|k: int| 0 <= k < rotation_placements(g, kind, rot).len() implies naive_rotation_placements(g, kind, rot)[k]
        == #[trigger] rotation_placements(g, kind, rot)[k] && grid_fits(g, rotation_placements(g, kind, rot)[k]) by {
        law_landing_row_is_drop_rest(g, kind, rot, lo + k, landing_row(g, kind, rot, lo + k));
        lemma_drop_from(g, kind, rot, lo + k, -40);
    }
    assert(naive_rotation_placements(g, kind, rot) =~= rotation_placements(g, kind, rot));
}

/// The placements enumerated from column tops are exactly those a row-by-row
/// drop from above the board finds, in the same order, and every one of them
/// fits: none is missed, none is extra.
pub proof fn law_placements_match_naive_drop(g: Grid, kind: PieceKind)
    requires
        grid_shaped(g),
    ensures
        spec_placements(g, kind) == naive_placements(g, kind),
        forall|i: int| 0 <= i < spec_placements(g, kind).len() ==> grid_fits(g, #[trigger] spec_placements(g, kind)[i]),
{
    lemma_naive_rotation(g, kind, Rotation::R0);
    lemma_naive_rotation(g, kind, Rotation::R);
    lemma_naive_rotation(g, kind, Rotation::R2);
    lemma_naive_rotation(g, kind, Rotation::L);
    let a = rotation_placements(g, kind, Rotation::R0);
    let b = rotation_placements(g, kind, Rotation::R);
    let c = rotation_placements(g, kind, Rotation::R2);
    let d = rotation_placements(g, kind, Rotation::L);
    if kind != PieceKind::O {
        assert forall|i: int| 0 <= i < spec_placements(g, kind).len() implies grid_fits(g, #[trigger] spec_placements(g, kind)[i]) by {
            if i < a.len() {
                assert(spec_placements(g, kind)[i] == a[i]);
            } else if i < a.len() + b.len() {
                assert(spec_placements(g, kind)[i] == b[i - a.len()]);
            } else if i < a.len() + b.len() + c.len() {
                assert(spec_placements(g, kind)[i] == c[i - a.len() - b.len()]);
            } else {
                assert(spec_placements(g, kind)[i] == d[i - a.len() - b.len() - c.len()]);
            }
        }
    }
}

/// Collision on a board and on its occupancy grid agree.
pub proof fn lemma_board_grid_occ(v: Seq<Cell>, r: int, c: int)
    requires
        v.len() == BOARD_WIDTH * BOARD_TOTAL_HEIGHT,
    ensures
        grid_occ(board_grid(v), r, c) == view_occupied(v, r, c),
{
}

/// A piece fits on a board exactly when it fits on the board's occupancy grid.
pub proof fn law_mirror_fits(v: Seq<Cell>, p: ActivePiece)
    requires
        v.len() == BOARD_WIDTH * BOARD_TOTAL_HEIGHT,
    ensures
        grid_fits(board_grid(v), p) == spec_fits(v, p),
{
    assert forall|i: int| 0 <= i < 4 implies grid_occ(board_grid(v), #[trigger] p.cell(i).0, p.cell(i).1)
        == view_occupied(v, p.cell(i).0, p.cell(i).1) by {
        lemma_board_grid_occ(v, p.cell(i).0, p.cell(i).1);
    }
}

/// Resulting board (after locking `piece` and clearing any complete lines)
/// and the number of lines that placement clears. `BitBoard` is `Copy`, so
/// this is a stack copy, not a heap allocation.
pub fn simulate_lock(board: BitBoard, piece: &ActivePiece) -> (r: (BitBoard, u32))
    requires
        piece.offsets_fit(),
    ensures
        r.0.grid() == grid_cleared(grid_placed(board.grid(), *piece)),
        r.1 == grid_full_count(grid_placed(board.grid(), *piece)),
{
    let mut b = board;
    b.place(piece);
    let cleared = b.clear_full_rows();
    (b, cleared)
}

/// Row of the topmost filled cell in `col`, or `BOARD_TOTAL_HEIGHT` (the
/// floor) if the column is empty.
pub fn col_top(board: &BitBoard, col: i32) -> (r: i32)
    requires
        0 <= col < BOARD_WIDTH,
    ensures
        r == grid_col_top(board.grid(), col as int),
{
    proof {
        board.lemma_grid_shape();
        lemma_col_top(board.grid(), col as int);
    }
    BOARD_TOTAL_HEIGHT as i32 - board.column_height(col as usize) as i32
}

/// Every legal final resting placement of `kind` on `board`: for each SRS
/// rotation state and every horizontally in-bounds column, the piece dropped
/// straight down to where it first collides.
///
/// The landing row is computed directly (the "skirt" technique): for each
/// occupied cell `(dr, dc)` of the piece, the highest row it could rest at is
/// `col_top(col + dc) - dr - 1`, and the piece's landing row is the smallest
/// of those across its 4 cells.
pub fn enumerate_placements(board: &BitBoard, kind: PieceKind) -> (out: Vec<ActivePiece>)
    ensures
        out@ == spec_placements(board.grid(), kind),
        forall|i: int| 0 <= i < out@.len() ==> grid_fits(board.grid(), #[trigger] out@[i]),
{
    let ghost g = board.grid();
    proof {
        board.lemma_grid_shape();
    }
    let mut col_tops: [i32; 10] = [0i32; 10];
    let mut c: usize = 0;
    while c < BOARD_WIDTH
        invariant
            c <= BOARD_WIDTH,
            g == board.grid(),
            forall|j: int| 0 <= j < c ==> #[trigger] col_tops@[j] == grid_col_top(g, j),
        decreases BOARD_WIDTH - c,
    {
        col_tops[c] = col_top(board, c as i32);
        c += 1;
    }
    let rotations: [Rotation; 4] = [Rotation::R0, Rotation::R, Rotation::R2, Rotation::L];
    let ghost rots = seq![Rotation::R0, Rotation::R, Rotation::R2, Rotation::L];
    assert(rotations@ == rots);
    let mut out: Vec<ActivePiece> = Vec::new();
    // All four rotation states of the O piece coincide; one is enough.
    let n_rot: usize = if kind == PieceKind::O {
        1
    } else {
        4
    };
    let mut ri: usize = 0;
    while ri < n_rot
        invariant
            ri <= 4,
            g == board.grid(),
            grid_shaped(g),
            rotations@ == seq![Rotation::R0, Rotation::R, Rotation::R2, Rotation::L],
            forall|j: int| 0 <= j < BOARD_WIDTH ==> #[trigger] col_tops@[j] == grid_col_top(g, j),
            ri <= n_rot,
            n_rot == if kind == PieceKind::O { 1usize } else { 4usize },
            out@ == placements_upto(g, kind, ri as int),
            forall|i: int| 0 <= i < out@.len() ==> grid_fits(g, #[trigger] out@[i]),
        decreases n_rot - ri,
    {
        let rotation = rotations[ri];
        assert(rotation == rotation_at(ri as int)) by {
            if ri == 0 {
            } else if ri == 1 {
            } else if ri == 2 {
            } else {
                assert(ri == 3);
            }
        }
        let cells = shape(kind, rotation);
        proof {
            lemma_shape_bounds(kind, rotation);
            lemma_shape_columns(kind, rotation);
        }
        let mut min_col = cells[0].1;
        let mut max_col = cells[0].1;
        let mut i: usize = 1;
        while i < 4
            invariant
                1 <= i <= 4,
                cells@ == spec_shape(kind, rotation),
                min_col == (if i == 1 { cells@[0].1 as int } else if i == 2 { min_int(cells@[0].1 as int, cells@[1].1 as int) } else if i == 3 { min_int(min_int(cells@[0].1 as int, cells@[1].1 as int), cells@[2].1 as int) } else { shape_min_dc(kind, rotation) }),
                max_col == (if i == 1 { cells@[0].1 as int } else if i == 2 { max_int(cells@[0].1 as int, cells@[1].1 as int) } else if i == 3 { max_int(max_int(cells@[0].1 as int, cells@[1].1 as int), cells@[2].1 as int) } else { shape_max_dc(kind, rotation) }),
            decreases 4 - i,
        {
            if cells[i].1 < min_col {
                min_col = cells[i].1;
            }
            if cells[i].1 > max_col {
                max_col = cells[i].1;
            }
            i += 1;
        }
        let lo = -min_col;
        let hi = BOARD_WIDTH as i32 - 1 - max_col;
        let ghost before = out@;
        let ghost target = rotation_placements(g, kind, rotation);
        let mut col = lo;
        while col <= hi
            invariant
                lo <= col <= hi + 1,
                lo == -shape_min_dc(kind, rotation),
                hi == BOARD_WIDTH - 1 - shape_max_dc(kind, rotation),
                -3 <= lo <= 0,
                6 <= hi <= 9,
                g == board.grid(),
                grid_shaped(g),
                cells@ == spec_shape(kind, rotation),
                forall|j: int| 0 <= j < BOARD_WIDTH ==> #[trigger] col_tops@[j] == grid_col_top(g, j),
                target == rotation_placements(g, kind, rotation),
                out@ == before + target.take(col - lo),
                forall|k: int| 0 <= k < out@.len() ==> grid_fits(g, #[trigger] out@[k]),
            decreases hi + 1 - col,
        {
            proof {
                lemma_shape_bounds(kind, rotation);
                lemma_shape_columns(kind, rotation);
                assert forall|j: int| 0 <= j < 4 implies 0 <= col + #[trigger] cells@[j].1 < BOARD_WIDTH by {}
                assert forall|j: int| 0 <= j < 4 implies 0 <= grid_col_top(g, col + #[trigger] cells@[j].1) <= BOARD_TOTAL_HEIGHT by {
                    lemma_col_top(g, col + cells@[j].1);
                }
            }
            let mut row = col_tops[(col + cells[0].1) as usize] - cells[0].0 - 1;
            let mut j: usize = 1;
            while j < 4
                invariant
                    1 <= j <= 4,
                    lo <= col <= hi,
                    cells@ == spec_shape(kind, rotation),
                    forall|jj: int| 0 <= jj < 4 ==> 0 <= col + #[trigger] cells@[jj].1 < BOARD_WIDTH,
                    forall|jj: int| 0 <= jj < 4 ==> 0 <= #[trigger] cells@[jj].0 <= 3,
                    forall|jj: int| 0 <= jj < 4 ==> 0 <= grid_col_top(g, col + #[trigger] cells@[jj].1) <= BOARD_TOTAL_HEIGHT,
                    forall|jj: int| 0 <= jj < BOARD_WIDTH ==> #[trigger] col_tops@[jj] == grid_col_top(g, jj),
                    row == (if j == 1 { cell_rest_row(g, kind, rotation, col as int, 0) } else if j == 2 { min_int(cell_rest_row(g, kind, rotation, col as int, 0), cell_rest_row(g, kind, rotation, col as int, 1)) } else if j == 3 { min_int(min_int(cell_rest_row(g, kind, rotation, col as int, 0), cell_rest_row(g, kind, rotation, col as int, 1)), cell_rest_row(g, kind, rotation, col as int, 2)) } else { landing_row(g, kind, rotation, col as int) }),
                    -4 <= row <= BOARD_TOTAL_HEIGHT,
                decreases 4 - j,
            {
                let (dr, dc) = cells[j];
                let cand = col_tops[(col + dc) as usize] - dr - 1;
                if cand < row {
                    row = cand;
                }
                j += 1;
            }
            let piece = ActivePiece { kind, rotation, row, col };
            assert(piece == landing_piece(g, kind, rotation, col as int));
            proof {
                law_landing_row_is_drop_rest(g, kind, rotation, col as int, row as int);
            }
            if bitboard::piece_fits(board, &piece) {
                out.push(piece);
            }
            assert(target.take(col + 1 - lo) =~= target.take(col - lo).push(piece));
            col += 1;
        }
        assert(target.take(hi + 1 - lo) =~= target);
        ri += 1;
    }
    proof {
        if kind == PieceKind::O {
            assert(placements_upto(g, kind, 0) =~= Seq::<ActivePiece>::empty());
            assert(out@ =~= spec_placements(g, kind));
        } else {
            reveal_with_fuel(placements_upto, 5);
            assert(placements_upto(g, kind, 0) =~= Seq::<ActivePiece>::empty());
            assert(out@ =~= spec_placements(g, kind));
        }
    }
    out
}

/// A candidate placement and what locking it does to the board.
#[derive(Copy, Clone, PartialEq, Eq, Debug)]
pub struct Outcome {
    pub piece: ActivePiece,
    /// The board after locking the piece and clearing full rows.
    pub after: BitBoard,
    pub lines_cleared: u32,
}

/// `o` is the result of locking `p` on the grid `g`.
pub open spec fn outcome_of(o: Outcome, g: Grid, p: ActivePiece) -> bool {
    &&& o.piece == p
    &&& o.after.grid() == grid_cleared(grid_placed(g, p))
    &&& o.lines_cleared == grid_full_count(grid_placed(g, p))
}

/// Every resting placement of `kind` on `board` (in `enumerate_placements`
/// order) with the board it leaves behind.
pub fn placement_outcomes(board: &BitBoard, kind: PieceKind) -> (r: Vec<Outcome>)
    ensures
        r@.len() == spec_placements(board.grid(), kind).len(),
        forall|i: int| 0 <= i < r@.len() ==> outcome_of(#[trigger] r@[i], board.grid(), spec_placements(board.grid(), kind)[i]),
{
    let pieces = enumerate_placements(board, kind);
    let mut r: Vec<Outcome> = Vec::new();
    let mut i: usize = 0;
    while i < pieces.len()
        invariant
            i <= pieces@.len(),
            pieces@ == spec_placements(board.grid(), kind),
            r@.len() == i,
            forall|k: int| 0 <= k < i ==> outcome_of(#[trigger] r@[k], board.grid(), pieces@[k]),
        decreases pieces@.len() - i,
    {
        let piece = pieces[i];
        proof {
            board.lemma_grid_shape();
            lemma_landing_in_range(board.grid(), kind, i as int);
        }
        let (after, lines_cleared) = simulate_lock(*board, &piece);
        r.push(Outcome { piece, after, lines_cleared });
        i += 1;
    }
    r
}

/// Every enumerated placement has small coordinates.
pub proof fn lemma_landing_in_range(g: Grid, kind: PieceKind, i: int)
    requires
        grid_shaped(g),
        0 <= i < spec_placements(g, kind).len(),
    ensures
        spec_placements(g, kind)[i].in_range(),
        spec_placements(g, kind)[i].offsets_fit(),
        spec_placements(g, kind)[i].kind == kind,
{
    reveal_with_fuel(placements_upto, 5);
    let n0 = rotation_placements(g, kind, Rotation::R0).len();
    let n1 = rotation_placements(g, kind, Rotation::R).len();
    let n2 = rotation_placements(g, kind, Rotation::R2).len();
    let rot = if kind == PieceKind::O || i < n0 {
        Rotation::R0
    } else if i < n0 + n1 {
        Rotation::R
    } else if i < n0 + n1 + n2 {
        Rotation::R2
    } else {
        Rotation::L
    };
    let k = if kind == PieceKind::O || i < n0 {
        i
    } else if i < n0 + n1 {
        i - n0
    } else if i < n0 + n1 + n2 {
        i - n0 - n1
    } else {
        i - n0 - n1 - n2
    };
    lemma_shape_columns(kind, rot);
    let lo = -shape_min_dc(kind, rot);
    assert(spec_placements(g, kind)[i] == rotation_placements(g, kind, rot)[k]);
    law_landing_row_is_drop_rest(g, kind, rot, lo + k, landing_row(g, kind, rot, lo + k));
}

} // verus!
