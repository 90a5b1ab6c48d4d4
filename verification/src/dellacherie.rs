//! Dellacherie's six classical hand-derived Tetris features: landing height,
//! eroded piece cells, row transitions, column transitions, holes and well
//! sums, measured on integer boards. Landing height is given as the sum over
//! the piece's four cells; the evaluator takes its mean.

use vstd::prelude::*;
use crate::bitboard::BitBoard;
use crate::board::{BOARD_TOTAL_HEIGHT, BOARD_WIDTH};
use crate::grid::{
    grid_top_row, row_scan, row_transitions_from, grid_row_transitions, col_scan,
    col_transitions_from, grid_column_transitions, well_cell, well_scan, wells_from_col, grid_well_sums,
    full_rows_from, piece_cells_in_full_rows, grid_eroded_cells, landing_height_sum, grid_holes,
};
use crate::piece::ActivePiece;

verus! {

#[derive(Copy, Clone, PartialEq, Eq, Debug)]
pub struct DellacherieFeatures {
    /// Sum over the piece's four cells of their height above the floor.
    pub landing_height_sum: i64,
    pub eroded_piece_cells: u32,
    pub row_transitions: u32,
    pub column_transitions: u32,
    pub holes: u32,
    pub well_sums: u32,
}

/// Sum, over the piece's 4 occupied cells at its resting position, of the
/// cell's height above the floor (the bottom row has height 1).
pub fn landing_height_total(piece: &ActivePiece) -> (r: i64)
    requires
        piece.in_range(),
    ensures
        r == landing_height_sum(*piece),
{
    let cells = piece.occupied_cells();
    proof {
        crate::rotation::lemma_shape_bounds(piece.kind, piece.rotation);
    }
    let rows_total = cells[0].0 as i64 + cells[1].0 as i64 + cells[2].0 as i64 + cells[3].0 as i64;
    4 * BOARD_TOTAL_HEIGHT as i64 - rows_total
}

/// (number of rows that become full when `piece` is placed on `board`) times
/// (number of the piece's own cells in those rows): how directly the
/// placement contributed to clearing lines. Measured before the full rows are
/// cleared.
pub fn eroded_piece_cells(board: &BitBoard, piece: &ActivePiece) -> (r: u32)
    requires
        piece.offsets_fit(),
    ensures
        r == grid_eroded_cells(board.grid(), *piece),
{
    let mut placed = *board;
    placed.place(piece);
    let ghost g = placed.grid();
    let mut full_rows: u32 = 0;
    let mut row: usize = 0;
    while row < BOARD_TOTAL_HEIGHT
        invariant
            row <= BOARD_TOTAL_HEIGHT,
            g == placed.grid(),
            full_rows + full_rows_from(g, row as int) == full_rows_from(g, 0),
            full_rows <= row,
        decreases BOARD_TOTAL_HEIGHT - row,
    {
        if placed.is_row_full(row) {
            full_rows += 1;
        }
        row += 1;
    }
    let cells = piece.occupied_cells();
    let mut in_full: u32 = 0;
    let mut i: usize = 0;
    while i < 4
        invariant
            i <= 4,
            g == placed.grid(),
            forall|j: int| 0 <= j < 4 ==> (cells@[j].0 as int, cells@[j].1 as int) == #[trigger] piece.cell(j),
            in_full + piece_cells_in_full_rows(g, *piece, i as int) == piece_cells_in_full_rows(g, *piece, 0),
            in_full <= i,
        decreases 4 - i,
    {
        let (r, _c) = cells[i];
        if r >= 0 && (r as usize) < BOARD_TOTAL_HEIGHT && placed.is_row_full(r as usize) {
            in_full += 1;
        }
        i += 1;
    }
    assert(full_rows * in_full <= 40 * 4) by (nonlinear_arith)
        requires
            in_full <= 4,
            full_rows <= 40,
    ;
    full_rows * in_full
}

/// Filled/empty transitions along each row (scanned left to right, walls on
/// both sides counted as filled), summed over every row from the topmost
/// filled row down to the floor. Rows entirely above the stack are skipped —
/// otherwise every such row would contribute exactly 2 (wall-in, wall-out),
/// biasing the feature toward taller stacks purely from empty headroom.
pub fn row_transitions(board: &BitBoard) -> (r: u32)
    ensures
        r == grid_row_transitions(board.grid()),
{
    let ghost g = board.grid();
    proof {
        board.lemma_grid_shape();
    }
    let top = board.topmost_filled_row();
    let mut count: u32 = 0;
    let mut row: usize = top;
    while row < BOARD_TOTAL_HEIGHT
        invariant
            top <= row <= BOARD_TOTAL_HEIGHT,
            g == board.grid(),
            top == grid_top_row(g),
            count + row_transitions_from(g, row as int) == grid_row_transitions(g),
            count <= 11 * row,
        decreases BOARD_TOTAL_HEIGHT - row,
    {
        let mut prev = true;  // left wall
        let mut rc: u32 = 0;
        let mut col: usize = 0;
        while col < BOARD_WIDTH
            invariant
                row < BOARD_TOTAL_HEIGHT,
                col <= BOARD_WIDTH,
                g == board.grid(),
                rc + row_scan(g, row as int, col as int, prev) == row_scan(g, row as int, 0, true),
                rc <= col,
            decreases BOARD_WIDTH - col,
        {
            let filled = board.is_occupied(row as i32, col as i32);
            assert(filled == g[row as int][col as int]);
            if filled != prev {
                rc += 1;
            }
            prev = filled;
            col += 1;
        }
        if !prev {
            rc += 1;  // right wall
        }
        count += rc;
        row += 1;
    }
    count
}

/// Filled/empty transitions down each column (scanned from the topmost filled
/// row to the floor, which counts as filled), summed over all 10 columns.
pub fn column_transitions(board: &BitBoard) -> (r: u32)
    ensures
        r == grid_column_transitions(board.grid()),
{
    let ghost g = board.grid();
    let top = board.topmost_filled_row();
    let mut count: u32 = 0;
    let mut col: usize = 0;
    while col < BOARD_WIDTH
        invariant
            col <= BOARD_WIDTH,
            top <= BOARD_TOTAL_HEIGHT,
            g == board.grid(),
            top == grid_top_row(g),
            count + col_transitions_from(g, col as int, top as int) == grid_column_transitions(g),
            count <= 41 * col,
        decreases BOARD_WIDTH - col,
    {
        let mut prev = false;  // nothing above the scanned range
        let mut cc: u32 = 0;
        let mut row: usize = top;
        while row < BOARD_TOTAL_HEIGHT
            invariant
                col < BOARD_WIDTH,
                top <= row <= BOARD_TOTAL_HEIGHT,
                g == board.grid(),
                cc + col_scan(g, col as int, row as int, prev) == col_scan(g, col as int, top as int, false),
                cc <= row,
            decreases BOARD_TOTAL_HEIGHT - row,
        {
            let filled = board.is_occupied(row as i32, col as i32);
            assert(filled == g[row as int][col as int]);
            if filled != prev {
                cc += 1;
            }
            prev = filled;
            row += 1;
        }
        if !prev {
            cc += 1;  // floor
        }
        count += cc;
        col += 1;
    }
    count
}

/// Sum, over every column, of the triangular depth of each "well" — a
/// contiguous vertical run of empty cells with a filled cell (or wall) on
/// both sides: a cell `depth` rows into a well contributes `depth`, so a well
/// of depth N sums to N(N+1)/2.
pub fn well_sums(board: &BitBoard) -> (r: u32)
    ensures
        r == grid_well_sums(board.grid()),
{
    let ghost g = board.grid();
    let mut sum: u32 = 0;
    let mut col: usize = 0;
    while col < BOARD_WIDTH
        invariant
            col <= BOARD_WIDTH,
            g == board.grid(),
            sum + wells_from_col(g, col as int) == grid_well_sums(g),
            sum <= 1600 * col,
        decreases BOARD_WIDTH - col,
    {
        let mut depth: u32 = 0;
        let mut ws: u32 = 0;
        let mut row: usize = 0;
        while row < BOARD_TOTAL_HEIGHT
            invariant
                col < BOARD_WIDTH,
                row <= BOARD_TOTAL_HEIGHT,
                g == board.grid(),
                ws + well_scan(g, col as int, row as int, depth as int) == well_scan(g, col as int, 0, 0),
                depth <= row,
                ws <= 40 * row,
            decreases BOARD_TOTAL_HEIGHT - row,
        {
            let r = row as i32;
            let c = col as i32;
            let is_well_cell = !board.is_occupied(r, c) && board.is_occupied(r, c - 1) && board.is_occupied(r, c + 1);
            assert(is_well_cell == well_cell(g, row as int, col as int));
            if is_well_cell {
                depth += 1;
                ws += depth;
            } else {
                depth = 0;
            }
            row += 1;
        }
        sum += ws;
        col += 1;
    }
    sum
}

/// All six features for locking `piece` on `before`, which leaves `after`.
pub fn dellacherie_features(before: &BitBoard, piece: &ActivePiece, after: &BitBoard) -> (f: DellacherieFeatures)
    requires
        piece.in_range(),
    ensures
        f.landing_height_sum == landing_height_sum(*piece),
        f.eroded_piece_cells == grid_eroded_cells(before.grid(), *piece),
        f.row_transitions == grid_row_transitions(after.grid()),
        f.column_transitions == grid_column_transitions(after.grid()),
        f.holes == grid_holes(after.grid()),
        f.well_sums == grid_well_sums(after.grid()),
{
    DellacherieFeatures {
        landing_height_sum: landing_height_total(piece),
        eroded_piece_cells: eroded_piece_cells(before, piece),
        row_transitions: row_transitions(after),
        column_transitions: column_transitions(after),
        holes: after.count_holes(),
        well_sums: well_sums(after),
    }
}

} // verus!
