//! Colorless occupancy grids (40 rows of 10 cells, `true` = filled) and the
//! board measures the placement AI reads off them.

use vstd::prelude::*;
use crate::board::{BOARD_TOTAL_HEIGHT, BOARD_WIDTH, Cell, view_rows};
use crate::piece::ActivePiece;
use crate::rows::{kept_rows, collapse_rows};

verus! {

pub type Grid = Seq<Seq<bool>>;

/// Occupancy of `(r, c)` the way collision sees it: open above the top,
/// filled outside the side walls and below the floor.
pub open spec fn grid_occ(g: Grid, r: int, c: int) -> bool {
    if r < 0 {
        false
    } else if r >= BOARD_TOTAL_HEIGHT || c < 0 || c >= BOARD_WIDTH {
        true
    } else {
        g[r][c]
    }
}

/// A row of occupancy bits is full when all ten are set.
pub open spec fn bits_full(row: Seq<bool>) -> bool {
    forall|c: int| 0 <= c < BOARD_WIDTH ==> #[trigger] row[c]
}

pub open spec fn full_bits_pred() -> spec_fn(Seq<bool>) -> bool {
    |row: Seq<bool>| bits_full(row)
}

pub open spec fn blank_bits() -> Seq<bool> {
    Seq::new(BOARD_WIDTH as nat, |_c: int| false)
}

/// Occupancy of a row of cells.
pub open spec fn cell_bits(row: Seq<Cell>) -> Seq<bool> {
    Seq::new(BOARD_WIDTH as nat, |c: int| row[c] is Some)
}

/// The occupancy grid of a board's row-major cells.
pub open spec fn board_grid(v: Seq<Cell>) -> Grid {
    view_rows(v).map_values(|row: Seq<Cell>| cell_bits(row))
}

/// The grid after removing full rows and letting the rows above fall.
pub open spec fn grid_cleared(g: Grid) -> Grid {
    collapse_rows(g, full_bits_pred(), blank_bits())
}

/// Number of full rows of the grid.
pub open spec fn grid_full_count(g: Grid) -> int {
    g.len() - kept_rows(g, full_bits_pred()).len()
}

/// `g` with `(r, c)` filled, if it lies on the board.
pub open spec fn grid_set(g: Grid, r: int, c: int) -> Grid {
    if 0 <= r < BOARD_TOTAL_HEIGHT && 0 <= c < BOARD_WIDTH {
        g.update(r, g[r].update(c, true))
    } else {
        g
    }
}

/// `g` with the four cells of `p` filled.
pub open spec fn grid_placed(g: Grid, p: ActivePiece) -> Grid {
    grid_set(grid_set(grid_set(grid_set(g, p.cell(0).0, p.cell(0).1), p.cell(1).0, p.cell(1).1), p.cell(2).0, p.cell(2).1), p.cell(3).0, p.cell(3).1)
}

/// No cell of `p` collides in `g`.
pub open spec fn grid_fits(g: Grid, p: ActivePiece) -> bool {
    forall|i: int| 0 <= i < 4 ==> !grid_occ(g, #[trigger] p.cell(i).0, p.cell(i).1)
}

/// First row at or below `r` with column `col` filled, or the floor.
pub open spec fn grid_first_filled(g: Grid, col: int, r: int) -> int
    decreases BOARD_TOTAL_HEIGHT - r,
{
    if r >= BOARD_TOTAL_HEIGHT {
        BOARD_TOTAL_HEIGHT as int
    } else if g[r][col] {
        r
    } else {
        grid_first_filled(g, col, r + 1)
    }
}

/// Row of the topmost filled cell of `col`, or the floor if it is empty.
pub open spec fn grid_col_top(g: Grid, col: int) -> int {
    grid_first_filled(g, col, 0)
}

pub open spec fn grid_column_height(g: Grid, col: int) -> int {
    BOARD_TOTAL_HEIGHT - grid_col_top(g, col)
}

/// Some cell of row `r` is filled.
pub open spec fn row_nonempty(g: Grid, r: int) -> bool {
    exists|c: int| 0 <= c < BOARD_WIDTH && #[trigger] g[r][c]
}

/// First row at or below `r` with a filled cell, or the floor.
pub open spec fn grid_top_from(g: Grid, r: int) -> int
    decreases BOARD_TOTAL_HEIGHT - r,
{
    if r >= BOARD_TOTAL_HEIGHT {
        BOARD_TOTAL_HEIGHT as int
    } else if row_nonempty(g, r) {
        r
    } else {
        grid_top_from(g, r + 1)
    }
}

/// Row index of the topmost non-empty row, or the floor if the grid is empty.
pub open spec fn grid_top_row(g: Grid) -> int {
    grid_top_from(g, 0)
}

/// Empty cells of column `col` from row `r` down that have a filled cell above
/// them (`seen`: a filled cell was met above row `r`).
pub open spec fn col_holes(g: Grid, col: int, r: int, seen: bool) -> int
    decreases BOARD_TOTAL_HEIGHT - r,
{
    if r >= BOARD_TOTAL_HEIGHT {
        0
    } else if g[r][col] {
        col_holes(g, col, r + 1, true)
    } else {
        (if seen { 1int } else { 0int }) + col_holes(g, col, r + 1, seen)
    }
}

/// Holes of columns `col..10`.
pub open spec fn holes_from_col(g: Grid, col: int) -> int
    decreases BOARD_WIDTH - col,
{
    if col >= BOARD_WIDTH {
        0
    } else {
        col_holes(g, col, 0, false) + holes_from_col(g, col + 1)
    }
}

/// Empty cells with at least one filled cell above them in the same column.
pub open spec fn grid_holes(g: Grid) -> int {
    holes_from_col(g, 0)
}

/// Filled/empty changes along row `r` from column `c` on, where `prev` is the
/// state left of column `c`; the right wall counts as filled.
pub open spec fn row_scan(g: Grid, r: int, c: int, prev: bool) -> int
    decreases BOARD_WIDTH - c,
{
    if c >= BOARD_WIDTH {
        if !prev { 1 } else { 0 }
    } else {
        (if g[r][c] != prev { 1int } else { 0int }) + row_scan(g, r, c + 1, g[r][c])
    }
}

/// Row transitions of rows `r..40`, both walls counted as filled.
pub open spec fn row_transitions_from(g: Grid, r: int) -> int
    decreases BOARD_TOTAL_HEIGHT - r,
{
    if r >= BOARD_TOTAL_HEIGHT || r < 0 {
        0
    } else {
        row_scan(g, r, 0, true) + row_transitions_from(g, r + 1)
    }
}

/// Row transitions from the topmost filled row down to the floor.
pub open spec fn grid_row_transitions(g: Grid) -> int {
    row_transitions_from(g, grid_top_row(g))
}

/// Filled/empty changes down column `col` from row `r`, where `prev` is the
/// state above row `r`; the floor counts as filled.
pub open spec fn col_scan(g: Grid, col: int, r: int, prev: bool) -> int
    decreases BOARD_TOTAL_HEIGHT - r,
{
    if r >= BOARD_TOTAL_HEIGHT {
        if !prev { 1 } else { 0 }
    } else {
        (if g[r][col] != prev { 1int } else { 0int }) + col_scan(g, col, r + 1, g[r][col])
    }
}

/// Column transitions of columns `col..10`, each scanned from row `top`.
pub open spec fn col_transitions_from(g: Grid, col: int, top: int) -> int
    decreases BOARD_WIDTH - col,
{
    if col >= BOARD_WIDTH {
        0
    } else {
        col_scan(g, col, top, false) + col_transitions_from(g, col + 1, top)
    }
}

/// Column transitions from the topmost filled row down to the floor, which
/// counts as filled; nothing above the scanned range counts as filled.
pub open spec fn grid_column_transitions(g: Grid) -> int {
    col_transitions_from(g, 0, grid_top_row(g))
}

/// An empty cell with filled cells (or walls) on both sides.
pub open spec fn well_cell(g: Grid, r: int, c: int) -> bool {
    !grid_occ(g, r, c) && grid_occ(g, r, c - 1) && grid_occ(g, r, c + 1)
}

/// Well depth sum of column `col` from row `r` down, `depth` being the length
/// of the well run just above row `r`: a cell `d` deep into a well adds `d`.
pub open spec fn well_scan(g: Grid, col: int, r: int, depth: int) -> int
    decreases BOARD_TOTAL_HEIGHT - r,
{
    if r >= BOARD_TOTAL_HEIGHT || r < 0 {
        0
    } else if well_cell(g, r, col) {
        (depth + 1) + well_scan(g, col, r + 1, depth + 1)
    } else {
        well_scan(g, col, r + 1, 0)
    }
}

pub open spec fn wells_from_col(g: Grid, col: int) -> int
    decreases BOARD_WIDTH - col,
{
    if col >= BOARD_WIDTH || col < 0 {
        0
    } else {
        well_scan(g, col, 0, 0) + wells_from_col(g, col + 1)
    }
}

/// Sum over every column of `1 + 2 + ... + d` for each well of depth `d`.
pub open spec fn grid_well_sums(g: Grid) -> int {
    wells_from_col(g, 0)
}

/// Full rows among rows `r..40`.
pub open spec fn full_rows_from(g: Grid, r: int) -> int
    decreases BOARD_TOTAL_HEIGHT - r,
{
    if r >= BOARD_TOTAL_HEIGHT || r < 0 {
        0
    } else {
        (if bits_full(g[r]) { 1int } else { 0int }) + full_rows_from(g, r + 1)
    }
}

/// Cells `i..4` of `p` that lie in a full row of `g`.
pub open spec fn piece_cells_in_full_rows(g: Grid, p: ActivePiece, i: int) -> int
    decreases 4 - i,
{
    if i >= 4 || i < 0 {
        0
    } else {
        let r = p.cell(i).0;
        (if 0 <= r < BOARD_TOTAL_HEIGHT && bits_full(g[r]) { 1int } else { 0int }) + piece_cells_in_full_rows(g, p, i + 1)
    }
}

/// Dellacherie's erosion: (rows cleared by placing `p`) times (cells of `p`
/// in those rows), measured on the board with `p` placed, before clearing.
pub open spec fn grid_eroded_cells(g: Grid, p: ActivePiece) -> int {
    let placed = grid_placed(g, p);
    full_rows_from(placed, 0) * piece_cells_in_full_rows(placed, p, 0)
}

/// Sum over the four cells of `p` of their height above the floor.
pub open spec fn landing_height_sum(p: ActivePiece) -> int {
    4 * BOARD_TOTAL_HEIGHT - (p.cell(0).0 + p.cell(1).0 + p.cell(2).0 + p.cell(3).0)
}

} // verus!
