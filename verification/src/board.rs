use vstd::prelude::*;
use crate::piece::PieceKind;
use crate::rows::{kept_rows, collapse_rows, lemma_kept_rows_len, lemma_kept_rows_none_full};

verus! {

pub const BOARD_WIDTH: usize = 10;
pub const BOARD_VISIBLE_HEIGHT: usize = 20;
pub const BOARD_HIDDEN_ROWS: usize = 20;
pub const BOARD_TOTAL_HEIGHT: usize = BOARD_VISIBLE_HEIGHT + BOARD_HIDDEN_ROWS;

/// A cell is empty, or filled by the kind of piece that locked into it.
pub type Cell = Option<PieceKind>;

/// `(row, col)` lies on the board.
pub open spec fn spec_in_bounds(row: int, col: int) -> bool {
    0 <= row < BOARD_TOTAL_HEIGHT && 0 <= col < BOARD_WIDTH
}

/// A row of cells is full when all ten cells are filled.
pub open spec fn cells_full(row: Seq<Cell>) -> bool {
    forall|c: int| 0 <= c < BOARD_WIDTH ==> (#[trigger] row[c]) is Some
}

pub open spec fn full_cells_pred() -> spec_fn(Seq<Cell>) -> bool {
    |row: Seq<Cell>| cells_full(row)
}

/// A row with every cell empty.
pub open spec fn blank_cells() -> Seq<Cell> {
    Seq::new(BOARD_WIDTH as nat, |_c: int| None)
}

/// Row 0 is the topmost hidden row; row `BOARD_TOTAL_HEIGHT - 1` is the bottom visible row.
#[derive(Copy, Clone, PartialEq, Eq, Debug)]
pub struct Board {
    cells: [Cell; 400],
}

impl View for Board {
    type V = Seq<Cell>;

    /// Row-major cells, `row * BOARD_WIDTH + col`.
    closed spec fn view(&self) -> Seq<Cell> {
        self.cells@
    }
}

/// A board's cells are the flattening of its rows.
pub proof fn lemma_flatten_rows(b: Board)
    ensures
        b@ == flatten_rows(view_rows(b@)),
{
    assert forall|i: int| 0 <= i < BOARD_WIDTH * BOARD_TOTAL_HEIGHT implies b@[i] == flatten_rows(
        view_rows(b@),
    )[i] by {
        let r = i / BOARD_WIDTH as int;
        let c = i % BOARD_WIDTH as int;
        assert(r * BOARD_WIDTH + c == i);
        assert(0 <= r < BOARD_TOTAL_HEIGHT);
    }
    assert(b@ =~= flatten_rows(view_rows(b@)));
}

pub broadcast proof fn lemma_board_view_len(b: Board)
    ensures
        #[trigger] b@.len() == BOARD_WIDTH * BOARD_TOTAL_HEIGHT,
{
}

/// Cell at `(row, col)` of the row-major cells `v`, the way collision sees it:
/// the stored cell on the board, open above the top, filled (walls, floor)
/// everywhere else.
pub open spec fn view_get(v: Seq<Cell>, row: int, col: int) -> Cell {
    if spec_in_bounds(row, col) {
        v[row * BOARD_WIDTH + col]
    } else if row < 0 {
        None
    } else {
        Some(PieceKind::I)
    }
}

pub open spec fn view_occupied(v: Seq<Cell>, row: int, col: int) -> bool {
    view_get(v, row, col) is Some
}

/// The cells of an empty board.
pub open spec fn empty_view() -> Seq<Cell> {
    Seq::new((BOARD_WIDTH * BOARD_TOTAL_HEIGHT) as nat, |_i: int| None)
}

/// `v` with the cell at `(row, col)` replaced, if it lies on the board.
pub open spec fn view_set(v: Seq<Cell>, row: int, col: int, value: Cell) -> Seq<Cell> {
    if spec_in_bounds(row, col) {
        v.update(row * BOARD_WIDTH + col, value)
    } else {
        v
    }
}

/// The rows of the row-major cells `v`, top to bottom.
pub open spec fn view_rows(v: Seq<Cell>) -> Seq<Seq<Cell>> {
    Seq::new(BOARD_TOTAL_HEIGHT as nat, |r: int| Seq::new(BOARD_WIDTH as nat, |c: int| view_get(v, r, c)))
}

/// Row-major cells of a board given by its rows.
pub open spec fn flatten_rows(rows: Seq<Seq<Cell>>) -> Seq<Cell> {
    Seq::new((BOARD_WIDTH * BOARD_TOTAL_HEIGHT) as nat, |i: int| rows[i / BOARD_WIDTH as int][i % BOARD_WIDTH as int])
}

/// The cells after removing every full row and letting the rows above fall.
pub open spec fn cleared_view(v: Seq<Cell>) -> Seq<Cell> {
    flatten_rows(collapse_rows(view_rows(v), full_cells_pred(), blank_cells()))
}

/// How many rows of `v` are full.
pub open spec fn full_count(v: Seq<Cell>) -> int {
    BOARD_TOTAL_HEIGHT - kept_rows(view_rows(v), full_cells_pred()).len()
}

impl Board {
    pub open spec fn spec_get(self, row: int, col: int) -> Cell {
        view_get(self@, row, col)
    }

    pub open spec fn spec_occupied(self, row: int, col: int) -> bool {
        view_occupied(self@, row, col)
    }

    /// The ten cells of row `r`, left to right.
    pub open spec fn row_cells(self, r: int) -> Seq<Cell> {
        Seq::new(BOARD_WIDTH as nat, |c: int| self.spec_get(r, c))
    }

    /// All rows, top to bottom.
    pub open spec fn rows(self) -> Seq<Seq<Cell>> {
        view_rows(self@)
    }

    pub open spec fn spec_row_full(self, r: int) -> bool {
        forall|c: int| 0 <= c < BOARD_WIDTH ==> #[trigger] self.spec_occupied(r, c)
    }

    pub open spec fn spec_row_empty(self, r: int) -> bool {
        forall|c: int| 0 <= c < BOARD_WIDTH ==> !#[trigger] self.spec_occupied(r, c)
    }

    /// First row at or below `r` whose cell in column `col` is filled, or the
    /// floor (`BOARD_TOTAL_HEIGHT`) if there is none.
    pub open spec fn first_filled_from(self, col: int, r: int) -> int
        decreases BOARD_TOTAL_HEIGHT - r,
    {
        if r >= BOARD_TOTAL_HEIGHT {
            BOARD_TOTAL_HEIGHT as int
        } else if self.spec_occupied(r, col) {
            r
        } else {
            self.first_filled_from(col, r + 1)
        }
    }

    /// Row of the topmost filled cell in `col`, or the floor if the column is empty.
    pub open spec fn spec_col_top(self, col: int) -> int {
        self.first_filled_from(col, 0)
    }

    /// Height of the stack in `col`: rows from its topmost filled cell down to the floor.
    pub open spec fn spec_column_height(self, col: int) -> int {
        BOARD_TOTAL_HEIGHT - self.spec_col_top(col)
    }

    pub fn new() -> (b: Self)
        ensures
            b@ == empty_view(),
            forall|r: int, c: int| spec_in_bounds(r, c) ==> b.spec_get(r, c) is None,
    {
        let empty: Cell = None;
        let cells: [Cell; 400] = vstd::array::array_fill_for_copy_types::<Cell, 400>(empty);
        proof {
            broadcast use vstd::array::group_array_axioms;
            assert(forall|i: int| 0 <= i < 400 ==> cells@[i] is None);
        }
        let b = Board { cells };
        assert(b@ =~= empty_view());
        b
    }

    fn index(row: i32, col: i32) -> (r: Option<usize>)
        ensures
            spec_in_bounds(row as int, col as int) <==> r is Some,
            r matches Some(i) ==> i == row * BOARD_WIDTH + col,
    {
        if row < 0 || col < 0 || row as usize >= BOARD_TOTAL_HEIGHT || col as usize >= BOARD_WIDTH {
            None
        } else {
            Some(row as usize * BOARD_WIDTH + col as usize)
        }
    }

    /// Returns true if (row, col) is within the board bounds.
    pub fn in_bounds(row: i32, col: i32) -> (r: bool)
        ensures
            r == spec_in_bounds(row as int, col as int),
    {
        Self::index(row, col).is_some()
    }

    /// Returns the cell at (row, col). Out-of-bounds cells (other than above the
    /// top, which is treated as empty/open) are treated as occupied so pieces
    /// cannot move off the board.
    pub fn get(&self, row: i32, col: i32) -> (r: Cell)
        ensures
            r == self.spec_get(row as int, col as int),
    {
        match Self::index(row, col) {
            Some(i) => self.cells[i],
            None => {
                if row < 0 {
                    None
                } else {
                    Some(PieceKind::I)
                }
            },
        }
    }

    /// Writes `value` at (row, col); out-of-bounds writes are ignored.
    pub fn set(&mut self, row: i32, col: i32, value: Cell)
        ensures
            final(self)@ == view_set(old(self)@, row as int, col as int, value),
    {
        if let Some(i) = Self::index(row, col) {
            self.cells[i] = value;
        }
    }

    pub fn is_occupied(&self, row: i32, col: i32) -> (r: bool)
        ensures
            r == self.spec_occupied(row as int, col as int),
    {
        self.get(row, col).is_some()
    }

    pub fn is_row_full(&self, row: usize) -> (r: bool)
        requires
            row < BOARD_TOTAL_HEIGHT,
        ensures
            r == self.spec_row_full(row as int),
    {
        let mut col: usize = 0;
        while col < BOARD_WIDTH
            invariant
                row < BOARD_TOTAL_HEIGHT,
                col <= BOARD_WIDTH,
                forall|c: int| 0 <= c < col ==> #[trigger] self.spec_occupied(row as int, c),
            decreases BOARD_WIDTH - col,
        {
            if self.cells[row * BOARD_WIDTH + col].is_none() {
                assert(!self.spec_occupied(row as int, col as int));
                return false;
            }
            col += 1;
        }
        true
    }

    pub fn is_row_empty(&self, row: usize) -> (r: bool)
        requires
            row < BOARD_TOTAL_HEIGHT,
        ensures
            r == self.spec_row_empty(row as int),
    {
        let mut col: usize = 0;
        while col < BOARD_WIDTH
            invariant
                row < BOARD_TOTAL_HEIGHT,
                col <= BOARD_WIDTH,
                forall|c: int| 0 <= c < col ==> !#[trigger] self.spec_occupied(row as int, c),
            decreases BOARD_WIDTH - col,
        {
            if self.cells[row * BOARD_WIDTH + col].is_some() {
                assert(self.spec_occupied(row as int, col as int));
                return false;
            }
            col += 1;
        }
        true
    }

    proof fn lemma_row_full_matches(self, r: int)
        requires
            0 <= r < BOARD_TOTAL_HEIGHT,
        ensures
            self.spec_row_full(r) == cells_full(self.rows()[r]),
            self.rows()[r] == self.row_cells(r),
    {
        let row = self.rows()[r];
        if self.spec_row_full(r) {
            assert forall|c: int| 0 <= c < BOARD_WIDTH implies (#[trigger] row[c]) is Some by {
                assert(self.spec_occupied(r, c));
            }
        }
        if cells_full(row) {
            assert forall|c: int| 0 <= c < BOARD_WIDTH implies #[trigger] self.spec_occupied(
                r,
                c,
            ) by {
                assert(row[c] is Some);
            }
        }
    }

    /// Copies row `from` over row `to`.
    fn copy_row(&mut self, from: usize, to: usize)
        requires
            from < BOARD_TOTAL_HEIGHT,
            to < BOARD_TOTAL_HEIGHT,
        ensures
            final(self).rows() =~= old(self).rows().update(to as int, old(self).rows()[from as int]),
    {
        let ghost src = old(self).row_cells(from as int);
        let mut col: usize = 0;
        while col < BOARD_WIDTH
            invariant
                from < BOARD_TOTAL_HEIGHT,
                to < BOARD_TOTAL_HEIGHT,
                col <= BOARD_WIDTH,
                src == old(self).row_cells(from as int),
                forall|r: int, c: int|
                    spec_in_bounds(r, c) ==> #[trigger] self.spec_get(r, c) == if r == to && c
                        < col {
                        src[c]
                    } else if r == from && c < col {
                        if from == to {
                            src[c]
                        } else {
                            old(self).spec_get(r, c)
                        }
                    } else {
                        old(self).spec_get(r, c)
                    },
            decreases BOARD_WIDTH - col,
        {
            let v = self.cells[from * BOARD_WIDTH + col];
            assert(v == self.spec_get(from as int, col as int));
            assert(self.spec_get(from as int, col as int) == old(self).spec_get(from as int, col as int));
            assert(v == src[col as int]);
            let ghost prev = *self;
            self.cells[to * BOARD_WIDTH + col] = v;
            assert forall|r: int, c: int| spec_in_bounds(r, c) implies #[trigger] self.spec_get(r, c)
                == if r == to && c == col { v } else { prev.spec_get(r, c) } by {
                if !(r == to && c == col) {
                    assert(r * BOARD_WIDTH + c != to * BOARD_WIDTH + col);
                }
            }
            col += 1;
        }
        assert forall|r: int| 0 <= r < BOARD_TOTAL_HEIGHT implies #[trigger] self.rows()[r]
            =~= old(self).rows().update(to as int, old(self).rows()[from as int])[r] by {
            assert forall|c: int| 0 <= c < BOARD_WIDTH implies self.rows()[r][c] == old(
                self,
            ).rows().update(to as int, old(self).rows()[from as int])[r][c] by {
                assert(self.spec_get(r, c) == self.rows()[r][c]);
                assert(old(self).spec_get(r, c) == old(self).rows()[r][c]);
                assert(old(self).spec_get(from as int, c) == old(self).rows()[from as int][c]);
            }
        }
    }

    /// Empties row `r`.
    fn blank_row(&mut self, row: usize)
        requires
            row < BOARD_TOTAL_HEIGHT,
        ensures
            final(self).rows() =~= old(self).rows().update(row as int, blank_cells()),
    {
        let mut col: usize = 0;
        while col < BOARD_WIDTH
            invariant
                row < BOARD_TOTAL_HEIGHT,
                col <= BOARD_WIDTH,
                forall|r: int, c: int|
                    spec_in_bounds(r, c) ==> #[trigger] self.spec_get(r, c) == if r == row && c
                        < col {
                        None
                    } else {
                        old(self).spec_get(r, c)
                    },
            decreases BOARD_WIDTH - col,
        {
            let ghost prev = *self;
            self.cells[row * BOARD_WIDTH + col] = None;
            assert forall|r: int, c: int| spec_in_bounds(r, c) implies #[trigger] self.spec_get(r, c)
                == if r == row && c == col { None } else { prev.spec_get(r, c) } by {
                if !(r == row && c == col) {
                    assert(r * BOARD_WIDTH + c != row * BOARD_WIDTH + col);
                }
            }
            col += 1;
        }
        assert forall|r: int| 0 <= r < BOARD_TOTAL_HEIGHT implies #[trigger] self.rows()[r]
            =~= old(self).rows().update(row as int, blank_cells())[r] by {
            assert forall|c: int| 0 <= c < BOARD_WIDTH implies self.rows()[r][c] == old(
                self,
            ).rows().update(row as int, blank_cells())[r][c] by {
                assert(self.spec_get(r, c) == self.rows()[r][c]);
                assert(old(self).spec_get(r, c) == old(self).rows()[r][c]);
            }
        }
    }

    /// Clears all full rows, collapsing rows above downward. Returns the number cleared.
    pub fn clear_full_rows(&mut self) -> (cleared: u32)
        ensures
            final(self)@ == cleared_view(old(self)@),
            cleared == full_count(old(self)@),
    {
        let ghost orig = self.rows();
        let ghost full = full_cells_pred();
        let mut write: i32 = BOARD_TOTAL_HEIGHT as i32 - 1;
        let mut read: i32 = BOARD_TOTAL_HEIGHT as i32 - 1;
        let mut cleared: u32 = 0;
        while read >= 0
            invariant
                -1 <= read <= write < BOARD_TOTAL_HEIGHT,
                orig.len() == BOARD_TOTAL_HEIGHT,
                self.rows().len() == BOARD_TOTAL_HEIGHT,
                cleared == write - read,
                full == full_cells_pred(),
                forall|r: int| 0 <= r <= read ==> #[trigger] self.rows()[r] == orig[r],
                self.rows().subrange(write + 1, BOARD_TOTAL_HEIGHT as int) == kept_rows(
                    orig.subrange(read + 1, BOARD_TOTAL_HEIGHT as int),
                    full,
                ),
            decreases read + 1,
        {
            let ghost before = self.rows();
            let ghost tail = orig.subrange(read + 1, BOARD_TOTAL_HEIGHT as int);
            let ghost seg = orig.subrange(read as int, BOARD_TOTAL_HEIGHT as int);
            assert(seg.drop_first() =~= tail);
            assert(seg[0] == orig[read as int]);
            proof {
                self.lemma_row_full_matches(read as int);
            }
            if self.is_row_full(read as usize) {
                cleared += 1;
                read -= 1;
            } else {
                if write != read {
                    self.copy_row(read as usize, write as usize);
                }
                assert(self.rows()[write as int] == orig[read as int]);
                assert(self.rows().subrange(write as int, BOARD_TOTAL_HEIGHT as int) =~= seq![
                    orig[read as int],
                ] + before.subrange(write + 1, BOARD_TOTAL_HEIGHT as int));
                write -= 1;
                read -= 1;
            }
        }
        let ghost kept = kept_rows(orig, full);
        assert(orig.subrange(0, BOARD_TOTAL_HEIGHT as int) =~= orig);
        proof {
            lemma_kept_rows_len(orig, full);
        }
        let ghost w0 = write;
        while write >= 0
            invariant
                -1 <= write <= w0 < BOARD_TOTAL_HEIGHT,
                self.rows().len() == BOARD_TOTAL_HEIGHT,
                self.rows().subrange(w0 + 1, BOARD_TOTAL_HEIGHT as int) == kept,
                forall|r: int| write < r <= w0 ==> #[trigger] self.rows()[r] == blank_cells(),
            decreases write + 1,
        {
            self.blank_row(write as usize);
            assert(self.rows().subrange(w0 + 1, BOARD_TOTAL_HEIGHT as int) =~= kept);
            write -= 1;
        }
        assert(kept.len() == BOARD_TOTAL_HEIGHT - (w0 + 1));
        assert(self.rows() =~= collapse_rows(orig, full, blank_cells())) by {
            let target = collapse_rows(orig, full, blank_cells());
            assert forall|r: int| 0 <= r < BOARD_TOTAL_HEIGHT implies self.rows()[r]
                == target[r] by {
                if r > w0 {
                    assert(self.rows()[r] == self.rows().subrange(
                        w0 + 1,
                        BOARD_TOTAL_HEIGHT as int,
                    )[r - (w0 + 1)]);
                }
            }
        }
        proof {
            lemma_flatten_rows(*self);
        }
        cleared
    }

    /// Height of the visible board (rows above the highest filled cell within
    /// visible rows), one column at a time. Index 0..BOARD_WIDTH.
    pub fn column_height(&self, col: usize) -> (h: u32)
        requires
            col < BOARD_WIDTH,
        ensures
            h == self.spec_column_height(col as int),
    {
        let mut row: usize = 0;
        while row < BOARD_TOTAL_HEIGHT
            invariant
                col < BOARD_WIDTH,
                row <= BOARD_TOTAL_HEIGHT,
                self.first_filled_from(col as int, row as int) == self.spec_col_top(col as int),
            decreases BOARD_TOTAL_HEIGHT - row,
        {
            if self.cells[row * BOARD_WIDTH + col].is_some() {
                return (BOARD_TOTAL_HEIGHT - row) as u32;
            }
            row += 1;
        }
        0
    }

    /// Flat visible-area buffer (row-major, top-to-bottom of the visible 20 rows),
    /// one byte per cell: 0 = empty, else 1..=7 for PieceKind.
    pub fn visible_buffer(&self) -> (buf: Vec<u8>)
        ensures
            buf@.len() == BOARD_WIDTH * BOARD_VISIBLE_HEIGHT,
            forall|r: int, c: int|
                0 <= r < BOARD_VISIBLE_HEIGHT && 0 <= c < BOARD_WIDTH ==> #[trigger] buf@[r
                    * BOARD_WIDTH + c] == match self.spec_get(r + BOARD_HIDDEN_ROWS, c) {
                    None => 0u8,
                    Some(k) => k.spec_code(),
                },
    {
        let mut buf: Vec<u8> = Vec::with_capacity(BOARD_WIDTH * BOARD_VISIBLE_HEIGHT);
        let mut row: usize = BOARD_HIDDEN_ROWS;
        while row < BOARD_TOTAL_HEIGHT
            invariant
                BOARD_HIDDEN_ROWS <= row <= BOARD_TOTAL_HEIGHT,
                buf@.len() == (row - BOARD_HIDDEN_ROWS) * BOARD_WIDTH,
                forall|r: int, c: int|
                    0 <= r < row - BOARD_HIDDEN_ROWS && 0 <= c < BOARD_WIDTH ==> #[trigger] buf@[r
                        * BOARD_WIDTH + c] == match self.spec_get(r + BOARD_HIDDEN_ROWS, c) {
                        None => 0u8,
                        Some(k) => k.spec_code(),
                    },
            decreases BOARD_TOTAL_HEIGHT - row,
        {
            let mut col: usize = 0;
            while col < BOARD_WIDTH
                invariant
                    BOARD_HIDDEN_ROWS <= row < BOARD_TOTAL_HEIGHT,
                    col <= BOARD_WIDTH,
                    buf@.len() == (row - BOARD_HIDDEN_ROWS) * BOARD_WIDTH + col,
                    forall|r: int, c: int|
                        0 <= r <= row - BOARD_HIDDEN_ROWS && 0 <= c < BOARD_WIDTH && r
                            * BOARD_WIDTH + c < (row - BOARD_HIDDEN_ROWS) * BOARD_WIDTH + col
                            ==> #[trigger] buf@[r * BOARD_WIDTH + c] == match self.spec_get(
                            r + BOARD_HIDDEN_ROWS,
                            c,
                        ) {
                            None => 0u8,
                            Some(k) => k.spec_code(),
                        },
                decreases BOARD_WIDTH - col,
            {
                let v: u8 = match self.cells[row * BOARD_WIDTH + col] {
                    None => 0,
                    Some(kind) => kind.as_u8(),
                };
                buf.push(v);
                col += 1;
            }
            row += 1;
        }
        buf
    }
}

impl Default for Board {
    fn default() -> (b: Self)
        ensures
            forall|r: int, c: int| spec_in_bounds(r, c) ==> b.spec_get(r, c) is None,
    {
        Self::new()
    }
}

proof fn lemma_rows_of_flatten(rows: Seq<Seq<Cell>>)
    requires
        rows.len() == BOARD_TOTAL_HEIGHT,
        forall|r: int| 0 <= r < BOARD_TOTAL_HEIGHT ==> (#[trigger] rows[r]).len() == BOARD_WIDTH,
    ensures
        view_rows(flatten_rows(rows)) == rows,
{
    let v = flatten_rows(rows);
    assert forall|r: int| 0 <= r < BOARD_TOTAL_HEIGHT implies view_rows(v)[r] == rows[r] by {
        assert forall|c: int| 0 <= c < BOARD_WIDTH implies view_rows(v)[r][c] == rows[r][c] by {
            let i = r * BOARD_WIDTH + c;
            assert(i / BOARD_WIDTH as int == r && i % BOARD_WIDTH as int == c);
        }
        assert(view_rows(v)[r] =~= rows[r]);
    }
    assert(view_rows(v) =~= rows);
}

pub proof fn lemma_cleared_rows(v: Seq<Cell>)
    ensures
        view_rows(cleared_view(v)) == collapse_rows(view_rows(v), full_cells_pred(), blank_cells()),
        forall|r: int| 0 <= r < BOARD_TOTAL_HEIGHT ==> !cells_full(#[trigger] view_rows(cleared_view(v))[r]),
{
    let rows = view_rows(v);
    let full = full_cells_pred();
    let kept = kept_rows(rows, full);
    lemma_kept_rows_len(rows, full);
    let col = collapse_rows(rows, full, blank_cells());
    assert forall|r: int| 0 <= r < BOARD_TOTAL_HEIGHT implies (#[trigger] col[r]).len() == BOARD_WIDTH
        && !cells_full(col[r]) by {
        let nb = (rows.len() - kept.len()) as int;
        if r < nb {
            assert(col[r] == blank_cells());
            assert(blank_cells()[0] is None);
        } else {
            assert(col[r] == kept[r - nb]);
            assert(!full(kept[r - nb]));
            assert(exists|i: int| 0 <= i < rows.len() && kept[r - nb] == rows[i]) by {
                lemma_kept_rows_from(rows, full, r - nb);
            }
        }
    }
    lemma_rows_of_flatten(col);
}

proof fn lemma_kept_rows_from(rows: Seq<Seq<Cell>>, full: spec_fn(Seq<Cell>) -> bool, j: int)
    requires
        0 <= j < kept_rows(rows, full).len(),
    ensures
        exists|i: int| 0 <= i < rows.len() && kept_rows(rows, full)[j] == rows[i],
    decreases rows.len(),
{
    lemma_kept_rows_len(rows, full);
    if rows.len() > 0 {
        let rest = kept_rows(rows.drop_first(), full);
        lemma_kept_rows_len(rows.drop_first(), full);
        if full(rows[0]) || j > 0 {
            let jj = if full(rows[0]) { j } else { j - 1 };
            lemma_kept_rows_from(rows.drop_first(), full, jj);
            let i = choose|i: int| 0 <= i < rows.drop_first().len() && rest[jj] == rows.drop_first()[i];
            assert(rows[i + 1] == rest[jj]);
        } else {
            assert(kept_rows(rows, full)[0] == rows[0]);
        }
    }
}

/// Clearing leaves no full row behind, so clearing a second time changes
/// nothing and clears no row.
pub proof fn law_clear_is_idempotent(v: Seq<Cell>)
    ensures
        forall|r: int| 0 <= r < BOARD_TOTAL_HEIGHT ==> !cells_full(#[trigger] view_rows(cleared_view(v))[r]),
        full_count(cleared_view(v)) == 0,
        cleared_view(cleared_view(v)) == cleared_view(v),
{
    lemma_cleared_rows(v);
    let rows2 = view_rows(cleared_view(v));
    let full = full_cells_pred();
    assert forall|i: int| 0 <= i < rows2.len() implies !full(#[trigger] rows2[i]) by {
        assert(!cells_full(rows2[i]));
    }
    lemma_kept_rows_none_full(rows2, full);
    assert(collapse_rows(rows2, full, blank_cells()) =~= rows2);
    lemma_flatten_of_rows(cleared_view(v));
}

proof fn lemma_flatten_of_rows(v: Seq<Cell>)
    requires
        v.len() == BOARD_WIDTH * BOARD_TOTAL_HEIGHT,
    ensures
        flatten_rows(view_rows(v)) == v,
{
    assert forall|i: int| 0 <= i < BOARD_WIDTH * BOARD_TOTAL_HEIGHT implies v[i] == flatten_rows(
        view_rows(v),
    )[i] by {
        let r = i / BOARD_WIDTH as int;
        let c = i % BOARD_WIDTH as int;
        assert(r * BOARD_WIDTH + c == i);
    }
    assert(v =~= flatten_rows(view_rows(v)));
}

} // verus!
