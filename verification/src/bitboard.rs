//! Colorless, allocation-free board used only inside the AI's search: one
//! `u16` per row (bits 0..=9 = columns 0..=9), `Copy`, 80 bytes, so trying a
//! candidate placement copies it on the stack instead of cloning a board.

use vstd::prelude::*;
use crate::board::{
    Board, BOARD_TOTAL_HEIGHT, BOARD_WIDTH, view_occupied, view_rows, cleared_view, full_count, cells_full, view_set,
    full_cells_pred, blank_cells, lemma_cleared_rows, lemma_board_view_len, Cell,
};
use crate::grid::cell_bits;
use crate::grid::{Grid, grid_occ, bits_full, full_bits_pred, blank_bits, board_grid, grid_cleared, grid_full_count, grid_set, grid_placed, grid_fits, grid_first_filled, grid_col_top, grid_column_height, row_nonempty, grid_top_from, grid_top_row, col_holes, holes_from_col, grid_holes};
use crate::piece::ActivePiece;
use crate::motion::{placed_view, locked_view, lock_clears};
use crate::rows::{kept_rows, collapse_rows, lemma_kept_rows_len, lemma_kept_rows_map};

verus! {

pub const FULL_ROW_MASK: u16 = 0x3FF;

/// Bit `c` of the row mask `m`.
pub open spec fn mask_bit(m: u16, c: int) -> bool {
    (m >> (c as u16)) & 1u16 == 1u16
}

/// The ten column bits of a row mask.
pub open spec fn mask_bits(m: u16) -> Seq<bool> {
    Seq::new(BOARD_WIDTH as nat, |c: int| mask_bit(m, c))
}

pub open spec fn full_mask_pred() -> spec_fn(u16) -> bool {
    |m: u16| m == FULL_ROW_MASK
}

/// A grid of empty rows.
pub open spec fn empty_grid() -> Grid {
    Seq::new(BOARD_TOTAL_HEIGHT as nat, |_r: int| blank_bits())
}

proof fn lemma_bit_or(m: u16, c: u16, d: u16)
    requires
        c < 16,
        d < 16,
    ensures
        ((m | (1u16 << c)) >> d) & 1u16 == if d == c { 1u16 } else { (m >> d) & 1u16 },
{
    assert(((m | (1u16 << c)) >> d) & 1u16 == if d == c { 1u16 } else { (m >> d) & 1u16 })
        by (bit_vector)
        requires
            c < 16,
            d < 16,
    ;
}

proof fn lemma_low_bits_bound(m: u16)
    requires
        !mask_bit(m, 10),
        !mask_bit(m, 11),
        !mask_bit(m, 12),
        !mask_bit(m, 13),
        !mask_bit(m, 14),
        !mask_bit(m, 15),
    ensures
        m < 1024,
{
    assert(m < 1024) by (bit_vector)
        requires
            (m >> 10u16) & 1u16 != 1u16,
            (m >> 11u16) & 1u16 != 1u16,
            (m >> 12u16) & 1u16 != 1u16,
            (m >> 13u16) & 1u16 != 1u16,
            (m >> 14u16) & 1u16 != 1u16,
            (m >> 15u16) & 1u16 != 1u16,
    ;
}

/// Below 1024, a mask is full exactly when its ten low bits are set.
proof fn lemma_full_mask(m: u16)
    requires
        m < 1024,
    ensures
        (m == FULL_ROW_MASK) == bits_full(mask_bits(m)),
{
    let b = mask_bits(m);
    assert((m == 0x3FFu16) == ((m >> 0u16) & 1u16 == 1u16 && (m >> 1u16) & 1u16 == 1u16 && (m >> 2u16) & 1u16
        == 1u16 && (m >> 3u16) & 1u16 == 1u16 && (m >> 4u16) & 1u16 == 1u16 && (m >> 5u16) & 1u16 == 1u16 && (m
        >> 6u16) & 1u16 == 1u16 && (m >> 7u16) & 1u16 == 1u16 && (m >> 8u16) & 1u16 == 1u16 && (m >> 9u16)
        & 1u16 == 1u16)) by (bit_vector)
        requires
            m < 1024,
    ;
    if bits_full(b) {
        assert(b[0] && b[1] && b[2] && b[3] && b[4] && b[5] && b[6] && b[7] && b[8] && b[9]);
    }
}

/// Below 1024, a mask is zero exactly when its ten low bits are clear.
proof fn lemma_empty_mask(m: u16)
    requires
        m < 1024,
    ensures
        (m == 0) == (forall|c: int| 0 <= c < BOARD_WIDTH ==> !#[trigger] mask_bit(m, c)),
{
    assert((m == 0u16) == ((m >> 0u16) & 1u16 != 1u16 && (m >> 1u16) & 1u16 != 1u16 && (m >> 2u16) & 1u16
        != 1u16 && (m >> 3u16) & 1u16 != 1u16 && (m >> 4u16) & 1u16 != 1u16 && (m >> 5u16) & 1u16 != 1u16 && (m
        >> 6u16) & 1u16 != 1u16 && (m >> 7u16) & 1u16 != 1u16 && (m >> 8u16) & 1u16 != 1u16 && (m >> 9u16)
        & 1u16 != 1u16)) by (bit_vector)
        requires
            m < 1024,
    ;
    if forall|c: int| 0 <= c < BOARD_WIDTH ==> !#[trigger] mask_bit(m, c) {
        assert(!mask_bit(m, 0) && !mask_bit(m, 1) && !mask_bit(m, 2) && !mask_bit(m, 3) && !mask_bit(m, 4)
            && !mask_bit(m, 5) && !mask_bit(m, 6) && !mask_bit(m, 7) && !mask_bit(m, 8) && !mask_bit(m, 9));
    }
}

proof fn lemma_zero_mask_bits()
    ensures
        mask_bits(0u16) == blank_bits(),
{
    assert forall|c: int| 0 <= c < BOARD_WIDTH implies !mask_bit(0u16, c) by {
        let cc = c as u16;
        assert((0u16 >> cc) & 1u16 == 0u16) by (bit_vector);
    }
    assert(mask_bits(0u16) =~= blank_bits());
}

/// Reads bit `c` of `m`.
fn bit_at(m: u16, c: usize) -> (r: bool)
    requires
        c < 16,
    ensures
        r == mask_bit(m, c as int),
{
    let x = (m >> (c as u16)) & 1u16;
    assert(x != 0u16 <==> x == 1u16) by (bit_vector)
        requires
            x == (m >> (c as u16)) & 1u16,
    ;
    x != 0
}

#[derive(Copy, Clone, PartialEq, Eq, Debug)]
pub struct BitBoard {
    /// rows[0] = topmost (hidden) row, rows[BOARD_TOTAL_HEIGHT - 1] = bottom
    /// visible row — same row convention as `Board`.
    rows: [u16; 40],
}

impl BitBoard {
    /// Only the ten column bits of a row are ever set.
    #[verifier::type_invariant]
    spec fn inv(self) -> bool {
        forall|r: int| 0 <= r < BOARD_TOTAL_HEIGHT ==> #[trigger] self.rows@[r] < 1024
    }

    /// The occupancy grid this board holds.
    pub closed spec fn grid(self) -> Grid {
        self.rows@.map_values(|m: u16| mask_bits(m))
    }

    pub proof fn lemma_grid_shape(self)
        ensures
            self.grid().len() == BOARD_TOTAL_HEIGHT,
            forall|r: int| 0 <= r < BOARD_TOTAL_HEIGHT ==> #[trigger] self.grid()[r].len() == BOARD_WIDTH,
    {
    }

    pub fn empty() -> (b: Self)
        ensures
            b.grid() == empty_grid(),
    {
        let rows: [u16; 40] = [0u16; 40];
        proof {
            lemma_zero_mask_bits();
        }
        let b = BitBoard { rows };
        assert(b.grid() =~= empty_grid());
        b
    }

    /// One-time conversion from the engine's colored board.
    pub fn from_board(board: &Board) -> (b: Self)
        ensures
            b.grid() == board_grid(board@),
    {
        let mut rows: [u16; 40] = [0u16; 40];
        let mut r: usize = 0;
        while r < BOARD_TOTAL_HEIGHT
            invariant
                r <= BOARD_TOTAL_HEIGHT,
                forall|i: int| 0 <= i < BOARD_TOTAL_HEIGHT ==> #[trigger] rows@[i] < 1024,
                forall|i: int, c: int|
                    0 <= i < r && 0 <= c < BOARD_WIDTH ==> #[trigger] mask_bit(rows@[i], c) == view_occupied(
                        board@,
                        i,
                        c,
                    ),
            decreases BOARD_TOTAL_HEIGHT - r,
        {
            let mut mask: u16 = 0;
            let mut c: usize = 0;
            proof {
                assert forall|d: int| 0 <= d < 16 implies !#[trigger] mask_bit(0u16, d) by {
                    let dd = d as u16;
                    assert((0u16 >> dd) & 1u16 == 0u16) by (bit_vector);
                }
            }
            while c < BOARD_WIDTH
                invariant
                    r < BOARD_TOTAL_HEIGHT,
                    c <= BOARD_WIDTH,
                    forall|d: int|
                        0 <= d < 16 ==> #[trigger] mask_bit(mask, d) == (d < c && view_occupied(board@, r as int, d)),
                decreases BOARD_WIDTH - c,
            {
                let occ = board.is_occupied(r as i32, c as i32);
                assert(occ == view_occupied(board@, r as int, c as int));
                if occ {
                    let ghost old_mask = mask;
                    mask = mask | (1u16 << (c as u16));
                    proof {
                        assert forall|d: int| 0 <= d < 16 implies #[trigger] mask_bit(mask, d) == (d < c + 1
                            && view_occupied(board@, r as int, d)) by {
                            lemma_bit_or(old_mask, c as u16, d as u16);
                            assert((d as u16) as int == d);
                            assert((c as u16) as int == c);
                            if d == c {
                                assert(mask_bit(mask, d));
                            } else {
                                assert(mask_bit(mask, d) == mask_bit(old_mask, d));
                            }
                        }
                    }
                }
                c += 1;
            }
            proof {
                assert(!mask_bit(mask, 10) && !mask_bit(mask, 11) && !mask_bit(mask, 12) && !mask_bit(mask, 13)
                    && !mask_bit(mask, 14) && !mask_bit(mask, 15));
                lemma_low_bits_bound(mask);
            }
            rows[r] = mask;
            r += 1;
        }
        let b = BitBoard { rows };
        assert forall|i: int| 0 <= i < BOARD_TOTAL_HEIGHT implies #[trigger] b.grid()[i] =~= board_grid(board@)[i] by {
            assert forall|c: int| 0 <= c < BOARD_WIDTH implies b.grid()[i][c] == board_grid(board@)[i][c] by {
                assert(mask_bit(rows@[i], c) == view_occupied(board@, i, c));
            }
        }
        assert(b.grid() =~= board_grid(board@));
        b
    }

    pub fn is_row_full(&self, row: usize) -> (r: bool)
        requires
            row < BOARD_TOTAL_HEIGHT,
        ensures
            r == bits_full(self.grid()[row as int]),
    {
        proof {
            use_type_invariant(self);
            lemma_full_mask(self.rows@[row as int]);
        }
        self.rows[row] == FULL_ROW_MASK
    }

    pub fn is_row_empty(&self, row: usize) -> (r: bool)
        requires
            row < BOARD_TOTAL_HEIGHT,
        ensures
            r == !row_nonempty(self.grid(), row as int),
    {
        proof {
            use_type_invariant(self);
            let m = self.rows@[row as int];
            lemma_empty_mask(m);
            let g = self.grid();
            assert(g[row as int] == mask_bits(m));
            if m != 0 {
                let c = choose|c: int| 0 <= c < BOARD_WIDTH && #[trigger] mask_bit(m, c);
                assert(g[row as int][c]);
            } else {
                assert forall|c: int| 0 <= c < BOARD_WIDTH implies !#[trigger] g[row as int][c] by {
                    assert(!mask_bit(m, c));
                }
            }
        }
        self.rows[row] == 0
    }

    /// Same semantics as `Board::is_occupied`: out-of-bounds columns and the
    /// floor read as occupied (walls), rows above the top read as open.
    pub fn is_occupied(&self, row: i32, col: i32) -> (r: bool)
        ensures
            r == grid_occ(self.grid(), row as int, col as int),
    {
        if row < 0 {
            return false;
        }
        if row as usize >= BOARD_TOTAL_HEIGHT || col < 0 || col as usize >= BOARD_WIDTH {
            return true;
        }
        bit_at(self.rows[row as usize], col as usize)
    }

    /// Fills `(row, col)`; out-of-bounds cells are ignored.
    pub fn set(&mut self, row: i32, col: i32)
        ensures
            final(self).grid() == grid_set(old(self).grid(), row as int, col as int),
    {
        proof {
            use_type_invariant(&*self);
        }
        if row >= 0 && (row as usize) < BOARD_TOTAL_HEIGHT && col >= 0 && (col as usize) < BOARD_WIDTH {
            let old_mask = self.rows[row as usize];
            let new_mask = old_mask | (1u16 << (col as u16));
            proof {
                assert forall|d: int| 0 <= d < 16 implies #[trigger] mask_bit(new_mask, d) == (d == col
                    || mask_bit(old_mask, d)) by {
                    lemma_bit_or(old_mask, col as u16, d as u16);
                }
                assert forall|d: int| 10 <= d < 16 implies !#[trigger] mask_bit(old_mask, d) by {
                    let dd = d as u16;
                    assert(old_mask < 1024 && 10 <= dd < 16 ==> (old_mask >> dd) & 1u16 == 0u16) by (bit_vector);
                }
                assert(!mask_bit(new_mask, 10) && !mask_bit(new_mask, 11) && !mask_bit(new_mask, 12)
                    && !mask_bit(new_mask, 13) && !mask_bit(new_mask, 14) && !mask_bit(new_mask, 15));
                lemma_low_bits_bound(new_mask);
            }
            self.rows[row as usize] = new_mask;
            proof {
                let g0 = old(self).grid();
                assert(mask_bits(new_mask) =~= g0[row as int].update(col as int, true));
                assert(self.grid() =~= grid_set(g0, row as int, col as int));
            }
        }
    }

    /// Clears every full row, collapsing the rows above down to fill the
    /// gap. Returns the number of rows cleared. Same semantics as
    /// `Board::clear_full_rows`.
    pub fn clear_full_rows(&mut self) -> (cleared: u32)
        ensures
            final(self).grid() == grid_cleared(old(self).grid()),
            cleared == grid_full_count(old(self).grid()),
    {
        proof {
            use_type_invariant(&*self);
        }
        let ghost orig = self.rows@;
        let ghost full = full_mask_pred();
        let mut write: i32 = BOARD_TOTAL_HEIGHT as i32 - 1;
        let mut read: i32 = BOARD_TOTAL_HEIGHT as i32 - 1;
        let mut cleared: u32 = 0;
        while read >= 0
            invariant
                -1 <= read <= write < BOARD_TOTAL_HEIGHT,
                orig.len() == BOARD_TOTAL_HEIGHT,
                forall|i: int| 0 <= i < BOARD_TOTAL_HEIGHT ==> #[trigger] orig[i] < 1024,
                forall|i: int| 0 <= i < BOARD_TOTAL_HEIGHT ==> #[trigger] self.rows@[i] < 1024,
                cleared == write - read,
                full == full_mask_pred(),
                forall|r: int| 0 <= r <= read ==> #[trigger] self.rows@[r] == orig[r],
                self.rows@.subrange(write + 1, BOARD_TOTAL_HEIGHT as int) == kept_rows(
                    orig.subrange(read + 1, BOARD_TOTAL_HEIGHT as int),
                    full,
                ),
            decreases read + 1,
        {
            let ghost before = self.rows@;
            let ghost tail = orig.subrange(read + 1, BOARD_TOTAL_HEIGHT as int);
            let ghost seg = orig.subrange(read as int, BOARD_TOTAL_HEIGHT as int);
            assert(seg.drop_first() =~= tail);
            assert(seg[0] == orig[read as int]);
            let v = self.rows[read as usize];
            if v == FULL_ROW_MASK {
                cleared += 1;
                read -= 1;
            } else {
                self.rows[write as usize] = v;
                assert(self.rows@.subrange(write as int, BOARD_TOTAL_HEIGHT as int) =~= seq![
                    orig[read as int],
                ] + before.subrange(write + 1, BOARD_TOTAL_HEIGHT as int));
                write -= 1;
                read -= 1;
            }
        }
        let ghost kept = kept_rows(orig, full);
        assert(orig.subrange(0, BOARD_TOTAL_HEIGHT as int) =~= orig);
        proof {
            lemma_kept_rows_len(orig, full);
        }
        let ghost w0 = write;
        while write >= 0
            invariant
                -1 <= write <= w0 < BOARD_TOTAL_HEIGHT,
                forall|i: int| 0 <= i < BOARD_TOTAL_HEIGHT ==> #[trigger] self.rows@[i] < 1024,
                self.rows@.subrange(w0 + 1, BOARD_TOTAL_HEIGHT as int) == kept,
                forall|r: int| write < r <= w0 ==> #[trigger] self.rows@[r] == 0u16,
            decreases write + 1,
        {
            self.rows[write as usize] = 0;
            assert(self.rows@.subrange(w0 + 1, BOARD_TOTAL_HEIGHT as int) =~= kept);
            write -= 1;
        }
        assert(kept.len() == BOARD_TOTAL_HEIGHT - (w0 + 1));
        let ghost blanks = Seq::new((BOARD_TOTAL_HEIGHT - kept.len()) as nat, |_i: int| 0u16);
        assert(self.rows@ =~= blanks + kept) by {
            assert forall|r: int| 0 <= r < BOARD_TOTAL_HEIGHT implies self.rows@[r] == (blanks + kept)[r] by {
                if r > w0 {
                    assert(self.rows@[r] == self.rows@.subrange(w0 + 1, BOARD_TOTAL_HEIGHT as int)[r - (w0
                        + 1)]);
                }
            }
        }
        proof {
            let f = |m: u16| mask_bits(m);
            assert forall|i: int| 0 <= i < orig.len() implies full(orig[i]) == full_bits_pred()(
                #[trigger] f(orig[i]),
            ) by {
                lemma_full_mask(orig[i]);
            }
            lemma_kept_rows_map(orig, full, full_bits_pred(), f);
            lemma_zero_mask_bits();
            let g0 = old(self).grid();
            assert(g0 == orig.map_values(f));
            let kept_g = kept_rows(g0, full_bits_pred());
            assert(kept_g == kept.map_values(f));
            assert(self.grid() =~= Seq::new((BOARD_TOTAL_HEIGHT - kept_g.len()) as nat, |_i: int| blank_bits())
                + kept_g);
        }
        cleared
    }

    /// Height of column `col`: `BOARD_TOTAL_HEIGHT - (row of its topmost
    /// filled cell)`, or 0 for an empty column.
    pub fn column_height(&self, col: usize) -> (h: u32)
        requires
            col < BOARD_WIDTH,
        ensures
            h == grid_column_height(self.grid(), col as int),
    {
        let mut r: usize = 0;
        while r < BOARD_TOTAL_HEIGHT
            invariant
                col < BOARD_WIDTH,
                r <= BOARD_TOTAL_HEIGHT,
                grid_first_filled(self.grid(), col as int, r as int) == grid_col_top(self.grid(), col as int),
            decreases BOARD_TOTAL_HEIGHT - r,
        {
            if bit_at(self.rows[r], col) {
                return (BOARD_TOTAL_HEIGHT - r) as u32;
            }
            r += 1;
        }
        0
    }

    /// Fills the four cells of `piece`.
    pub fn place(&mut self, piece: &ActivePiece)
        requires
            piece.offsets_fit(),
        ensures
            final(self).grid() == grid_placed(old(self).grid(), *piece),
    {
        let cells = piece.occupied_cells();
        let (r0, c0) = cells[0];
        self.set(r0, c0);
        let (r1, c1) = cells[1];
        self.set(r1, c1);
        let (r2, c2) = cells[2];
        self.set(r2, c2);
        let (r3, c3) = cells[3];
        self.set(r3, c3);
    }

    /// Row index of the topmost non-empty row, or `BOARD_TOTAL_HEIGHT` if
    /// the board is entirely empty.
    pub fn topmost_filled_row(&self) -> (r: usize)
        ensures
            r == grid_top_row(self.grid()),
            r <= BOARD_TOTAL_HEIGHT,
    {
        let mut r: usize = 0;
        while r < BOARD_TOTAL_HEIGHT
            invariant
                r <= BOARD_TOTAL_HEIGHT,
                grid_top_from(self.grid(), r as int) == grid_top_row(self.grid()),
            decreases BOARD_TOTAL_HEIGHT - r,
        {
            if !self.is_row_empty(r) {
                return r;
            }
            r += 1;
        }
        BOARD_TOTAL_HEIGHT
    }

    /// Empty cells with at least one filled cell above them in the same
    /// column.
    pub fn count_holes(&self) -> (holes: u32)
        ensures
            holes == grid_holes(self.grid()),
    {
        let ghost g = self.grid();
        let mut holes: u32 = 0;
        let mut col: usize = 0;
        while col < BOARD_WIDTH
            invariant
                col <= BOARD_WIDTH,
                g == self.grid(),
                holes + holes_from_col(g, col as int) == grid_holes(g),
                holes <= col * 40,
            decreases BOARD_WIDTH - col,
        {
            let mut found_filled = false;
            let mut r: usize = 0;
            let ghost start = holes;
            while r < BOARD_TOTAL_HEIGHT
                invariant
                    col < BOARD_WIDTH,
                    r <= BOARD_TOTAL_HEIGHT,
                    g == self.grid(),
                    holes - start + col_holes(g, col as int, r as int, found_filled) == col_holes(g, col as int, 0, false),
                    start <= holes <= start + r,
                    start <= col * 40,
                decreases BOARD_TOTAL_HEIGHT - r,
            {
                if bit_at(self.rows[r], col) {
                    found_filled = true;
                } else if found_filled {
                    holes += 1;
                }
                r += 1;
            }
            col += 1;
        }
        holes
    }
}

impl Default for BitBoard {
    fn default() -> (b: Self)
        ensures
            b.grid() == empty_grid(),
    {
        Self::empty()
    }
}

pub fn piece_fits(board: &BitBoard, piece: &ActivePiece) -> (r: bool)
    requires
        piece.offsets_fit(),
    ensures
        r == grid_fits(board.grid(), *piece),
{
    let cells = piece.occupied_cells();
    let mut i: usize = 0;
    while i < 4
        invariant
            i <= 4,
            forall|j: int|
                0 <= j < 4 ==> (cells@[j].0 as int, cells@[j].1 as int) == #[trigger] piece.cell(j),
            forall|j: int| 0 <= j < i ==> !grid_occ(board.grid(), #[trigger] piece.cell(j).0, piece.cell(j).1),
        decreases 4 - i,
    {
        let (row, col) = cells[i];
        if board.is_occupied(row, col) {
            assert(grid_occ(board.grid(), piece.cell(i as int).0, piece.cell(i as int).1));
            return false;
        }
        i += 1;
    }
    true
}

/// The occupancy of a cleared board is the cleared occupancy of the board,
/// and both count the same full rows: clearing a `BitBoard` built from a
/// board agrees with clearing the board itself.
pub proof fn law_mirror_clear(board: Board)
    ensures
        board_grid(cleared_view(board@)) == grid_cleared(board_grid(board@)),
        full_count(board@) == grid_full_count(board_grid(board@)),
{
    lemma_mirror_clear_view(board@);
}

proof fn lemma_mirror_clear_view(v: Seq<Cell>)
    ensures
        board_grid(cleared_view(v)) == grid_cleared(board_grid(v)),
        full_count(v) == grid_full_count(board_grid(v)),
{
    let rows = view_rows(v);
    let f = |row: Seq<Cell>| cell_bits(row);
    assert forall|i: int| 0 <= i < rows.len() implies full_cells_pred()(rows[i]) == full_bits_pred()(
        #[trigger] f(rows[i]),
    ) by {
        let row = rows[i];
        let bits = cell_bits(row);
        if cells_full(row) {
            assert forall|c: int| 0 <= c < BOARD_WIDTH implies #[trigger] bits[c] by {
                assert(row[c] is Some);
            }
        }
        if bits_full(bits) {
            assert forall|c: int| 0 <= c < BOARD_WIDTH implies (#[trigger] row[c]) is Some by {
                assert(bits[c]);
            }
        }
    }
    lemma_kept_rows_map(rows, full_cells_pred(), full_bits_pred(), f);
    let kept = kept_rows(rows, full_cells_pred());
    assert(kept.map_values(f).len() == kept.len());
    lemma_cleared_rows(v);
    let col = collapse_rows(rows, full_cells_pred(), blank_cells());
    let target = grid_cleared(board_grid(v));
    assert(board_grid(v) == rows.map_values(f));
    assert(cell_bits(blank_cells()) =~= blank_bits());
    assert(col.map_values(f) =~= target) by {
        let nb = (rows.len() - kept.len()) as int;
        assert forall|r: int| 0 <= r < col.len() implies col.map_values(f)[r] == target[r] by {
            if r >= nb {
                assert(col[r] == kept[r - nb]);
                assert(target[r] == kept.map_values(f)[r - nb]);
            }
        }
    }
}

/// The occupancy grid of a board reads column heights the same way the
/// board does.
pub proof fn law_mirror_column_height(board: Board, col: int)
    requires
        0 <= col < BOARD_WIDTH,
    ensures
        grid_column_height(board_grid(board@), col) == board.spec_column_height(col),
{
    lemma_mirror_first_filled(board, col, 0);
}

proof fn lemma_mirror_first_filled(board: Board, col: int, r: int)
    requires
        0 <= col < BOARD_WIDTH,
        r >= 0,
    ensures
        grid_first_filled(board_grid(board@), col, r) == board.first_filled_from(col, r),
    decreases BOARD_TOTAL_HEIGHT - r,
{
    broadcast use lemma_board_view_len;
    if r < BOARD_TOTAL_HEIGHT {
        lemma_mirror_first_filled(board, col, r + 1);
    }
}

/// A row of the occupancy grid is full exactly when that row of the board is.
pub proof fn law_mirror_row_full(board: Board, row: int)
    requires
        0 <= row < BOARD_TOTAL_HEIGHT,
    ensures
        bits_full(board_grid(board@)[row]) == board.spec_row_full(row),
{
    broadcast use lemma_board_view_len;
    let g = board_grid(board@);
    if board.spec_row_full(row) {
        assert forall|c: int| 0 <= c < BOARD_WIDTH implies #[trigger] g[row][c] by {
            assert(board.spec_occupied(row, c));
        }
    } else {
        let c = choose|c: int| 0 <= c < BOARD_WIDTH && !#[trigger] board.spec_occupied(row, c);
        assert(!g[row][c]);
    }
}

/// Empty cells of column `col` from row `r` down with a filled cell above
/// them, read off the board (`seen`: a filled cell was met above row `r`).
pub open spec fn board_col_holes(board: Board, col: int, r: int, seen: bool) -> int
    decreases BOARD_TOTAL_HEIGHT - r,
{
    if r >= BOARD_TOTAL_HEIGHT {
        0
    } else if board.spec_occupied(r, col) {
        board_col_holes(board, col, r + 1, true)
    } else {
        (if seen { 1int } else { 0int }) + board_col_holes(board, col, r + 1, seen)
    }
}

/// Holes of the board's columns `col..10`.
pub open spec fn board_holes_from_col(board: Board, col: int) -> int
    decreases BOARD_WIDTH - col,
{
    if col >= BOARD_WIDTH {
        0
    } else {
        board_col_holes(board, col, 0, false) + board_holes_from_col(board, col + 1)
    }
}

/// First row at or below `r` that is not empty on the board, or the floor.
pub open spec fn board_top_from(board: Board, r: int) -> int
    decreases BOARD_TOTAL_HEIGHT - r,
{
    if r >= BOARD_TOTAL_HEIGHT {
        BOARD_TOTAL_HEIGHT as int
    } else if !board.spec_row_empty(r) {
        r
    } else {
        board_top_from(board, r + 1)
    }
}

proof fn lemma_mirror_col_holes(board: Board, col: int, r: int, seen: bool)
    requires
        0 <= col < BOARD_WIDTH,
        r >= 0,
    ensures
        col_holes(board_grid(board@), col, r, seen) == board_col_holes(board, col, r, seen),
    decreases BOARD_TOTAL_HEIGHT - r,
{
    broadcast use lemma_board_view_len;
    if r < BOARD_TOTAL_HEIGHT {
        lemma_mirror_col_holes(board, col, r + 1, true);
        lemma_mirror_col_holes(board, col, r + 1, seen);
    }
}

proof fn lemma_mirror_holes_from(board: Board, col: int)
    requires
        0 <= col,
    ensures
        holes_from_col(board_grid(board@), col) == board_holes_from_col(board, col),
    decreases BOARD_WIDTH - col,
{
    if col < BOARD_WIDTH {
        lemma_mirror_col_holes(board, col, 0, false);
        lemma_mirror_holes_from(board, col + 1);
    }
}

/// The holes counted on a board's occupancy grid (what
/// `BitBoard::count_holes` returns for `BitBoard::from_board`) are the
/// board's own: per column, the empty cells below its first filled cell.
pub proof fn law_mirror_holes(board: Board)
    ensures
        grid_holes(board_grid(board@)) == board_holes_from_col(board, 0),
{
    lemma_mirror_holes_from(board, 0);
}

proof fn lemma_mirror_top_from(board: Board, r: int)
    requires
        r >= 0,
    ensures
        grid_top_from(board_grid(board@), r) == board_top_from(board, r),
    decreases BOARD_TOTAL_HEIGHT - r,
{
    broadcast use lemma_board_view_len;
    if r < BOARD_TOTAL_HEIGHT {
        let g = board_grid(board@);
        if row_nonempty(g, r) {
            let c = choose|c: int| 0 <= c < BOARD_WIDTH && #[trigger] g[r][c];
            assert(board.spec_occupied(r, c));
        } else {
            assert forall|c: int| 0 <= c < BOARD_WIDTH implies !#[trigger] board.spec_occupied(r, c) by {
                assert(!g[r][c]);
            }
        }
        lemma_mirror_top_from(board, r + 1);
    }
}

/// The topmost non-empty row of a board's occupancy grid (what
/// `BitBoard::topmost_filled_row` returns for `BitBoard::from_board`) is the
/// first row the board itself reports as not empty, or the floor.
pub proof fn law_mirror_top_row(board: Board)
    ensures
        grid_top_row(board_grid(board@)) == board_top_from(board, 0),
{
    lemma_mirror_top_from(board, 0);
}

proof fn lemma_mirror_set(v: Seq<Cell>, r: int, c: int, k: crate::piece::PieceKind)
    requires
        v.len() == BOARD_WIDTH * BOARD_TOTAL_HEIGHT,
    ensures
        board_grid(view_set(v, r, c, Some(k))) == grid_set(board_grid(v), r, c),
        view_set(v, r, c, Some(k)).len() == v.len(),
{
    let a = board_grid(view_set(v, r, c, Some(k)));
    let b = grid_set(board_grid(v), r, c);
    assert forall|rr: int| 0 <= rr < BOARD_TOTAL_HEIGHT implies a[rr] == b[rr] by {
        assert forall|cc: int| 0 <= cc < BOARD_WIDTH implies a[rr][cc] == b[rr][cc] by {
            if 0 <= r < BOARD_TOTAL_HEIGHT && 0 <= c < BOARD_WIDTH {
                assert(rr * BOARD_WIDTH + cc == r * BOARD_WIDTH + c ==> rr == r && cc == c) by (nonlinear_arith)
                    requires
                        0 <= rr < BOARD_TOTAL_HEIGHT,
                        0 <= cc < BOARD_WIDTH,
                        0 <= r < BOARD_TOTAL_HEIGHT,
                        0 <= c < BOARD_WIDTH,
                ;
            }
        }
        assert(a[rr] =~= b[rr]);
    }
    assert(a =~= b);
}

/// Locking a piece on a board's occupancy grid (placing it, then clearing
/// full rows, as `simulate_lock` does on `BitBoard::from_board`) gives the
/// occupancy of the board with the piece locked, and clears as many rows.
pub proof fn law_mirror_lock(board: Board, p: ActivePiece)
    ensures
        grid_cleared(grid_placed(board_grid(board@), p)) == board_grid(locked_view(board@, p)),
        grid_full_count(grid_placed(board_grid(board@), p)) == lock_clears(board@, p),
{
    broadcast use lemma_board_view_len;
    let v0 = board@;
    let k = p.kind;
    lemma_mirror_set(v0, p.cell(0).0, p.cell(0).1, k);
    let v1 = view_set(v0, p.cell(0).0, p.cell(0).1, Some(k));
    lemma_mirror_set(v1, p.cell(1).0, p.cell(1).1, k);
    let v2 = view_set(v1, p.cell(1).0, p.cell(1).1, Some(k));
    lemma_mirror_set(v2, p.cell(2).0, p.cell(2).1, k);
    let v3 = view_set(v2, p.cell(2).0, p.cell(2).1, Some(k));
    lemma_mirror_set(v3, p.cell(3).0, p.cell(3).1, k);
    assert(placed_view(v0, p) == view_set(v3, p.cell(3).0, p.cell(3).1, Some(k)));
    lemma_mirror_clear_view(placed_view(v0, p));
}

} // verus!
