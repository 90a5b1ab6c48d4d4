use cross_tetris::bitboard::BitBoard;
use cross_tetris::piece::{ActivePiece, PieceKind, Rotation};
use cross_tetris::placement::enumerate_placements;
use cross_tetris::rotation::{piece_fits, shape};
use cross_tetris::{Board, Rng, BOARD_WIDTH};

/// Independent "drop straight down one row at a time" enumeration, so the
/// skirt-based landing rows are checked against something other than
/// themselves.
fn naive_enumerate_placements(board: &Board, kind: PieceKind) -> Vec<ActivePiece> {
    const ROTATIONS: [Rotation; 4] = [Rotation::R0, Rotation::R, Rotation::R2, Rotation::L];
    let mut out = Vec::new();
    for &rotation in &ROTATIONS {
        let cells = shape(kind, rotation);
        let min_col = cells.iter().map(|&(_, c)| c).min().unwrap();
        let max_col = cells.iter().map(|&(_, c)| c).max().unwrap();
        let lo = -min_col;
        let hi = BOARD_WIDTH as i32 - 1 - max_col;
        if lo > hi {
            continue;
        }
        for col in lo..=hi {
            let mut piece = ActivePiece { kind, rotation, row: -40, col };
            loop {
                let next = ActivePiece { row: piece.row + 1, ..piece };
                if piece_fits(board, &next) {
                    piece = next;
                } else {
                    break;
                }
            }
            if piece_fits(board, &piece) {
                out.push(piece);
            }
        }
        if kind == PieceKind::O {
            break;
        }
    }
    out
}

fn placement_key(p: &ActivePiece) -> (i32, i32, u8) {
    let r = match p.rotation {
        Rotation::R0 => 0,
        Rotation::R => 1,
        Rotation::R2 => 2,
        Rotation::L => 3,
    };
    (p.col, p.row, r)
}

fn placement_set(pieces: &[ActivePiece]) -> Vec<(i32, i32, u8)> {
    let mut v: Vec<_> = pieces.iter().map(placement_key).collect();
    v.sort_unstable();
    v
}

/// Empty, flat, staggered, a well, an overhang, a column filled to the top,
/// and stacks built by dropping random pieces.
fn test_boards() -> Vec<Board> {
    let mut boards = vec![Board::new()];

    let mut flat = Board::new();
    for col in 0..BOARD_WIDTH as i32 {
        for row in 35..40 {
            flat.set(row, col, Some(PieceKind::J));
        }
    }
    boards.push(flat);

    let mut staggered = Board::new();
    for col in 0..BOARD_WIDTH as i32 {
        let height = 30 + (col % 4) * 2;
        for row in height..40 {
            staggered.set(row, col, Some(PieceKind::L));
        }
    }
    boards.push(staggered);

    let mut well = Board::new();
    for col in 0..BOARD_WIDTH as i32 {
        if col == 5 {
            continue;
        }
        for row in 34..40 {
            well.set(row, col, Some(PieceKind::T));
        }
    }
    boards.push(well);

    let mut overhang = Board::new();
    for col in 0..BOARD_WIDTH as i32 {
        overhang.set(20, col, Some(PieceKind::S));
    }
    for col in 0..3 {
        for row in 35..40 {
            overhang.set(row, col, Some(PieceKind::Z));
        }
    }
    boards.push(overhang);

    let mut full_column = Board::new();
    for row in 0..40 {
        full_column.set(row, 4, Some(PieceKind::O));
    }
    boards.push(full_column);

    let mut rng = Rng::new(777);
    for _ in 0..10 {
        let mut b = Board::new();
        for _ in 0..15 {
            let kind = PieceKind::ALL[rng.next_below(7) as usize];
            let candidates = naive_enumerate_placements(&b, kind);
            if candidates.is_empty() {
                break;
            }
            let pick = &candidates[rng.next_below(candidates.len() as u32) as usize];
            for (row, col) in pick.occupied_cells() {
                b.set(row, col, Some(kind));
            }
            b.clear_full_rows();
        }
        boards.push(b);
    }

    boards
}

#[test]
fn skirt_landing_row_matches_naive_drop_loop_on_every_kind_and_board() {
    for board in test_boards() {
        let bb = BitBoard::from_board(&board);
        for &kind in &PieceKind::ALL {
            let fast = placement_set(&enumerate_placements(&bb, kind));
            let naive = placement_set(&naive_enumerate_placements(&board, kind));
            assert_eq!(fast, naive, "mismatch for {kind:?} on board:\n{board:?}");
        }
    }
}
