use cross_tetris::bitboard::BitBoard;
use cross_tetris::{Board, PieceKind, Rng, BOARD_TOTAL_HEIGHT, BOARD_WIDTH};

/// Hand-built edge cases and pseudo-random stacks on which the bitboard must
/// agree with the engine board.
fn engine_boards() -> Vec<Board> {
    let mut boards = vec![Board::new()];

    let mut flat = Board::new();
    for col in 0..BOARD_WIDTH as i32 {
        for row in 35..40 {
            flat.set(row, col, Some(PieceKind::J));
        }
    }
    boards.push(flat);

    let mut one_full_row = Board::new();
    for col in 0..BOARD_WIDTH as i32 {
        one_full_row.set(39, col, Some(PieceKind::L));
    }
    for col in 0..BOARD_WIDTH as i32 {
        if col != 3 {
            one_full_row.set(38, col, Some(PieceKind::T));
        }
    }
    boards.push(one_full_row);

    let mut multiple_full_rows = Board::new();
    for row in [37, 38, 39] {
        for col in 0..BOARD_WIDTH as i32 {
            multiple_full_rows.set(row, col, Some(PieceKind::S));
        }
    }
    multiple_full_rows.set(36, 5, Some(PieceKind::Z));
    boards.push(multiple_full_rows);

    // Pseudo-random boards with scattered cells (not necessarily valid
    // Tetris stacks; the mirror must still be faithful).
    let mut rng = Rng::new(4242);
    for _ in 0..20 {
        let mut b = Board::new();
        for _ in 0..80 {
            let row = rng.next_below(BOARD_TOTAL_HEIGHT as u32) as i32;
            let col = rng.next_below(BOARD_WIDTH as u32) as i32;
            b.set(row, col, Some(PieceKind::O));
        }
        boards.push(b);
    }

    boards
}

#[test]
fn column_height_matches_engine_board() {
    for board in engine_boards() {
        let bb = BitBoard::from_board(&board);
        for col in 0..BOARD_WIDTH {
            assert_eq!(bb.column_height(col), board.column_height(col), "column {col} mismatch\n{board:?}");
        }
    }
}

#[test]
fn is_row_full_matches_engine_board() {
    for board in engine_boards() {
        let bb = BitBoard::from_board(&board);
        for row in 0..BOARD_TOTAL_HEIGHT {
            assert_eq!(bb.is_row_full(row), board.is_row_full(row), "row {row} mismatch\n{board:?}");
        }
    }
}

#[test]
fn count_holes_matches_independent_engine_board_scan() {
    for board in engine_boards() {
        let bb = BitBoard::from_board(&board);
        let mut expected = 0u32;
        for col in 0..BOARD_WIDTH as i32 {
            let mut found_filled = false;
            for row in 0..BOARD_TOTAL_HEIGHT as i32 {
                if board.is_occupied(row, col) {
                    found_filled = true;
                } else if found_filled {
                    expected += 1;
                }
            }
        }
        assert_eq!(bb.count_holes(), expected, "hole count mismatch\n{board:?}");
    }
}

#[test]
fn topmost_filled_row_matches_independent_scan() {
    for board in engine_boards() {
        let bb = BitBoard::from_board(&board);
        let expected = (0..BOARD_TOTAL_HEIGHT).find(|&r| !board.is_row_empty(r)).unwrap_or(BOARD_TOTAL_HEIGHT);
        assert_eq!(bb.topmost_filled_row(), expected, "topmost-filled-row mismatch\n{board:?}");
    }
}

#[test]
fn clear_full_rows_matches_engine_board() {
    for mut board in engine_boards() {
        let mut bb = BitBoard::from_board(&board);
        let engine_cleared = board.clear_full_rows();
        let bitboard_cleared = bb.clear_full_rows();
        assert_eq!(bitboard_cleared, engine_cleared, "cleared-row count mismatch\n{board:?}");
        for col in 0..BOARD_WIDTH {
            assert_eq!(bb.column_height(col), board.column_height(col), "post-clear column {col} mismatch");
        }
        for row in 0..BOARD_TOTAL_HEIGHT {
            for col in 0..BOARD_WIDTH as i32 {
                assert_eq!(
                    bb.is_occupied(row as i32, col),
                    board.is_occupied(row as i32, col),
                    "post-clear cell ({row},{col}) mismatch"
                );
            }
        }
    }
}

#[test]
fn is_occupied_matches_engine_board_including_out_of_bounds() {
    for board in engine_boards() {
        let bb = BitBoard::from_board(&board);
        for row in -5..(BOARD_TOTAL_HEIGHT as i32 + 5) {
            for col in -3..(BOARD_WIDTH as i32 + 3) {
                assert_eq!(bb.is_occupied(row, col), board.is_occupied(row, col), "cell ({row},{col}) mismatch");
            }
        }
    }
}
