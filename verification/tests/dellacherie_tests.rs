use cross_tetris::bitboard::BitBoard;
use cross_tetris::dellacherie::{column_transitions, eroded_piece_cells, landing_height_total, row_transitions, well_sums};
use cross_tetris::piece::{ActivePiece, PieceKind, Rotation};
use cross_tetris::BOARD_WIDTH;

/// Single filled cell at the bottom-left corner: two row transitions (into
/// the first empty column, and into the right wall), ten column transitions
/// (the filled column enters fill once; the nine empty ones meet the floor),
/// no wells and no holes.
#[test]
fn single_corner_cell_hand_computed_features() {
    let mut board = BitBoard::empty();
    board.set(39, 0);

    assert_eq!(row_transitions(&board), 2);
    assert_eq!(column_transitions(&board), 10);
    assert_eq!(well_sums(&board), 0);
    assert_eq!(board.count_holes(), 0);
}

/// A single-column well of depth 3 sums to 1 + 2 + 3 = 6.
#[test]
fn well_sums_hand_computed_for_depth_three_well() {
    let mut board = BitBoard::empty();
    for row in 37..40 {
        board.set(row, 0);
        board.set(row, 2);
    }
    assert_eq!(well_sums(&board), 6);
}

/// Two separate depth-1 wells sum to 1 + 1 = 2.
#[test]
fn well_sums_hand_computed_for_two_separate_depth_one_wells() {
    let mut board = BitBoard::empty();
    for col in [0, 2, 3, 5] {
        board.set(39, col);
    }
    assert_eq!(well_sums(&board), 2);
}

/// An O completing row 39 with two of its cells clears one row: 2 * 1 = 2.
#[test]
fn eroded_piece_cells_hand_computed() {
    let mut board = BitBoard::empty();
    for col in 2..BOARD_WIDTH as i32 {
        board.set(39, col);
    }
    let piece = ActivePiece { kind: PieceKind::O, rotation: Rotation::R0, row: 38, col: 0 };
    assert_eq!(eroded_piece_cells(&board, &piece), 2);
}

/// An O resting on the floor covers rows 38, 38, 39, 39: heights 2 + 2 + 1 + 1.
#[test]
fn landing_height_total_hand_computed_for_floor_row() {
    let piece = ActivePiece { kind: PieceKind::O, rotation: Rotation::R0, row: 38, col: 0 };
    assert_eq!(landing_height_total(&piece), 6);
}
