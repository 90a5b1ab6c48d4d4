use cross_tetris::greedy::greedy_features;
use cross_tetris::bitboard::BitBoard;
use cross_tetris::piece::{ActivePiece, PieceKind, Rotation};
use cross_tetris::scoring::{gravity_us_per_row, line_clear_score};
use cross_tetris::{Board, CrossGame, Arm, Rng, BOARD_VISIBLE_HEIGHT, BOARD_WIDTH};

#[test]
fn line_clear_scores_follow_the_guideline_table() {
    assert_eq!(line_clear_score(0, 5), 0);
    assert_eq!(line_clear_score(1, 1), 100);
    assert_eq!(line_clear_score(2, 1), 300);
    assert_eq!(line_clear_score(3, 2), 1000);
    assert_eq!(line_clear_score(4, 3), 2400);
    assert_eq!(line_clear_score(6, 1), 800);
    assert_eq!(line_clear_score(1, 0), 100);
    assert_eq!(line_clear_score(4, u32::MAX), 800 * u32::MAX as u64);
}

#[test]
fn gravity_speeds_up_by_level_and_clamps() {
    assert_eq!(gravity_us_per_row(0), 1_000_000);
    assert_eq!(gravity_us_per_row(1), 1_000_000);
    assert_eq!(gravity_us_per_row(2), 793_000);
    assert_eq!(gravity_us_per_row(10), 64_000);
    assert_eq!(gravity_us_per_row(15), 7_000);
    assert_eq!(gravity_us_per_row(500), 7_000);
}

#[test]
fn piece_kind_codes_boxes_and_spawn_columns() {
    let codes: Vec<u8> = PieceKind::ALL.iter().map(|k| k.as_u8()).collect();
    assert_eq!(codes, vec![1, 2, 3, 4, 5, 6, 7]);
    assert_eq!(PieceKind::I.box_size(), 4);
    assert_eq!(PieceKind::O.box_size(), 2);
    assert_eq!(PieceKind::T.box_size(), 3);
    assert_eq!(PieceKind::O.spawn_col(), 4);
    assert_eq!(PieceKind::S.spawn_col(), 3);
}

#[test]
fn board_edges_read_as_walls_and_open_sky() {
    let mut board = Board::new();
    assert_eq!(board.get(-1, 4), None);
    assert_eq!(board.get(40, 4), Some(PieceKind::I));
    assert_eq!(board.get(5, -1), Some(PieceKind::I));
    assert_eq!(board.get(5, 10), Some(PieceKind::I));
    assert!(!Board::in_bounds(-1, 0));
    assert!(Board::in_bounds(39, 9));
    board.set(40, 0, Some(PieceKind::T));
    board.set(-3, 0, Some(PieceKind::T));
    assert_eq!(board, Board::new());
    assert!(board.is_row_empty(39));
    assert_eq!(Board::default(), Board::new());
}

#[test]
fn visible_buffer_holds_the_lower_twenty_rows_as_codes() {
    let mut board = Board::new();
    board.set(20, 0, Some(PieceKind::Z));
    board.set(39, 9, Some(PieceKind::T));
    board.set(19, 5, Some(PieceKind::I));
    let buf = board.visible_buffer();
    assert_eq!(buf.len(), BOARD_WIDTH * BOARD_VISIBLE_HEIGHT);
    assert_eq!(buf[0], 6);
    assert_eq!(buf[19 * BOARD_WIDTH + 9], 7);
    assert_eq!(buf.iter().filter(|&&b| b != 0).count(), 2);
}

#[test]
fn greedy_features_on_a_hand_built_board() {
    let mut bb = BitBoard::empty();
    // Column 0 height 3 with a hole at row 38; column 1 height 1; column 5 height 2.
    bb.set(37, 0);
    bb.set(39, 0);
    bb.set(39, 1);
    bb.set(38, 5);
    bb.set(39, 5);
    let f = greedy_features(&bb, 1);
    assert_eq!(f.heights, [3, 1, 0, 0, 0, 2, 0, 0, 0, 0]);
    assert_eq!(f.agg_height, 6);
    assert_eq!(f.holes, 1);
    assert_eq!(f.bumpiness, 2 + 1 + 0 + 0 + 2 + 2 + 0 + 0 + 0);
    assert_eq!(f.lines_cleared, 1);
}

#[test]
fn piece_cells_are_the_shape_moved_to_the_piece() {
    let p = ActivePiece { kind: PieceKind::T, rotation: Rotation::R0, row: 10, col: 2 };
    let cells = p.cells();
    let abs = p.occupied_cells();
    for i in 0..4 {
        assert_eq!(abs[i], (cells[i].0 + 10, cells[i].1 + 2));
    }
    let q = p.with_rotation(Rotation::L, -1, 7);
    assert_eq!(q, ActivePiece { kind: PieceKind::T, rotation: Rotation::L, row: -1, col: 7 });
    assert!(q.coords_in_range());
    assert!(!ActivePiece { row: i32::MAX, ..q }.coords_in_range());
}

#[test]
fn rng_draws_stay_below_the_bound_and_repeat_by_seed() {
    let mut a = Rng::new(0);
    let mut b = Rng::new(0);
    for n in 1..50u32 {
        let x = a.next_below(n);
        assert!(x < n);
        assert_eq!(x, b.next_below(n));
    }
    let mut c = Rng::new(1);
    let mut d = Rng::new(2);
    assert_ne!(c.next_u64(), d.next_u64());
}

#[test]
fn cross_totals_saturate_and_sum() {
    let mut cross = CrossGame::new(3);
    cross.wells[Arm::North.index()].lines_cleared_total = 4;
    cross.wells[Arm::West.index()].lines_cleared_total = 6;
    assert_eq!(cross.total_lines_cleared(), 10);
    cross.wells[Arm::East.index()].score = u64::MAX;
    cross.wells[Arm::South.index()].score = 5;
    assert_eq!(cross.total_score(), u64::MAX);
}
