use cross_tetris::bitboard::BitBoard;
use cross_tetris::cross::random_selectable_well;
use cross_tetris::greedy::{play_placement, Placement};
use cross_tetris::placement::simulate_lock;
use cross_tetris::rotation::shape;
use cross_tetris::session::{end_after_move, end_before_move, EndReason};
use cross_tetris::Rng;
use cross_tetris::cross::MAX_WELL_IMBALANCE;
use cross_tetris::greedy::{cross_outcomes, play_cross_placement, CrossPlacement};
use cross_tetris::lookahead::{snapshot, with_placement};
use cross_tetris::piece::{ActivePiece, PieceKind, Rotation};
use cross_tetris::rotation::try_rotate;
use cross_tetris::{Action, Arm, Board, CrossGame, GameState, SevenBag, BOARD_TOTAL_HEIGHT, BOARD_WIDTH};
use std::collections::HashSet;

const BOTTOM: i32 = (BOARD_TOTAL_HEIGHT - 1) as i32;

fn play_first_candidate(cross: &mut CrossGame) -> bool {
    let Some(candidates) = cross_outcomes(cross) else { return false };
    let Some(first) = candidates.first() else { return false };
    let p = first.outcome.piece;
    play_cross_placement(cross, CrossPlacement { arm: first.arm, rotation: p.rotation, column: p.col, row: p.row });
    true
}

#[test]
fn rotation_states_cycle_in_four_turns() {
    for r in [Rotation::R0, Rotation::R, Rotation::R2, Rotation::L] {
        assert_eq!(r.cw().cw().cw().cw(), r);
        assert_eq!(r.cw().ccw(), r);
        assert_eq!(r.ccw().cw(), r);
    }
    assert_eq!(Rotation::R0.cw(), Rotation::R);
    assert_eq!(Rotation::R0.ccw(), Rotation::L);
}

#[test]
fn four_turns_on_an_empty_board_give_back_the_same_piece() {
    let board = Board::new();
    for kind in PieceKind::ALL {
        let start = ActivePiece::spawn(kind, 18);
        let mut cw = start;
        let mut ccw = start;
        for _ in 0..4 {
            cw = try_rotate(&board, &cw, true).unwrap();
            ccw = try_rotate(&board, &ccw, false).unwrap();
        }
        assert_eq!(cw, start);
        assert_eq!(ccw, start);
    }
}

#[test]
fn a_fresh_bag_deals_whole_bags_for_many_rounds() {
    let mut bag = SevenBag::new(2024);
    for _ in 0..10 {
        let seven: HashSet<PieceKind> = (0..7).map(|_| bag.next()).collect();
        assert_eq!(seven.len(), 7);
    }
}

#[test]
fn a_long_preview_matches_the_draws_across_bag_boundaries() {
    let mut bag = SevenBag::new(5);
    bag.next();
    bag.next();
    let preview = bag.preview(20);
    assert_eq!(preview.len(), 20);
    let drawn: Vec<PieceKind> = (0..20).map(|_| bag.next()).collect();
    assert_eq!(preview, drawn);
}

#[test]
fn clearing_twice_clears_nothing_more() {
    let mut board = Board::new();
    for col in 0..BOARD_WIDTH as i32 {
        board.set(39, col, Some(PieceKind::L));
        board.set(37, col, Some(PieceKind::T));
        if col != 2 {
            board.set(38, col, Some(PieceKind::S));
        }
    }
    board.set(36, 7, Some(PieceKind::Z));
    assert_eq!(board.clear_full_rows(), 2);
    let once = board;
    assert_eq!(board.clear_full_rows(), 0);
    assert_eq!(board, once);
    for row in 0..BOARD_TOTAL_HEIGHT {
        assert!(!board.is_row_full(row));
    }
    // The partial row and the lone cell above it fell by the two cleared rows.
    assert_eq!(board.get(39, 0), Some(PieceKind::S));
    assert_eq!(board.get(39, 2), None);
    assert_eq!(board.get(38, 7), Some(PieceKind::Z));
    assert_eq!(board.column_height(7), 2);
}

#[test]
fn a_bitboard_clears_like_its_board() {
    let mut board = Board::new();
    for col in 0..BOARD_WIDTH as i32 {
        board.set(39, col, Some(PieceKind::I));
    }
    board.set(38, 1, Some(PieceKind::J));
    let mut bb = BitBoard::from_board(&board);
    assert_eq!(bb.clear_full_rows(), board.clear_full_rows());
    assert_eq!(bb, BitBoard::from_board(&board));
    assert!(bb.is_occupied(39, 1));
    assert!(!bb.is_occupied(38, 1));
}

#[test]
fn nothing_changes_once_the_game_is_over() {
    let mut state = GameState::new(3);
    state.game_over = true;
    let before = state.clone();
    for action in [Action::MoveLeft, Action::RotateCw, Action::HardDrop, Action::Hold, Action::Tick(10_000_000)] {
        state.apply(action);
    }
    assert_eq!(state, before);
}

#[test]
fn the_score_never_goes_down_over_a_game() {
    let mut state = GameState::new(77);
    let log = [Action::MoveLeft, Action::SoftDropStart, Action::Tick(300_000), Action::SoftDropEnd, Action::RotateCw, Action::HardDrop];
    let mut last = state.score;
    for _ in 0..30 {
        for action in log {
            state.apply(action);
            assert!(state.score >= last);
            last = state.score;
        }
    }
}

#[test]
fn a_hard_drop_locks_the_piece_where_it_rests() {
    let mut state = GameState::new(8);
    state.board.set(BOTTOM, 4, Some(PieceKind::J));
    state.active = Some(ActivePiece { kind: PieceKind::O, rotation: Rotation::R0, row: 0, col: 4 });
    state.apply(Action::HardDrop);
    // The O rests on the cell at (BOTTOM, 4): its cells fill rows BOTTOM-2 and BOTTOM-1.
    for (row, col) in [(BOTTOM - 2, 4), (BOTTOM - 2, 5), (BOTTOM - 1, 4), (BOTTOM - 1, 5)] {
        assert_eq!(state.board.get(row, col), Some(PieceKind::O));
    }
    assert_eq!(state.board.get(BOTTOM, 5), None);
    assert_eq!(state.score, 2 * (BOTTOM as u64 - 2));
    assert!(!state.hold_used_this_turn);
}

#[test]
fn a_hard_drop_counts_one_piece_in_the_selected_well_only() {
    let mut cross = CrossGame::new(31);
    assert!(cross.select_well(Arm::West));
    cross.apply(Action::HardDrop);
    assert!(cross.awaiting_well_selection());
    assert_eq!(cross.well(Arm::West).pieces_placed, 1);
    for arm in [Arm::North, Arm::East, Arm::South] {
        assert_eq!(cross.well(arm).pieces_placed, 0);
    }
    assert_eq!(cross.total_pieces_placed(), 1);
}

#[test]
fn a_well_too_far_ahead_is_blocked_and_another_stays_open() {
    let mut cross = CrossGame::new(44);
    cross.wells[Arm::North.index()].pieces_placed = MAX_WELL_IMBALANCE + 1;
    cross.wells[Arm::East.index()].pieces_placed = MAX_WELL_IMBALANCE;
    assert!(!cross.is_well_selectable(Arm::North));
    assert!(cross.is_well_selectable(Arm::East));
    assert!(cross.is_well_selectable(Arm::South));
    assert!(!cross.select_well(Arm::North));
    assert!(cross.awaiting_well_selection());
    assert!(cross.select_well(Arm::South));
}

#[test]
fn wells_stay_balanced_over_a_long_game() {
    let mut cross = CrossGame::new(2718);
    for _ in 0..120 {
        if cross.is_game_over() || !play_first_candidate(&mut cross) {
            break;
        }
        let counts: Vec<u32> = Arm::ALL.iter().map(|&a| cross.well(a).pieces_placed).collect();
        let min = *counts.iter().min().unwrap();
        let max = *counts.iter().max().unwrap();
        assert!(max <= min + MAX_WELL_IMBALANCE + 1, "counts {counts:?}");
    }
    assert!(cross.total_pieces_placed() > 20);
}

#[test]
fn a_simulated_placement_updates_only_its_own_snapshot() {
    let cross = CrossGame::new(6);
    let snaps = snapshot(&cross);
    let mut board = BitBoard::empty();
    board.set(39, 0);
    let next = with_placement(&snaps, Arm::South, board);
    assert_eq!(next[Arm::South.index()].pieces_placed, 1);
    assert_eq!(next[Arm::South.index()].board, board);
    for arm in [Arm::North, Arm::East, Arm::West] {
        assert_eq!(next[arm.index()], snaps[arm.index()]);
    }
}

#[test]
fn cross_moves_keep_the_piece_legal_and_scores_never_drop() {
    let mut cross = CrossGame::new(99);
    let arms = [Arm::East, Arm::North, Arm::West, Arm::South];
    let log = [Action::MoveRight, Action::RotateCcw, Action::Tick(700_000), Action::Hold, Action::MoveLeft, Action::HardDrop];
    for round in 0..12 {
        if cross.is_game_over() {
            break;
        }
        let arm = arms[round % 4];
        if cross.awaiting_well_selection() && !cross.select_well(arm) {
            continue;
        }
        for action in log {
            let before: Vec<u64> = Arm::ALL.iter().map(|&a| cross.well(a).score).collect();
            cross.apply(action);
            let after: Vec<u64> = Arm::ALL.iter().map(|&a| cross.well(a).score).collect();
            for (b, a) in before.iter().zip(after.iter()) {
                assert!(a >= b);
            }
            if let (Some(a), Some(p)) = (cross.active_arm(), cross.active_piece()) {
                assert!(cross_tetris::rotation::piece_fits(&cross.well(a).board, &p));
            }
        }
    }
    assert!(cross.total_pieces_placed() >= 4);
}

#[test]
fn benchmark_stop_decisions() {
    let mut cross = CrossGame::new(12);
    assert_eq!(end_before_move(&cross, 0, 10), None);
    assert_eq!(end_before_move(&cross, 10, 10), Some(EndReason::Capped));
    let before = cross.total_pieces_placed();
    assert_eq!(end_after_move(&cross, before, 3), Err(EndReason::Stalled));
    assert!(cross.select_well(Arm::North));
    cross.apply(Action::HardDrop);
    assert_eq!(end_after_move(&cross, before, 3), Ok(4));
    cross.wells[Arm::South.index()].game_over = true;
    assert_eq!(end_before_move(&cross, 0, 10), Some(EndReason::ToppedOut));
    let placed = cross.total_pieces_placed();
    assert_eq!(end_after_move(&cross, placed, 3), Err(EndReason::ToppedOut));
}

#[test]
fn a_timed_out_selection_picks_only_selectable_wells() {
    let mut cross = CrossGame::new(21);
    cross.wells[Arm::North.index()].game_over = true;
    cross.wells[Arm::West.index()].pieces_placed = MAX_WELL_IMBALANCE + 1;
    let mut rng = Rng::new(21);
    let mut seen = HashSet::new();
    for _ in 0..50 {
        let arm = random_selectable_well(&cross, &mut rng).unwrap();
        assert!(arm == Arm::East || arm == Arm::South);
        seen.insert(arm.index());
    }
    assert_eq!(seen.len(), 2);
    for arm in Arm::ALL {
        cross.wells[arm.index()].game_over = true;
    }
    let copy = rng;
    assert_eq!(random_selectable_well(&cross, &mut rng), None);
    assert_eq!(rng, copy);
}

#[test]
fn no_placement_is_played_once_the_game_is_over() {
    let mut state = GameState::new(5);
    state.game_over = true;
    let p = state.active.unwrap();
    let before = state.clone();
    play_placement(&mut state, Placement { rotation: p.rotation, column: p.col, row: p.row + 1 });
    assert_eq!(state, before);
}

#[test]
fn no_cross_placement_while_a_piece_is_falling() {
    let mut cross = CrossGame::new(17);
    assert!(cross.select_well(Arm::East));
    let before = cross.clone();
    play_cross_placement(&mut cross, CrossPlacement { arm: Arm::North, rotation: Rotation::R0, column: 0, row: 30 });
    assert_eq!(cross, before);
}

#[test]
fn each_clockwise_shape_is_the_previous_one_turned_in_its_box() {
    for kind in PieceKind::ALL {
        let n = kind.box_size();
        for r in [Rotation::R0, Rotation::R, Rotation::R2, Rotation::L] {
            let turned: HashSet<(i32, i32)> = shape(kind, r).iter().map(|&(row, col)| (col, n - 1 - row)).collect();
            let next: HashSet<(i32, i32)> = shape(kind, r.cw()).into_iter().collect();
            assert_eq!(turned, next, "{kind:?} {r:?}");
        }
    }
}

#[test]
fn simulated_lock_matches_locking_on_the_board() {
    let mut board = Board::new();
    for col in 1..BOARD_WIDTH as i32 {
        board.set(39, col, Some(PieceKind::T));
        if col > 2 {
            board.set(38, col, Some(PieceKind::S));
        }
    }
    let piece = ActivePiece { kind: PieceKind::J, rotation: Rotation::L, row: 37, col: 0 };
    let bb = BitBoard::from_board(&board);
    let mut e = board;
    for (r, c) in piece.occupied_cells() {
        e.set(r, c, Some(piece.kind));
    }
    let k = e.clear_full_rows();
    assert_eq!(simulate_lock(bb, &piece), (BitBoard::from_board(&e), k));
    assert_eq!(bb, BitBoard::from_board(&board));
}

#[test]
fn previews_between_draws_keep_every_seven_draws_whole() {
    let mut bag = SevenBag::new(808);
    let mut drawn = Vec::new();
    for i in 0..70usize {
        if i % 3 == 0 {
            bag.preview(i % 17);
        }
        drawn.push(bag.next());
    }
    let mut plain = SevenBag::new(808);
    let expected: Vec<PieceKind> = (0..70).map(|_| plain.next()).collect();
    assert_eq!(drawn, expected);
    for chunk in drawn.chunks(7) {
        let kinds: HashSet<PieceKind> = chunk.iter().copied().collect();
        assert_eq!(kinds.len(), 7);
    }
}
