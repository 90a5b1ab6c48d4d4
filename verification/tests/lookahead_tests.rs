use cross_tetris::greedy::{cross_outcomes, play_cross_placement, CrossPlacement};
use cross_tetris::lookahead::{is_well_selectable_sim, snapshot};
use cross_tetris::{Arm, CrossGame};

/// Plays the first candidate placement the search offers for each piece.
fn play_first_candidate(cross: &mut CrossGame) -> bool {
    let Some(candidates) = cross_outcomes(cross) else { return false };
    let Some(first) = candidates.first() else { return false };
    let p = first.outcome.piece;
    play_cross_placement(
        cross,
        CrossPlacement { arm: first.arm, rotation: p.rotation, column: p.col, row: p.row },
    );
    true
}

/// The snapshot's selectability must agree with the live game's rule when
/// the snapshot is taken straight from that game.
#[test]
fn is_well_selectable_sim_matches_engine_rule_on_an_unmodified_snapshot() {
    let mut cross = CrossGame::new(9001);
    // Play a run of pieces so the wells end up with uneven piece counts,
    // exercising the imbalance rule.
    for _ in 0..150 {
        if cross.is_game_over() {
            break;
        }
        if !play_first_candidate(&mut cross) {
            break;
        }
    }
    let snapshots = snapshot(&cross);
    for &arm in &Arm::ALL {
        assert_eq!(
            is_well_selectable_sim(&snapshots, arm),
            cross.is_well_selectable(arm),
            "mismatch for {arm:?}: pieces_placed={:?}",
            snapshots.map(|w| w.pieces_placed)
        );
    }
}
