//! The board side of the rule-based placement AI: the candidate placements
//! for the upcoming piece (on one board, or across every selectable well of
//! the cross), the integer board features the greedy evaluator weighs, and
//! carrying out a chosen placement.
//!
//! Placements are enumerated directly from the SRS shapes at each of the 4
//! rotation states, rather than by walking `try_rotate`'s kick-validated path
//! from the piece's current orientation: a placement-level action model, in
//! which a chosen placement is executed directly.

use vstd::prelude::*;
use crate::actions::Action;
use crate::bitboard::BitBoard;
use crate::board::BOARD_WIDTH;
use crate::cross::{Arm, CrossGame, CrossModel, ActiveInWell};
use crate::lookahead::{CrossOutcome, candidates_are, cross_choices, snapshot, snapshot_outcomes, lemma_snapshot_choices};
use crate::game::{GameState, GameModel};
use crate::grid::{board_grid, grid_column_height, grid_holes};
use crate::placement::{Outcome, outcome_of, placement_outcomes, spec_placements, lemma_col_top};
use crate::piece::{ActivePiece, PieceKind, Rotation};
use crate::scoring::{HARD_DROP_POINTS_PER_CELL, spec_line_clear_score};
use crate::rotation::spec_fits;
use crate::motion::{hard_fall, lemma_hard_fall_rests, lemma_hard_fall_keeps_idle_motion, lock_clears};

verus! {

#[derive(Copy, Clone, PartialEq, Eq, Structural, Debug)]
pub struct Placement {
    pub rotation: Rotation,
    /// Column of the piece's rotation bounding-box top-left at rest.
    pub column: i32,
    pub row: i32,
}

/// A cross-mode placement: which well plus the same rotation/column/row a
/// single-board `Placement` carries, since choosing the target arm is part of
/// one placement decision here, not a separate step.
#[derive(Copy, Clone, PartialEq, Eq, Structural, Debug)]
pub struct CrossPlacement {
    pub arm: Arm,
    pub rotation: Rotation,
    pub column: i32,
    pub row: i32,
}

impl Placement {
    pub open spec fn in_range(self) -> bool {
        ActivePiece { kind: PieceKind::I, rotation: self.rotation, row: self.row, col: self.column }.in_range()
    }
}

impl CrossPlacement {
    pub open spec fn in_range(self) -> bool {
        ActivePiece { kind: PieceKind::I, rotation: self.rotation, row: self.row, col: self.column }.in_range()
    }
}

/// Sum of the first `n` values.
pub open spec fn sum_prefix(s: Seq<u32>, n: int) -> int
    decreases n,
{
    if n <= 0 {
        0
    } else {
        sum_prefix(s, n - 1) + s[n - 1]
    }
}

/// Sum of the height differences of adjacent columns among the first `n`.
pub open spec fn bumpiness_prefix(s: Seq<u32>, n: int) -> int
    decreases n,
{
    if n <= 1 {
        0
    } else {
        let d = s[n - 2] - s[n - 1];
        bumpiness_prefix(s, n - 1) + (if d >= 0 { d } else { -d })
    }
}

/// The integer board features of the greedy evaluator. Height variance is
/// derived from `heights` by the caller.
#[derive(Copy, Clone, PartialEq, Eq, Debug)]
pub struct GreedyFeatures {
    pub heights: [u32; 10],
    pub agg_height: u32,
    pub holes: u32,
    pub bumpiness: u32,
    pub lines_cleared: u32,
}

/// Height of every column, left to right.
pub fn column_heights(board: &BitBoard) -> (heights: [u32; 10])
    ensures
        forall|c: int| 0 <= c < BOARD_WIDTH ==> #[trigger] heights@[c] == grid_column_height(board.grid(), c),
        forall|c: int| 0 <= c < BOARD_WIDTH ==> #[trigger] heights@[c] <= 40,
{
    let mut heights = [0u32; 10];
    let mut col: usize = 0;
    while col < BOARD_WIDTH
        invariant
            col <= BOARD_WIDTH,
            forall|c: int| 0 <= c < col ==> #[trigger] heights@[c] == grid_column_height(board.grid(), c),
            forall|c: int| 0 <= c < col ==> #[trigger] heights@[c] <= 40,
        decreases BOARD_WIDTH - col,
    {
        proof {
            board.lemma_grid_shape();
            lemma_col_top(board.grid(), col as int);
        }
        heights[col] = board.column_height(col);
        col += 1;
    }
    heights
}

/// Aggregate height, holes, bumpiness and column heights of `board`, plus the
/// lines the placement cleared.
pub fn greedy_features(board: &BitBoard, lines_cleared: u32) -> (f: GreedyFeatures)
    ensures
        forall|c: int| 0 <= c < BOARD_WIDTH ==> #[trigger] f.heights@[c] == grid_column_height(board.grid(), c),
        f.agg_height == sum_prefix(f.heights@, 10),
        f.bumpiness == bumpiness_prefix(f.heights@, 10),
        f.holes == grid_holes(board.grid()),
        f.lines_cleared == lines_cleared,
{
    let heights = column_heights(board);
    let mut agg: u32 = 0;
    let mut bump: u32 = 0;
    let mut i: usize = 0;
    while i < BOARD_WIDTH
        invariant
            i <= BOARD_WIDTH,
            forall|c: int| 0 <= c < BOARD_WIDTH ==> #[trigger] heights@[c] <= 40,
            agg == sum_prefix(heights@, i as int),
            bump == bumpiness_prefix(heights@, i as int),
            agg <= 40 * i,
            bump <= 40 * i,
        decreases BOARD_WIDTH - i,
    {
        agg = agg + heights[i];
        if i >= 1 {
            let a = heights[i - 1];
            let b = heights[i];
            let d = if a >= b {
                a - b
            } else {
                b - a
            };
            bump = bump + d;
        }
        i += 1;
    }
    GreedyFeatures { heights, agg_height: agg, holes: board.count_holes(), bumpiness: bump, lines_cleared }
}

/// The candidate placements for the falling piece of a single-board game, or
/// `None` if no piece is falling.
pub fn board_outcomes(state: &GameState) -> (r: Option<Vec<Outcome>>)
    ensures
        r is None <==> state.active is None,
        r matches Some(v) ==> state.active matches Some(p) && v@.len() == spec_placements(
            board_grid(state.board@),
            p.kind,
        ).len() && forall|i: int|
            0 <= i < v@.len() ==> outcome_of(
                #[trigger] v@[i],
                board_grid(state.board@),
                spec_placements(board_grid(state.board@), p.kind)[i],
            ),
{
    let active = match state.active {
        Some(p) => p,
        None => {
            return None;
        },
    };
    let bb = BitBoard::from_board(&state.board);
    Some(placement_outcomes(&bb, active.kind))
}

/// The candidate placements for the upcoming piece across every selectable
/// well (not topped out, not too far ahead of the least-used well), or `None`
/// if a piece is already falling. Previewing the queue changes nothing.
pub fn cross_outcomes(cross: &mut CrossGame) -> (r: Option<Vec<CrossOutcome>>)
    requires
        old(cross).wf(),
    ensures
        final(cross)@ == old(cross)@,
        final(cross).wf(),
        r is None <==> old(cross).active is Some,
        r matches Some(v) ==> candidates_are(v@, cross_choices(old(cross)@.wells), old(cross).bag.upcoming()[0]),
{
    if !cross.awaiting_well_selection() {
        return None;
    }
    let queue = cross.next_queue(1);
    let kind = queue[0];
    let snaps = snapshot(cross);
    proof {
        lemma_snapshot_choices(snaps@, cross@.wells);
    }
    Some(snapshot_outcomes(&snaps, kind))
}

/// The rest of a greedy move once its placement is chosen: the falling piece
/// is put at the placement and hard-dropped there, and credited the hard-drop
/// points it would have earned falling from where it was.
pub open spec fn spec_play_placement(g: GameModel, placement: Placement) -> GameModel {
    if g.game_over {
        g
    } else {
    match g.active {
        None => g,
        Some(a) => {
            let drop = if placement.row - a.row > 0 { placement.row - a.row } else { 0 };
            let g1 = GameModel {
                active: Some(ActivePiece { rotation: placement.rotation, row: placement.row, col: placement.column, ..a }),
                ..g
            };
            let g2 = g1.apply(Action::HardDrop);
            GameModel { score: g2.score.saturating_add((drop * HARD_DROP_POINTS_PER_CELL) as u64), ..g2 }
        },
    }
    }
}

/// Puts the falling piece at `placement` and hard-drops it there; the piece is
/// credited the hard-drop score it would have earned falling from its original
/// row. No-op if there is no active piece or the game is over.
pub fn play_placement(state: &mut GameState, placement: Placement)
    requires
        old(state).wf(),
        placement.in_range(),
    ensures
        final(state)@ == spec_play_placement(old(state)@, placement),
        final(state).bag.wf(),
{
    if state.game_over {
        return;
    }
    let active = match state.active {
        Some(a) => a,
        None => {
            return;
        },
    };
    let diff: i64 = placement.row as i64 - active.row as i64;
    let drop_distance: u32 = if diff > 0 {
        diff as u32
    } else {
        0
    };
    state.active = Some(ActivePiece { rotation: placement.rotation, row: placement.row, col: placement.column, ..active });
    state.apply(Action::HardDrop);
    state.score = state.score.saturating_add(drop_distance as u64 * HARD_DROP_POINTS_PER_CELL);
}

/// The rest of a cross move once its placement is chosen: the next piece is
/// committed to the placement's well, put at the placement, hard-dropped, and
/// credited the hard-drop points it would have earned from its spawn row.
pub open spec fn spec_play_cross_placement(g: CrossModel, placement: CrossPlacement) -> CrossModel {
    if g.active is Some {
        g
    } else {
    let s1 = g.select(placement.arm);
    match s1.active {
        None => s1,
        Some(a) => {
            let drop = if placement.row - a.piece.row > 0 { placement.row - a.piece.row } else { 0 };
            let s2 = CrossModel {
                active: Some(ActiveInWell {
                    arm: a.arm,
                    piece: ActivePiece { rotation: placement.rotation, row: placement.row, col: placement.column, ..a.piece },
                }),
                ..s1
            };
            s2.apply(Action::HardDrop).add_score(placement.arm.spec_index(), (drop * HARD_DROP_POINTS_PER_CELL) as u64)
        },
    }
    }
}

/// Commits the next piece to `placement.arm`, puts it at the placement and
/// hard-drops it there, crediting that well the hard-drop score the piece
/// would have earned from its spawn row. No-op while a piece is already
/// falling; nothing is placed when the well cannot be selected.
pub fn play_cross_placement(cross: &mut CrossGame, placement: CrossPlacement)
    requires
        old(cross).wf(),
        placement.in_range(),
    ensures
        final(cross)@ == spec_play_cross_placement(old(cross)@, placement),
        final(cross).bag.wf(),
{
    if cross.active.is_some() {
        return;
    }
    cross.select_well(placement.arm);
    let active = match cross.active_piece() {
        Some(a) => a,
        None => {
            return;
        },
    };
    let diff: i64 = placement.row as i64 - active.row as i64;
    let drop_distance: u32 = if diff > 0 {
        diff as u32
    } else {
        0
    };
    cross.force_active_placement(placement.rotation, placement.row, placement.column);
    assert(cross@ == (CrossModel {
        active: Some(ActiveInWell {
            arm: old(cross)@.select(placement.arm).active.unwrap().arm,
            piece: ActivePiece { rotation: placement.rotation, row: placement.row, col: placement.column, ..active },
        }),
        ..old(cross)@.select(placement.arm)
    }));
    cross.apply(Action::HardDrop);
    cross.add_score(placement.arm.index(), drop_distance as u64 * HARD_DROP_POINTS_PER_CELL);
}

/// Playing the placement where the falling piece would come to rest if
/// hard-dropped (same rotation and column, its landing row) gives exactly the
/// game an ordinary hard drop gives: the rows between the piece and the
/// placement are credited the same 2 points each.
pub proof fn law_play_at_landing_is_hard_drop(g: GameModel, placement: Placement)
    requires
        !g.game_over,
        g.active matches Some(a) && spec_fits(g.board, a),
        placement.rotation == g.active.unwrap().rotation,
        placement.column == g.active.unwrap().col,
        placement.row == hard_fall(g.board, g.active.unwrap(), g.motion).0.row,
    ensures
        spec_play_placement(g, placement) == g.apply(Action::HardDrop),
{
    let a = g.active.unwrap();
    lemma_hard_fall_rests(g.board, a, g.motion);
    let f = hard_fall(g.board, a, g.motion);
    let q = f.0;
    assert(q == ActivePiece { rotation: placement.rotation, row: placement.row, col: placement.column, ..a });
    let g1 = GameModel { active: Some(q), ..g };
    assert(hard_fall(g.board, q, g.motion) == (q, g.motion, 0int));
    let d = f.2;
    let h1 = GameModel { active: Some(q), motion: g.motion, score: g.score.saturating_add(0u64), ..g };
    let h2 = GameModel {
        active: Some(q),
        motion: f.1,
        score: g.score.saturating_add((d * HARD_DROP_POINTS_PER_CELL) as u64),
        ..g
    };
    assert(g1.apply(Action::HardDrop) == h1.lock_active());
    assert(g.apply(Action::HardDrop) == h2.lock_active());
    let cleared = lock_clears(g.board, q) as u32;
    let lcs = spec_line_clear_score(cleared, g.level);
    assert(h1.lock_active().score == g.score.saturating_add(lcs));
    assert(h2.lock_active().score == g.score.saturating_add((d * 2) as u64).saturating_add(lcs));
}

/// Playing a cross placement where the piece committed to that well would
/// come to rest if hard-dropped from its spawn gives exactly the game that
/// selecting the well and hard-dropping gives: the rows between the spawn
/// and the placement are credited the same 2 points each, to that well.
pub proof fn law_play_cross_at_landing_is_select_and_hard_drop(g: CrossModel, placement: CrossPlacement)
    requires
        g.wells.len() == 4,
        g.active is None,
        g.select(placement.arm).active matches Some(a) && placement.rotation == a.piece.rotation
            && placement.column == a.piece.col && placement.row == hard_fall(
            g.wells[placement.arm.spec_index()].board,
            a.piece,
            g.select(placement.arm).motion,
        ).0.row,
    ensures
        spec_play_cross_placement(g, placement) == g.select(placement.arm).apply(Action::HardDrop),
{
    let s1 = g.select(placement.arm);
    let a = s1.active.unwrap();
    let i = a.arm.spec_index();
    let board = s1.wells[i].board;
    assert(board == g.wells[placement.arm.spec_index()].board);
    assert(spec_fits(board, a.piece));
    lemma_hard_fall_rests(board, a.piece, s1.motion);
    lemma_hard_fall_keeps_idle_motion(board, a.piece, s1.motion);
    let f = hard_fall(board, a.piece, s1.motion);
    let q = f.0;
    let d = f.2;
    assert(q == ActivePiece { rotation: placement.rotation, row: placement.row, col: placement.column, ..a.piece });
    assert(hard_fall(board, q, s1.motion) == (q, s1.motion, 0int));
    let s2 = CrossModel { active: Some(ActiveInWell { arm: a.arm, piece: q }), ..s1 };
    let pa = CrossModel { active: Some(ActiveInWell { arm: a.arm, piece: q }), motion: s1.motion, ..s2.add_score(i, 0u64) };
    let pb = CrossModel { active: Some(ActiveInWell { arm: a.arm, piece: q }), motion: s1.motion, ..s1.add_score(i, (d * 2) as u64) };
    assert(s2.apply(Action::HardDrop) == pa.lock_active());
    assert(s1.apply(Action::HardDrop) == pb.lock_active());
    let lhs = pa.lock_active().add_score(i, (d * 2) as u64);
    let rhs = pb.lock_active();
    assert(lhs.wells[i] == rhs.wells[i]);
    assert(lhs.wells =~= rhs.wells);
}

} // verus!
