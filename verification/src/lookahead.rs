//! Search support for choosing a well and a placement: frozen snapshots of
//! the four wells (so hypothetical futures can be explored without touching
//! the real game), the well-imbalance rule applied to such snapshots, and the
//! candidate placements of a piece across the selectable wells.

use vstd::prelude::*;
use crate::bitboard::BitBoard;
use crate::cross::{Arm, CrossGame, WellModel, MAX_WELL_IMBALANCE, min_pieces_placed, well_selectable};
use crate::grid::{Grid, board_grid};
use crate::placement::{Outcome, outcome_of, placement_outcomes, spec_placements};
use crate::piece::{ActivePiece, PieceKind};

verus! {

/// Default beam width of the two-ply search.
pub const DEFAULT_BEAM_WIDTH: usize = 8;

/// A frozen copy of one well's board and piece count.
#[derive(Copy, Clone, PartialEq, Eq, Debug)]
pub struct WellSnapshot {
    pub board: BitBoard,
    pub pieces_placed: u32,
    pub game_over: bool,
}

pub open spec fn arm_at(i: int) -> Arm {
    if i == 0 {
        Arm::North
    } else if i == 1 {
        Arm::East
    } else if i == 2 {
        Arm::South
    } else {
        Arm::West
    }
}

/// Fewest pieces placed in any snapshot well.
pub open spec fn snap_min_pieces(s: Seq<WellSnapshot>) -> u32 {
    let a = if s[0].pieces_placed <= s[1].pieces_placed { s[0].pieces_placed } else { s[1].pieces_placed };
    let b = if s[2].pieces_placed <= s[3].pieces_placed { s[2].pieces_placed } else { s[3].pieces_placed };
    if a <= b { a } else { b }
}

/// The well-imbalance rule of `CrossGame::is_well_selectable`, on snapshots.
pub open spec fn snap_selectable(s: Seq<WellSnapshot>, i: int) -> bool {
    !s[i].game_over && s[i].pieces_placed <= snap_min_pieces(s) + MAX_WELL_IMBALANCE
}

/// For each of the four wells, its grid and whether it takes the next piece.
pub open spec fn snap_choices(s: Seq<WellSnapshot>) -> Seq<(Grid, bool)> {
    Seq::new(4, |i: int| (s[i].board.grid(), snap_selectable(s, i)))
}

pub open spec fn cross_choices(wells: Seq<WellModel>) -> Seq<(Grid, bool)> {
    Seq::new(4, |i: int| (board_grid(wells[i].board), well_selectable(wells, i)))
}

/// `s` is a snapshot of the wells `wells`.
pub open spec fn snapshot_of(s: Seq<WellSnapshot>, wells: Seq<WellModel>) -> bool {
    &&& s.len() == 4
    &&& forall|i: int|
        0 <= i < 4 ==> (#[trigger] s[i]).board.grid() == board_grid(wells[i].board) && s[i].pieces_placed
            == wells[i].pieces_placed && s[i].game_over == wells[i].game_over
}

/// A snapshot applies the imbalance rule exactly as the live game does.
pub proof fn lemma_snapshot_choices(s: Seq<WellSnapshot>, wells: Seq<WellModel>)
    requires
        snapshot_of(s, wells),
    ensures
        snap_choices(s) == cross_choices(wells),
{
    assert(snap_min_pieces(s) == min_pieces_placed(wells));
    assert(snap_choices(s) =~= cross_choices(wells));
}

/// Whether a snapshot well is selectable agrees with the live rule for every
/// well, on a snapshot taken from the live game.
pub proof fn law_snapshot_selectable_matches_engine(s: Seq<WellSnapshot>, wells: Seq<WellModel>, i: int)
    requires
        snapshot_of(s, wells),
        0 <= i < 4,
    ensures
        snap_selectable(s, i) == well_selectable(wells, i),
{
    assert(snap_min_pieces(s) == min_pieces_placed(wells));
}

/// Candidates of well `i` for `kind`: its resting placements if it is
/// selectable, none otherwise.
pub open spec fn arm_candidates(choices: Seq<(Grid, bool)>, kind: PieceKind, i: int) -> Seq<(Arm, ActivePiece)> {
    if choices[i].1 {
        spec_placements(choices[i].0, kind).map_values(|p: ActivePiece| (arm_at(i), p))
    } else {
        Seq::empty()
    }
}

/// Candidates of the first `n` wells, North, East, South, West.
pub open spec fn candidates_upto(choices: Seq<(Grid, bool)>, kind: PieceKind, n: int) -> Seq<(Arm, ActivePiece)>
    decreases n,
{
    if n <= 0 {
        Seq::empty()
    } else {
        candidates_upto(choices, kind, n - 1) + arm_candidates(choices, kind, n - 1)
    }
}

/// A candidate placement in one of the cross's wells.
#[derive(Copy, Clone, PartialEq, Eq, Debug)]
pub struct CrossOutcome {
    pub arm: Arm,
    /// The well's board before the placement.
    pub before: BitBoard,
    pub outcome: Outcome,
}

/// `o` is candidate `cand` of the wells `choices`, with its result.
pub open spec fn cross_outcome_of(o: CrossOutcome, choices: Seq<(Grid, bool)>, cand: (Arm, ActivePiece)) -> bool {
    &&& o.arm == cand.0
    &&& o.before.grid() == choices[cand.0.spec_index()].0
    &&& outcome_of(o.outcome, o.before.grid(), cand.1)
}

/// `v` lists every (well, placement) candidate for `kind` over the selectable
/// wells, North to West, each with its result.
pub open spec fn candidates_are(v: Seq<CrossOutcome>, choices: Seq<(Grid, bool)>, kind: PieceKind) -> bool {
    &&& v.len() == candidates_upto(choices, kind, 4).len()
    &&& forall|i: int| 0 <= i < v.len() ==> cross_outcome_of(#[trigger] v[i], choices, candidates_upto(choices, kind, 4)[i])
}

/// A snapshot of every well of the live game.
pub fn snapshot(cross: &CrossGame) -> (r: [WellSnapshot; 4])
    ensures
        snapshot_of(r@, cross@.wells),
{
    let mut out: [WellSnapshot; 4] = [WellSnapshot { board: BitBoard::empty(), pieces_placed: 0, game_over: false }; 4];
    let mut i: usize = 0;
    while i < 4
        invariant
            i <= 4,
            forall|j: int|
                0 <= j < i ==> (#[trigger] out@[j]).board.grid() == board_grid(cross@.wells[j].board)
                    && out@[j].pieces_placed == cross@.wells[j].pieces_placed && out@[j].game_over
                    == cross@.wells[j].game_over,
        decreases 4 - i,
    {
        let well = &cross.wells[i];
        out[i] = WellSnapshot { board: BitBoard::from_board(&well.board), pieces_placed: well.pieces_placed, game_over: well.game_over };
        i += 1;
    }
    out
}

/// Mirrors `CrossGame::is_well_selectable`'s rule exactly, but against a
/// hypothetical snapshot rather than the live game — after a simulated first
/// placement, the imbalance rule may block a well for the second piece that
/// was open for the first.
pub fn is_well_selectable_sim(snapshots: &[WellSnapshot; 4], arm: Arm) -> (r: bool)
    ensures
        r == snap_selectable(snapshots@, arm.spec_index()),
{
    let a = if snapshots[0].pieces_placed <= snapshots[1].pieces_placed {
        snapshots[0].pieces_placed
    } else {
        snapshots[1].pieces_placed
    };
    let b = if snapshots[2].pieces_placed <= snapshots[3].pieces_placed {
        snapshots[2].pieces_placed
    } else {
        snapshots[3].pieces_placed
    };
    let min = if a <= b {
        a
    } else {
        b
    };
    let well = &snapshots[arm.index()];
    !well.game_over && well.pieces_placed as u64 <= min as u64 + MAX_WELL_IMBALANCE as u64
}

/// The snapshots after a (hypothetical) placement in `arm` that left `board`:
/// that well gets the board and one more placed piece.
pub fn with_placement(snapshots: &[WellSnapshot; 4], arm: Arm, board: BitBoard) -> (r: [WellSnapshot; 4])
    ensures
        r@ == snapshots@.update(
            arm.spec_index(),
            WellSnapshot {
                board,
                pieces_placed: snapshots@[arm.spec_index()].pieces_placed.saturating_add(1),
                game_over: false,
            },
        ),
{
    let mut out = *snapshots;
    let i = arm.index();
    out[i] = WellSnapshot { board, pieces_placed: snapshots[i].pieces_placed.saturating_add(1), game_over: false };
    out
}

/// Every (well, placement) candidate for `kind` across the wells the
/// snapshots allow, with its result.
pub fn snapshot_outcomes(snapshots: &[WellSnapshot; 4], kind: PieceKind) -> (r: Vec<CrossOutcome>)
    ensures
        candidates_are(r@, snap_choices(snapshots@), kind),
{
    let ghost choices = snap_choices(snapshots@);
    let mut out: Vec<CrossOutcome> = Vec::new();
    let mut ai: usize = 0;
    while ai < 4
        invariant
            ai <= 4,
            choices == snap_choices(snapshots@),
            out@.len() == candidates_upto(choices, kind, ai as int).len(),
            forall|i: int|
                0 <= i < out@.len() ==> cross_outcome_of(#[trigger] out@[i], choices, candidates_upto(choices, kind, ai as int)[i]),
        decreases 4 - ai,
    {
        let arm = Arm::ALL[ai];
        assert(arm == arm_at(ai as int)) by {
            if ai == 0 {
            } else if ai == 1 {
            } else if ai == 2 {
            } else {
            }
        }
        let ghost prev = candidates_upto(choices, kind, ai as int);
        let ghost mine = arm_candidates(choices, kind, ai as int);
        assert(candidates_upto(choices, kind, ai + 1) == prev + mine);
        if is_well_selectable_sim(snapshots, arm) {
            let bb = snapshots[ai].board;
            let outs = placement_outcomes(&bb, kind);
            let mut k: usize = 0;
            while k < outs.len()
                invariant
                    k <= outs@.len(),
                    ai < 4,
                    arm == arm_at(ai as int),
                    choices == snap_choices(snapshots@),
                    choices[ai as int].1,
                    bb.grid() == choices[ai as int].0,
                    outs@.len() == spec_placements(bb.grid(), kind).len(),
                    forall|i: int| 0 <= i < outs@.len() ==> outcome_of(#[trigger] outs@[i], bb.grid(), spec_placements(bb.grid(), kind)[i]),
                    mine == arm_candidates(choices, kind, ai as int),
                    out@.len() == prev.len() + k,
                    forall|i: int|
                        0 <= i < out@.len() ==> cross_outcome_of(#[trigger] out@[i], choices, (prev + mine)[i]),
                decreases outs@.len() - k,
            {
                out.push(CrossOutcome { arm, before: bb, outcome: outs[k] });
                k += 1;
            }
        }
        ai += 1;
    }
    out
}

} // verus!
