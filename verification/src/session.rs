//! When a benchmark game ends: the stop decisions around each move of an
//! agent playing a cross game. The agent's move itself is outside work
//! handed in by the caller; these functions decide, from the game before and
//! after it, whether the game goes on.

use vstd::prelude::*;
use crate::cross::CrossGame;

verus! {

/// Why a benchmark game stopped.
#[derive(Copy, Clone, PartialEq, Eq, Structural, Debug)]
pub enum EndReason {
    /// Some well topped out.
    ToppedOut,
    /// The piece cap was reached.
    Capped,
    /// A move placed no piece while no well had topped out.
    Stalled,
}

/// Some well of the game has topped out.
pub open spec fn topped_out(cross: CrossGame) -> bool {
    exists|i: int| 0 <= i < 4 && #[trigger] cross.wells@[i].game_over
}

/// Pieces placed over all four wells (saturating).
pub open spec fn placed_total(cross: CrossGame) -> u32 {
    cross.wells@[0].pieces_placed.saturating_add(cross.wells@[1].pieces_placed).saturating_add(
        cross.wells@[2].pieces_placed,
    ).saturating_add(cross.wells@[3].pieces_placed)
}

/// The decision before a move: stop on a top-out, then at the cap.
pub open spec fn spec_end_before(over: bool, pieces: nat, max_pieces: nat) -> Option<EndReason> {
    if over {
        Some(EndReason::ToppedOut)
    } else if pieces >= max_pieces {
        Some(EndReason::Capped)
    } else {
        None
    }
}

/// The decision after a move: a move that placed nothing ends the game
/// (topped out, or else stalled); otherwise one more piece is counted.
pub open spec fn spec_end_after(placed: bool, over: bool, pieces: nat) -> Result<nat, EndReason> {
    if !placed {
        Err(if over { EndReason::ToppedOut } else { EndReason::Stalled })
    } else {
        Ok(pieces + 1)
    }
}

/// Whether the game stops before the next move, and why.
pub fn end_before_move(cross: &CrossGame, pieces: u32, max_pieces: u32) -> (r: Option<EndReason>)
    ensures
        r == spec_end_before(topped_out(*cross), pieces as nat, max_pieces as nat),
{
    if cross.is_game_over() {
        Some(EndReason::ToppedOut)
    } else if pieces >= max_pieces {
        Some(EndReason::Capped)
    } else {
        None
    }
}

/// After a move: the new piece count, or why the game stops, given the total
/// placed before the move.
pub fn end_after_move(cross: &CrossGame, placed_before: u32, pieces: u32) -> (r: Result<u32, EndReason>)
    requires
        pieces < u32::MAX,
    ensures
        spec_end_after(placed_total(*cross) != placed_before, topped_out(*cross), pieces as nat) == match r {
            Ok(p) => Ok::<nat, EndReason>(p as nat),
            Err(e) => Err::<nat, EndReason>(e),
        },
{
    if cross.total_pieces_placed() == placed_before {
        if cross.is_game_over() {
            Err(EndReason::ToppedOut)
        } else {
            Err(EndReason::Stalled)
        }
    } else {
        Ok(pieces + 1)
    }
}

/// Moves made by a game driven by `spec_end_before` and `spec_end_after`,
/// where step `k` of `steps` tells whether a well had topped out before the
/// `k`-th move, whether that move placed a piece, and whether a well had
/// topped out after it.
pub open spec fn driven_moves(steps: Seq<(bool, bool, bool)>, pieces: nat, max_pieces: nat) -> nat
    decreases steps.len(),
{
    if steps.len() == 0 {
        0
    } else {
        let (over, placed, over_after) = steps[0];
        match spec_end_before(over, pieces, max_pieces) {
            Some(_) => 0,
            None => 1 + match spec_end_after(placed, over_after, pieces) {
                Err(_) => 0,
                Ok(p) => driven_moves(steps.drop_first(), p, max_pieces),
            },
        }
    }
}

/// A game driven by the two stop decisions makes at most `max_pieces` moves,
/// whatever the agent does: the cap and the stall guard always end it.
pub proof fn law_driven_game_is_bounded(steps: Seq<(bool, bool, bool)>, max_pieces: nat)
    ensures
        driven_moves(steps, 0, max_pieces) <= max_pieces,
{
    lemma_driven_bound(steps, 0, max_pieces);
}

proof fn lemma_driven_bound(steps: Seq<(bool, bool, bool)>, pieces: nat, max_pieces: nat)
    requires
        pieces <= max_pieces,
    ensures
        driven_moves(steps, pieces, max_pieces) <= max_pieces - pieces,
    decreases steps.len(),
{
    if steps.len() > 0 && pieces < max_pieces {
        lemma_driven_bound(steps.drop_first(), pieces + 1, max_pieces);
    }
}

} // verus!
