//! Real-time handling of a falling piece, shared by the single-board game and
//! the cross mode: shifts, lock-delay bookkeeping, gravity and hard drops, and
//! locking a piece into its board.

use vstd::prelude::*;
use crate::board::{Board, Cell, view_set, view_occupied, cleared_view, full_count, BOARD_TOTAL_HEIGHT};
use crate::piece::ActivePiece;
use crate::rotation::{spec_fits, piece_fits, lemma_shape_bounds};

verus! {

pub const LOCK_DELAY_US: u64 = 500_000;
pub const MAX_LOCK_RESETS: u32 = 15;
pub const SOFT_DROP_MULTIPLIER: u64 = 20;
pub const LINES_PER_LEVEL: u32 = 10;
pub const SPAWN_ROW: i32 = 18;

/// Timers and flags of the piece currently falling.
#[derive(Copy, Clone, PartialEq, Eq, Debug)]
pub struct Motion {
    pub soft_dropping: bool,
    pub gravity_accum_us: u64,
    pub lock_timer_us: Option<u64>,
    pub lock_reset_count: u32,
}

impl Motion {
    /// Timers reset for a newly spawned piece; soft drop is kept as it was.
    pub open spec fn respawned(self) -> Motion {
        Motion { soft_dropping: self.soft_dropping, gravity_accum_us: 0, lock_timer_us: None, lock_reset_count: 0 }
    }

    pub fn new() -> (m: Motion)
        ensures
            m == (Motion { soft_dropping: false, gravity_accum_us: 0, lock_timer_us: None, lock_reset_count: 0 }),
    {
        Motion { soft_dropping: false, gravity_accum_us: 0, lock_timer_us: None, lock_reset_count: 0 }
    }
}

/// `p` shifted by `dr` rows and `dc` columns.
pub open spec fn moved(p: ActivePiece, dr: int, dc: int) -> ActivePiece {
    ActivePiece { row: (p.row + dr) as i32, col: (p.col + dc) as i32, ..p }
}

/// The piece rests on something: one row lower it would collide.
pub open spec fn spec_grounded(board: Seq<Cell>, p: ActivePiece) -> bool {
    !spec_fits(board, moved(p, 1, 0))
}

/// Lock-delay bookkeeping after the piece moved or turned to `p`: a grounded
/// piece with a running lock timer gets it restarted (at most
/// `MAX_LOCK_RESETS` times); a piece in the air has no lock timer.
pub open spec fn after_shift(m: Motion, board: Seq<Cell>, p: ActivePiece) -> Motion {
    if m.lock_timer_us is Some && spec_grounded(board, p) {
        if m.lock_reset_count < MAX_LOCK_RESETS {
            Motion { lock_timer_us: Some(0), lock_reset_count: (m.lock_reset_count + 1) as u32, ..m }
        } else {
            m
        }
    } else if !spec_grounded(board, p) {
        Motion { lock_timer_us: None, ..m }
    } else {
        m
    }
}

/// Shifting the piece by `(dr, dc)`: the moved piece and timers if it fits.
pub open spec fn spec_shift(board: Seq<Cell>, p: ActivePiece, m: Motion, dr: int, dc: int) -> Option<(ActivePiece, Motion)> {
    let cand = moved(p, dr, dc);
    if spec_fits(board, cand) {
        Some((cand, after_shift(m, board, cand)))
    } else {
        None
    }
}

/// A piece that fits has its box top at row 39 or above.
pub proof fn lemma_fits_row_bound(board: Seq<Cell>, p: ActivePiece)
    requires
        spec_fits(board, p),
    ensures
        p.row < BOARD_TOTAL_HEIGHT,
{
    lemma_shape_bounds(p.kind, p.rotation);
    assert(!view_occupied(board, p.cell(0).0, p.cell(0).1));
}

/// Hard drop: the piece falls row by row while it fits. The resting piece,
/// the timers, and the number of rows fallen.
pub open spec fn hard_fall(board: Seq<Cell>, p: ActivePiece, m: Motion) -> (ActivePiece, Motion, int)
    decreases BOARD_TOTAL_HEIGHT - p.row,
{
    if p.row < BOARD_TOTAL_HEIGHT && spec_fits(board, moved(p, 1, 0)) {
        let q = moved(p, 1, 0);
        proof {
            lemma_fits_row_bound(board, q);
        }
        let r = hard_fall(board, q, after_shift(m, board, q));
        (r.0, r.1, r.2 + 1)
    } else {
        (p, m, 0)
    }
}

/// Gravity: while a whole row interval has accumulated, spend it and fall one
/// row, stopping when the piece cannot fall. The piece, the timers, and the
/// number of rows fallen.
pub open spec fn gravity_fall(board: Seq<Cell>, p: ActivePiece, m: Motion, interval: u64) -> (ActivePiece, Motion, int)
    decreases m.gravity_accum_us,
{
    if interval > 0 && m.gravity_accum_us >= interval {
        let m1 = Motion { gravity_accum_us: (m.gravity_accum_us - interval) as u64, ..m };
        if p.row < BOARD_TOTAL_HEIGHT && spec_fits(board, moved(p, 1, 0)) {
            let q = moved(p, 1, 0);
            let r = gravity_fall(board, q, after_shift(m1, board, q), interval);
            (r.0, r.1, r.2 + 1)
        } else {
            (p, m1, 0)
        }
    } else {
        (p, m, 0)
    }
}

/// Lock-delay check at the end of a tick of `dt` microseconds: whether the
/// piece locks now, and the timers otherwise.
pub open spec fn lock_check(board: Seq<Cell>, p: ActivePiece, m: Motion, dt: u64) -> (bool, Motion) {
    if spec_grounded(board, p) {
        let elapsed = (match m.lock_timer_us {
            Some(t) => t,
            None => 0u64,
        }).saturating_add(dt);
        if elapsed >= LOCK_DELAY_US {
            (true, m)
        } else {
            (false, Motion { lock_timer_us: Some(elapsed), ..m })
        }
    } else {
        (false, Motion { lock_timer_us: None, ..m })
    }
}

/// The cells with the four cells of `p` filled with its kind.
pub open spec fn placed_view(board: Seq<Cell>, p: ActivePiece) -> Seq<Cell> {
    let v = Some(p.kind);
    view_set(
        view_set(view_set(view_set(board, p.cell(0).0, p.cell(0).1, v), p.cell(1).0, p.cell(1).1, v), p.cell(2).0, p.cell(2).1, v),
        p.cell(3).0,
        p.cell(3).1,
        v,
    )
}

/// The cells after locking `p`: placed, then full rows cleared.
pub open spec fn locked_view(board: Seq<Cell>, p: ActivePiece) -> Seq<Cell> {
    cleared_view(placed_view(board, p))
}

/// Rows that locking `p` clears.
pub open spec fn lock_clears(board: Seq<Cell>, p: ActivePiece) -> int {
    full_count(placed_view(board, p))
}

/// Hard drop from a legal position ends in a legal position at the same
/// column and rotation, `rows` lower, resting on something.
pub proof fn lemma_hard_fall_rests(board: Seq<Cell>, p: ActivePiece, m: Motion)
    requires
        spec_fits(board, p),
    ensures
        spec_fits(board, hard_fall(board, p, m).0),
        !spec_fits(board, moved(hard_fall(board, p, m).0, 1, 0)),
        hard_fall(board, p, m).0 == moved(p, hard_fall(board, p, m).2, 0),
        hard_fall(board, p, m).2 >= 0,
        hard_fall(board, p, m).0.row == p.row + hard_fall(board, p, m).2,
        hard_fall(board, p, m).1.soft_dropping == m.soft_dropping,
    decreases BOARD_TOTAL_HEIGHT - p.row,
{
    lemma_fits_row_bound(board, p);
    if p.row < BOARD_TOTAL_HEIGHT && spec_fits(board, moved(p, 1, 0)) {
        let q = moved(p, 1, 0);
        lemma_fits_row_bound(board, q);
        lemma_hard_fall_rests(board, q, after_shift(m, board, q));
    }
}

/// Gravity from a legal position ends in a legal position.
pub proof fn lemma_gravity_fall_fits(board: Seq<Cell>, p: ActivePiece, m: Motion, interval: u64)
    requires
        spec_fits(board, p),
    ensures
        spec_fits(board, gravity_fall(board, p, m, interval).0),
        gravity_fall(board, p, m, interval).1.soft_dropping == m.soft_dropping,
        gravity_fall(board, p, m, interval).2 >= 0,
        gravity_fall(board, p, m, interval).0 == moved(p, gravity_fall(board, p, m, interval).2, 0),
        gravity_fall(board, p, m, interval).0.row == p.row + gravity_fall(board, p, m, interval).2,
    decreases m.gravity_accum_us,
{
    lemma_fits_row_bound(board, p);
    if interval > 0 && m.gravity_accum_us >= interval {
        let m1 = Motion { gravity_accum_us: (m.gravity_accum_us - interval) as u64, ..m };
        if p.row < BOARD_TOTAL_HEIGHT && spec_fits(board, moved(p, 1, 0)) {
            let q = moved(p, 1, 0);
            lemma_fits_row_bound(board, q);
            lemma_gravity_fall_fits(board, q, after_shift(m1, board, q), interval);
        }
    }
}

pub fn is_grounded(board: &Board, p: &ActivePiece) -> (r: bool)
    requires
        p.row <= i32::MAX - 4,
        p.col <= i32::MAX - 3,
    ensures
        r == spec_grounded(board@, *p),
{
    let dropped = ActivePiece { row: p.row + 1, ..*p };
    !piece_fits(board, &dropped)
}

/// Updates the lock timer after a successful move or turn to `p`.
pub fn note_shift(m: &mut Motion, board: &Board, p: &ActivePiece)
    requires
        p.row <= i32::MAX - 4,
        p.col <= i32::MAX - 3,
    ensures
        *final(m) == after_shift(*old(m), board@, *p),
{
    if m.lock_timer_us.is_some() && is_grounded(board, p) {
        if m.lock_reset_count < MAX_LOCK_RESETS {
            m.lock_timer_us = Some(0);
            m.lock_reset_count += 1;
        }
    } else if !is_grounded(board, p) {
        m.lock_timer_us = None;
    }
}

/// Moves `p` by `(dr, dc)` when it fits there, updating the timers; `None` and
/// no change otherwise.
pub fn try_shift(board: &Board, p: &ActivePiece, m: &mut Motion, dr: i32, dc: i32) -> (r: Option<ActivePiece>)
    requires
        p.in_range(),
        -1 <= dr <= 1,
        -1 <= dc <= 1,
    ensures
        r == match spec_shift(board@, *p, *old(m), dr as int, dc as int) {
            Some(x) => Some(x.0),
            None => None::<ActivePiece>,
        },
        *final(m) == match spec_shift(board@, *p, *old(m), dr as int, dc as int) {
            Some(x) => x.1,
            None => *old(m),
        },
        r matches Some(q) ==> spec_fits(board@, q),
{
    let cand = ActivePiece { row: p.row + dr, col: p.col + dc, ..*p };
    assert(cand == moved(*p, dr as int, dc as int));
    if piece_fits(board, &cand) {
        note_shift(m, board, &cand);
        Some(cand)
    } else {
        None
    }
}

/// Hard drop: lets `p` fall while it fits. The resting piece and the rows fallen.
pub fn fall_fully(board: &Board, p: ActivePiece, m: &mut Motion) -> (r: (ActivePiece, u32))
    requires
        p.in_range(),
    ensures
        (r.0, *final(m), r.1 as int) == hard_fall(board@, p, *old(m)),
        r.0.in_range(),
        final(m).soft_dropping == old(m).soft_dropping,
{
    let ghost target = hard_fall(board@, p, *old(m));
    let mut cur = p;
    let mut rows: u32 = 0;
    let mut resting = false;
    while !resting
        invariant
            cur.in_range(),
            p.row <= cur.row,
            cur.kind == p.kind && cur.rotation == p.rotation && cur.col == p.col,
            rows == cur.row - p.row,
            m.soft_dropping == old(m).soft_dropping,
            cur.row == p.row || cur.row < BOARD_TOTAL_HEIGHT,
            !resting ==> hard_fall(board@, cur, *m) == (target.0, target.1, target.2 - rows),
            resting ==> (cur, *m, rows as int) == target,
        decreases BOARD_TOTAL_HEIGHT + 1 - cur.row, if resting { 0int } else { 1int },
    {
        let ghost before = *m;
        match try_shift(board, &cur, m, 1, 0) {
            Some(q) => {
                proof {
                    lemma_fits_row_bound(board@, q);
                }
                cur = q;
                rows += 1;
            },
            None => {
                proof {
                    if cur.row < BOARD_TOTAL_HEIGHT {
                        assert(!spec_fits(board@, moved(cur, 1, 0)));
                    }
                    assert(hard_fall(board@, cur, before) == (cur, before, 0int));
                }
                resting = true;
            },
        }
    }
    (cur, rows)
}

/// Gravity over the accumulated time in `m`, one row per `interval`
/// microseconds. The piece after falling and the rows fallen.
pub fn fall_by_gravity(board: &Board, p: ActivePiece, m: &mut Motion, interval: u64) -> (r: (ActivePiece, u32))
    requires
        p.in_range(),
        interval > 0,
    ensures
        (r.0, *final(m), r.1 as int) == gravity_fall(board@, p, *old(m), interval),
        r.0.in_range(),
        final(m).soft_dropping == old(m).soft_dropping,
{
    let ghost target = gravity_fall(board@, p, *old(m), interval);
    let mut cur = p;
    let mut rows: u32 = 0;
    let mut resting = false;
    while !resting && m.gravity_accum_us >= interval
        invariant
            interval > 0,
            cur.in_range(),
            p.row <= cur.row,
            cur.kind == p.kind && cur.rotation == p.rotation && cur.col == p.col,
            rows == cur.row - p.row,
            m.soft_dropping == old(m).soft_dropping,
            cur.row == p.row || cur.row < BOARD_TOTAL_HEIGHT,
            !resting ==> gravity_fall(board@, cur, *m, interval) == (target.0, target.1, target.2 - rows),
            resting ==> (cur, *m, rows as int) == target,
        decreases m.gravity_accum_us, if resting { 0int } else { 1int },
    {
        let ghost before = *m;
        m.gravity_accum_us = m.gravity_accum_us - interval;
        let ghost m1 = *m;
        match try_shift(board, &cur, m, 1, 0) {
            Some(q) => {
                proof {
                    lemma_fits_row_bound(board@, q);
                }
                cur = q;
                rows += 1;
            },
            None => {
                proof {
                    if cur.row < BOARD_TOTAL_HEIGHT {
                        assert(!spec_fits(board@, moved(cur, 1, 0)));
                    }
                    assert(gravity_fall(board@, cur, before, interval) == (cur, m1, 0int));
                }
                resting = true;
            },
        }
    }
    (cur, rows)
}

/// Locks `p` into the board: its cells are filled, then full rows are
/// cleared. Returns the number of rows cleared.
pub fn place_and_clear(board: &mut Board, p: &ActivePiece) -> (cleared: u32)
    requires
        p.offsets_fit(),
    ensures
        final(board)@ == locked_view(old(board)@, *p),
        cleared == lock_clears(old(board)@, *p),
{
    let cells = p.occupied_cells();
    let (r0, c0) = cells[0];
    board.set(r0, c0, Some(p.kind));
    let (r1, c1) = cells[1];
    board.set(r1, c1, Some(p.kind));
    let (r2, c2) = cells[2];
    board.set(r2, c2, Some(p.kind));
    let (r3, c3) = cells[3];
    board.set(r3, c3, Some(p.kind));
    board.clear_full_rows()
}

/// With no lock timer running, a hard drop leaves the timers as they were.
pub proof fn lemma_hard_fall_keeps_idle_motion(board: Seq<Cell>, p: ActivePiece, m: Motion)
    requires
        m.lock_timer_us is None,
    ensures
        hard_fall(board, p, m).1 == m,
    decreases BOARD_TOTAL_HEIGHT - p.row,
{
    if p.row < BOARD_TOTAL_HEIGHT && spec_fits(board, moved(p, 1, 0)) {
        let q = moved(p, 1, 0);
        lemma_fits_row_bound(board, q);
        assert(after_shift(m, board, q) == m);
        lemma_hard_fall_keeps_idle_motion(board, q, m);
    }
}

/// Lock delay: a piece resting on something locks at the end of a tick once
/// its lock timer (zero if none was running) plus the tick reaches half a
/// second, and otherwise keeps counting; a piece in the air never locks and
/// has no lock timer.
pub proof fn law_lock_delay(board: Seq<Cell>, p: ActivePiece, m: Motion, dt: u64)
    ensures
        spec_grounded(board, p) ==> (lock_check(board, p, m, dt).0 <==> (match m.lock_timer_us {
            Some(t) => t,
            None => 0u64,
        }).saturating_add(dt) >= 500_000),
        spec_grounded(board, p) && !lock_check(board, p, m, dt).0 ==> lock_check(board, p, m, dt).1.lock_timer_us
            == Some((match m.lock_timer_us {
            Some(t) => t,
            None => 0u64,
        }).saturating_add(dt)),
        !spec_grounded(board, p) ==> !lock_check(board, p, m, dt).0 && lock_check(board, p, m, dt).1.lock_timer_us is None,
{
}

/// A move or turn that leaves the piece resting restarts a running lock
/// timer, at most 15 times per piece; one that leaves it in the air stops the
/// timer.
pub proof fn law_lock_resets(m: Motion, board: Seq<Cell>, p: ActivePiece)
    ensures
        m.lock_timer_us is Some && spec_grounded(board, p) && m.lock_reset_count < 15 ==> after_shift(m, board, p).lock_timer_us
            == Some(0u64) && after_shift(m, board, p).lock_reset_count == m.lock_reset_count + 1,
        m.lock_timer_us is Some && spec_grounded(board, p) && m.lock_reset_count >= 15 ==> after_shift(m, board, p) == m,
        !spec_grounded(board, p) ==> after_shift(m, board, p).lock_timer_us is None,
{
}

} // verus!
