//! The "Independent Cross" mode: four standard Tetris wells arranged N/E/S/W
//! sharing **one** piece stream. Only one piece is ever falling at a time;
//! before it spawns, the player or AI commits it to a well (`select_well`),
//! and it then plays out as ordinary real-time Tetris in that well until it
//! locks, at which point the next piece from the shared queue needs a well
//! selected again.
//!
//! Each well keeps its own board, score, level, hold slot, top-out flag and
//! count of pieces placed. The game ends when any single well tops out. A
//! well that is more than `MAX_WELL_IMBALANCE` pieces ahead of the least-used
//! well cannot be selected.

use vstd::prelude::*;
use crate::actions::Action;
use crate::bag::{SevenBag, drawn, refilled, refilled_to};
use crate::board::{Board, Cell, empty_view};
use crate::motion::{
    Motion, after_shift, spec_shift, hard_fall, gravity_fall, lock_check, locked_view, lock_clears,
    placed_view, try_shift, note_shift, fall_fully, fall_by_gravity, place_and_clear, is_grounded,
    lemma_gravity_fall_fits, LOCK_DELAY_US, SOFT_DROP_MULTIPLIER, LINES_PER_LEVEL, SPAWN_ROW,
};
use crate::piece::{ActivePiece, PieceKind, Rotation};
use crate::rng::{seed_state, Rng, draw_below, xorshift_step};
use crate::rotation::{spec_fits, spec_try_rotate, piece_fits, try_rotate, lemma_first_fitting_kick_fits, lemma_shape_bounds};
use crate::scoring::{spec_line_clear_score, line_clear_score, spec_gravity_us_per_row, gravity_us_per_row, HARD_DROP_POINTS_PER_CELL};

verus! {

/// How many pieces a well may be ahead of the least-used well and still be selected.
pub const MAX_WELL_IMBALANCE: u32 = 8;

/// How long, in milliseconds, a player may take to pick a well before one is
/// picked for them with `random_selectable_well`.
pub const SELECTION_TIMEOUT_MS: u64 = 5000;

#[derive(Copy, Clone, PartialEq, Eq, Structural, Debug)]
pub enum Arm {
    North,
    East,
    South,
    West,
}

impl Arm {
    pub const ALL: [Arm; 4] = [Arm::North, Arm::East, Arm::South, Arm::West];

    pub open spec fn spec_index(self) -> int {
        match self {
            Arm::North => 0,
            Arm::East => 1,
            Arm::South => 2,
            Arm::West => 3,
        }
    }

    pub fn index(self) -> (r: usize)
        ensures
            r == self.spec_index(),
            r < 4,
    {
        match self {
            Arm::North => 0,
            Arm::East => 1,
            Arm::South => 2,
            Arm::West => 3,
        }
    }
}

/// One well's state, as plain values.
pub struct WellModel {
    pub board: Seq<Cell>,
    pub score: u64,
    pub level: u32,
    pub lines_cleared_total: u32,
    pub hold: Option<PieceKind>,
    pub game_over: bool,
    pub pieces_placed: u32,
}

#[derive(Copy, Clone, PartialEq, Debug)]
pub struct Well {
    pub board: Board,
    pub score: u64,
    pub level: u32,
    pub lines_cleared_total: u32,
    pub hold: Option<PieceKind>,
    pub game_over: bool,
    pub pieces_placed: u32,
}

impl View for Well {
    type V = WellModel;

    open spec fn view(&self) -> WellModel {
        WellModel {
            board: self.board@,
            score: self.score,
            level: self.level,
            lines_cleared_total: self.lines_cleared_total,
            hold: self.hold,
            game_over: self.game_over,
            pieces_placed: self.pieces_placed,
        }
    }
}

impl Well {
    pub open spec fn fresh() -> WellModel {
        WellModel {
            board: empty_view(),
            score: 0,
            level: 1,
            lines_cleared_total: 0,
            hold: None,
            game_over: false,
            pieces_placed: 0,
        }
    }

    fn new() -> (w: Self)
        ensures
            w@ == Self::fresh(),
    {
        Well {
            board: Board::new(),
            score: 0,
            level: 1,
            lines_cleared_total: 0,
            hold: None,
            game_over: false,
            pieces_placed: 0,
        }
    }
}

/// The falling piece and the well it falls in.
#[derive(Copy, Clone, PartialEq, Debug)]
pub struct ActiveInWell {
    pub arm: Arm,
    pub piece: ActivePiece,
}

/// The whole cross game, as plain values.
pub struct CrossModel {
    pub wells: Seq<WellModel>,
    pub bag: (Seq<PieceKind>, u64),
    pub active: Option<ActiveInWell>,
    pub hold_used_this_piece: bool,
    pub motion: Motion,
}

/// Fewest pieces placed in any of the four wells.
pub open spec fn min_pieces_placed(wells: Seq<WellModel>) -> u32 {
    let a = if wells[0].pieces_placed <= wells[1].pieces_placed { wells[0].pieces_placed } else { wells[1].pieces_placed };
    let b = if wells[2].pieces_placed <= wells[3].pieces_placed { wells[2].pieces_placed } else { wells[3].pieces_placed };
    if a <= b { a } else { b }
}

/// A well may take the next piece: it has not topped out and is at most
/// `MAX_WELL_IMBALANCE` pieces ahead of the least-used well.
pub open spec fn well_selectable(wells: Seq<WellModel>, i: int) -> bool {
    !wells[i].game_over && wells[i].pieces_placed <= min_pieces_placed(wells) + MAX_WELL_IMBALANCE
}

impl CrossModel {
    pub open spec fn initial(seed: u64) -> CrossModel {
        CrossModel {
            wells: seq![Well::fresh(), Well::fresh(), Well::fresh(), Well::fresh()],
            bag: refilled((Seq::empty(), seed_state(seed))),
            active: None,
            hold_used_this_piece: false,
            motion: Motion { soft_dropping: false, gravity_accum_us: 0, lock_timer_us: None, lock_reset_count: 0 },
        }
    }

    pub open spec fn with_well(self, i: int, w: WellModel) -> CrossModel {
        CrossModel { wells: self.wells.update(i, w), ..self }
    }

    /// `kind` enters well `arm` at the spawn row; if it does not fit there the
    /// well tops out and no piece is falling.
    pub open spec fn spawn_in(self, arm: Arm, kind: PieceKind) -> CrossModel {
        let piece = ActivePiece::spec_spawn(kind, SPAWN_ROW);
        let i = arm.spec_index();
        if !spec_fits(self.wells[i].board, piece) {
            CrossModel { active: None, ..self.with_well(i, WellModel { game_over: true, ..self.wells[i] }) }
        } else {
            CrossModel {
                active: Some(ActiveInWell { arm, piece }),
                hold_used_this_piece: false,
                motion: Motion { soft_dropping: false, gravity_accum_us: 0, lock_timer_us: None, lock_reset_count: 0 },
                ..self
            }
        }
    }

    /// Whether `select_well(arm)` is accepted: no piece is falling and the well is selectable.
    pub open spec fn can_select(self, arm: Arm) -> bool {
        self.active is None && well_selectable(self.wells, arm.spec_index())
    }

    /// The next piece from the shared queue is committed to `arm`.
    pub open spec fn select(self, arm: Arm) -> CrossModel {
        if !self.can_select(arm) {
            self
        } else {
            let (bag, kind) = drawn(self.bag);
            CrossModel { bag, ..self }.spawn_in(arm, kind)
        }
    }

    /// The falling piece locks into its well: cells filled, full rows cleared,
    /// the well's score, lines, level and piece count advance, and the game
    /// waits for the next well selection.
    pub open spec fn lock_active(self) -> CrossModel {
        match self.active {
            None => self,
            Some(a) => {
                let i = a.arm.spec_index();
                let w = self.wells[i];
                let cleared = lock_clears(w.board, a.piece) as u32;
                let lines = w.lines_cleared_total.saturating_add(cleared);
                let w2 = WellModel {
                    board: locked_view(w.board, a.piece),
                    score: w.score.saturating_add(spec_line_clear_score(cleared, w.level)),
                    lines_cleared_total: lines,
                    level: (lines / LINES_PER_LEVEL + 1) as u32,
                    pieces_placed: w.pieces_placed.saturating_add(1),
                    ..w
                };
                CrossModel { active: None, motion: Motion { soft_dropping: false, ..self.motion }, ..self.with_well(i, w2) }
            },
        }
    }

    pub open spec fn shift(self, a: ActiveInWell, dr: int, dc: int) -> CrossModel {
        match spec_shift(self.wells[a.arm.spec_index()].board, a.piece, self.motion, dr, dc) {
            Some(x) => CrossModel { active: Some(ActiveInWell { arm: a.arm, piece: x.0 }), motion: x.1, ..self },
            None => self,
        }
    }

    pub open spec fn rotate(self, a: ActiveInWell, cw: bool) -> CrossModel {
        let board = self.wells[a.arm.spec_index()].board;
        match spec_try_rotate(board, a.piece, cw) {
            Some(r) => CrossModel {
                active: Some(ActiveInWell { arm: a.arm, piece: r }),
                motion: after_shift(self.motion, board, r),
                ..self
            },
            None => self,
        }
    }

    pub open spec fn add_score(self, i: int, points: u64) -> CrossModel {
        self.with_well(i, WellModel { score: self.wells[i].score.saturating_add(points), ..self.wells[i] })
    }

    pub open spec fn hard_drop(self, a: ActiveInWell) -> CrossModel {
        let i = a.arm.spec_index();
        let f = hard_fall(self.wells[i].board, a.piece, self.motion);
        CrossModel {
            active: Some(ActiveInWell { arm: a.arm, piece: f.0 }),
            motion: f.1,
            ..self.add_score(i, (f.2 * HARD_DROP_POINTS_PER_CELL) as u64)
        }.lock_active()
    }

    pub open spec fn hold_swap(self, a: ActiveInWell) -> CrossModel {
        if self.hold_used_this_piece {
            self
        } else {
            let i = a.arm.spec_index();
            let w = WellModel { hold: Some(a.piece.kind), ..self.wells[i] };
            let (bag, kind) = match self.wells[i].hold {
                Some(k) => (self.bag, k),
                None => drawn(self.bag),
            };
            let piece = ActivePiece::spec_spawn(kind, SPAWN_ROW);
            let g = CrossModel { bag, ..self.with_well(i, w) };
            if !spec_fits(w.board, piece) {
                CrossModel { active: None, ..g.with_well(i, WellModel { game_over: true, ..w }) }
            } else {
                CrossModel {
                    active: Some(ActiveInWell { arm: a.arm, piece }),
                    hold_used_this_piece: true,
                    motion: self.motion.respawned(),
                    ..g
                }
            }
        }
    }

    pub open spec fn gravity_interval(self, level: u32) -> u64 {
        if self.motion.soft_dropping {
            spec_gravity_us_per_row(level) / SOFT_DROP_MULTIPLIER
        } else {
            spec_gravity_us_per_row(level)
        }
    }

    pub open spec fn tick(self, a: ActiveInWell, dt: u64) -> CrossModel {
        let i = a.arm.spec_index();
        let board = self.wells[i].board;
        let m0 = Motion { gravity_accum_us: self.motion.gravity_accum_us.saturating_add(dt), ..self.motion };
        let f = gravity_fall(board, a.piece, m0, self.gravity_interval(self.wells[i].level));
        let scored = if self.motion.soft_dropping { self.add_score(i, f.2 as u64) } else { self };
        let g = CrossModel { active: Some(ActiveInWell { arm: a.arm, piece: f.0 }), motion: f.1, ..scored };
        let c = lock_check(board, f.0, f.1, dt);
        if c.0 {
            g.lock_active()
        } else {
            CrossModel { motion: c.1, ..g }
        }
    }

    /// The game after `action`, which acts on the falling piece. Nothing
    /// happens while no piece is falling or once its well has topped out.
    pub open spec fn apply(self, action: Action) -> CrossModel {
        match self.active {
            None => self,
            Some(a) => if self.wells[a.arm.spec_index()].game_over {
                self
            } else {
                match action {
                    Action::MoveLeft => self.shift(a, 0, -1),
                    Action::MoveRight => self.shift(a, 0, 1),
                    Action::RotateCw => self.rotate(a, true),
                    Action::RotateCcw => self.rotate(a, false),
                    Action::SoftDropStart => CrossModel { motion: Motion { soft_dropping: true, ..self.motion }, ..self },
                    Action::SoftDropEnd => CrossModel { motion: Motion { soft_dropping: false, ..self.motion }, ..self },
                    Action::HardDrop => self.hard_drop(a),
                    Action::Hold => self.hold_swap(a),
                    Action::Tick(dt) => self.tick(a, dt),
                }
            },
        }
    }
}

#[derive(Clone, PartialEq, Debug)]
pub struct CrossGame {
    pub wells: [Well; 4],
    /// The one piece stream all four wells share.
    pub bag: SevenBag,
    /// The falling piece and its well, if any.
    pub active: Option<ActiveInWell>,
    pub hold_used_this_piece: bool,
    /// Gravity, lock-delay and soft-drop state of the falling piece.
    pub motion: Motion,
}

impl View for CrossGame {
    type V = CrossModel;

    open spec fn view(&self) -> CrossModel {
        CrossModel {
            wells: Seq::new(4, |i: int| self.wells@[i]@),
            bag: self.bag@,
            active: self.active,
            hold_used_this_piece: self.hold_used_this_piece,
            motion: self.motion,
        }
    }
}

impl CrossGame {
    /// The bag is well formed and the falling piece's coordinates are small
    /// enough for every move.
    pub open spec fn wf(self) -> bool {
        &&& self.bag.wf()
        &&& self.active matches Some(a) ==> a.piece.in_range()
    }

    /// The falling piece, if any, is far enough from the coordinate bound
    /// that one more action keeps the game well formed.
    pub open spec fn margin_ok(self) -> bool {
        self.active matches Some(a) ==> a.piece.well_inside()
    }

    pub fn new(seed: u64) -> (cross: Self)
        ensures
            cross@ == CrossModel::initial(seed),
            cross.wf(),
    {
        let cross = CrossGame {
            wells: [Well::new(), Well::new(), Well::new(), Well::new()],
            bag: SevenBag::new(seed),
            active: None,
            hold_used_this_piece: false,
            motion: Motion::new(),
        };
        assert(cross@.wells =~= seq![Well::fresh(), Well::fresh(), Well::fresh(), Well::fresh()]);
        cross
    }

    pub fn well(&self, arm: Arm) -> (w: &Well)
        ensures
            *w == self.wells@[arm.spec_index()],
    {
        &self.wells[arm.index()]
    }

    /// True when no piece is currently falling — the player/AI must call
    /// `select_well` before anything else will happen.
    pub fn awaiting_well_selection(&self) -> (r: bool)
        ensures
            r == (self.active is None),
    {
        self.active.is_none()
    }

    /// Which well currently has the falling piece, if any.
    pub fn active_arm(&self) -> (r: Option<Arm>)
        ensures
            r == match self.active {
                Some(a) => Some(a.arm),
                None => None::<Arm>,
            },
    {
        match self.active {
            Some(a) => Some(a.arm),
            None => None,
        }
    }

    pub fn active_piece(&self) -> (r: Option<ActivePiece>)
        ensures
            r == match self.active {
                Some(a) => Some(a.piece),
                None => None::<ActivePiece>,
            },
    {
        match self.active {
            Some(a) => Some(a.piece),
            None => None,
        }
    }

    /// Directly overwrites the falling piece's rotation/position. Placement-
    /// level AI convenience that bypasses real-time kick-path movement.
    /// No-op if no piece is active.
    pub fn force_active_placement(&mut self, rotation: Rotation, row: i32, col: i32)
        ensures
            final(self).active == match old(self).active {
                Some(a) => Some(ActiveInWell { arm: a.arm, piece: ActivePiece { rotation, row, col, ..a.piece } }),
                None => None::<ActiveInWell>,
            },
            final(self).wells == old(self).wells,
            final(self).bag == old(self).bag,
            final(self).hold_used_this_piece == old(self).hold_used_this_piece,
            final(self).motion == old(self).motion,
    {
        if let Some(a) = self.active {
            self.active = Some(ActiveInWell { arm: a.arm, piece: ActivePiece { rotation, row, col, ..a.piece } });
        }
    }

    /// The upcoming piece kinds, without consuming them — the same queue
    /// regardless of which well they eventually go to.
    pub fn next_queue(&mut self, n: usize) -> (r: Vec<PieceKind>)
        requires
            old(self).bag.wf(),
        ensures
            final(self)@ == (CrossModel { bag: refilled_to(old(self)@.bag, n as int), ..old(self)@ }),
            r@ == final(self).bag.upcoming().take(n as int),
            final(self).bag.wf(),
            final(self).active == old(self).active,
    {
        self.bag.preview(n)
    }

    fn min_pieces_placed(&self) -> (r: u32)
        ensures
            r == min_pieces_placed(self@.wells),
    {
        let a = if self.wells[0].pieces_placed <= self.wells[1].pieces_placed {
            self.wells[0].pieces_placed
        } else {
            self.wells[1].pieces_placed
        };
        let b = if self.wells[2].pieces_placed <= self.wells[3].pieces_placed {
            self.wells[2].pieces_placed
        } else {
            self.wells[3].pieces_placed
        };
        if a <= b {
            a
        } else {
            b
        }
    }

    /// Whether `arm` may take the next piece: it has not topped out and is at
    /// most `MAX_WELL_IMBALANCE` pieces ahead of the least-used well.
    pub fn is_well_selectable(&self, arm: Arm) -> (r: bool)
        ensures
            r == well_selectable(self@.wells, arm.spec_index()),
    {
        let well = &self.wells[arm.index()];
        let min = self.min_pieces_placed();
        !well.game_over && well.pieces_placed as u64 <= min as u64 + MAX_WELL_IMBALANCE as u64
    }

    /// Commits the next piece from the shared queue to `arm`. Fails (returns
    /// `false`, no state change) if a piece is already falling or the well is
    /// not selectable (topped out, or too far ahead of the least-used well).
    /// If the well can't legally hold a fresh spawn, the well tops out and the
    /// piece is consumed but never becomes active.
    pub fn select_well(&mut self, arm: Arm) -> (selected: bool)
        requires
            old(self).wf(),
        ensures
            selected == old(self)@.can_select(arm),
            final(self)@ == old(self)@.select(arm),
            final(self).wf(),
    {
        if self.active.is_some() || !self.is_well_selectable(arm) {
            return false;
        }
        let kind = self.bag.next();
        self.spawn_in_well(arm, kind);
        true
    }

    fn set_well(&mut self, i: usize, w: Well)
        requires
            i < 4,
        ensures
            final(self)@ == old(self)@.with_well(i as int, w@),
            final(self).wells@ == old(self).wells@.update(i as int, w),
            final(self).bag == old(self).bag,
            final(self).active == old(self).active,
    {
        self.wells[i] = w;
        assert(self@.wells =~= old(self)@.wells.update(i as int, w@));
    }

    fn spawn_in_well(&mut self, arm: Arm, kind: PieceKind)
        requires
            old(self).bag.wf(),
        ensures
            final(self)@ == old(self)@.spawn_in(arm, kind),
            final(self).wf(),
    {
        let piece = ActivePiece::spawn(kind, SPAWN_ROW);
        let i = arm.index();
        if !piece_fits(&self.wells[i].board, &piece) {
            let mut w = self.wells[i];
            w.game_over = true;
            self.set_well(i, w);
            self.active = None;
            return;
        }
        self.active = Some(ActiveInWell { arm, piece });
        self.hold_used_this_piece = false;
        self.motion = Motion::new();
    }

    pub(crate) fn add_score(&mut self, i: usize, points: u64)
        requires
            i < 4,
        ensures
            final(self)@ == old(self)@.add_score(i as int, points),
            final(self).bag == old(self).bag,
            final(self).active == old(self).active,
    {
        let mut w = self.wells[i];
        w.score = w.score.saturating_add(points);
        self.set_well(i, w);
    }

    fn lock_active_piece(&mut self)
        requires
            old(self).bag.wf(),
            old(self).active matches Some(a) ==> a.piece.offsets_fit(),
        ensures
            final(self)@ == old(self)@.lock_active(),
            final(self).wf(),
    {
        let a = match self.active {
            None => {
                return;
            },
            Some(a) => a,
        };
        let i = a.arm.index();
        let mut w = self.wells[i];
        let cleared = place_and_clear(&mut w.board, &a.piece);
        w.score = w.score.saturating_add(line_clear_score(cleared, w.level));
        w.lines_cleared_total = w.lines_cleared_total.saturating_add(cleared);
        w.level = w.lines_cleared_total / LINES_PER_LEVEL + 1;
        w.pieces_placed = w.pieces_placed.saturating_add(1);
        self.set_well(i, w);
        self.active = None;
        self.motion.soft_dropping = false;
    }

    /// Applies a real-time action to whichever piece is currently falling.
    /// No-op (including `Tick`) if no piece is active — the game is paused
    /// between pieces until `select_well` is called.
    pub fn apply(&mut self, action: Action)
        requires
            old(self).wf(),
        ensures
            final(self)@ == old(self)@.apply(action),
            final(self).bag.wf(),
            old(self).margin_ok() ==> final(self).wf(),
    {
        let a = match self.active {
            None => {
                return;
            },
            Some(a) => a,
        };
        let i = a.arm.index();
        if self.wells[i].game_over {
            return;
        }
        match action {
            Action::MoveLeft => {
                if let Some(q) = try_shift(&self.wells[i].board, &a.piece, &mut self.motion, 0, -1) {
                    self.active = Some(ActiveInWell { arm: a.arm, piece: q });
                }
            },
            Action::MoveRight => {
                if let Some(q) = try_shift(&self.wells[i].board, &a.piece, &mut self.motion, 0, 1) {
                    self.active = Some(ActiveInWell { arm: a.arm, piece: q });
                }
            },
            Action::RotateCw | Action::RotateCcw => {
                let cw = match action {
                    Action::RotateCw => true,
                    _ => false,
                };
                if let Some(rotated) = try_rotate(&self.wells[i].board, &a.piece, cw) {
                    self.active = Some(ActiveInWell { arm: a.arm, piece: rotated });
                    note_shift(&mut self.motion, &self.wells[i].board, &rotated);
                }
            },
            Action::SoftDropStart => self.motion.soft_dropping = true,
            Action::SoftDropEnd => self.motion.soft_dropping = false,
            Action::HardDrop => {
                let (q, rows) = fall_fully(&self.wells[i].board, a.piece, &mut self.motion);
                self.active = Some(ActiveInWell { arm: a.arm, piece: q });
                self.add_score(i, rows as u64 * HARD_DROP_POINTS_PER_CELL);
                self.lock_active_piece();
            },
            Action::Hold => self.apply_hold(a),
            Action::Tick(dt) => self.tick(a, dt),
        }
    }

    fn apply_hold(&mut self, a: ActiveInWell)
        requires
            old(self).wf(),
            old(self).active == Some(a),
        ensures
            final(self)@ == old(self)@.hold_swap(a),
            final(self).wf(),
    {
        if self.hold_used_this_piece {
            return;
        }
        let i = a.arm.index();
        let mut w = self.wells[i];
        let incoming = w.hold;
        w.hold = Some(a.piece.kind);
        self.set_well(i, w);
        let kind = match incoming {
            Some(k) => k,
            None => self.bag.next(),
        };
        let piece = ActivePiece::spawn(kind, SPAWN_ROW);
        if !piece_fits(&w.board, &piece) {
            w.game_over = true;
            self.set_well(i, w);
            self.active = None;
            return;
        }
        self.active = Some(ActiveInWell { arm: a.arm, piece });
        self.hold_used_this_piece = true;
        self.motion.gravity_accum_us = 0;
        self.motion.lock_timer_us = None;
        self.motion.lock_reset_count = 0;
    }

    fn tick(&mut self, a: ActiveInWell, dt: u64)
        requires
            old(self).wf(),
            old(self).active == Some(a),
        ensures
            final(self)@ == old(self)@.tick(a, dt),
            final(self).wf(),
    {
        let i = a.arm.index();
        let per_row = gravity_us_per_row(self.wells[i].level);
        let interval = if self.motion.soft_dropping {
            per_row / SOFT_DROP_MULTIPLIER
        } else {
            per_row
        };
        self.motion.gravity_accum_us = self.motion.gravity_accum_us.saturating_add(dt);
        let board = self.wells[i].board;
        let (q, rows) = fall_by_gravity(&board, a.piece, &mut self.motion, interval);
        self.active = Some(ActiveInWell { arm: a.arm, piece: q });
        if self.motion.soft_dropping {
            self.add_score(i, rows as u64);
        }
        if is_grounded(&board, &q) {
            let elapsed = match self.motion.lock_timer_us {
                Some(t) => t,
                None => 0,
            }.saturating_add(dt);
            if elapsed >= LOCK_DELAY_US {
                self.lock_active_piece();
            } else {
                self.motion.lock_timer_us = Some(elapsed);
            }
        } else {
            self.motion.lock_timer_us = None;
        }
    }

    /// A copy of `arm`'s board with the active piece composited in (if it's
    /// the well currently holding the falling piece), for rendering.
    pub fn rendered_board(&self, arm: Arm) -> (b: Board)
        requires
            self.active matches Some(a) ==> a.piece.offsets_fit(),
        ensures
            b@ == match self.active {
                Some(a) => if a.arm == arm {
                    placed_view(self.wells@[arm.spec_index()].board@, a.piece)
                } else {
                    self.wells@[arm.spec_index()].board@
                },
                None => self.wells@[arm.spec_index()].board@,
            },
    {
        let mut b = self.wells[arm.index()].board;
        if let Some(a) = self.active {
            if a.arm == arm {
                let p = a.piece;
                let cells = p.occupied_cells();
                let (r0, c0) = cells[0];
                b.set(r0, c0, Some(p.kind));
                let (r1, c1) = cells[1];
                b.set(r1, c1, Some(p.kind));
                let (r2, c2) = cells[2];
                b.set(r2, c2, Some(p.kind));
                let (r3, c3) = cells[3];
                b.set(r3, c3, Some(p.kind));
            }
        }
        b
    }

    /// Sum of the four wells' scores (saturating at `u64::MAX`).
    pub fn total_score(&self) -> (r: u64)
        ensures
            r == self.wells@[0].score.saturating_add(self.wells@[1].score).saturating_add(
                self.wells@[2].score,
            ).saturating_add(self.wells@[3].score),
    {
        self.wells[0].score.saturating_add(self.wells[1].score).saturating_add(self.wells[2].score).saturating_add(
            self.wells[3].score,
        )
    }

    /// Sum of the four wells' cleared lines (saturating at `u32::MAX`).
    pub fn total_lines_cleared(&self) -> (r: u32)
        ensures
            r == self.wells@[0].lines_cleared_total.saturating_add(
                self.wells@[1].lines_cleared_total,
            ).saturating_add(self.wells@[2].lines_cleared_total).saturating_add(
                self.wells@[3].lines_cleared_total,
            ),
    {
        self.wells[0].lines_cleared_total.saturating_add(self.wells[1].lines_cleared_total).saturating_add(
            self.wells[2].lines_cleared_total,
        ).saturating_add(self.wells[3].lines_cleared_total)
    }

    /// Sum of the four wells' placed-piece counts (saturating at `u32::MAX`).
    pub fn total_pieces_placed(&self) -> (r: u32)
        ensures
            r == self.wells@[0].pieces_placed.saturating_add(self.wells@[1].pieces_placed).saturating_add(
                self.wells@[2].pieces_placed,
            ).saturating_add(self.wells@[3].pieces_placed),
    {
        self.wells[0].pieces_placed.saturating_add(self.wells[1].pieces_placed).saturating_add(
            self.wells[2].pieces_placed,
        ).saturating_add(self.wells[3].pieces_placed)
    }

    /// The game ends when any single well tops out.
    pub fn is_game_over(&self) -> (r: bool)
        ensures
            r == exists|i: int| 0 <= i < 4 && #[trigger] self.wells@[i].game_over,
    {
        let r = self.wells[0].game_over || self.wells[1].game_over || self.wells[2].game_over
            || self.wells[3].game_over;
        assert(r ==> exists|i: int| 0 <= i < 4 && #[trigger] self.wells@[i].game_over) by {
            if self.wells[0].game_over {
                assert(self.wells@[0].game_over);
            } else if self.wells[1].game_over {
                assert(self.wells@[1].game_over);
            } else if self.wells[2].game_over {
                assert(self.wells@[2].game_over);
            } else if self.wells[3].game_over {
                assert(self.wells@[3].game_over);
            }
        }
        r
    }
}

/// No well is more than one piece past the selection limit, and the well
/// holding the falling piece was within the limit when it was selected.
pub open spec fn cross_balanced(g: CrossModel) -> bool {
    &&& g.wells.len() == 4
    &&& forall|i: int| 0 <= i < 4 ==> (#[trigger] g.wells[i]).pieces_placed
        <= min_pieces_placed(g.wells) + MAX_WELL_IMBALANCE + 1
    &&& g.active matches Some(a) ==> g.wells[a.arm.spec_index()].pieces_placed
        <= min_pieces_placed(g.wells) + MAX_WELL_IMBALANCE
}

/// Every action leaves the other three wells exactly as they were: only the
/// well holding the falling piece can change, and the falling piece, if any
/// remains, stays in that well.
pub proof fn law_apply_touches_only_active_well(g: CrossModel, action: Action)
    requires
        g.wells.len() == 4,
        g.active is Some,
    ensures
        ({
            let i = g.active.unwrap().arm.spec_index();
            let h = g.apply(action);
            &&& h.wells.len() == 4
            &&& forall|j: int| 0 <= j < 4 && j != i ==> h.wells[j] == g.wells[j]
            &&& h.active matches Some(b) ==> b.arm == g.active.unwrap().arm
            &&& h.wells[i].pieces_placed == g.wells[i].pieces_placed
                || (h.wells[i].pieces_placed == g.wells[i].pieces_placed.saturating_add(1) && h.active is None)
        }),
{
}

/// While no piece is falling, every action (`Tick` included) is ignored: the
/// game waits for a well to be selected.
pub proof fn law_idle_until_selected(g: CrossModel, action: Action)
    requires
        g.active is None,
    ensures
        g.apply(action) == g,
{
}

/// A second selection while a piece is falling is rejected and changes nothing.
pub proof fn law_select_rejected_while_falling(g: CrossModel, arm: Arm)
    requires
        g.active is Some,
    ensures
        !g.can_select(arm),
        g.select(arm) == g,
{
}

/// A topped-out well is never selected.
pub proof fn law_topped_out_well_rejected(g: CrossModel, arm: Arm)
    requires
        g.wells[arm.spec_index()].game_over,
    ensures
        !g.can_select(arm),
        g.select(arm) == g,
{
}

/// A hard drop locks the piece into its well, counts it there, and returns
/// the game to waiting for the next selection.
pub proof fn law_hard_drop_returns_to_selection(g: CrossModel)
    requires
        g.wells.len() == 4,
        g.active matches Some(a) && !g.wells[a.arm.spec_index()].game_over,
    ensures
        g.apply(Action::HardDrop).active is None,
        g.apply(Action::HardDrop).wells[g.active.unwrap().arm.spec_index()].pieces_placed
            == g.wells[g.active.unwrap().arm.spec_index()].pieces_placed.saturating_add(1),
{
}

/// While no well has topped out, some well can always take the next piece:
/// the least-used well is never too far ahead.
pub proof fn law_some_well_selectable(g: CrossModel)
    requires
        g.wells.len() == 4,
        g.active is None,
        forall|i: int| 0 <= i < 4 ==> !(#[trigger] g.wells[i]).game_over,
    ensures
        exists|arm: Arm| #[trigger] g.can_select(arm),
{
    let m = min_pieces_placed(g.wells);
    if g.wells[0].pieces_placed == m {
        assert(g.can_select(Arm::North));
    } else if g.wells[1].pieces_placed == m {
        assert(g.can_select(Arm::East));
    } else if g.wells[2].pieces_placed == m {
        assert(g.can_select(Arm::South));
    } else {
        assert(g.can_select(Arm::West));
    }
}

proof fn lemma_min_monotone(a: Seq<WellModel>, b: Seq<WellModel>)
    requires
        a.len() == 4,
        b.len() == 4,
        forall|j: int| 0 <= j < 4 ==> (#[trigger] a[j]).pieces_placed <= b[j].pieces_placed,
    ensures
        min_pieces_placed(a) <= min_pieces_placed(b),
{
    assert(a[0].pieces_placed <= b[0].pieces_placed);
    assert(a[1].pieces_placed <= b[1].pieces_placed);
    assert(a[2].pieces_placed <= b[2].pieces_placed);
    assert(a[3].pieces_placed <= b[3].pieces_placed);
}

proof fn lemma_min_is_lower_bound(a: Seq<WellModel>)
    requires
        a.len() == 4,
    ensures
        forall|j: int| 0 <= j < 4 ==> min_pieces_placed(a) <= (#[trigger] a[j]).pieces_placed,
{
}

/// A new game starts balanced.
pub proof fn law_balance_initial(seed: u64)
    ensures
        cross_balanced(CrossModel::initial(seed)),
{
}

/// Selecting a well keeps the wells balanced.
pub proof fn law_balance_kept_by_select(g: CrossModel, arm: Arm)
    requires
        cross_balanced(g),
    ensures
        cross_balanced(g.select(arm)),
{
    let h = g.select(arm);
    if g.can_select(arm) {
        assert(forall|j: int| 0 <= j < 4 ==> (#[trigger] h.wells[j]).pieces_placed == g.wells[j].pieces_placed);
        lemma_min_monotone(g.wells, h.wells);
        lemma_min_monotone(h.wells, g.wells);
    }
}

/// Every action keeps the wells balanced: no well ever gets more than one
/// piece past the selection limit.
pub proof fn law_balance_kept_by_apply(g: CrossModel, action: Action)
    requires
        cross_balanced(g),
    ensures
        cross_balanced(g.apply(action)),
{
    if let Some(a) = g.active {
        law_apply_touches_only_active_well(g, action);
        let h = g.apply(action);
        let i = a.arm.spec_index();
        assert forall|j: int| 0 <= j < 4 implies (#[trigger] g.wells[j]).pieces_placed <= h.wells[j].pieces_placed by {
            if j != i {
                assert(h.wells[j] == g.wells[j]);
            }
        }
        lemma_min_monotone(g.wells, h.wells);
        lemma_min_is_lower_bound(g.wells);
        if h.wells[i].pieces_placed == g.wells[i].pieces_placed {
            assert forall|j: int| 0 <= j < 4 implies (#[trigger] h.wells[j]).pieces_placed == g.wells[j].pieces_placed by {
                if j != i {
                    assert(h.wells[j] == g.wells[j]);
                }
            }
            lemma_min_monotone(h.wells, g.wells);
        }
    }
}

/// The falling piece, if any, fits the board of its well (unless that well
/// has topped out).
pub open spec fn cross_active_legal(g: CrossModel) -> bool {
    match g.active {
        Some(a) => !g.wells[a.arm.spec_index()].game_over ==> spec_fits(g.wells[a.arm.spec_index()].board, a.piece),
        None => true,
    }
}

/// Selecting a well spawns the piece only where it fits: otherwise the well
/// tops out and no piece falls.
pub proof fn law_cross_select_legal(g: CrossModel, arm: Arm)
    requires
        g.wells.len() == 4,
        cross_active_legal(g),
    ensures
        cross_active_legal(g.select(arm)),
{
}

/// Every action keeps the falling piece where it fits in its well: moves,
/// turns and gravity only go where the piece fits, a lock leaves no piece
/// falling, and a held-in piece that does not fit tops the well out.
pub proof fn law_cross_active_piece_stays_legal(g: CrossModel, action: Action)
    requires
        g.wells.len() == 4,
        cross_active_legal(g),
    ensures
        cross_active_legal(g.apply(action)),
{
    if let Some(a) = g.active {
        let i = a.arm.spec_index();
        let board = g.wells[i].board;
        if !g.wells[i].game_over {
            match action {
                Action::RotateCw => {
                    lemma_first_fitting_kick_fits(board, a.piece, true, 0);
                },
                Action::RotateCcw => {
                    lemma_first_fitting_kick_fits(board, a.piece, false, 0);
                },
                Action::Tick(dt) => {
                    let m0 = Motion { gravity_accum_us: g.motion.gravity_accum_us.saturating_add(dt), ..g.motion };
                    lemma_gravity_fall_fits(board, a.piece, m0, g.gravity_interval(g.wells[i].level));
                },
                _ => {},
            }
        }
    }
}

/// No well's score ever goes down, whatever the action or selection.
pub proof fn law_cross_scores_never_decrease(g: CrossModel, action: Action, arm: Arm)
    requires
        g.wells.len() == 4,
    ensures
        forall|j: int| 0 <= j < 4 ==> (#[trigger] g.apply(action).wells[j]).score >= g.wells[j].score,
        forall|j: int| 0 <= j < 4 ==> (#[trigger] g.select(arm).wells[j]).score == g.wells[j].score,
{
}

/// The arm with index `i` in the order North, East, South, West.
pub open spec fn arm_of(i: int) -> Arm {
    if i == 0 {
        Arm::North
    } else if i == 1 {
        Arm::East
    } else if i == 2 {
        Arm::South
    } else {
        Arm::West
    }
}

/// The selectable arms among the first `n`, in the order North, East, South, West.
pub open spec fn selectable_arms_upto(wells: Seq<WellModel>, n: int) -> Seq<Arm>
    decreases n,
{
    if n <= 0 {
        Seq::empty()
    } else if well_selectable(wells, n - 1) {
        selectable_arms_upto(wells, n - 1).push(arm_of(n - 1))
    } else {
        selectable_arms_upto(wells, n - 1)
    }
}

pub open spec fn selectable_arms(wells: Seq<WellModel>) -> Seq<Arm> {
    selectable_arms_upto(wells, 4)
}

proof fn lemma_selectable_arms(wells: Seq<WellModel>, n: int)
    requires
        0 <= n <= 4,
    ensures
        selectable_arms_upto(wells, n).len() <= n,
        forall|j: int| 0 <= j < selectable_arms_upto(wells, n).len() ==> well_selectable(wells, (#[trigger] selectable_arms_upto(wells, n)[j]).spec_index()),
        selectable_arms_upto(wells, n).len() == 0 ==> forall|i: int| 0 <= i < n ==> !#[trigger] well_selectable(wells, i),
    decreases n,
{
    if n > 0 {
        lemma_selectable_arms(wells, n - 1);
        assert(arm_of(n - 1).spec_index() == n - 1);
    }
}

/// Picks the well for the next piece when the player has not chosen one in
/// time: one of the selectable wells (North, East, South, West order),
/// indexed by a draw from `rng` below their number. `None`, and `rng`
/// untouched, when no well is selectable.
pub fn random_selectable_well(cross: &CrossGame, rng: &mut Rng) -> (r: Option<Arm>)
    ensures
        selectable_arms(cross@.wells).len() == 0 ==> r is None && final(rng)@ == old(rng)@,
        selectable_arms(cross@.wells).len() > 0 ==> r == Some(
            selectable_arms(cross@.wells)[draw_below(old(rng)@, selectable_arms(cross@.wells).len() as u32) as int],
        ) && final(rng)@ == xorshift_step(old(rng)@),
        r matches Some(a) ==> well_selectable(cross@.wells, a.spec_index()),
        r is None <==> forall|i: int| 0 <= i < 4 ==> !#[trigger] well_selectable(cross@.wells, i),
{
    let ghost wells = cross@.wells;
    let mut arms: Vec<Arm> = Vec::new();
    let mut i: usize = 0;
    while i < 4
        invariant
            i <= 4,
            wells == cross@.wells,
            arms@ == selectable_arms_upto(wells, i as int),
        decreases 4 - i,
    {
        let arm = Arm::ALL[i];
        assert(arm == arm_of(i as int)) by {
            if i == 0 {
            } else if i == 1 {
            } else if i == 2 {
            } else {
            }
        }
        if cross.is_well_selectable(arm) {
            arms.push(arm);
        }
        i += 1;
    }
    proof {
        lemma_selectable_arms(wells, 4);
    }
    if arms.len() == 0 {
        return None;
    }
    let k = rng.next_below(arms.len() as u32);
    let a = arms[k as usize];
    proof {
        assert(well_selectable(wells, selectable_arms(wells)[k as int].spec_index()));
        let j = selectable_arms(wells)[k as int].spec_index();
        assert(0 <= j < 4);
    }
    Some(a)
}

proof fn lemma_empty_fits(p: ActivePiece)
    requires
        0 <= p.row,
        p.row + p.kind.spec_box_size() <= 40,
        0 <= p.col,
        p.col + p.kind.spec_box_size() <= 10,
    ensures
        spec_fits(empty_view(), p),
{
    lemma_shape_bounds(p.kind, p.rotation);
}

/// Right after a well is picked on an empty level-1 well, 1.2 s of play
/// makes the new piece fall exactly one row in that well (gravity is one row
/// per second there), without locking it.
pub proof fn law_select_then_tick_falls(g: CrossModel, arm: Arm)
    requires
        g.wells.len() == 4,
        g.can_select(arm),
        g.wells[arm.spec_index()].board == empty_view(),
        g.wells[arm.spec_index()].level == 1,
    ensures
        g.select(arm).active matches Some(a) && a.arm == arm && (g.select(arm).apply(Action::Tick(1_200_000)).active matches Some(
            b,
        ) && b.arm == arm && b.piece.row == a.piece.row + 1),
{
    reveal_with_fuel(gravity_fall, 3);
    let i = arm.spec_index();
    let (bag, kind) = drawn(g.bag);
    let piece = ActivePiece::spec_spawn(kind, SPAWN_ROW);
    lemma_empty_fits(piece);
    let q = ActivePiece { row: 19, ..piece };
    let q2 = ActivePiece { row: 20, ..piece };
    lemma_empty_fits(q);
    lemma_empty_fits(q2);
    assert(crate::motion::moved(piece, 1, 0) == q);
    assert(crate::motion::moved(q, 1, 0) == q2);
    let h = g.select(arm);
    assert(h.active == Some(ActiveInWell { arm, piece }));
    assert(h.wells[i].board == empty_view());
    assert(h.wells[i].level == 1);
    assert(!h.motion.soft_dropping && h.motion.gravity_accum_us == 0 && h.motion.lock_timer_us is None);
}

/// A hard drop in the cross scores, in the well holding the piece only,
/// 2 points for every row the piece falls to where it rests, then the
/// line-clear score of locking it there at that well's level; the cleared
/// rows are added to that well's lines and its level follows them.
pub proof fn law_cross_hard_drop_score(g: CrossModel)
    requires
        g.wells.len() == 4,
        g.active matches Some(a) && !g.wells[a.arm.spec_index()].game_over && spec_fits(
            g.wells[a.arm.spec_index()].board,
            a.piece,
        ),
    ensures
        ({
            let a = g.active.unwrap();
            let w = g.wells[a.arm.spec_index()];
            let q = hard_fall(w.board, a.piece, g.motion).0;
            let h = g.apply(Action::HardDrop).wells[a.arm.spec_index()];
            let cleared = lock_clears(w.board, q) as u32;
            &&& q.row >= a.piece.row
            &&& h.score == w.score.saturating_add((2 * (q.row - a.piece.row)) as u64).saturating_add(
                spec_line_clear_score(cleared, w.level),
            )
            &&& h.lines_cleared_total == w.lines_cleared_total.saturating_add(cleared)
            &&& h.level == h.lines_cleared_total / 10 + 1
            &&& h.board == locked_view(w.board, q)
        }),
{
    let a = g.active.unwrap();
    crate::motion::lemma_hard_fall_rests(g.wells[a.arm.spec_index()].board, a.piece, g.motion);
}

/// In every well the level is one more than a tenth of the lines cleared
/// there, and every action keeps it so.
pub proof fn law_cross_level_follows_lines(g: CrossModel, action: Action)
    requires
        g.wells.len() == 4,
        forall|j: int| 0 <= j < 4 ==> (#[trigger] g.wells[j]).level == g.wells[j].lines_cleared_total / 10 + 1,
    ensures
        forall|j: int| 0 <= j < 4 ==> (#[trigger] g.apply(action).wells[j]).level == g.apply(action).wells[j].lines_cleared_total / 10 + 1,
{
}

/// Hold in the cross, when available, puts the falling piece's kind in its
/// well's hold slot and brings the held kind in its place, leaving the shared
/// bag untouched, or, with an empty slot, the first upcoming piece of the
/// bag, which then no longer comes up. The piece stays in the same well.
pub proof fn law_cross_hold_brings_back_held_piece(g: CrossModel)
    requires
        g.wells.len() == 4,
        g.active matches Some(a) && !g.wells[a.arm.spec_index()].game_over,
        !g.hold_used_this_piece,
        g.bag.0.len() >= 1,
    ensures
        ({
            let a = g.active.unwrap();
            let i = a.arm.spec_index();
            let h = g.apply(Action::Hold);
            let k = match g.wells[i].hold {
                Some(k) => k,
                None => g.bag.0[0],
            };
            let piece = ActivePiece::spec_spawn(k, SPAWN_ROW);
            &&& h.wells[i].hold == Some(a.piece.kind)
            &&& h.wells[i].board == g.wells[i].board
            &&& h.wells[i].score == g.wells[i].score
            &&& spec_fits(g.wells[i].board, piece) ==> h.active == Some(ActiveInWell { arm: a.arm, piece }) && h.hold_used_this_piece
            &&& !spec_fits(g.wells[i].board, piece) ==> h.active is None && h.wells[i].game_over
            &&& g.wells[i].hold is Some ==> h.bag == g.bag
            &&& g.wells[i].hold is None ==> h.bag.0.len() >= g.bag.0.len() - 1 && h.bag.0.take(g.bag.0.len() - 1)
                == g.bag.0.drop_first()
        }),
{
    let i = g.active.unwrap().arm.spec_index();
    if g.wells[i].hold is None {
        let v = g.bag;
        let w = if v.0.len() <= 7 { refilled(v) } else { v };
        crate::bag::lemma_shuffle_len(crate::piece::all_kinds(), v.1, 6);
        assert(w.0.take(v.0.len() as int) == v.0) by {
            if v.0.len() <= 7 {
                assert(w.0.take(v.0.len() as int) =~= v.0);
            }
        }
        assert(w.0[0] == v.0[0]) by {
            assert(w.0.take(v.0.len() as int)[0] == v.0[0]);
        }
        assert(drawn(v).0.0.take(v.0.len() - 1) =~= v.0.drop_first()) by {
            assert forall|j: int| 0 <= j < v.0.len() - 1 implies drawn(v).0.0[j] == v.0.drop_first()[j] by {
                assert(w.0.take(v.0.len() as int)[j + 1] == v.0[j + 1]);
            }
        }
    }
}

} // verus!
