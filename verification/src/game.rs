//! A single-board real-time Tetris game: gravity, lock delay, soft and hard
//! drop, hold, line clears, scoring and top-out.

use vstd::prelude::*;
use crate::actions::Action;
use crate::bag::{SevenBag, drawn, refilled, refilled_to};
use crate::board::{Board, Cell, empty_view};
use crate::motion::{
    moved, lemma_hard_fall_rests, lemma_gravity_fall_fits,
    Motion, after_shift, spec_shift, hard_fall, gravity_fall, lock_check, locked_view, lock_clears,
    placed_view, try_shift, note_shift, fall_fully, fall_by_gravity, place_and_clear, is_grounded,
    LOCK_DELAY_US, SOFT_DROP_MULTIPLIER, LINES_PER_LEVEL, SPAWN_ROW,
};
use crate::piece::{ActivePiece, PieceKind};
use crate::rng::seed_state;
use crate::rotation::{spec_fits, spec_try_rotate, piece_fits, try_rotate, lemma_first_fitting_kick_fits};
use crate::scoring::{spec_line_clear_score, line_clear_score, spec_gravity_us_per_row, gravity_us_per_row, HARD_DROP_POINTS_PER_CELL};

verus! {

/// Everything a single-board game holds, as plain values.
pub struct GameModel {
    pub board: Seq<Cell>,
    pub bag: (Seq<PieceKind>, u64),
    pub active: Option<ActivePiece>,
    pub hold: Option<PieceKind>,
    pub hold_used_this_turn: bool,
    pub score: u64,
    pub level: u32,
    pub lines_cleared_total: u32,
    pub game_over: bool,
    pub motion: Motion,
}

impl GameModel {
    /// A fresh game from `seed`, before its first piece spawns.
    pub open spec fn unspawned(seed: u64) -> GameModel {
        GameModel {
            board: empty_view(),
            bag: refilled((Seq::empty(), seed_state(seed))),
            active: None,
            hold: None,
            hold_used_this_turn: false,
            score: 0,
            level: 1,
            lines_cleared_total: 0,
            game_over: false,
            motion: Motion { soft_dropping: false, gravity_accum_us: 0, lock_timer_us: None, lock_reset_count: 0 },
        }
    }

    /// The next piece from the bag enters at the spawn row; the game is over if
    /// it does not fit there.
    pub open spec fn spawn_next(self) -> GameModel {
        let (bag, kind) = drawn(self.bag);
        let piece = ActivePiece::spec_spawn(kind, SPAWN_ROW);
        GameModel {
            bag,
            active: Some(piece),
            hold_used_this_turn: false,
            game_over: self.game_over || !spec_fits(self.board, piece),
            motion: self.motion.respawned(),
            ..self
        }
    }

    /// The falling piece locks: its cells fill the board, full rows clear and
    /// score, lines and level advance, and the next piece spawns.
    pub open spec fn lock_active(self) -> GameModel {
        match self.active {
            None => self,
            Some(p) => {
                let cleared = lock_clears(self.board, p) as u32;
                let lines = self.lines_cleared_total.saturating_add(cleared);
                GameModel {
                    board: locked_view(self.board, p),
                    score: self.score.saturating_add(spec_line_clear_score(cleared, self.level)),
                    lines_cleared_total: lines,
                    level: (lines / LINES_PER_LEVEL + 1) as u32,
                    active: None,
                    motion: Motion { soft_dropping: false, ..self.motion },
                    ..self
                }.spawn_next()
            },
        }
    }

    /// Shifting the falling piece by `(dr, dc)` when it fits.
    pub open spec fn shift(self, dr: int, dc: int) -> GameModel {
        match self.active {
            None => self,
            Some(p) => match spec_shift(self.board, p, self.motion, dr, dc) {
                Some(x) => GameModel { active: Some(x.0), motion: x.1, ..self },
                None => self,
            },
        }
    }

    /// Turning the falling piece, with SRS kicks.
    pub open spec fn rotate(self, cw: bool) -> GameModel {
        match self.active {
            None => self,
            Some(p) => match spec_try_rotate(self.board, p, cw) {
                Some(r) => GameModel { active: Some(r), motion: after_shift(self.motion, self.board, r), ..self },
                None => self,
            },
        }
    }

    /// Hard drop: the piece falls as far as it can, two points per row, and locks.
    pub open spec fn hard_drop(self) -> GameModel {
        match self.active {
            None => self,
            Some(p) => {
                let f = hard_fall(self.board, p, self.motion);
                GameModel {
                    active: Some(f.0),
                    motion: f.1,
                    score: self.score.saturating_add((f.2 * HARD_DROP_POINTS_PER_CELL) as u64),
                    ..self
                }.lock_active()
            },
        }
    }

    /// Hold: once per spawned piece, the falling piece goes to the hold slot
    /// and the held piece (or the next from the bag) spawns in its place.
    pub open spec fn hold_swap(self) -> GameModel {
        if self.hold_used_this_turn {
            self
        } else {
            match self.active {
                None => self,
                Some(a) => {
                    let (bag, kind) = match self.hold {
                        Some(k) => (self.bag, k),
                        None => drawn(self.bag),
                    };
                    let piece = ActivePiece::spec_spawn(kind, SPAWN_ROW);
                    GameModel {
                        bag,
                        hold: Some(a.kind),
                        active: Some(piece),
                        hold_used_this_turn: true,
                        game_over: self.game_over || !spec_fits(self.board, piece),
                        motion: self.motion.respawned(),
                        ..self
                    }
                },
            }
        }
    }

    /// Microseconds per row of gravity at the current level and drop speed.
    pub open spec fn gravity_interval(self) -> u64 {
        if self.motion.soft_dropping {
            spec_gravity_us_per_row(self.level) / SOFT_DROP_MULTIPLIER
        } else {
            spec_gravity_us_per_row(self.level)
        }
    }

    /// `dt` microseconds pass: gravity (one point per row while soft dropping),
    /// then the lock-delay check, which may lock the piece.
    pub open spec fn tick(self, dt: u64) -> GameModel {
        match self.active {
            None => self,
            Some(p) => {
                let m0 = Motion { gravity_accum_us: self.motion.gravity_accum_us.saturating_add(dt), ..self.motion };
                let f = gravity_fall(self.board, p, m0, self.gravity_interval());
                let score = if self.motion.soft_dropping {
                    self.score.saturating_add(f.2 as u64)
                } else {
                    self.score
                };
                let g = GameModel { active: Some(f.0), motion: f.1, score, ..self };
                let c = lock_check(self.board, f.0, f.1, dt);
                if c.0 {
                    g.lock_active()
                } else {
                    GameModel { motion: c.1, ..g }
                }
            },
        }
    }

    /// The game after `action`; nothing changes once the game is over.
    pub open spec fn apply(self, action: Action) -> GameModel {
        if self.game_over {
            self
        } else {
            match action {
                Action::MoveLeft => self.shift(0, -1),
                Action::MoveRight => self.shift(0, 1),
                Action::RotateCw => self.rotate(true),
                Action::RotateCcw => self.rotate(false),
                Action::SoftDropStart => GameModel { motion: Motion { soft_dropping: true, ..self.motion }, ..self },
                Action::SoftDropEnd => GameModel { motion: Motion { soft_dropping: false, ..self.motion }, ..self },
                Action::HardDrop => self.hard_drop(),
                Action::Hold => self.hold_swap(),
                Action::Tick(dt) => self.tick(dt),
            }
        }
    }

    /// The game after each action of `actions` in turn.
    pub open spec fn replay(self, actions: Seq<Action>) -> GameModel
        decreases actions.len(),
    {
        if actions.len() == 0 {
            self
        } else {
            self.apply(actions[0]).replay(actions.drop_first())
        }
    }
}

#[derive(Clone, PartialEq, Debug)]
pub struct GameState {
    pub board: Board,
    pub bag: SevenBag,
    pub active: Option<ActivePiece>,
    pub hold: Option<PieceKind>,
    pub hold_used_this_turn: bool,
    pub score: u64,
    pub level: u32,
    pub lines_cleared_total: u32,
    pub game_over: bool,
    /// Gravity, lock-delay and soft-drop state of the falling piece.
    pub motion: Motion,
}

impl View for GameState {
    type V = GameModel;

    open spec fn view(&self) -> GameModel {
        GameModel {
            board: self.board@,
            bag: self.bag@,
            active: self.active,
            hold: self.hold,
            hold_used_this_turn: self.hold_used_this_turn,
            score: self.score,
            level: self.level,
            lines_cleared_total: self.lines_cleared_total,
            game_over: self.game_over,
            motion: self.motion,
        }
    }
}

impl GameState {
    /// The bag is well formed and the falling piece's coordinates are small
    /// enough for every move.
    pub open spec fn wf(self) -> bool {
        &&& self.bag.wf()
        &&& self.active matches Some(p) ==> p.in_range()
    }

    /// The falling piece, if any, is far enough from the coordinate bound
    /// that one more action keeps the state well formed.
    pub open spec fn margin_ok(self) -> bool {
        self.active matches Some(p) ==> p.well_inside()
    }

    pub fn new(seed: u64) -> (state: Self)
        ensures
            state@ == GameModel::unspawned(seed).spawn_next(),
            state.wf(),
    {
        let mut state = GameState {
            board: Board::new(),
            bag: SevenBag::new(seed),
            active: None,
            hold: None,
            hold_used_this_turn: false,
            score: 0,
            level: 1,
            lines_cleared_total: 0,
            game_over: false,
            motion: Motion::new(),
        };
        state.spawn_next();
        state
    }

    fn spawn_next(&mut self)
        requires
            old(self).bag.wf(),
        ensures
            final(self)@ == old(self)@.spawn_next(),
            final(self).wf(),
    {
        let kind = self.bag.next();
        let piece = ActivePiece::spawn(kind, SPAWN_ROW);
        if !piece_fits(&self.board, &piece) {
            self.game_over = true;
        }
        self.active = Some(piece);
        self.hold_used_this_turn = false;
        self.motion.gravity_accum_us = 0;
        self.motion.lock_timer_us = None;
        self.motion.lock_reset_count = 0;
    }

    /// The upcoming `n` pieces, without consuming them.
    pub fn next_queue(&mut self, n: usize) -> (r: Vec<PieceKind>)
        requires
            old(self).bag.wf(),
        ensures
            final(self)@ == (GameModel { bag: refilled_to(old(self)@.bag, n as int), ..old(self)@ }),
            r@ == final(self).bag.upcoming().take(n as int),
            final(self).bag.wf(),
    {
        self.bag.preview(n)
    }

    fn try_move(&mut self, dr: i32, dc: i32) -> (moved: bool)
        requires
            old(self).wf(),
            -1 <= dr <= 1,
            -1 <= dc <= 1,
        ensures
            final(self)@ == old(self)@.shift(dr as int, dc as int),
            final(self).bag.wf(),
            old(self).margin_ok() ==> final(self).wf(),
    {
        match self.active {
            None => false,
            Some(p) => {
                match try_shift(&self.board, &p, &mut self.motion, dr, dc) {
                    Some(q) => {
                        self.active = Some(q);
                        true
                    },
                    None => false,
                }
            },
        }
    }

    fn lock_active_piece(&mut self)
        requires
            old(self).bag.wf(),
            old(self).active matches Some(p) ==> p.offsets_fit(),
        ensures
            final(self)@ == old(self)@.lock_active(),
            final(self).wf(),
    {
        let p = match self.active {
            None => {
                return;
            },
            Some(p) => p,
        };
        let cleared = place_and_clear(&mut self.board, &p);
        self.score = self.score.saturating_add(line_clear_score(cleared, self.level));
        self.lines_cleared_total = self.lines_cleared_total.saturating_add(cleared);
        self.level = self.lines_cleared_total / LINES_PER_LEVEL + 1;
        self.active = None;
        self.motion.soft_dropping = false;
        self.spawn_next();
    }

    /// Applies one real-time action. Nothing changes once the game is over.
    pub fn apply(&mut self, action: Action)
        requires
            old(self).wf(),
        ensures
            final(self)@ == old(self)@.apply(action),
            final(self).bag.wf(),
            old(self).margin_ok() ==> final(self).wf(),
    {
        if self.game_over {
            return;
        }
        match action {
            Action::MoveLeft => {
                self.try_move(0, -1);
            },
            Action::MoveRight => {
                self.try_move(0, 1);
            },
            Action::RotateCw | Action::RotateCcw => {
                let p = match self.active {
                    None => {
                        return;
                    },
                    Some(p) => p,
                };
                let cw = match action {
                    Action::RotateCw => true,
                    _ => false,
                };
                if let Some(rotated) = try_rotate(&self.board, &p, cw) {
                    proof {
                        crate::motion::lemma_fits_row_bound(self.board@, rotated);
                    }
                    self.active = Some(rotated);
                    note_shift(&mut self.motion, &self.board, &rotated);
                }
            },
            Action::SoftDropStart => self.motion.soft_dropping = true,
            Action::SoftDropEnd => self.motion.soft_dropping = false,
            Action::HardDrop => {
                let p = match self.active {
                    None => {
                        return;
                    },
                    Some(p) => p,
                };
                let (q, rows) = fall_fully(&self.board, p, &mut self.motion);
                self.active = Some(q);
                self.score = self.score.saturating_add(rows as u64 * HARD_DROP_POINTS_PER_CELL);
                self.lock_active_piece();
            },
            Action::Hold => self.apply_hold(),
            Action::Tick(dt) => self.tick(dt),
        }
    }

    fn apply_hold(&mut self)
        requires
            old(self).wf(),
        ensures
            final(self)@ == old(self)@.hold_swap(),
            final(self).wf(),
    {
        if self.hold_used_this_turn {
            return;
        }
        let active = match self.active {
            None => {
                return;
            },
            Some(a) => a,
        };
        let incoming = self.hold;
        self.hold = Some(active.kind);
        let kind = match incoming {
            Some(k) => k,
            None => self.bag.next(),
        };
        let piece = ActivePiece::spawn(kind, SPAWN_ROW);
        if !piece_fits(&self.board, &piece) {
            self.game_over = true;
        }
        self.active = Some(piece);
        self.hold_used_this_turn = true;
        self.motion.gravity_accum_us = 0;
        self.motion.lock_timer_us = None;
        self.motion.lock_reset_count = 0;
    }

    fn tick(&mut self, dt: u64)
        requires
            old(self).wf(),
        ensures
            final(self)@ == old(self)@.tick(dt),
            final(self).wf(),
    {
        let p = match self.active {
            None => {
                return;
            },
            Some(p) => p,
        };
        let per_row = gravity_us_per_row(self.level);
        let interval = if self.motion.soft_dropping {
            per_row / SOFT_DROP_MULTIPLIER
        } else {
            per_row
        };
        self.motion.gravity_accum_us = self.motion.gravity_accum_us.saturating_add(dt);
        let (q, rows) = fall_by_gravity(&self.board, p, &mut self.motion, interval);
        self.active = Some(q);
        if self.motion.soft_dropping {
            self.score = self.score.saturating_add(rows as u64);
        }
        if is_grounded(&self.board, &q) {
            let elapsed = match self.motion.lock_timer_us {
                Some(t) => t,
                None => 0,
            }.saturating_add(dt);
            if elapsed >= LOCK_DELAY_US {
                self.lock_active_piece();
            } else {
                self.motion.lock_timer_us = Some(elapsed);
            }
        } else {
            self.motion.lock_timer_us = None;
        }
    }

    /// A copy of the board with the active piece composited in, for rendering.
    pub fn rendered_board(&self) -> (b: Board)
        requires
            self.active matches Some(p) ==> p.offsets_fit(),
        ensures
            b@ == match self.active {
                Some(p) => placed_view(self.board@, p),
                None => self.board@,
            },
    {
        let mut b = self.board;
        if let Some(p) = &self.active {
            let cells = p.occupied_cells();
            let (r0, c0) = cells[0];
            b.set(r0, c0, Some(p.kind));
            let (r1, c1) = cells[1];
            b.set(r1, c1, Some(p.kind));
            let (r2, c2) = cells[2];
            b.set(r2, c2, Some(p.kind));
            let (r3, c3) = cells[3];
            b.set(r3, c3, Some(p.kind));
        }
        b
    }
}

/// While the game is not over, the falling piece (if any) sits in a legal
/// position.
pub open spec fn active_legal(g: GameModel) -> bool {
    !g.game_over ==> (g.active matches Some(p) ==> spec_fits(g.board, p))
}

/// Once the game is over, no action changes anything.
pub proof fn law_game_over_is_final(g: GameModel, action: Action)
    requires
        g.game_over,
    ensures
        g.apply(action) == g,
{
}

/// Replaying the same actions from the same state always gives the same state.
pub proof fn law_replay_deterministic(g1: GameModel, g2: GameModel, actions: Seq<Action>)
    requires
        g1 == g2,
    ensures
        g1.replay(actions) == g2.replay(actions),
{
}

proof fn lemma_spawn_legal(g: GameModel)
    ensures
        active_legal(g.spawn_next()),
        g.spawn_next().score == g.score,
{
}

proof fn lemma_lock_legal(g: GameModel)
    requires
        g.active is Some,
    ensures
        active_legal(g.lock_active()),
        g.lock_active().score >= g.score,
        !g.lock_active().hold_used_this_turn,
{
    let p = g.active.unwrap();
    let cleared = lock_clears(g.board, p) as u32;
    let lines = g.lines_cleared_total.saturating_add(cleared);
    let mid = GameModel {
        board: locked_view(g.board, p),
        score: g.score.saturating_add(spec_line_clear_score(cleared, g.level)),
        lines_cleared_total: lines,
        level: (lines / LINES_PER_LEVEL + 1) as u32,
        active: None,
        motion: Motion { soft_dropping: false, ..g.motion },
        ..g
    };
    lemma_spawn_legal(mid);
}

/// Every action keeps the falling piece in a legal position: moves, turns,
/// gravity and drops only ever go where the piece fits, and a piece that
/// spawns where it does not fit ends the game.
pub proof fn law_active_piece_stays_legal(g: GameModel, action: Action)
    requires
        active_legal(g),
    ensures
        active_legal(g.apply(action)),
{
    if !g.game_over {
        match action {
            Action::RotateCw => {
                if let Some(p) = g.active {
                    lemma_first_fitting_kick_fits(g.board, p, true, 0);
                }
            },
            Action::RotateCcw => {
                if let Some(p) = g.active {
                    lemma_first_fitting_kick_fits(g.board, p, false, 0);
                }
            },
            Action::HardDrop => {
                if let Some(p) = g.active {
                    let f = hard_fall(g.board, p, g.motion);
                    let g1 = GameModel {
                        active: Some(f.0),
                        motion: f.1,
                        score: g.score.saturating_add((f.2 * HARD_DROP_POINTS_PER_CELL) as u64),
                        ..g
                    };
                    lemma_lock_legal(g1);
                }
            },
            Action::Tick(dt) => {
                if let Some(p) = g.active {
                    let m0 = Motion { gravity_accum_us: g.motion.gravity_accum_us.saturating_add(dt), ..g.motion };
                    lemma_gravity_fall_fits(g.board, p, m0, g.gravity_interval());
                    let f = gravity_fall(g.board, p, m0, g.gravity_interval());
                    let score = if g.motion.soft_dropping {
                        g.score.saturating_add(f.2 as u64)
                    } else {
                        g.score
                    };
                    let g1 = GameModel { active: Some(f.0), motion: f.1, score, ..g };
                    lemma_lock_legal(g1);
                }
            },
            _ => {},
        }
    }
}

/// The score never goes down.
pub proof fn law_score_never_decreases(g: GameModel, action: Action)
    ensures
        g.apply(action).score >= g.score,
{
    if !g.game_over {
        match action {
            Action::HardDrop => {
                if let Some(p) = g.active {
                    let f = hard_fall(g.board, p, g.motion);
                    let g1 = GameModel {
                        active: Some(f.0),
                        motion: f.1,
                        score: g.score.saturating_add((f.2 * HARD_DROP_POINTS_PER_CELL) as u64),
                        ..g
                    };
                    lemma_lock_legal(g1);
                }
            },
            Action::Tick(dt) => {
                if let Some(p) = g.active {
                    let m0 = Motion { gravity_accum_us: g.motion.gravity_accum_us.saturating_add(dt), ..g.motion };
                    let f = gravity_fall(g.board, p, m0, g.gravity_interval());
                    let score = if g.motion.soft_dropping {
                        g.score.saturating_add(f.2 as u64)
                    } else {
                        g.score
                    };
                    let g1 = GameModel { active: Some(f.0), motion: f.1, score, ..g };
                    lemma_lock_legal(g1);
                }
            },
            _ => {},
        }
    }
}

/// Hold works once per spawned piece: a second hold before the piece locks
/// changes nothing.
pub proof fn law_hold_once_per_piece(g: GameModel)
    requires
        g.hold_used_this_turn,
    ensures
        g.apply(Action::Hold) == g,
{
}

/// A hard drop locks the piece and spawns the next one, for which hold is
/// available again.
pub proof fn law_hard_drop_frees_hold(g: GameModel)
    requires
        !g.game_over,
        g.active is Some,
    ensures
        !g.apply(Action::HardDrop).hold_used_this_turn,
{
    let p = g.active.unwrap();
    let f = hard_fall(g.board, p, g.motion);
    let g1 = GameModel {
        active: Some(f.0),
        motion: f.1,
        score: g.score.saturating_add((f.2 * HARD_DROP_POINTS_PER_CELL) as u64),
        ..g
    };
    lemma_lock_legal(g1);
}

/// A hard drop from a legal position locks the piece in the same column and
/// rotation, as far down as it fits: one row further it would collide.
pub proof fn law_hard_drop_lands_resting(g: GameModel)
    requires
        !g.game_over,
        g.active matches Some(p) && spec_fits(g.board, p),
    ensures
        ({
            let p = g.active.unwrap();
            let q = hard_fall(g.board, p, g.motion).0;
            &&& spec_fits(g.board, q)
            &&& !spec_fits(g.board, moved(q, 1, 0))
            &&& q.kind == p.kind && q.rotation == p.rotation && q.col == p.col && q.row >= p.row
            &&& g.apply(Action::HardDrop).board == locked_view(g.board, q)
        }),
{
    let p = g.active.unwrap();
    lemma_hard_fall_rests(g.board, p, g.motion);
    let f = hard_fall(g.board, p, g.motion);
    let g1 = GameModel {
        active: Some(f.0),
        motion: f.1,
        score: g.score.saturating_add((f.2 * HARD_DROP_POINTS_PER_CELL) as u64),
        ..g
    };
    assert(g.apply(Action::HardDrop) == g1.lock_active());
    let cleared = lock_clears(g1.board, f.0) as u32;
    let lines = g1.lines_cleared_total.saturating_add(cleared);
    let mid = GameModel {
        board: locked_view(g1.board, f.0),
        score: g1.score.saturating_add(spec_line_clear_score(cleared, g1.level)),
        lines_cleared_total: lines,
        level: (lines / LINES_PER_LEVEL + 1) as u32,
        active: None,
        motion: Motion { soft_dropping: false, ..g1.motion },
        ..g1
    };
    assert(g1.lock_active() == mid.spawn_next());
    assert(mid.spawn_next().board == mid.board);
}

proof fn lemma_lock_counts(g: GameModel)
    requires
        g.active is Some,
    ensures
        g.lock_active().lines_cleared_total == g.lines_cleared_total.saturating_add(
            lock_clears(g.board, g.active.unwrap()) as u32,
        ),
        g.lock_active().level == g.lock_active().lines_cleared_total / 10 + 1,
        g.lock_active().score == g.score.saturating_add(
            spec_line_clear_score(lock_clears(g.board, g.active.unwrap()) as u32, g.level),
        ),
        g.lock_active().board == locked_view(g.board, g.active.unwrap()),
{
    let p = g.active.unwrap();
    let cleared = lock_clears(g.board, p) as u32;
    let lines = g.lines_cleared_total.saturating_add(cleared);
    let mid = GameModel {
        board: locked_view(g.board, p),
        score: g.score.saturating_add(spec_line_clear_score(cleared, g.level)),
        lines_cleared_total: lines,
        level: (lines / LINES_PER_LEVEL + 1) as u32,
        active: None,
        motion: Motion { soft_dropping: false, ..g.motion },
        ..g
    };
    assert(g.lock_active() == mid.spawn_next());
}

/// The level is always one more than a tenth of the lines cleared: an action
/// that clears rows adds them to the line total and recomputes the level
/// from that total.
pub proof fn law_level_follows_lines(g: GameModel, action: Action)
    requires
        g.level == g.lines_cleared_total / 10 + 1,
    ensures
        g.apply(action).level == g.apply(action).lines_cleared_total / 10 + 1,
        g.apply(action).lines_cleared_total >= g.lines_cleared_total,
{
    if !g.game_over {
        match action {
            Action::HardDrop => {
                if let Some(p) = g.active {
                    let f = hard_fall(g.board, p, g.motion);
                    let g1 = GameModel {
                        active: Some(f.0),
                        motion: f.1,
                        score: g.score.saturating_add((f.2 * HARD_DROP_POINTS_PER_CELL) as u64),
                        ..g
                    };
                    lemma_lock_counts(g1);
                }
            },
            Action::Tick(dt) => {
                if let Some(p) = g.active {
                    let m0 = Motion { gravity_accum_us: g.motion.gravity_accum_us.saturating_add(dt), ..g.motion };
                    let f = gravity_fall(g.board, p, m0, g.gravity_interval());
                    let score = if g.motion.soft_dropping {
                        g.score.saturating_add(f.2 as u64)
                    } else {
                        g.score
                    };
                    let g1 = GameModel { active: Some(f.0), motion: f.1, score, ..g };
                    lemma_lock_counts(g1);
                }
            },
            _ => {},
        }
    }
}

/// A hard drop from a legal position scores 2 points for every row the piece
/// falls to where it rests, then the line-clear score of locking it there at
/// the current level; the cleared rows are added to the line total.
pub proof fn law_hard_drop_score(g: GameModel)
    requires
        !g.game_over,
        g.active matches Some(p) && spec_fits(g.board, p),
    ensures
        ({
            let p = g.active.unwrap();
            let q = hard_fall(g.board, p, g.motion).0;
            let h = g.apply(Action::HardDrop);
            &&& q.row >= p.row
            &&& h.score == g.score.saturating_add((2 * (q.row - p.row)) as u64).saturating_add(
                spec_line_clear_score(lock_clears(g.board, q) as u32, g.level),
            )
            &&& h.lines_cleared_total == g.lines_cleared_total.saturating_add(lock_clears(g.board, q) as u32)
        }),
{
    let p = g.active.unwrap();
    lemma_hard_fall_rests(g.board, p, g.motion);
    let f = hard_fall(g.board, p, g.motion);
    let g1 = GameModel {
        active: Some(f.0),
        motion: f.1,
        score: g.score.saturating_add((f.2 * HARD_DROP_POINTS_PER_CELL) as u64),
        ..g
    };
    lemma_lock_counts(g1);
}

/// Hold, when available, puts the falling piece's kind in the hold slot and
/// spawns in its place the held kind, leaving the bag untouched, or, with an
/// empty slot, the first upcoming piece of the bag, which then no longer
/// comes up; hold is then used until the next piece spawns.
pub proof fn law_hold_brings_back_held_piece(g: GameModel)
    requires
        !g.game_over,
        !g.hold_used_this_turn,
        g.active is Some,
        g.bag.0.len() >= 1,
    ensures
        ({
            let h = g.apply(Action::Hold);
            let k = match g.hold {
                Some(k) => k,
                None => g.bag.0[0],
            };
            &&& h.hold == Some(g.active.unwrap().kind)
            &&& h.hold_used_this_turn
            &&& h.active == Some(ActivePiece::spec_spawn(k, SPAWN_ROW))
            &&& h.board == g.board
            &&& h.score == g.score
            &&& g.hold is Some ==> h.bag == g.bag
            &&& g.hold is None ==> h.bag.0.len() >= g.bag.0.len() - 1 && h.bag.0.take(g.bag.0.len() - 1)
                == g.bag.0.drop_first()
        }),
{
    if g.hold is None {
        let v = g.bag;
        let w = if v.0.len() <= 7 { refilled(v) } else { v };
        crate::bag::lemma_shuffle_len(crate::piece::all_kinds(), v.1, 6);
        assert(w.0.take(v.0.len() as int) == v.0) by {
            if v.0.len() <= 7 {
                assert(w.0.take(v.0.len() as int) =~= v.0);
            }
        }
        assert(w.0[0] == v.0[0]) by {
            assert(w.0.take(v.0.len() as int)[0] == v.0[0]);
        }
        assert(drawn(v).0.0.take(v.0.len() - 1) =~= v.0.drop_first()) by {
            assert forall|i: int| 0 <= i < v.0.len() - 1 implies drawn(v).0.0[i] == v.0.drop_first()[i] by {
                assert(w.0.take(v.0.len() as int)[i + 1] == v.0[i + 1]);
            }
        }
    }
}

/// A tick of `dt` microseconds lets gravity move the piece straight down at
/// the level's speed (twenty times faster while soft dropping); soft-dropped
/// rows score 1 point each. If the piece then locks, its line-clear score is
/// added and the board takes it; otherwise the board is unchanged and the
/// piece is where gravity left it.
pub proof fn law_tick_falls_and_scores(g: GameModel, dt: u64)
    requires
        !g.game_over,
        g.active matches Some(p) && spec_fits(g.board, p),
    ensures
        ({
            let p = g.active.unwrap();
            let m0 = Motion { gravity_accum_us: g.motion.gravity_accum_us.saturating_add(dt), ..g.motion };
            let f = gravity_fall(g.board, p, m0, g.gravity_interval());
            let q = f.0;
            let pts = if g.motion.soft_dropping { q.row - p.row } else { 0 };
            let h = g.apply(Action::Tick(dt));
            &&& g.gravity_interval() == if g.motion.soft_dropping {
                spec_gravity_us_per_row(g.level) / 20
            } else {
                spec_gravity_us_per_row(g.level)
            }
            &&& q.row >= p.row && q.col == p.col && q.rotation == p.rotation && q.kind == p.kind
            &&& lock_check(g.board, q, f.1, dt).0 ==> h.score == g.score.saturating_add(pts as u64).saturating_add(
                spec_line_clear_score(lock_clears(g.board, q) as u32, g.level),
            ) && h.board == locked_view(g.board, q)
            &&& !lock_check(g.board, q, f.1, dt).0 ==> h.score == g.score.saturating_add(pts as u64) && h.active
                == Some(q) && h.board == g.board
        }),
{
    let p = g.active.unwrap();
    let m0 = Motion { gravity_accum_us: g.motion.gravity_accum_us.saturating_add(dt), ..g.motion };
    lemma_gravity_fall_fits(g.board, p, m0, g.gravity_interval());
    let f = gravity_fall(g.board, p, m0, g.gravity_interval());
    let score = if g.motion.soft_dropping {
        g.score.saturating_add(f.2 as u64)
    } else {
        g.score
    };
    let g1 = GameModel { active: Some(f.0), motion: f.1, score, ..g };
    lemma_lock_counts(g1);
}

} // verus!
