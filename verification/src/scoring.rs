//! Line-clear scoring and the gravity curve.

use vstd::prelude::*;

verus! {

/// Standard Tetris Guideline base score of a single lock's line clears,
/// before the level multiplier.
pub open spec fn base_line_score(lines_cleared: u32) -> u64 {
    if lines_cleared == 0 {
        0
    } else if lines_cleared == 1 {
        100
    } else if lines_cleared == 2 {
        300
    } else if lines_cleared == 3 {
        500
    } else {
        800
    }
}

pub open spec fn spec_line_clear_score(lines_cleared: u32, level: u32) -> u64 {
    (base_line_score(lines_cleared) * if level < 1 { 1 } else { level as int }) as u64
}

/// Standard Tetris Guideline base scores for a single lock's line clears,
/// times the level (a level of 0 counts as 1). No back-to-back or combo bonus
/// (documented simplification).
///
/// `u64`, not `u32`: level is uncapped (`lines_cleared / 10 + 1`), so a long
/// enough game pushes `base * level` past `u32::MAX` on its own.
pub fn line_clear_score(lines_cleared: u32, level: u32) -> (r: u64)
    ensures
        r == spec_line_clear_score(lines_cleared, level),
        r == base_line_score(lines_cleared) * (if level < 1 { 1 } else { level as int }),
{
    let base: u64 = match lines_cleared {
        0 => 0,
        1 => 100,
        2 => 300,
        3 => 500,
        _ => 800,  // 4 = Tetris; anything higher can't happen with one piece but clamp defensively
    };
    let lv: u64 = if level < 1 {
        1
    } else {
        level as u64
    };
    assert(base * lv <= 800 * 0xffff_ffff) by (nonlinear_arith)
        requires
            base <= 800,
            lv <= 0xffff_ffff,
    ;
    base * lv
}

pub const SOFT_DROP_POINTS_PER_CELL: u64 = 1;
pub const HARD_DROP_POINTS_PER_CELL: u64 = 2;

/// Guideline-style gravity curve in microseconds per row of fall, by level;
/// levels beyond the table use the fastest defined speed.
pub open spec fn spec_gravity_us_per_row(level: u32) -> u64 {
    let idx = if level <= 1 { 0 } else if level - 1 > 14 { 14 } else { level - 1 };
    if idx == 0 {
        1_000_000
    } else if idx == 1 {
        793_000
    } else if idx == 2 {
        618_000
    } else if idx == 3 {
        473_000
    } else if idx == 4 {
        355_000
    } else if idx == 5 {
        262_000
    } else if idx == 6 {
        190_000
    } else if idx == 7 {
        135_000
    } else if idx == 8 {
        94_000
    } else if idx == 9 {
        64_000
    } else if idx == 10 {
        43_000
    } else if idx == 11 {
        28_000
    } else if idx == 12 {
        18_000
    } else if idx == 13 {
        11_000
    } else {
        7_000
    }
}

/// Standard Guideline-style gravity curve: microseconds per row of fall, by
/// level. Levels beyond the table clamp to the fastest defined speed.
pub fn gravity_us_per_row(level: u32) -> (r: u64)
    ensures
        r == spec_gravity_us_per_row(level),
        7_000 <= r <= 1_000_000,
        r % 1000 == 0,
{
    let table: [u64; 15] = [
        1_000_000,
        793_000,
        618_000,
        473_000,
        355_000,
        262_000,
        190_000,
        135_000,
        94_000,
        64_000,
        43_000,
        28_000,
        18_000,
        11_000,
        7_000,
    ];
    let idx: usize = if level <= 1 {
        0
    } else if level - 1 > 14 {
        14
    } else {
        (level - 1) as usize
    };
    table[idx]
}

/// Clearing rows scores by the Guideline table at level 1 (a Single 100, a
/// Double three Singles, a Triple five, a Tetris eight, nothing for no row)
/// and every level multiplies that; level 0 scores as level 1.
pub proof fn law_line_clear_score_scales(lines: u32, level: u32)
    ensures
        spec_line_clear_score(1, 1) == 100,
        spec_line_clear_score(0, level) == 0,
        spec_line_clear_score(2, 1) == 3 * spec_line_clear_score(1, 1),
        spec_line_clear_score(3, 1) == 5 * spec_line_clear_score(1, 1),
        lines >= 4 ==> spec_line_clear_score(lines, 1) == 8 * spec_line_clear_score(1, 1),
        level >= 1 ==> spec_line_clear_score(lines, level) == level * spec_line_clear_score(lines, 1),
        spec_line_clear_score(lines, 0) == spec_line_clear_score(lines, 1),
{
    let b = base_line_score(lines) as int;
    assert(0 <= b <= 800);
    if level >= 1 {
        assert(0 <= b * level <= 800 * 0xffff_ffff) by (nonlinear_arith)
            requires
                0 <= b <= 800,
                1 <= level <= 0xffff_ffff,
        ;
        assert(spec_line_clear_score(lines, level) == b * level);
        assert(spec_line_clear_score(lines, 1) == b);
        assert(level * b == b * level) by (nonlinear_arith);
    }
}

/// Gravity starts at one row per second, gets strictly faster with every
/// level up to 15, and stays at its fastest (7 ms per row) from there on;
/// level 0 falls as level 1.
pub proof fn law_gravity_speeds_up(level: u32)
    ensures
        spec_gravity_us_per_row(1) == 1_000_000,
        spec_gravity_us_per_row(0) == spec_gravity_us_per_row(1),
        1 <= level < 15 ==> spec_gravity_us_per_row((level + 1) as u32) < spec_gravity_us_per_row(level),
        level >= 15 ==> spec_gravity_us_per_row(level) == 7_000,
{
}

} // verus!
