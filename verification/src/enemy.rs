//! A single formation enemy: position, scaled sprite size, difficulty
//! level, travel direction, and the synchronized descend-and-reverse
//! step applied on a wall-trigger frame.

use vstd::prelude::*;
use crate::{clamp_coord, coord_add, COORD_LIMIT, DIM_LIMIT, DT_LIMIT, SCREEN_LIMIT, SPEED_LIMIT};

verus! {

/// Horizontal travel direction shared by the whole formation's motion
/// rule.
#[derive(Clone, Copy, PartialEq, Eq, Structural, Debug)]
pub enum Direction {
    Left,
    Right,
}

/// The opposite travel direction.
pub open spec fn flipped(d: Direction) -> Direction {
    match d {
        Direction::Left => Direction::Right,
        Direction::Right => Direction::Left,
    }
}

/// One enemy of a formation. All enemies spawned in one round share the
/// same scaled sprite size; the shared image itself belongs to the
/// presentation layer.
#[derive(Clone, Copy, PartialEq, Eq, Structural, Debug)]
pub struct Enemy {
    pub x: i64,
    pub y: i64,
    pub width: i64,
    pub height: i64,
    pub level: i8,
    pub collided: bool,
    pub current_direction: Direction,
}

/// Speed capped so that displacement products stay exact.
pub open spec fn clamp_speed(v: int) -> int {
    if v > SPEED_LIMIT {
        SPEED_LIMIT as int
    } else {
        v
    }
}

/// Per-second speed for a given level: the base speed grown by half of
/// itself once per level, so later levels move markedly faster.
pub open spec fn level_speed(base: int, level: int) -> int
    decreases level,
{
    if level <= 0 {
        base
    } else {
        clamp_speed(level_speed(base, level - 1) * 3 / 2)
    }
}

pub proof fn lemma_level_speed_bounds(base: int, level: int)
    requires
        0 <= base <= SPEED_LIMIT,
    ensures
        0 <= level_speed(base, level) <= SPEED_LIMIT,
    decreases level,
{
    if level > 0 {
        lemma_level_speed_bounds(base, level - 1);
    }
}

/// Speeds never fall as the level rises, and strictly grow while the
/// cap is not reached: a later level's formation moves faster.
pub proof fn lemma_level_speed_grows(base: int, level: int)
    requires
        2 <= base <= SPEED_LIMIT,
        0 <= level,
    ensures
        base <= level_speed(base, level),
        level_speed(base, level) <= level_speed(base, level + 1),
        level_speed(base, level) * 3 / 2 <= SPEED_LIMIT ==> level_speed(base, level + 1)
            > level_speed(base, level),
    decreases level,
{
    lemma_level_speed_bounds(base, level);
    if level > 0 {
        lemma_level_speed_grows(base, level - 1);
    }
}

/// Exponential speed growth, computed step by step.
pub fn compute_speed(base: i64, level: i8) -> (s: i64)
    requires
        0 <= base <= SPEED_LIMIT,
        0 <= level,
    ensures
        s == level_speed(base as int, level as int),
        0 <= s <= SPEED_LIMIT,
{
    let mut s: i64 = base;
    let mut k: i8 = 0;
    proof {
        lemma_level_speed_bounds(base as int, 0);
    }
    while k < level
        invariant
            0 <= k <= level,
            0 <= base <= SPEED_LIMIT,
            s == level_speed(base as int, k as int),
            0 <= s <= SPEED_LIMIT,
        decreases level - k,
    {
        let grown: i64 = s * 3 / 2;
        s = if grown > SPEED_LIMIT {
            SPEED_LIMIT
        } else {
            grown
        };
        k = k + 1;
        proof {
            lemma_level_speed_bounds(base as int, k as int);
        }
    }
    s
}

/// Horizontal displacement of an enemy over one frame.
pub open spec fn move_amount(screen_w: int, level: int, dt_ms: int) -> int {
    level_speed(screen_w / 25, level) * dt_ms / 1000
}

/// The descent-and-reverse step applied on a wall-trigger frame: one
/// full sprite height down, direction flipped.
pub open spec fn descended_flipped(e: Enemy) -> Enemy {
    Enemy {
        y: clamp_coord(e.y + e.height) as i64,
        current_direction: flipped(e.current_direction),
        ..e
    }
}

/// Horizontal motion for one frame, along the current travel direction.
pub open spec fn moved(e: Enemy, screen_w: int, dt_ms: int) -> Enemy {
    let dx = move_amount(screen_w, e.level as int, dt_ms);
    match e.current_direction {
        Direction::Left => Enemy { x: clamp_coord(e.x + dx) as i64, ..e },
        Direction::Right => Enemy { x: clamp_coord(e.x - dx) as i64, ..e },
    }
}

/// The full per-frame enemy step: descend and reverse first when the
/// formation hit a wall, then move along the (possibly new) direction.
pub open spec fn enemy_step(e: Enemy, direction_change: bool, screen_w: int, dt_ms: int) -> Enemy {
    moved(
        if direction_change {
            descended_flipped(e)
        } else {
            e
        },
        screen_w,
        dt_ms,
    )
}

impl Enemy {
    /// Coordinates and sizes within the ranges frame arithmetic needs.
    pub open spec fn wf(self) -> bool {
        &&& -COORD_LIMIT <= self.x <= COORD_LIMIT
        &&& -COORD_LIMIT <= self.y <= COORD_LIMIT
        &&& 0 <= self.width <= DIM_LIMIT
        &&& 0 <= self.height <= DIM_LIMIT
        &&& 0 <= self.level
    }

    /// A fresh enemy: not collided, travelling left-to-right first.
    pub fn new(width: i64, height: i64, level: i8, x: i64, y: i64) -> (e: Enemy)
        requires
            0 <= width <= DIM_LIMIT,
            0 <= height <= DIM_LIMIT,
            0 <= level,
            -COORD_LIMIT <= x <= COORD_LIMIT,
            -COORD_LIMIT <= y <= COORD_LIMIT,
        ensures
            e == (Enemy {
                x,
                y,
                width,
                height,
                level,
                collided: false,
                current_direction: Direction::Left,
            }),
            e.wf(),
    {
        Enemy { x, y, width, height, level, collided: false, current_direction: Direction::Left }
    }

    /// Descend one sprite height and reverse the travel direction.
    fn change_direction(&mut self)
        requires
            old(self).wf(),
        ensures
            *final(self) == descended_flipped(*old(self)),
            final(self).wf(),
    {
        self.y = coord_add(self.y, self.height);
        self.current_direction = match self.current_direction {
            Direction::Left => Direction::Right,
            Direction::Right => Direction::Left,
        };
    }

    /// One frame of motion. On a direction-change frame the enemy first
    /// descends and reverses, then moves along the new direction.
    pub fn update(&mut self, direction_change: bool, screen_w: i64, dt_ms: i64)
        requires
            old(self).wf(),
            0 <= screen_w <= SCREEN_LIMIT,
            0 <= dt_ms <= DT_LIMIT,
        ensures
            *final(self) == enemy_step(*old(self), direction_change, screen_w as int, dt_ms as int),
            final(self).wf(),
    {
        let base: i64 = screen_w / 25;
        if direction_change {
            self.change_direction();
        }
        let speed: i64 = compute_speed(base, self.level);
        proof {
            assert(0 <= speed * dt_ms <= SPEED_LIMIT * DT_LIMIT) by (nonlinear_arith)
                requires
                    0 <= speed <= SPEED_LIMIT,
                    0 <= dt_ms <= DT_LIMIT,
            ;
        }
        let dx: i64 = speed * dt_ms / 1000;
        match self.current_direction {
            Direction::Left => {
                self.x = coord_add(self.x, dx);
            },
            Direction::Right => {
                self.x = coord_add(self.x, -dx);
            },
        }
    }
}

} // verus!
