//! The player's avatar: a sprite anchored at its top-left corner that
//! moves horizontally between the screen edges, with its vertical
//! position fixed near the bottom.

use vstd::prelude::*;
use crate::{COORD_LIMIT, DIM_LIMIT, DT_LIMIT, SCREEN_LIMIT};

verus! {

/// The player's avatar. The sprite is scaled so its width is one
/// fifteenth of the screen; the height keeps the source image's aspect
/// ratio.
#[derive(Clone, Copy, PartialEq, Eq, Structural, Debug)]
pub struct Player {
    pub x: i64,
    pub y: i64,
    pub width: i64,
    pub height: i64,
}

/// The freshly placed avatar for the given screen and source image
/// sizes: centered horizontally, resting just above the bottom edge.
pub open spec fn player_start(screen_w: int, screen_h: int, tex_w: int, tex_h: int) -> Player {
    let w = screen_w / 15;
    let h = tex_h * w / tex_w;
    Player {
        x: (screen_w / 2 - w / 2) as i64,
        y: (screen_h - h - 10) as i64,
        width: w as i64,
        height: h as i64,
    }
}

/// One frame of horizontal motion from held arrow keys: speed
/// proportional to the screen width, each direction clamped at its own
/// screen edge.
pub open spec fn player_step(
    p: Player,
    left_down: bool,
    right_down: bool,
    screen_w: int,
    dt_ms: int,
) -> Player {
    let dx = screen_w / 3 * dt_ms / 1000;
    let right_bound = screen_w - p.width - 10;
    let x1 = if left_down {
        if p.x - dx < 10 {
            10
        } else {
            p.x - dx
        }
    } else {
        p.x as int
    };
    let x2 = if right_down {
        if x1 + dx > right_bound {
            right_bound
        } else {
            x1 + dx
        }
    } else {
        x1
    };
    Player { x: x2 as i64, ..p }
}

impl Player {
    /// Coordinates and sizes within the ranges frame arithmetic needs.
    pub open spec fn wf(self) -> bool {
        &&& -COORD_LIMIT <= self.x <= COORD_LIMIT
        &&& -COORD_LIMIT <= self.y <= COORD_LIMIT
        &&& 0 <= self.width <= DIM_LIMIT
        &&& 0 <= self.height <= DIM_LIMIT
    }

    /// A fresh avatar, placed from the screen and source image sizes.
    pub fn new(screen_w: i64, screen_h: i64, tex_w: i64, tex_h: i64) -> (p: Player)
        requires
            1 <= screen_w <= SCREEN_LIMIT,
            1 <= screen_h <= SCREEN_LIMIT,
            1 <= tex_w <= SCREEN_LIMIT,
            1 <= tex_h <= SCREEN_LIMIT,
        ensures
            p == player_start(screen_w as int, screen_h as int, tex_w as int, tex_h as int),
            p.wf(),
    {
        let w: i64 = screen_w / 15;
        proof {
            assert(0 <= tex_h * w <= SCREEN_LIMIT * (SCREEN_LIMIT / 15)) by (nonlinear_arith)
                requires
                    0 <= tex_h <= SCREEN_LIMIT,
                    0 <= w <= SCREEN_LIMIT / 15,
            ;
        }
        let h: i64 = tex_h * w / tex_w;
        proof {
            assert(0 <= (tex_h * w) as int / tex_w as int <= SCREEN_LIMIT * (SCREEN_LIMIT / 15))
                by (nonlinear_arith)
                requires
                    0 <= tex_h * w <= SCREEN_LIMIT * (SCREEN_LIMIT / 15),
                    1 <= tex_w,
            ;
        }
        Player { x: screen_w / 2 - w / 2, y: screen_h - h - 10, width: w, height: h }
    }

    /// Put the avatar back at its start position for the current screen
    /// and source image sizes.
    pub fn reset(&mut self, screen_w: i64, screen_h: i64, tex_w: i64, tex_h: i64)
        requires
            1 <= screen_w <= SCREEN_LIMIT,
            1 <= screen_h <= SCREEN_LIMIT,
            1 <= tex_w <= SCREEN_LIMIT,
            1 <= tex_h <= SCREEN_LIMIT,
        ensures
            *final(self) == player_start(screen_w as int, screen_h as int, tex_w as int, tex_h as int),
            final(self).wf(),
    {
        *self = Player::new(screen_w, screen_h, tex_w, tex_h);
    }

    /// One frame of horizontal motion from the held arrow keys.
    pub fn update(&mut self, left_down: bool, right_down: bool, screen_w: i64, dt_ms: i64)
        requires
            old(self).wf(),
            1 <= screen_w <= SCREEN_LIMIT,
            0 <= dt_ms <= DT_LIMIT,
        ensures
            *final(self) == player_step(
                *old(self),
                left_down,
                right_down,
                screen_w as int,
                dt_ms as int,
            ),
            final(self).wf(),
    {
        let speed: i64 = screen_w / 3;
        proof {
            assert(0 <= speed * dt_ms <= SCREEN_LIMIT * DT_LIMIT) by (nonlinear_arith)
                requires
                    0 <= speed <= SCREEN_LIMIT,
                    0 <= dt_ms <= DT_LIMIT,
            ;
        }
        let dx: i64 = speed * dt_ms / 1000;
        let right_bound: i64 = screen_w - self.width - 10;
        if left_down {
            self.x = self.x - dx;
            if self.x < 10 {
                self.x = 10;
            }
        }
        if right_down {
            self.x = self.x + dx;
            if self.x > right_bound {
                self.x = right_bound;
            }
        }
    }
}

} // verus!
