//! A projectile: a point that travels straight up until it leaves the
//! screen or is consumed by a hit.

use vstd::prelude::*;
use crate::{clamp_coord, coord_add, COORD_LIMIT, DT_LIMIT, SCREEN_LIMIT};

verus! {

/// A projectile fired by the player.
#[derive(Clone, Copy, PartialEq, Eq, Structural, Debug)]
pub struct Bullet {
    pub x: i64,
    pub y: i64,
    pub collided: bool,
}

/// Upward motion for one frame: speed proportional to the screen
/// height, independent of the horizontal axis.
pub open spec fn bullet_step(b: Bullet, screen_h: int, dt_ms: int) -> Bullet {
    let dy = screen_h / 3 * dt_ms / 1000;
    Bullet { y: clamp_coord(b.y - dy) as i64, ..b }
}

impl Bullet {
    /// Coordinates within the ranges frame arithmetic needs.
    pub open spec fn wf(self) -> bool {
        &&& -COORD_LIMIT <= self.x <= COORD_LIMIT
        &&& -COORD_LIMIT <= self.y <= COORD_LIMIT
    }

    /// A fresh projectile at the given point.
    pub fn new(x: i64, y: i64) -> (b: Bullet)
        requires
            -COORD_LIMIT <= x <= COORD_LIMIT,
            -COORD_LIMIT <= y <= COORD_LIMIT,
        ensures
            b == (Bullet { x, y, collided: false }),
            b.wf(),
    {
        Bullet { x, y, collided: false }
    }

    /// One frame of upward motion.
    pub fn update(&mut self, screen_h: i64, dt_ms: i64)
        requires
            old(self).wf(),
            0 <= screen_h <= SCREEN_LIMIT,
            0 <= dt_ms <= DT_LIMIT,
        ensures
            *final(self) == bullet_step(*old(self), screen_h as int, dt_ms as int),
            final(self).wf(),
    {
        let speed: i64 = screen_h / 3;
        proof {
            assert(0 <= speed * dt_ms <= SCREEN_LIMIT * DT_LIMIT) by (nonlinear_arith)
                requires
                    0 <= speed <= SCREEN_LIMIT,
                    0 <= dt_ms <= DT_LIMIT,
            ;
        }
        let dy: i64 = speed * dt_ms / 1000;
        self.y = coord_add(self.y, -dy);
    }
}

} // verus!
