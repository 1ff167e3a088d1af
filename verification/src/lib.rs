//! Verified core of a two-paddle arcade game: paddle motion with boundary
//! clamping, ball kinematics, wall and paddle collision response, scoring,
//! and serve generation.
//!
//! All quantities are fixed-point integers: one unit of world space is
//! `SCALE` ticks, so a coordinate of `1_500` stands for 1.5 world units.

pub mod ball;
pub mod court;
pub mod fixed;
pub mod game;
pub mod paddle;
mod rng;
pub mod score;
pub mod trig;

use vstd::prelude::*;

verus! {

/// Fixed-point scale: number of ticks per world unit.
pub const SCALE: i64 = 1000;

/// Paddle extent, world units times `SCALE`.
pub const PADDLE_WIDTH: i64 = 20_000;

pub const PADDLE_HEIGHT: i64 = 100_000;

/// Side length of the square ball.
pub const BALL_SIZE: i64 = 15_000;

/// Paddle travel per second of held key.
pub const PADDLE_SPEED: i64 = 500_000;

/// Speed a served ball starts with.
pub const BALL_SPEED: i64 = 400_000;

/// Thickness of the top and bottom walls.
pub const WALL_THICKNESS: i64 = 10_000;

/// Largest magnitude of a serve's vertical tilt before normalization:
/// a quarter of a world unit.
pub const SERVE_TILT_MAX: i64 = 250;

/// Machine limit on coordinate magnitudes the simulation accepts.
pub const POS_LIMIT: i64 = 1_000_000_000_000;

/// Machine limit on wall positions; tighter than `POS_LIMIT` so entities
/// spawned a fixed inset away from a wall stay in range.
pub const BOUND_LIMIT: i64 = 500_000_000_000;

/// Horizontal inset of a paddle's centre from its wall.
pub const PADDLE_INSET: i64 = 30_000;

/// Machine limit on a frame's elapsed time: one thousand seconds.
pub const DT_MAX: i64 = 1_000_000;

/// Machine limit on the speed a ball may carry.
pub const SPEED_LIMIT: i64 = 2_205_000_000;

/// Largest speed at which a frame's paddle hits stay below `SPEED_LIMIT`,
/// even in the unguarded case of the ball overlapping both paddles at once.
pub const HIT_SPEED_MAX: i64 = 2_000_000_000;

/// Machine limit on a velocity component's magnitude.
pub const VEL_LIMIT: i64 = 5_800_000_000;

/// Machine limit on the ball's position when collisions are resolved: the
/// furthest one update can carry it from a position within `POS_LIMIT`.
pub const POS_RESOLVE_LIMIT: i64 = 7_000_000_000_000;

/// Machine limit on entity extents.
pub const SIZE_LIMIT: i64 = 1_000_000_000;

} // verus!
