//! Paddles and the paddle controller: vertical motion from held keys,
//! clamped to the play field.

use vstd::prelude::*;

use crate::court::Bounds;
use crate::court::BoundsG;
use crate::fixed::abs_s;
use crate::fixed::clamp;
use crate::fixed::clamp_s;
use crate::fixed::lemma_mul_le;
use crate::fixed::mul_div;
use crate::fixed::mul_div_s;

verus! {

/// Which wall a paddle guards.
#[derive(Clone, Copy, Debug, PartialEq, Eq, Structural)]
pub enum Side {
    Left,
    Right,
}

/// Ghost image of `Paddle`, over mathematical integers.
pub ghost struct PaddleG {
    pub side: Side,
    pub x: int,
    pub y: int,
    pub width: int,
    pub height: int,
}

/// A paddle: a fixed horizontal station, a mutable height, constant extents.
#[derive(Clone, Copy, Debug, PartialEq, Eq, Structural)]
pub struct Paddle {
    pub side: Side,
    pub x: i64,
    pub y: i64,
    pub width: i64,
    pub height: i64,
}

impl View for Paddle {
    type V = PaddleG;

    open spec fn view(&self) -> PaddleG {
        PaddleG {
            side: self.side,
            x: self.x as int,
            y: self.y as int,
            width: self.width as int,
            height: self.height as int,
        }
    }
}

impl PaddleG {
    pub open spec fn wf(self) -> bool {
        &&& abs_s(self.x) <= crate::POS_LIMIT
        &&& abs_s(self.y) <= crate::POS_LIMIT
        &&& 0 < self.width <= crate::SIZE_LIMIT
        &&& 2 <= self.height <= crate::SIZE_LIMIT
    }

    /// Lowest centre height that keeps the paddle inside the field.
    pub open spec fn clamp_lo(self, b: BoundsG) -> int {
        b.bottom + self.height / 2 + crate::WALL_THICKNESS / 2
    }

    /// Highest centre height that keeps the paddle inside the field.
    pub open spec fn clamp_hi(self, b: BoundsG) -> int {
        b.top - self.height / 2 - crate::WALL_THICKNESS / 2
    }
}

/// Travel contributed by one held key over `dt`: paddle speed times elapsed
/// time, truncated to the fixed-point grid.
pub open spec fn key_travel(pressed: bool, dt: int) -> int {
    if pressed {
        mul_div_s(crate::PADDLE_SPEED as int, dt, crate::SCALE as int)
    } else {
        0
    }
}

/// The paddle centre height one controller update yields: up and down
/// contribute independent additive deltas, then the result is clamped.
pub open spec fn paddle_y_after(p: PaddleG, b: BoundsG, up: bool, down: bool, dt: int) -> int {
    clamp_s(p.y + key_travel(up, dt) - key_travel(down, dt), p.clamp_lo(b), p.clamp_hi(b))
}

/// A paddle at its spawn station: centred vertically, a fixed inset in from
/// its wall, with the standard extents.
pub fn spawn_paddle(side: Side, b: &Bounds) -> (p: Paddle)
    requires
        b@.wf(),
    ensures
        p@.wf(),
        p@.side == side,
        p@.y == 0,
        p@.width == crate::PADDLE_WIDTH,
        p@.height == crate::PADDLE_HEIGHT,
        side == Side::Left ==> p@.x == b@.left + crate::PADDLE_INSET,
        side == Side::Right ==> p@.x == b@.right - crate::PADDLE_INSET,
{
    let x = match side {
        Side::Left => b.left + crate::PADDLE_INSET,
        Side::Right => b.right - crate::PADDLE_INSET,
    };
    Paddle { side, x, y: 0, width: crate::PADDLE_WIDTH, height: crate::PADDLE_HEIGHT }
}

/// One paddle controller update.
///
/// A held up key raises the centre by `PADDLE_SPEED * dt`, a held down key
/// lowers it by the same amount; both at once cancel. The result is clamped
/// to the band in which the whole paddle stays between the walls' inner
/// edges, so the updated height always lies in that band.
pub fn paddle_update(p: &mut Paddle, b: &Bounds, up: bool, down: bool, dt: i64)
    requires
        old(p)@.wf(),
        b@.wf(),
        0 <= dt <= crate::DT_MAX,
        old(p)@.clamp_lo(b@) <= old(p)@.clamp_hi(b@),
    ensures
        final(p)@.y == paddle_y_after(old(p)@, b@, up, down, dt as int),
        old(p)@.clamp_lo(b@) <= final(p)@.y <= old(p)@.clamp_hi(b@),
        final(p)@.side == old(p)@.side,
        final(p)@.x == old(p)@.x,
        final(p)@.width == old(p)@.width,
        final(p)@.height == old(p)@.height,
        final(p)@.wf(),
{
    proof {
        lemma_mul_le(crate::PADDLE_SPEED as int, crate::PADDLE_SPEED as int, dt as int,
            crate::DT_MAX as int);
    }
    let travel = mul_div(crate::PADDLE_SPEED, dt, crate::SCALE);
    proof {
        assert(abs_s(travel as int) <= 500_000_000);
    }
    let mut y = p.y;
    if up {
        y = y + travel;
    }
    if down {
        y = y - travel;
    }
    let half = crate::fixed::half(p.height);
    let half_t = crate::fixed::half(crate::WALL_THICKNESS);
    let lo = b.bottom + half + half_t;
    let hi = b.top - half - half_t;
    p.y = clamp(y, lo, hi);
}

} // verus!
