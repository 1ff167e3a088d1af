//! The ball: kinematics, direction normalization, and the serve.

use vstd::prelude::*;

use crate::fixed::abs_s;
use crate::fixed::isqrt;
use crate::fixed::lemma_div_pos;
use crate::fixed::lemma_mul_le;
use crate::fixed::lemma_scaled_bound;
use crate::fixed::lemma_sqrt_lt;
use crate::fixed::lemma_square_bounds;
use crate::fixed::mul_div;
use crate::fixed::mul_div_s;
use crate::fixed::sqrt_down;
use crate::fixed::trunc_div;

verus! {

/// Ghost image of `Ball`, over mathematical integers.
pub ghost struct BallG {
    pub x: int,
    pub y: int,
    pub vx: int,
    pub vy: int,
    pub speed: int,
    pub size: int,
}

/// The ball: a square of side `size`, a velocity, and the speed scalar the
/// velocity was built from. The speed field carries the ideal magnitude of
/// the velocity: serves set it to the base constant and each paddle hit
/// multiplies it, while the components are derived from it by direction, so
/// the growth law is exact even though components round.
#[derive(Clone, Copy, Debug, PartialEq, Eq, Structural)]
pub struct Ball {
    pub x: i64,
    pub y: i64,
    pub vx: i64,
    pub vy: i64,
    pub speed: i64,
    pub size: i64,
}

impl View for Ball {
    type V = BallG;

    open spec fn view(&self) -> BallG {
        BallG {
            x: self.x as int,
            y: self.y as int,
            vx: self.vx as int,
            vy: self.vy as int,
            speed: self.speed as int,
            size: self.size as int,
        }
    }
}

impl BallG {
    pub open spec fn wf(self) -> bool {
        &&& abs_s(self.x) <= crate::POS_LIMIT
        &&& abs_s(self.y) <= crate::POS_LIMIT
        &&& abs_s(self.vx) <= crate::VEL_LIMIT
        &&& abs_s(self.vy) <= crate::VEL_LIMIT
        &&& 0 <= self.speed <= crate::SPEED_LIMIT
        &&& 0 < self.size <= crate::SIZE_LIMIT
    }
}

/// Length of the direction vector `(x, y)` on the fixed-point grid.
pub open spec fn norm_len_s(x: int, y: int) -> int {
    sqrt_down((x * x + y * y) as nat) as int
}

/// The component `c` of a direction vector `(x, y)`, rescaled so the whole
/// vector has length `s`.
pub open spec fn rescaled_s(c: int, s: int, x: int, y: int) -> int {
    mul_div_s(c, s, norm_len_s(x, y))
}

/// Normalize the direction `(x, y)` and scale it to speed `s`.
///
/// Components of the result never exceed `s`, and a component keeps the sign
/// of its input (a zero component stays zero).
pub fn scale_to_speed(x: i64, y: i64, s: i64) -> (v: (i64, i64))
    requires
        abs_s(x as int) <= 1_000_000,
        abs_s(y as int) <= 1_000_000,
        x != 0 || y != 0,
        0 <= s <= crate::SPEED_LIMIT,
    ensures
        v.0 as int == rescaled_s(x as int, s as int, x as int, y as int),
        v.1 as int == rescaled_s(y as int, s as int, x as int, y as int),
        abs_s(v.0 as int) <= s,
        abs_s(v.1 as int) <= s,
{
    proof {
        lemma_square_bounds(x as int, 1_000_000);
        lemma_square_bounds(y as int, 1_000_000);
        lemma_mul_le(abs_s(x as int), 1_000_000, abs_s(x as int), 1_000_000);
        lemma_mul_le(abs_s(y as int), 1_000_000, abs_s(y as int), 1_000_000);
        assert(abs_s(x as int) * abs_s(x as int) == (x as int) * (x as int)) by (nonlinear_arith);
        assert(abs_s(y as int) * abs_s(y as int) == (y as int) * (y as int)) by (nonlinear_arith);
    }
    let xx = mul_div(x, x, 1);
    let yy = mul_div(y, y, 1);
    let ghost n = (x as int) * (x as int) + (y as int) * (y as int);
    proof {
        assert(xx as int == (x as int) * (x as int));
        assert(yy as int == (y as int) * (y as int));
        assert(1 <= n <= 2_000_000_000_000);
    }
    let len64 = isqrt((xx + yy) as u64);
    proof {
        lemma_sqrt_lt(len64 as int, n, 1_414_214);
        if len64 == 0 {
            assert(n < 1);
        }
        assert(1 <= len64 as int <= 1_414_213);
    }
    let len = len64 as i64;
    proof {
        lemma_mul_le(abs_s(x as int), 1_000_000, abs_s(s as int), crate::SPEED_LIMIT as int);
        lemma_mul_le(abs_s(y as int), 1_000_000, abs_s(s as int), crate::SPEED_LIMIT as int);
        lemma_mul_le(1, 1, len as int, len as int);
        assert(i64::MAX * 1 <= i64::MAX * (len as int)) by (nonlinear_arith)
            requires
                1 <= len as int,
        ;
    }
    let vx = mul_div(x, s, len);
    let vy = mul_div(y, s, len);
    proof {
        lemma_sqrt_lt(abs_s(x as int), n, len as int + 1);
        lemma_sqrt_lt(abs_s(y as int), n, len as int + 1);
        lemma_scaled_bound(abs_s(vx as int), len as int, abs_s(x as int), s as int);
        lemma_scaled_bound(abs_s(vy as int), len as int, abs_s(y as int), s as int);
    }
    (vx, vy)
}

/// The ghost value a freshly spawned ball has: centred, the standard
/// opening direction scaled to base speed, standard size.
pub open spec fn spawn_ball_view() -> BallG {
    BallG {
        x: 0,
        y: 0,
        vx: rescaled_s(700, crate::BALL_SPEED as int, 700, 300),
        vy: rescaled_s(300, crate::BALL_SPEED as int, 700, 300),
        speed: crate::BALL_SPEED as int,
        size: crate::BALL_SIZE as int,
    }
}

/// A ball at the field centre, moving along the standard opening direction
/// at base speed.
pub fn spawn_ball() -> (b: Ball)
    ensures
        b@.wf(),
        b@ == spawn_ball_view(),
{
    let (vx, vy) = scale_to_speed(700, 300, crate::BALL_SPEED);
    Ball { x: 0, y: 0, vx, vy, speed: crate::BALL_SPEED, size: crate::BALL_SIZE }
}

/// Where the ball's centre lands after `dt` at velocity `(vx, vy)`.
pub open spec fn moved_s(c: int, v: int, dt: int) -> int {
    c + mul_div_s(v, dt, crate::SCALE as int)
}

/// One ball simulator update: advance the position by `velocity * dt` on
/// both axes. No clamping; collisions are a separate pass.
pub fn ball_step(b: &mut Ball, dt: i64)
    requires
        old(b)@.wf(),
        0 <= dt <= crate::DT_MAX,
    ensures
        final(b)@.x == moved_s(old(b)@.x, old(b)@.vx, dt as int),
        final(b)@.y == moved_s(old(b)@.y, old(b)@.vy, dt as int),
        final(b)@.vx == old(b)@.vx,
        final(b)@.vy == old(b)@.vy,
        final(b)@.speed == old(b)@.speed,
        final(b)@.size == old(b)@.size,
        abs_s(final(b)@.x) <= abs_s(old(b)@.x) + 5_800_000_000_000,
        abs_s(final(b)@.y) <= abs_s(old(b)@.y) + 5_800_000_000_000,
{
    proof {
        lemma_mul_le(abs_s(b.vx as int), crate::VEL_LIMIT as int, abs_s(dt as int),
            crate::DT_MAX as int);
        lemma_mul_le(abs_s(b.vy as int), crate::VEL_LIMIT as int, abs_s(dt as int),
            crate::DT_MAX as int);
    }
    let dx = mul_div(b.vx, dt, crate::SCALE);
    let dy = mul_div(b.vy, dt, crate::SCALE);
    proof {
        assert(abs_s(dx as int) <= 5_800_000_000_000);
        assert(abs_s(dy as int) <= 5_800_000_000_000);
    }
    b.x = b.x + dx;
    b.y = b.y + dy;
}

/// Horizontal component of a serve's direction vector before normalization:
/// one world unit toward the receiving side.
pub open spec fn serve_dir_x(to_right: bool) -> int {
    if to_right {
        crate::SCALE as int
    } else {
        -crate::SCALE as int
    }
}

/// Horizontal velocity component of a serve with vertical tilt `tilt`.
pub open spec fn serve_vx_s(to_right: bool, tilt: int) -> int {
    rescaled_s(serve_dir_x(to_right), crate::BALL_SPEED as int, serve_dir_x(to_right), tilt)
}

/// Vertical velocity component of a serve with vertical tilt `tilt`.
pub open spec fn serve_vy_s(to_right: bool, tilt: int) -> int {
    rescaled_s(tilt, crate::BALL_SPEED as int, serve_dir_x(to_right), tilt)
}

/// A serve always moves strictly toward the receiving side: its horizontal
/// velocity component keeps the sign of the bias it was built from.
pub proof fn lemma_serve_vx_sign(to_right: bool, tilt: int)
    requires
        -crate::SERVE_TILT_MAX <= tilt <= crate::SERVE_TILT_MAX,
    ensures
        to_right ==> serve_vx_s(to_right, tilt) > 0,
        !to_right ==> serve_vx_s(to_right, tilt) < 0,
{
    let dx = serve_dir_x(to_right);
    let n = dx * dx + tilt * tilt;
    lemma_square_bounds(tilt, crate::SERVE_TILT_MAX as int);
    assert(dx * dx == 1_000_000) by (nonlinear_arith)
        requires
            dx == 1000 || dx == -1000,
    ;
    assert(1_000_000 <= n <= 1_062_500);
    crate::fixed::lemma_sqrt_down(n as nat);
    let len = norm_len_s(dx, tilt);
    lemma_sqrt_lt(len, n, 1031);
    if len < 1000 {
        lemma_sqrt_lt(1000, n, len + 1);
    }
    assert(1000 <= len <= 1030);
    lemma_div_pos(400_000_000, len);
    assert(dx * (crate::BALL_SPEED as int) == if to_right {
        400_000_000int
    } else {
        -400_000_000int
    }) by (nonlinear_arith)
        requires
            dx == if to_right { 1000int } else { -1000int },
    ;
    if to_right {
        assert(serve_vx_s(to_right, tilt) == trunc_div(400_000_000, len));
    } else {
        assert(serve_vx_s(to_right, tilt) == trunc_div(-400_000_000, len));
    }
}

/// Reset the ball for a serve: back to the field centre, at base speed,
/// heading toward `to_right` with vertical tilt `tilt`.
///
/// The served ball always moves strictly toward the receiving side.
pub fn reset_serve(b: &mut Ball, to_right: bool, tilt: i64)
    requires
        0 < old(b)@.size <= crate::SIZE_LIMIT,
        -crate::SERVE_TILT_MAX <= tilt <= crate::SERVE_TILT_MAX,
    ensures
        final(b)@.x == 0 && final(b)@.y == 0,
        final(b)@.vx == serve_vx_s(to_right, tilt as int),
        final(b)@.vy == serve_vy_s(to_right, tilt as int),
        final(b)@.speed == crate::BALL_SPEED,
        final(b)@.size == old(b)@.size,
        final(b)@.wf(),
        to_right ==> final(b)@.vx > 0,
        !to_right ==> final(b)@.vx < 0,
{
    let dir_x: i64 = if to_right {
        crate::SCALE
    } else {
        -crate::SCALE
    };
    let (vx, vy) = scale_to_speed(dir_x, tilt, crate::BALL_SPEED);
    proof {
        assert(dir_x as int == serve_dir_x(to_right));
        lemma_serve_vx_sign(to_right, tilt as int);
    }
    b.x = 0;
    b.y = 0;
    b.vx = vx;
    b.vy = vy;
    b.speed = crate::BALL_SPEED;
}

} // verus!
