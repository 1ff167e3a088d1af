//! Fixed-point sine and cosine of a bounce angle.
//!
//! A paddle hit turns a normalized contact offset `t` (scale `SCALE`, so
//! `1000` stands for the paddle's edge) into the angle `t / SCALE * pi / 4`
//! radians. The library evaluates sine and cosine of that angle with
//! truncated Taylor polynomials in fixed-point arithmetic: degree five for
//! sine and degree six for cosine, carried out at a scale of one million and
//! rounded back to `SCALE`. Both are exact at offset zero, which is what the
//! serve and centre-hit properties rest on.

use vstd::prelude::*;

use crate::fixed::abs_s;
use crate::fixed::lemma_mul_le;
use crate::fixed::mul_div;
use crate::fixed::mul_div_s;

verus! {

/// Scale of the intermediate angle and polynomial terms.
pub const MICRO: i64 = 1_000_000;

/// `pi / 4` at scale `MICRO`.
pub const QUARTER_PI_MICRO: i64 = 785_398;

/// Largest offset magnitude the polynomials accept: half a turn's worth of
/// angle, comfortably past the largest offset a paddle overlap can yield.
pub const OFFSET_MAX: i64 = 2000;

/// The bounce angle of offset `t`, at scale `MICRO`.
pub open spec fn angle_s(t: int) -> int {
    mul_div_s(t, QUARTER_PI_MICRO as int, crate::SCALE as int)
}

/// Sine of the bounce angle of offset `t`, at scale `MICRO`:
/// `a - a^3/6 + a^5/120` evaluated with truncating fixed-point steps.
pub open spec fn sin_micro_s(t: int) -> int {
    let a = angle_s(t);
    let u = mul_div_s(a, a, MICRO as int);
    let u2 = mul_div_s(u, u, MICRO as int);
    a - mul_div_s(u, a, 6 * MICRO as int) + mul_div_s(u2, a, 120 * MICRO as int)
}

/// Cosine of the bounce angle of offset `t`, at scale `MICRO`:
/// `1 - a^2/2 + a^4/24 - a^6/720` evaluated with truncating fixed-point
/// steps.
pub open spec fn cos_micro_s(t: int) -> int {
    let a = angle_s(t);
    let u = mul_div_s(a, a, MICRO as int);
    let u2 = mul_div_s(u, u, MICRO as int);
    MICRO - mul_div_s(u, 1, 2) + mul_div_s(u2, 1, 24) - mul_div_s(u2, u, 720 * MICRO as int)
}

/// Sine of the bounce angle of offset `t`, at scale `SCALE`.
pub open spec fn sin_q_s(t: int) -> int {
    mul_div_s(sin_micro_s(t), 1, crate::SCALE as int)
}

/// Cosine of the bounce angle of offset `t`, at scale `SCALE`.
pub open spec fn cos_q_s(t: int) -> int {
    mul_div_s(cos_micro_s(t), 1, crate::SCALE as int)
}

/// A centred hit bounces straight: zero offset has sine zero and cosine one.
pub proof fn lemma_trig_at_zero()
    ensures
        sin_q_s(0) == 0,
        cos_q_s(0) == crate::SCALE as int,
{
    assert(angle_s(0) == 0);
    assert(mul_div_s(0, 0, MICRO as int) == 0);
    assert(sin_micro_s(0) == 0);
    assert(cos_micro_s(0) == MICRO as int);
    assert(sin_q_s(0) == 0);
    assert(cos_q_s(0) == crate::SCALE as int);
}

/// Sine of the bounce angle, at scale `SCALE`.
pub fn sin_q(t: i64) -> (r: i64)
    requires
        -OFFSET_MAX <= t <= OFFSET_MAX,
    ensures
        r as int == sin_q_s(t as int),
        abs_s(r as int) <= 2400,
{
    proof {
        lemma_mul_le(abs_s(t as int), 2000, QUARTER_PI_MICRO as int, QUARTER_PI_MICRO as int);
    }
    let a = mul_div(t, QUARTER_PI_MICRO, crate::SCALE);
    proof {
        assert(abs_s(a as int) <= 1_570_796);
        lemma_mul_le(abs_s(a as int), 1_570_796, abs_s(a as int), 1_570_796);
    }
    let u = mul_div(a, a, MICRO);
    proof {
        assert(abs_s(u as int) <= 2_467_401);
        lemma_mul_le(abs_s(u as int), 2_467_401, abs_s(a as int), 1_570_796);
    }
    let t3 = mul_div(u, a, 6 * MICRO);
    proof {
        assert(abs_s(t3 as int) <= 646_000);
        lemma_mul_le(abs_s(u as int), 2_467_401, abs_s(u as int), 2_467_401);
    }
    let u2 = mul_div(u, u, MICRO);
    proof {
        assert(abs_s(u2 as int) <= 6_088_068);
        lemma_mul_le(abs_s(u2 as int), 6_088_068, abs_s(a as int), 1_570_796);
    }
    let t5 = mul_div(u2, a, 120 * MICRO);
    proof {
        assert(abs_s(t5 as int) <= 79_693);
    }
    let s_micro = a - t3 + t5;
    proof {
        lemma_mul_le(abs_s(s_micro as int), 2_300_000, 1, 1);
    }
    mul_div(s_micro, 1, crate::SCALE)
}

/// Cosine of the bounce angle, at scale `SCALE`.
pub fn cos_q(t: i64) -> (r: i64)
    requires
        -OFFSET_MAX <= t <= OFFSET_MAX,
    ensures
        r as int == cos_q_s(t as int),
        abs_s(r as int) <= 2600,
{
    proof {
        lemma_mul_le(abs_s(t as int), 2000, QUARTER_PI_MICRO as int, QUARTER_PI_MICRO as int);
    }
    let a = mul_div(t, QUARTER_PI_MICRO, crate::SCALE);
    proof {
        assert(abs_s(a as int) <= 1_570_796);
        lemma_mul_le(abs_s(a as int), 1_570_796, abs_s(a as int), 1_570_796);
    }
    let u = mul_div(a, a, MICRO);
    proof {
        assert(abs_s(u as int) <= 2_467_401);
        lemma_mul_le(abs_s(u as int), 2_467_401, abs_s(u as int), 2_467_401);
    }
    let u2 = mul_div(u, u, MICRO);
    proof {
        assert(abs_s(u2 as int) <= 6_088_068);
        lemma_mul_le(abs_s(u as int), 2_467_401, 1, 1);
    }
    let c2 = mul_div(u, 1, 2);
    proof {
        assert(abs_s(c2 as int) <= 1_233_701);
        lemma_mul_le(abs_s(u2 as int), 6_088_068, 1, 1);
    }
    let c4 = mul_div(u2, 1, 24);
    proof {
        assert(abs_s(c4 as int) <= 253_670);
        lemma_mul_le(abs_s(u2 as int), 6_088_068, abs_s(u as int), 2_467_401);
    }
    let c6 = mul_div(u2, u, 720 * MICRO);
    proof {
        assert(abs_s(c6 as int) <= 20_865);
    }
    let c_micro = MICRO - c2 + c4 - c6;
    proof {
        lemma_mul_le(abs_s(c_micro as int), 2_510_000, 1, 1);
    }
    mul_div(c_micro, 1, crate::SCALE)
}

} // verus!
