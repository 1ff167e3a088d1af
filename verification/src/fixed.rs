//! Fixed-point arithmetic helpers: truncating multiply-then-divide, integer
//! square root, and clamping. All game arithmetic is built on these.

use vstd::prelude::*;

verus! {

/// Absolute value of a mathematical integer.
pub open spec fn abs_s(x: int) -> int {
    if x >= 0 {
        x
    } else {
        -x
    }
}

/// Division rounding toward zero, for a positive divisor. This is the
/// rounding that all fixed-point operations of the library use.
pub open spec fn trunc_div(n: int, d: int) -> int {
    if n >= 0 {
        n / d
    } else {
        -((-n) / d)
    }
}

/// `a * b / d`, rounded toward zero.
pub open spec fn mul_div_s(a: int, b: int, d: int) -> int {
    trunc_div(a * b, d)
}

/// Sign and magnitude facts about a product, stated over plain integers so
/// the nonlinear solver can use them.
proof fn lemma_abs_mul(a: int, b: int, ma: int, mb: int) by (nonlinear_arith)
    requires
        ma == (if a >= 0 { a } else { -a }),
        mb == (if b >= 0 { b } else { -b }),
    ensures
        ma >= 0,
        mb >= 0,
        a * b >= 0 ==> ma * mb == a * b,
        a * b < 0 ==> ma * mb == -(a * b),
        (a < 0) != (b < 0) ==> a * b <= 0,
        (a < 0) == (b < 0) ==> a * b >= 0,
{
}

/// Division of non-negative integers by a positive divisor stays under any
/// bound that the dividend stays under.
proof fn lemma_div_bounds(p: int, d: int, q: int) by (nonlinear_arith)
    requires
        d > 0,
        p >= 0,
        q == p / d,
    ensures
        q >= 0,
        q * d <= p,
        p < (q + 1) * d,
{
}

proof fn lemma_div_le(q: int, d: int, m: int) by (nonlinear_arith)
    requires
        d > 0,
        q * d <= m * d,
    ensures
        q <= m,
{
}

/// Multiplication of non-negative integers is monotone in both factors.
pub proof fn lemma_mul_le(x: int, xb: int, y: int, yb: int) by (nonlinear_arith)
    requires
        0 <= x <= xb,
        0 <= y <= yb,
    ensures
        x * y <= xb * yb,
{
}

/// Bounds on a square from bounds on its root.
pub proof fn lemma_square_bounds(x: int, m: int) by (nonlinear_arith)
    requires
        -m <= x <= m,
    ensures
        0 <= x * x <= m * m,
        x != 0 ==> 1 <= x * x,
{
}

/// Strict ordering of square roots from strict ordering of squares.
pub proof fn lemma_sqrt_lt(l: int, n: int, m: int) by (nonlinear_arith)
    requires
        l >= 0,
        m >= 0,
        l * l <= n,
        n < m * m,
    ensures
        l < m,
{
}

/// A dividend at least as large as the positive divisor divides to at least
/// one.
pub proof fn lemma_div_pos(p: int, d: int) by (nonlinear_arith)
    requires
        0 < d <= p,
    ensures
        p / d >= 1,
{
}

/// A scaled component stays under the scale: if `r * d <= xa * s` with
/// `xa <= d`, then `r <= s`.
pub proof fn lemma_scaled_bound(r: int, d: int, xa: int, s: int) by (nonlinear_arith)
    requires
        d > 0,
        0 <= r,
        0 <= s,
        0 <= xa <= d,
        r * d <= xa * s,
    ensures
        r <= s,
{
}

/// `a * b / d` rounded toward zero, computed without intermediate overflow.
///
/// The magnitude bound in the second ensures clause is what callers use to
/// keep later arithmetic in range: once `d` is a literal, it yields a linear
/// bound on the result.
pub fn mul_div(a: i64, b: i64, d: i64) -> (r: i64)
    requires
        0 < d,
        a != i64::MIN,
        b != i64::MIN,
        abs_s(a as int) * abs_s(b as int) <= i64::MAX * (d as int),
    ensures
        r as int == mul_div_s(a as int, b as int, d as int),
        abs_s(r as int) * (d as int) <= abs_s(a as int) * abs_s(b as int),
{
    let ghost ai = a as int;
    let ghost bi = b as int;
    let ghost di = d as int;
    let ma: u64 = if a < 0 {
        (-a) as u64
    } else {
        a as u64
    };
    let mb: u64 = if b < 0 {
        (-b) as u64
    } else {
        b as u64
    };
    proof {
        lemma_abs_mul(ai, bi, ma as int, mb as int);
        assert((ma as int) * (mb as int) < 0x100000000000000000000000000000000int)
            by (nonlinear_arith)
            requires
                ma as int <= 0xffffffffffffffffint,
                mb as int <= 0xffffffffffffffffint,
                ma as int >= 0,
                mb as int >= 0;
    }
    let p: u128 = (ma as u128) * (mb as u128);
    let q: u128 = p / (d as u128);
    proof {
        lemma_div_bounds(p as int, di, q as int);
        assert(p as int == abs_s(ai * bi));
        lemma_div_le(q as int, di, i64::MAX as int);
    }
    let neg = (a < 0) != (b < 0);
    if neg {
        let r = -(q as i64);
        proof {
            assert(ai * bi <= 0);
            if ai * bi == 0 {
                assert(q == 0) by {
                    lemma_div_bounds(p as int, di, q as int);
                };
            } else {
                assert(r as int == -((-(ai * bi)) / di));
            }
        }
        r
    } else {
        let r = q as i64;
        proof {
            assert(ai * bi >= 0);
        }
        r
    }
}

/// The integer square root: the greatest `r` with `r * r <= n`.
pub open spec fn sqrt_down(n: nat) -> nat
    decreases n,
{
    if n == 0 {
        0
    } else {
        let p = sqrt_down((n - 1) as nat);
        if (p + 1) * (p + 1) <= n {
            p + 1
        } else {
            p
        }
    }
}

/// `sqrt_down(n)` is sandwiched between the two neighbouring squares.
pub proof fn lemma_sqrt_down(n: nat)
    ensures
        sqrt_down(n) * sqrt_down(n) <= n,
        n < (sqrt_down(n) + 1) * (sqrt_down(n) + 1),
    decreases n,
{
    if n == 0 {
        assert(sqrt_down(n) == 0);
        assert(n < (sqrt_down(n) + 1) * (sqrt_down(n) + 1)) by (nonlinear_arith)
            requires
                n == 0,
                sqrt_down(n) == 0,
        ;
    } else {
        let m = (n - 1) as nat;
        lemma_sqrt_down(m);
        let p = sqrt_down(m);
        if (p + 1) * (p + 1) <= n {
            assert(sqrt_down(n) == p + 1);
            assert((p + 2) * (p + 2) > n) by (nonlinear_arith)
                requires
                    m < (p + 1) * (p + 1),
                    (p + 1) * (p + 1) <= n,
                    n == m + 1,
                    p >= 0,
            ;
            assert(n < (sqrt_down(n) + 1) * (sqrt_down(n) + 1)) by (nonlinear_arith)
                requires
                    sqrt_down(n) == p + 1,
                    n < (p + 2) * (p + 2),
            ;
        } else {
            assert(sqrt_down(n) == p);
            assert(n < (sqrt_down(n) + 1) * (sqrt_down(n) + 1)) by (nonlinear_arith)
                requires
                    sqrt_down(n) == p,
                    n < (p + 1) * (p + 1),
            ;
        }
    }
}

/// Any value sandwiched between the neighbouring squares is the integer
/// square root.
pub proof fn lemma_sqrt_down_unique(n: nat, r: nat)
    requires
        r * r <= n,
        n < (r + 1) * (r + 1),
    ensures
        r == sqrt_down(n),
{
    lemma_sqrt_down(n);
    let s = sqrt_down(n);
    if r < s {
        assert(false) by (nonlinear_arith)
            requires
                r < s,
                s * s <= n,
                n < (r + 1) * (r + 1),
                r >= 0,
                s >= 0;
    }
    if s < r {
        assert(false) by (nonlinear_arith)
            requires
                s < r,
                r * r <= n,
                n < (s + 1) * (s + 1),
                r >= 0,
                s >= 0;
    }
}

/// Integer square root by bisection.
pub fn isqrt(n: u64) -> (r: u64)
    ensures
        r as nat == sqrt_down(n as nat),
        (r as int) * (r as int) <= n as int,
        n < (r + 1) * (r + 1),
{
    let mut lo: u64 = 0;
    let mut hi: u64 = 0x100000000;
    proof {
        assert((hi as int) * (hi as int) > n as int) by (nonlinear_arith)
            requires
                hi as int == 0x100000000,
                (n as int) < 0x10000000000000000,
        ;
    }
    while lo + 1 < hi
        invariant
            0 <= lo < hi <= 0x100000000,
            (lo as int) * (lo as int) <= n as int,
            (hi as int) * (hi as int) > n as int,
        decreases hi - lo,
    {
        let mid: u64 = lo + (hi - lo) / 2;
        proof {
            assert((mid as int) * (mid as int) < 0x10000000000000000) by (nonlinear_arith)
                requires
                    0 <= (mid as int) < 0x100000000,
            ;
        }
        if mid * mid <= n {
            lo = mid;
        } else {
            hi = mid;
        }
    }
    proof {
        assert(((lo + 1) as int) * ((lo + 1) as int) >= (hi as int) * (hi as int))
            by (nonlinear_arith)
            requires
                hi as int <= lo as int + 1,
                hi as int >= 1;
        lemma_sqrt_down_unique(n as nat, lo as nat);
    }
    lo
}

/// Half of a non-negative value, rounded down.
pub fn half(x: i64) -> (r: i64)
    requires
        x >= 0,
    ensures
        r as int == (x as int) / 2,
        0 <= r <= x,
{
    ((x as u64) / 2) as i64
}

/// Clamping to a closed interval.
pub open spec fn clamp_s(v: int, lo: int, hi: int) -> int {
    if v < lo {
        lo
    } else if v > hi {
        hi
    } else {
        v
    }
}

pub fn clamp(v: i64, lo: i64, hi: i64) -> (r: i64)
    requires
        lo <= hi,
    ensures
        r as int == clamp_s(v as int, lo as int, hi as int),
        lo <= r <= hi,
{
    if v < lo {
        lo
    } else if v > hi {
        hi
    } else {
        v
    }
}

} // verus!
