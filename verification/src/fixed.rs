//! Exact fixed-point arithmetic for the simulation core.
//!
//! - lengths and positions: micro-units, `FX_ONE` per world unit;
//! - velocities: nano-units per millisecond (`FX_ONE` = one unit per second);
//! - angles: micro-degrees;
//! - dimensionless factors (trig values, scales): micro-scale, `FX_ONE` = 1.0.
//!
//! Overflowing operations saturate at the `i64` range; the saturation is part
//! of every operation's stated semantics, so contracts stay exact.

use vstd::prelude::*;
use vstd::arithmetic::div_mod::{
    lemma_div_pos_is_pos, lemma_div_nonincreasing, lemma_div_is_ordered,
    lemma_add_mod_noop,
};

verus! {

/// 1.0 in micro fixed point.
pub const FX_ONE: i64 = 1_000_000;

/// A full turn in micro-degrees.
pub const TURN_UDEG: i64 = 360_000_000;

/// Half a turn in micro-degrees.
pub const HALF_TURN_UDEG: i64 = 180_000_000;

/// Truncating division (rounds toward zero), for a positive divisor.
pub open spec fn div_tr(a: int, b: int) -> int {
    if a >= 0 {
        a / b
    } else {
        -((-a) / b)
    }
}

/// Saturation to the `i64` range.
pub open spec fn sat64(x: int) -> int {
    if x > i64::MAX {
        i64::MAX as int
    } else if x < i64::MIN {
        i64::MIN as int
    } else {
        x
    }
}

/// Saturating addition.
pub open spec fn sadd(a: int, b: int) -> int {
    sat64(a + b)
}

/// Saturating subtraction.
pub open spec fn ssub(a: int, b: int) -> int {
    sat64(a - b)
}

/// Product of two micro-scale factors, truncated back to micro-scale and
/// saturated.
pub open spec fn fxmul(a: int, b: int) -> int {
    sat64(div_tr(a * b, FX_ONE as int))
}

/// Truncating division of a product by a positive divisor, saturated:
/// the shape of every scaling step in the simulation.
pub open spec fn muldiv(a: int, b: int, d: int) -> int {
    sat64(div_tr(a * b, d))
}

fn clamp_to_i64(x: i128) -> (r: i64)
    ensures
        r as int == sat64(x as int),
{
    if x > i64::MAX as i128 {
        i64::MAX
    } else if x < i64::MIN as i128 {
        i64::MIN
    } else {
        x as i64
    }
}

/// Truncating division, positive divisor.
pub fn div_trunc(a: i64, b: i64) -> (r: i64)
    requires
        b > 0,
    ensures
        r as int == div_tr(a as int, b as int),
{
    proof {
        if a >= 0 {
            lemma_div_pos_is_pos(a as int, b as int);
            lemma_div_nonincreasing(a as int, b as int);
        } else {
            lemma_div_pos_is_pos(-(a as int), b as int);
            lemma_div_nonincreasing(-(a as int), b as int);
        }
    }
    a.checked_div(b).unwrap()
}

fn div_trunc_i128(a: i128, b: i128) -> (r: i128)
    requires
        b > 0,
    ensures
        r as int == div_tr(a as int, b as int),
{
    proof {
        if a >= 0 {
            lemma_div_pos_is_pos(a as int, b as int);
            lemma_div_nonincreasing(a as int, b as int);
        } else {
            lemma_div_pos_is_pos(-(a as int), b as int);
            lemma_div_nonincreasing(-(a as int), b as int);
        }
    }
    a.checked_div(b).unwrap()
}

/// Saturating addition.
pub fn add_sat(a: i64, b: i64) -> (r: i64)
    ensures
        r as int == sadd(a as int, b as int),
{
    clamp_to_i64(a as i128 + b as i128)
}

/// Saturating subtraction.
pub fn sub_sat(a: i64, b: i64) -> (r: i64)
    ensures
        r as int == ssub(a as int, b as int),
{
    clamp_to_i64(a as i128 - b as i128)
}

/// `a * b / d` with truncation and saturation, positive divisor.
pub fn mul_div(a: i64, b: i64, d: i64) -> (r: i64)
    requires
        d > 0,
    ensures
        r as int == muldiv(a as int, b as int, d as int),
{
    proof {
        assert((a as int) * (b as int) <= 0x8000_0000_0000_0000 * 0x8000_0000_0000_0000
            && (a as int) * (b as int) >= -(0x8000_0000_0000_0000 * 0x8000_0000_0000_0000))
            by (nonlinear_arith)
            requires
                -0x8000_0000_0000_0000 <= a as int <= 0x7fff_ffff_ffff_ffff,
                -0x8000_0000_0000_0000 <= b as int <= 0x7fff_ffff_ffff_ffff,
        ;
    }
    let p = (a as i128) * (b as i128);
    let q = div_trunc_i128(p, d as i128);
    clamp_to_i64(q)
}

/// Product of micro-scale factors.
pub fn mul_fx(a: i64, b: i64) -> (r: i64)
    ensures
        r as int == fxmul(a as int, b as int),
{
    mul_div(a, b, FX_ONE)
}

/// A 3D vector of fixed-point coordinates.
#[derive(Clone, Copy, PartialEq, Eq, Structural, Debug)]
pub struct Vec3Fx {
    pub x: i64,
    pub y: i64,
    pub z: i64,
}

impl Vec3Fx {
    pub open spec fn spec_zero() -> Vec3Fx {
        Vec3Fx { x: 0, y: 0, z: 0 }
    }

    pub open spec fn spec_one() -> Vec3Fx {
        Vec3Fx { x: FX_ONE, y: FX_ONE, z: FX_ONE }
    }

    /// The zero vector.
    pub fn zero() -> (v: Vec3Fx)
        ensures
            v == Vec3Fx::spec_zero(),
    {
        Vec3Fx { x: 0, y: 0, z: 0 }
    }

    /// The all-ones vector (unit scale).
    pub fn one() -> (v: Vec3Fx)
        ensures
            v == Vec3Fx::spec_one(),
    {
        Vec3Fx { x: FX_ONE, y: FX_ONE, z: FX_ONE }
    }

    pub open spec fn spec_add(self, o: Vec3Fx) -> Vec3Fx {
        Vec3Fx {
            x: sadd(self.x as int, o.x as int) as i64,
            y: sadd(self.y as int, o.y as int) as i64,
            z: sadd(self.z as int, o.z as int) as i64,
        }
    }

    pub open spec fn spec_sub(self, o: Vec3Fx) -> Vec3Fx {
        Vec3Fx {
            x: ssub(self.x as int, o.x as int) as i64,
            y: ssub(self.y as int, o.y as int) as i64,
            z: ssub(self.z as int, o.z as int) as i64,
        }
    }

    /// Componentwise saturating sum.
    pub fn add(self, o: Vec3Fx) -> (r: Vec3Fx)
        ensures
            r == self.spec_add(o),
    {
        Vec3Fx { x: add_sat(self.x, o.x), y: add_sat(self.y, o.y), z: add_sat(self.z, o.z) }
    }

    /// Componentwise saturating difference.
    pub fn sub(self, o: Vec3Fx) -> (r: Vec3Fx)
        ensures
            r == self.spec_sub(o),
    {
        Vec3Fx { x: sub_sat(self.x, o.x), y: sub_sat(self.y, o.y), z: sub_sat(self.z, o.z) }
    }
}

/// Absolute value, saturated (so `i64::MIN` maps to `i64::MAX`).
pub open spec fn abs_sat(a: int) -> int {
    if a >= 0 {
        a
    } else {
        sat64(-a)
    }
}

pub fn abs_fx(a: i64) -> (r: i64)
    ensures
        r as int == abs_sat(a as int),
{
    if a >= 0 {
        a
    } else if a == i64::MIN {
        i64::MAX
    } else {
        -a
    }
}

/// Integer square root: the largest `r` with `r * r <= n`.
pub open spec fn isqrt_spec(n: nat) -> nat
    decreases n,
{
    if n == 0 {
        0
    } else {
        let r = isqrt_spec((n - 1) as nat);
        if (r + 1) * (r + 1) <= n {
            r + 1
        } else {
            r
        }
    }
}

pub proof fn lemma_isqrt_bounds(n: nat)
    ensures
        isqrt_spec(n) * isqrt_spec(n) <= n,
        n < (isqrt_spec(n) + 1) * (isqrt_spec(n) + 1),
    decreases n,
{
    if n > 0 {
        lemma_isqrt_bounds((n - 1) as nat);
        let r = isqrt_spec((n - 1) as nat);
        assert(r * r <= n - 1);
        assert(n - 1 < (r + 1) * (r + 1));
        if (r + 1) * (r + 1) <= n {
            assert(isqrt_spec(n) == r + 1);
            assert(n < ((r + 1) + 1) * ((r + 1) + 1)) by (nonlinear_arith)
                requires
                    n <= (r + 1) * (r + 1),
                    r >= 0,
            ;
        } else {
            assert(isqrt_spec(n) == r);
        }
    } else {
        assert(isqrt_spec(n) == 0);
        assert(isqrt_spec(n) * isqrt_spec(n) <= n);
        assert(n < (isqrt_spec(n) + 1) * (isqrt_spec(n) + 1)) by (nonlinear_arith)
            requires
                n == 0,
                isqrt_spec(n) == 0,
        ;
    }
}

/// Integer square root of a 64-bit value.
pub fn isqrt64(n: u64) -> (r: u64)
    ensures
        r as nat == isqrt_spec(n as nat),
        (r as int) * (r as int) <= n as int,
        (n as int) < (r as int + 1) * (r as int + 1),
        r <= 4_294_967_296,
{
    let mut lo: u64 = 0;
    let mut hi: u64 = 4_294_967_296;
    proof {
        assert((n as int) < 4_294_967_296 * 4_294_967_296);
    }
    while lo + 1 < hi
        invariant
            lo < hi <= 4_294_967_296,
            (lo as int) * (lo as int) <= n as int,
            (n as int) < (hi as int) * (hi as int),
        decreases hi - lo,
    {
        let mid = lo + (hi - lo) / 2;
        proof {
            assert((mid as int) * (mid as int) < 0x1_0000_0000_0000_0000) by (nonlinear_arith)
                requires
                    0 <= mid as int,
                    (mid as int) < 4_294_967_296,
            ;
        }
        let sq = (mid as u128) * (mid as u128);
        if sq <= n as u128 {
            lo = mid;
        } else {
            hi = mid;
        }
    }
    proof {
        lemma_isqrt_bounds(n as nat);
        let s = isqrt_spec(n as nat);
        assert(lo as int == s) by (nonlinear_arith)
            requires
                (lo as int) * (lo as int) <= n as int,
                (n as int) < (lo as int + 1) * (lo as int + 1),
                (s as int) * (s as int) <= n as int,
                (n as int) < (s as int + 1) * (s as int + 1),
                lo as int >= 0,
                s as int >= 0,
        ;
    }
    lo
}

/// `a * b / d` for a nonzero divisor of either sign (the negative case
/// routes through the positive one and negates, saturating).
pub open spec fn muldiv_s(a: int, b: int, d: int) -> int {
    if d > 0 {
        muldiv(a, b, d)
    } else {
        ssub(0, muldiv(a, b, -d))
    }
}

/// `a * b / d` with a nonzero divisor of either sign.
pub fn mul_div_signed(a: i64, b: i64, d: i64) -> (r: i64)
    requires
        d != 0,
        d != i64::MIN,
    ensures
        r as int == muldiv_s(a as int, b as int, d as int),
{
    if d > 0 {
        mul_div(a, b, d)
    } else {
        sub_sat(0, mul_div(a, b, -d))
    }
}

/// Integer square root of a 128-bit value.
pub fn isqrt128(n: u128) -> (r: u128)
    ensures
        r as nat == isqrt_spec(n as nat),
        (r as int) * (r as int) <= n as int,
        (n as int) < (r as int + 1) * (r as int + 1),
        r <= 18_446_744_073_709_551_616,
{
    let mut lo: u128 = 0;
    let mut hi: u128 = 18_446_744_073_709_551_616;
    proof {
        assert((n as int) < 18_446_744_073_709_551_616 * 18_446_744_073_709_551_616)
            by (nonlinear_arith)
            requires n as int <= 0xffff_ffff_ffff_ffff_ffff_ffff_ffff_ffff;
    }
    while lo + 1 < hi
        invariant
            lo < hi <= 18_446_744_073_709_551_616,
            (lo as int) * (lo as int) <= n as int,
            (n as int) < (hi as int) * (hi as int),
        decreases hi - lo,
    {
        let mid = lo + (hi - lo) / 2;
        proof {
            assert((mid as int) * (mid as int)
                <= 0xffff_ffff_ffff_ffff_ffff_ffff_ffff_ffff) by (nonlinear_arith)
                requires
                    0 <= mid as int,
                    (mid as int) < 18_446_744_073_709_551_616,
            ;
        }
        let sq = mid * mid;
        if sq <= n {
            lo = mid;
        } else {
            hi = mid;
        }
    }
    proof {
        lemma_isqrt_bounds(n as nat);
        let s = isqrt_spec(n as nat);
        assert(lo as int == s) by (nonlinear_arith)
            requires
                (lo as int) * (lo as int) <= n as int,
                (n as int) < (lo as int + 1) * (lo as int + 1),
                (s as int) * (s as int) <= n as int,
                (n as int) < (s as int + 1) * (s as int + 1),
                lo as int >= 0,
                s as int >= 0,
        ;
    }
    lo
}

/// Quarter-wave sine on micro-degrees in `[0, 180_000_000]`, micro-scale
/// result: the classical rational approximation `4a(180 - a) /
/// (40500 - a(180 - a))` over degrees, carried out exactly in integers.
pub open spec fn sin_half_ud(m: int) -> int {
    let p = m * (HALF_TURN_UDEG - m);
    (4 * p * 1_000_000) / (40_500_000_000_000_000 - p)
}

/// Sine of an angle in micro-degrees, micro-scale result: the quarter-wave
/// formula extended by periodicity and odd symmetry.
pub open spec fn sin_ud(a: int) -> int {
    let m = a % (TURN_UDEG as int);
    if m < HALF_TURN_UDEG {
        sin_half_ud(m)
    } else {
        -sin_half_ud(m - HALF_TURN_UDEG)
    }
}

/// Cosine, defined by the quarter-turn shift.
pub open spec fn cos_ud(a: int) -> int {
    sin_ud(a + 90_000_000)
}

fn sin_half_fx(m: i64) -> (r: i64)
    requires
        0 <= m <= HALF_TURN_UDEG,
    ensures
        r as int == sin_half_ud(m as int),
        0 <= r <= FX_ONE,
{
    let mu = m as u128;
    proof {
        assert((m as int) * (HALF_TURN_UDEG - m as int) <= 8_100_000_000_000_000
            && (m as int) * (HALF_TURN_UDEG - m as int) >= 0) by (nonlinear_arith)
            requires 0 <= m as int <= HALF_TURN_UDEG as int;
    }
    let p = mu * ((HALF_TURN_UDEG as u128) - mu);
    let num = 4 * p * 1_000_000;
    let den = 40_500_000_000_000_000 - p;
    let q = num / den;
    proof {
        let pi = p as int;
        assert(q as int == (4 * pi * 1_000_000) / (40_500_000_000_000_000 - pi));
        assert(4 * pi * 1_000_000 <= 1_000_000 * (40_500_000_000_000_000 - pi));
        lemma_div_is_ordered(4 * pi * 1_000_000, 1_000_000 * (40_500_000_000_000_000 - pi),
            40_500_000_000_000_000 - pi);
        vstd::arithmetic::div_mod::lemma_div_multiples_vanish(1_000_000,
            40_500_000_000_000_000 - pi);
        lemma_div_pos_is_pos(4 * pi * 1_000_000, 40_500_000_000_000_000 - pi);
    }
    q as i64
}

fn reduce_turn(a: i64) -> (m: i64)
    ensures
        m as int == (a as int) % (TURN_UDEG as int),
        0 <= m < TURN_UDEG,
{
    a.checked_rem_euclid(TURN_UDEG).unwrap()
}

/// Sine of an angle in micro-degrees; result in micro-scale, in `[-1, 1]`.
pub fn sin_fx(a: i64) -> (r: i64)
    ensures
        r as int == sin_ud(a as int),
        -FX_ONE <= r <= FX_ONE,
{
    let m = reduce_turn(a);
    if m < HALF_TURN_UDEG {
        sin_half_fx(m)
    } else {
        -sin_half_fx(m - HALF_TURN_UDEG)
    }
}

/// Cosine of an angle in micro-degrees; result in micro-scale, in `[-1, 1]`.
pub fn cos_fx(a: i64) -> (r: i64)
    ensures
        r as int == cos_ud(a as int),
        -FX_ONE <= r <= FX_ONE,
{
    let m = reduce_turn(a);
    proof {
        lemma_add_mod_noop(a as int, 90_000_000, TURN_UDEG as int);
        vstd::arithmetic::div_mod::lemma_mod_twice(a as int, TURN_UDEG as int);
        assert((m + 90_000_000) % (TURN_UDEG as int)
            == (a + 90_000_000) % (TURN_UDEG as int));
    }
    sin_fx(m + 90_000_000)
}

} // verus!
