//! Fixed-point sine and cosine.
//!
//! Angles are Q16.16 radians.  A full turn is the constant `TAU_B`, chosen as
//! the nearest multiple of four to `2 * pi * 65536` so that a turn splits into
//! four exact quadrants.  The functions reduce their argument into one turn,
//! fold it onto a quarter wave, and evaluate a truncated series there; the
//! folding is structural, so the half-turn antisymmetry and the full-turn
//! periodicity hold exactly, not merely approximately.

use crate::fixed::{clip, fmul, fsub, iabs, tmod, Fx, ONE_B};
use vstd::arithmetic::div_mod::{
    lemma_add_mod_noop, lemma_div_is_ordered, lemma_div_multiples_vanish,
    lemma_fundamental_div_mod, lemma_hoist_over_denominator, lemma_mod_bound,
    lemma_mod_multiples_vanish, lemma_small_mod,
};
use vstd::prelude::*;

verus! {

/// One full turn (two pi), in Q16.16 radian bits; a multiple of four.
pub const TAU_B: i32 = 411776;

/// Half a turn (pi), in Q16.16 radian bits.
pub const PI_B: i32 = 205888;

/// A quarter turn (pi over two), in Q16.16 radian bits.
pub const HALF_PI_B: i32 = 102944;

/// The cubic coefficient of the quarter-wave series, in Q16.16 bits: a
/// whisker above one sixth, so the clamped series meets one at the quarter
/// turn.
pub const SIN_C3_B: i32 = 10998;

/// The quintic coefficient of the quarter-wave series, in Q16.16 bits:
/// about one one-hundred-twentieth.
pub const SIN_C5_B: i32 = 546;

/// The quarter-wave series: `t - c3 t^3 + c5 t^5` evaluated in fixed point
/// for `t` in `[0, HALF_PI_B]`, clamped so it never exceeds one.
pub open spec fn sin_base(t: int) -> int {
    let t2 = fmul(t, t);
    let r = fmul(t, fsub(ONE_B as int, fmul(t2, fsub(SIN_C3_B as int, fmul(t2, SIN_C5_B as int)))));
    if r > ONE_B {
        ONE_B as int
    } else {
        r
    }
}

/// Sine on half a turn, `r` in `[0, PI_B)`, folded onto the quarter wave.
pub open spec fn sin_half(r: int) -> int {
    if r < HALF_PI_B {
        sin_base(r)
    } else {
        sin_base(PI_B - r)
    }
}

/// Sine on one turn, `r` in `[0, TAU_B)`: the second half-turn is the
/// negated first one.
pub open spec fn sin_turn(r: int) -> int {
    if r < PI_B {
        sin_half(r)
    } else {
        -sin_half(r - PI_B)
    }
}

/// Sine of any Q16.16 angle: the argument reduced into one turn.
pub open spec fn sin_s(x: int) -> int {
    sin_turn(x % (TAU_B as int))
}

/// Cosine of any Q16.16 angle: sine a quarter turn later.
pub open spec fn cos_s(x: int) -> int {
    sin_s(x + HALF_PI_B)
}

/// A product of two nonnegative fixed-point values is nonnegative, and a
/// product with a nonpositive second factor is nonpositive.
proof fn lemma_fmul_sign(a: int, b: int)
    requires
        a >= 0,
    ensures
        b >= 0 ==> fmul(a, b) >= 0,
        b <= 0 ==> fmul(a, b) <= 0,
{
    if b >= 0 {
        assert(a * b >= 0) by (nonlinear_arith)
            requires
                a >= 0,
                b >= 0,
        ;
        lemma_div_is_ordered(0, a * b, 65536);
    } else {
        assert(a * b <= 0 && -(a * b) == a * (-b) && a * (-b) >= 0) by (nonlinear_arith)
            requires
                a >= 0,
                b <= 0,
        ;
        lemma_div_is_ordered(0, a * (-b), 65536);
    }
}

/// Bounds for the quarter-wave series: its magnitude never exceeds its
/// argument, and it is nonnegative on the quarter wave.
pub proof fn lemma_sin_base_bound(t: int)
    requires
        0 <= t <= HALF_PI_B,
    ensures
        0 <= sin_base(t) <= t,
        sin_base(t) <= ONE_B,
{
    let t2 = fmul(t, t);
    let u1 = fmul(t2, SIN_C5_B as int);
    let u2 = fsub(SIN_C3_B as int, u1);
    let u3 = fmul(t2, u2);
    let u4 = fsub(ONE_B as int, u3);
    crate::fixed::lemma_fmul_bound(t, t, HALF_PI_B as int, HALF_PI_B as int);
    lemma_fmul_sign(t, t);
    crate::fixed::lemma_fmul_bound(t2, SIN_C5_B as int, 161705, SIN_C5_B as int);
    lemma_fmul_sign(t2, SIN_C5_B as int);
    crate::fixed::lemma_fmul_bound(t2, u2, 161705, SIN_C3_B as int);
    lemma_fmul_sign(t2, u2);
    crate::fixed::lemma_fmul_bound(t, u4, t, ONE_B as int);
    lemma_fmul_sign(t, u4);
    assert((t * (ONE_B as int)) / 65536 == t) by {
        lemma_div_multiples_vanish(t, 65536);
        assert(t * 65536 == 65536 * t) by (nonlinear_arith);
    }
}

/// The sine of any angle has magnitude at most a quarter turn's bits.
pub proof fn lemma_sin_turn_bound(r: int)
    requires
        0 <= r < TAU_B,
    ensures
        iabs(sin_turn(r)) <= HALF_PI_B,
{
    if r < PI_B {
        if r < HALF_PI_B {
            lemma_sin_base_bound(r);
        } else {
            lemma_sin_base_bound(PI_B - r);
        }
    } else {
        let h = r - PI_B;
        if h < HALF_PI_B {
            lemma_sin_base_bound(h);
        } else {
            lemma_sin_base_bound(PI_B - h);
        }
    }
}

/// The quarter-wave series, evaluated.
fn sin_base_fx(t: Fx) -> (r: Fx)
    requires
        0 <= t.v() <= HALF_PI_B,
    ensures
        r.v() == sin_base(t.v()),
        0 <= r.v() <= t.v(),
{
    let t2 = t.mul(t);
    let u1 = t2.mul(Fx::from_bits(SIN_C5_B));
    let u2 = Fx::from_bits(SIN_C3_B).sub(u1);
    let u3 = t2.mul(u2);
    let u4 = Fx::from_bits(ONE_B).sub(u3);
    let r = t.mul(u4);
    proof {
        lemma_sin_base_bound(t.v());
    }
    if r.bits > ONE_B {
        Fx { bits: ONE_B }
    } else {
        r
    }
}

/// Sine of an angle already reduced into one turn.
fn sin_turn_fx(r: Fx) -> (s: Fx)
    requires
        0 <= r.v() < TAU_B,
    ensures
        s.v() == sin_turn(r.v()),
        iabs(s.v()) <= HALF_PI_B,
{
    proof {
        lemma_sin_turn_bound(r.v());
    }
    if r.bits < PI_B {
        if r.bits < HALF_PI_B {
            sin_base_fx(r)
        } else {
            sin_base_fx(Fx::from_bits(PI_B - r.bits))
        }
    } else {
        let h = r.bits - PI_B;
        let b = if h < HALF_PI_B {
            sin_base_fx(Fx::from_bits(h))
        } else {
            sin_base_fx(Fx::from_bits(PI_B - h))
        };
        Fx::from_bits(-b.bits)
    }
}

/// Sine of a Q16.16 angle.
pub fn sin_fx(x: Fx) -> (s: Fx)
    ensures
        s.v() == sin_s(x.v()),
        iabs(s.v()) <= HALF_PI_B,
{
    let r = x.rem_euclid(Fx::from_bits(TAU_B));
    sin_turn_fx(r)
}

/// Cosine of a Q16.16 angle.
pub fn cos_fx(x: Fx) -> (c: Fx)
    ensures
        c.v() == cos_s(x.v()),
        iabs(c.v()) <= HALF_PI_B,
{
    let r = x.rem_euclid(Fx::from_bits(TAU_B));
    let shifted = Fx::from_bits(r.bits + HALF_PI_B);
    proof {
        lemma_small_mod((HALF_PI_B as int) as nat, (TAU_B as int) as nat);
        lemma_add_mod_noop(x.v(), HALF_PI_B as int, TAU_B as int);
        assert((r.v() + HALF_PI_B) % (TAU_B as int) == (x.v() + HALF_PI_B) % (TAU_B as int)) by {
            lemma_mod_twice_add(x.v(), HALF_PI_B as int, TAU_B as int);
        }
    }
    sin_fx(shifted)
}

/// Adding a constant to a reduced value then reducing again equals reducing
/// the sum: `((x % m) + k) % m == (x + k) % m`.
proof fn lemma_mod_twice_add(x: int, k: int, m: int)
    requires
        m > 0,
    ensures
        ((x % m) + k) % m == (x + k) % m,
{
    lemma_fundamental_div_mod(x, m);
    let d = x / m;
    assert(x % m + k == m * (-d) + (x + k)) by (nonlinear_arith)
        requires
            x == m * d + x % m,
    ;
    lemma_mod_multiples_vanish(-d, x + k, m);
}

/// Sine is periodic in exactly one turn.
pub proof fn lemma_sin_period(x: int)
    ensures
        sin_s(x + TAU_B) == sin_s(x),
{
    lemma_mod_multiples_vanish(1, x, TAU_B as int);
    assert((TAU_B as int) * 1 + x == x + TAU_B);
}

/// Sine flips sign in exactly half a turn.
pub proof fn lemma_sin_antiperiod(x: int)
    ensures
        sin_s(x + PI_B) == -sin_s(x),
{
    let m = TAU_B as int;
    let r = x % m;
    lemma_mod_bound(x, m);
    lemma_mod_twice_add(x, PI_B as int, m);
    if r < PI_B {
        lemma_small_mod((r + PI_B) as nat, m as nat);
        assert((x + PI_B) % m == r + PI_B);
    } else {
        lemma_mod_multiples_vanish(-1, r + PI_B, m);
        assert(m * (-1) + (r + PI_B) == r - PI_B);
        lemma_small_mod((r - PI_B) as nat, m as nat);
        assert((x + PI_B) % m == r - PI_B);
    }
}

/// Sine and cosine of any angle are bounded by a quarter turn's bits.
pub proof fn lemma_sin_s_bound(x: int)
    ensures
        iabs(sin_s(x)) <= HALF_PI_B,
        iabs(cos_s(x)) <= HALF_PI_B,
{
    lemma_mod_bound(x, TAU_B as int);
    lemma_sin_turn_bound(x % (TAU_B as int));
    lemma_mod_bound(x + HALF_PI_B, TAU_B as int);
    lemma_sin_turn_bound((x + HALF_PI_B) % (TAU_B as int));
}

/// Halving an angle, rounding toward negative infinity.
pub fn half_angle(x: Fx) -> (h: Fx)
    ensures
        h.v() == x.v() / 2,
{
    if x.bits >= 0 {
        let m: u32 = x.bits as u32;
        Fx { bits: (m / 2) as i32 }
    } else {
        let m: u64 = crate::fixed::mag_i32(x.bits);
        let q: u64 = (m + 1) / 2;
        proof {
            lemma_fundamental_div_mod(x.v(), 2);
            lemma_fundamental_div_mod(m as int + 1, 2);
            lemma_mod_bound(x.v(), 2);
            lemma_mod_bound(m as int + 1, 2);
        }
        Fx { bits: -(q as i64) as i32 }
    }
}

/// Half of one more turn is half the angle plus half a turn: the halving
/// commutes with the turn structure because `TAU_B` is even.
pub proof fn lemma_half_turn(x: int)
    ensures
        (x + TAU_B) / 2 == x / 2 + PI_B,
{
    lemma_hoist_over_denominator(x, PI_B as int, 2);
}

} // verus!
