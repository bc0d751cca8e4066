//! Q16.16 fixed-point scalars.
//!
//! A scalar is stored as an `i32` whose mathematical value is `bits / 65536`.
//! All operations are total: results outside the representable range saturate
//! to the nearest representable bound, and every operation's contract states
//! the stored bits exactly.

use vstd::prelude::*;

verus! {

/// Fixed-point scale: the stored bits of the value one.
pub const ONE_B: i32 = 65536;

/// Magnitude of an integer.
pub open spec fn iabs(x: int) -> int {
    if x < 0 {
        -x
    } else {
        x
    }
}

/// Saturation to the `i32` range.
pub open spec fn clip(x: int) -> int {
    if x > i32::MAX {
        i32::MAX as int
    } else if x < i32::MIN {
        i32::MIN as int
    } else {
        x
    }
}

/// Division by the scale, rounding toward zero.
pub open spec fn tdiv16(p: int) -> int {
    if p < 0 {
        -((-p) / 65536)
    } else {
        p / 65536
    }
}

/// Saturating fixed-point addition, on bits.
pub open spec fn fadd(a: int, b: int) -> int {
    clip(a + b)
}

/// Saturating fixed-point subtraction, on bits.
pub open spec fn fsub(a: int, b: int) -> int {
    clip(a - b)
}

/// Saturating fixed-point negation, on bits.
pub open spec fn fneg(a: int) -> int {
    clip(-a)
}

/// Fixed-point product before saturation, on bits.
pub open spec fn fmul_raw(a: int, b: int) -> int {
    tdiv16(a * b)
}

/// Saturating fixed-point multiplication, on bits.
pub open spec fn fmul(a: int, b: int) -> int {
    clip(fmul_raw(a, b))
}

/// Fixed-point quotient before saturation, on bits: the magnitudes are
/// divided and the usual sign rule applied, so rounding is toward zero.
pub open spec fn fdiv_raw(a: int, b: int) -> int {
    let m = (iabs(a) * 65536) / iabs(b);
    if (a < 0) != (b < 0) {
        -m
    } else {
        m
    }
}

/// Saturating fixed-point division, on bits.
pub open spec fn fdiv(a: int, b: int) -> int {
    clip(fdiv_raw(a, b))
}

/// Remainder with the sign of the dividend, on bits, as Rust's `%` computes
/// it: the result lies in `(-m, m)`.
pub open spec fn tmod(a: int, m: int) -> int {
    if a < 0 {
        -((-a) % m)
    } else {
        a % m
    }
}

/// A Q16.16 fixed-point scalar.
#[derive(Clone, Copy, PartialEq, Eq, Structural, Debug)]
pub struct Fx {
    pub bits: i32,
}

impl Fx {
    /// The mathematical model of a scalar: its stored bits.
    pub open spec fn v(self) -> int {
        self.bits as int
    }

    /// The scalar zero.
    pub fn zero() -> (r: Fx)
        ensures
            r.v() == 0,
    {
        Fx { bits: 0 }
    }

    /// The scalar one.
    pub fn one() -> (r: Fx)
        ensures
            r.v() == ONE_B,
    {
        Fx { bits: ONE_B }
    }

    /// A scalar from raw Q16.16 bits.
    pub fn from_bits(bits: i32) -> (r: Fx)
        ensures
            r.v() == bits,
    {
        Fx { bits }
    }

    /// A scalar from a small integer value.
    pub fn from_int(value: i16) -> (r: Fx)
        ensures
            r.v() == value * 65536,
    {
        Fx { bits: (value as i32) * 65536 }
    }

    /// Saturating addition.
    pub fn add(self, other: Fx) -> (r: Fx)
        ensures
            r.v() == fadd(self.v(), other.v()),
    {
        let s: i64 = self.bits as i64 + other.bits as i64;
        Fx { bits: clip_i64(s) }
    }

    /// Saturating subtraction.
    pub fn sub(self, other: Fx) -> (r: Fx)
        ensures
            r.v() == fsub(self.v(), other.v()),
    {
        let s: i64 = self.bits as i64 - other.bits as i64;
        Fx { bits: clip_i64(s) }
    }

    /// Saturating negation.
    pub fn neg(self) -> (r: Fx)
        ensures
            r.v() == fneg(self.v()),
    {
        let s: i64 = -(self.bits as i64);
        Fx { bits: clip_i64(s) }
    }

    /// Saturating multiplication, rounding toward zero.
    pub fn mul(self, other: Fx) -> (r: Fx)
        ensures
            r.v() == fmul(self.v(), other.v()),
    {
        proof {
            assert(i64::MIN < (self.bits as int) * (other.bits as int) <= i64::MAX)
                by (nonlinear_arith)
                requires
                    -0x8000_0000 <= self.bits as int <= 0x7fff_ffff,
                    -0x8000_0000 <= other.bits as int <= 0x7fff_ffff;
        }
        let p: i64 = (self.bits as i64) * (other.bits as i64);
        Fx { bits: clip_i64(tdiv16_i64(p)) }
    }
}

impl Fx {
    /// Saturating division, rounding toward zero.
    pub fn div(self, other: Fx) -> (r: Fx)
        requires
            other.v() != 0,
        ensures
            r.v() == fdiv(self.v(), other.v()),
    {
        let neg: bool = (self.bits < 0) != (other.bits < 0);
        let ma: u64 = mag_i32(self.bits);
        let mb: u64 = mag_i32(other.bits);
        let q: u64 = (ma * 65536) / mb;
        assert(q <= ma * 65536) by {
            vstd::arithmetic::div_mod::lemma_div_is_ordered_by_denominator(
                (ma * 65536) as int,
                1,
                mb as int,
            );
        }
        if neg {
            Fx { bits: clip_i64(-(q as i64)) }
        } else {
            Fx { bits: clip_i64(q as i64) }
        }
    }

    /// Remainder with the sign of the dividend, as Rust's `%` computes it.
    pub fn rem(self, modulus: Fx) -> (r: Fx)
        requires
            modulus.v() > 0,
        ensures
            r.v() == tmod(self.v(), modulus.v()),
            iabs(r.v()) < modulus.v(),
    {
        let ma: u64 = mag_i32(self.bits);
        let mb: u64 = mag_i32(modulus.bits);
        let n: u64 = ma % mb;
        if self.bits < 0 {
            Fx { bits: -(n as i64) as i32 }
        } else {
            Fx { bits: n as i32 }
        }
    }

    /// Euclidean remainder: the result lies in `[0, m)`.
    pub fn rem_euclid(self, modulus: Fx) -> (r: Fx)
        requires
            modulus.v() > 0,
        ensures
            r.v() == self.v() % modulus.v(),
            0 <= r.v() < modulus.v(),
    {
        let t = self.rem(modulus);
        proof {
            lemma_tmod_emod(self.v(), modulus.v());
        }
        if t.bits < 0 {
            Fx { bits: t.bits + modulus.bits }
        } else {
            Fx { bits: t.bits }
        }
    }
}

/// Relates the truncated and the Euclidean remainder for a positive modulus.
proof fn lemma_tmod_emod(a: int, m: int)
    requires
        m > 0,
    ensures
        a >= 0 ==> tmod(a, m) == a % m,
        a < 0 && tmod(a, m) == 0 ==> a % m == 0,
        a < 0 && tmod(a, m) != 0 ==> a % m == tmod(a, m) + m,
{
    if a < 0 {
        let n = (-a) % m;
        let d = (-a) / m;
        vstd::arithmetic::div_mod::lemma_fundamental_div_mod(-a, m);
        vstd::arithmetic::div_mod::lemma_mod_bound(-a, m);
        if n == 0 {
            assert(a == m * (-d) + 0) by (nonlinear_arith)
                requires
                    -a == m * d + n,
                    n == 0;
            vstd::arithmetic::div_mod::lemma_mod_multiples_vanish(-d, 0, m);
        } else {
            assert(a == m * (-d - 1) + (m - n)) by (nonlinear_arith)
                requires
                    -a == m * d + n;
            vstd::arithmetic::div_mod::lemma_mod_multiples_vanish(-d - 1, m - n, m);
            vstd::arithmetic::div_mod::lemma_small_mod((m - n) as nat, m as nat);
        }
    }
}

/// The magnitude of an `i32`, exactly, including `i32::MIN`.
pub(crate) fn mag_i32(x: i32) -> (m: u64)
    ensures
        m == iabs(x as int),
{
    if x < 0 {
        (-(x as i64)) as u64
    } else {
        x as u64
    }
}

/// Bounds on a fixed-point product from bounds on its factors.
pub proof fn lemma_fmul_bound(a: int, b: int, aa: int, bb: int)
    requires
        iabs(a) <= aa,
        iabs(b) <= bb,
    ensures
        iabs(fmul_raw(a, b)) <= (aa * bb) / 65536,
        iabs(fmul(a, b)) <= (aa * bb) / 65536,
{
    assert(iabs(a * b) <= aa * bb) by (nonlinear_arith)
        requires
            iabs(a) <= aa,
            iabs(b) <= bb;
    vstd::arithmetic::div_mod::lemma_div_is_ordered(iabs(a * b), aa * bb, 65536);
}

/// One is neutral for the fixed-point product.
pub proof fn lemma_fmul_one(a: int)
    requires
        i32::MIN <= a <= i32::MAX,
    ensures
        fmul(ONE_B as int, a) == a,
        fmul(a, ONE_B as int) == a,
        fmul_raw(ONE_B as int, a) == a,
        fmul_raw(a, ONE_B as int) == a,
{
    if a >= 0 {
        assert((ONE_B as int) * a == 65536 * a && a * (ONE_B as int) == 65536 * a)
            by (nonlinear_arith);
        vstd::arithmetic::div_mod::lemma_div_multiples_vanish(a, 65536);
    } else {
        assert(-((ONE_B as int) * a) == 65536 * (-a) && -(a * (ONE_B as int)) == 65536 * (-a))
            by (nonlinear_arith);
        vstd::arithmetic::div_mod::lemma_div_multiples_vanish(-a, 65536);
    }
}

/// Zero annihilates the fixed-point product.
pub proof fn lemma_fmul_zero(a: int)
    ensures
        fmul(0, a) == 0,
        fmul(a, 0) == 0,
        fmul_raw(0, a) == 0,
        fmul_raw(a, 0) == 0,
{
    assert(0 * a == 0 && a * 0 == 0) by (nonlinear_arith);
}

/// The raw fixed-point product of two scalars' bits, wide enough that four
/// such terms can be summed before any saturation.
pub(crate) fn fmul_raw_i64(a: i32, b: i32) -> (t: i64)
    ensures
        t == fmul_raw(a as int, b as int),
        iabs(t as int) <= 0x4000_0000_0000,
{
    proof {
        assert(i64::MIN < (a as int) * (b as int) <= i64::MAX && iabs((a as int) * (b as int))
            <= 0x4000_0000_0000_0000) by (nonlinear_arith)
            requires
                -0x8000_0000 <= a as int <= 0x7fff_ffff,
                -0x8000_0000 <= b as int <= 0x7fff_ffff,
        ;
    }
    let p: i64 = (a as i64) * (b as i64);
    let t = tdiv16_i64(p);
    proof {
        lemma_tdiv16_mag(p as int);
        vstd::arithmetic::div_mod::lemma_div_is_ordered(
            iabs(p as int),
            0x4000_0000_0000_0000,
            65536,
        );
    }
    t
}

/// The magnitude of a scaled-down value is the scaled-down magnitude.
proof fn lemma_tdiv16_mag(p: int)
    ensures
        iabs(tdiv16(p)) == iabs(p) / 65536,
{
    if p < 0 {
        vstd::arithmetic::div_mod::lemma_div_is_ordered(0, -p, 65536);
    } else {
        vstd::arithmetic::div_mod::lemma_div_is_ordered(0, p, 65536);
    }
}

/// Saturate an `i64` to the `i32` range.
pub(crate) fn clip_i64(s: i64) -> (r: i32)
    ensures
        r == clip(s as int),
{
    if s > i32::MAX as i64 {
        i32::MAX
    } else if s < i32::MIN as i64 {
        i32::MIN
    } else {
        s as i32
    }
}

/// Divide by the scale, rounding toward zero.
fn tdiv16_i64(p: i64) -> (q: i64)
    requires
        i64::MIN < p,
    ensures
        q == tdiv16(p as int),
{
    if p >= 0 {
        let m: u64 = p as u64;
        (m / 65536) as i64
    } else {
        let m: u64 = (-p) as u64;
        let d: u64 = m / 65536;
        assert(d <= m) by {
            vstd::arithmetic::div_mod::lemma_div_is_ordered_by_denominator(m as int, 1, 65536);
        }
        -(d as i64)
    }
}

} // verus!
