//! Vectors, quaternions and column-major 4 by 4 matrices over Q16.16 scalars.
//!
//! Every executable operation's contract gives the exact stored bits of its
//! result through a mirror specification: products are formed at double
//! width, summed, scaled down toward zero and saturated once per entry.

use crate::fixed::{
    clip, fadd, fdiv, fmul, fmul_raw, fneg, fsub, iabs, lemma_fmul_one, Fx, ONE_B,
};
use crate::trig::{cos_s, sin_s, cos_fx, sin_fx, half_angle};
use vstd::prelude::*;

verus! {

/// A three-component vector.
#[derive(Clone, Copy, PartialEq, Eq, Structural, Debug)]
pub struct Vec3 {
    pub x: Fx,
    pub y: Fx,
    pub z: Fx,
}

impl Vec3 {
    /// A vector from its three components.
    pub fn new(x: Fx, y: Fx, z: Fx) -> (v: Vec3)
        ensures
            v.x == x && v.y == y && v.z == z,
    {
        Vec3 { x, y, z }
    }

    /// The zero vector.
    pub fn zero() -> (v: Vec3)
        ensures
            v.x.v() == 0 && v.y.v() == 0 && v.z.v() == 0,
    {
        Vec3 { x: Fx { bits: 0 }, y: Fx { bits: 0 }, z: Fx { bits: 0 } }
    }

    /// Componentwise scaling by a scalar.
    pub fn scale_by(self, s: Fx) -> (v: Vec3)
        ensures
            v.x.v() == fmul(self.x.v(), s.v()),
            v.y.v() == fmul(self.y.v(), s.v()),
            v.z.v() == fmul(self.z.v(), s.v()),
    {
        Vec3 { x: self.x.mul(s), y: self.y.mul(s), z: self.z.mul(s) }
    }

    /// Componentwise negation.
    pub fn neg(self) -> (v: Vec3)
        ensures
            v.x.v() == fneg(self.x.v()),
            v.y.v() == fneg(self.y.v()),
            v.z.v() == fneg(self.z.v()),
    {
        Vec3 { x: self.x.neg(), y: self.y.neg(), z: self.z.neg() }
    }
}

/// A column-major 4 by 4 matrix: entry (row `r`, column `c`) is `m[c * 4 + r]`.
#[derive(Clone, Copy, Debug)]
pub struct Mat4 {
    pub m: [Fx; 16],
}

/// The identity matrix's model.
pub open spec fn mat_id() -> Seq<int> {
    Seq::new(
        16,
        |i: int|
            if i == 0 || i == 5 || i == 10 || i == 15 {
                ONE_B as int
            } else {
                0
            },
    )
}

/// The model of a translation matrix by `(x, y, z)`.
pub open spec fn mat_translation(x: int, y: int, z: int) -> Seq<int> {
    Seq::new(
        16,
        |i: int|
            if i == 12 {
                x
            } else if i == 13 {
                y
            } else if i == 14 {
                z
            } else if i == 0 || i == 5 || i == 10 || i == 15 {
                ONE_B as int
            } else {
                0
            },
    )
}

/// The model of a scaling matrix by `(x, y, z)`.
pub open spec fn mat_scaling(x: int, y: int, z: int) -> Seq<int> {
    Seq::new(
        16,
        |i: int|
            if i == 0 {
                x
            } else if i == 5 {
                y
            } else if i == 10 {
                z
            } else if i == 15 {
                ONE_B as int
            } else {
                0
            },
    )
}

/// One entry of a fixed-point matrix product: four raw products summed, then
/// saturated once.
pub open spec fn mm_e(a: Seq<int>, b: Seq<int>, r: int, c: int) -> int {
    clip(
        fmul_raw(a[0 + r], b[c * 4 + 0]) + fmul_raw(a[4 + r], b[c * 4 + 1]) + fmul_raw(
            a[8 + r],
            b[c * 4 + 2],
        ) + fmul_raw(a[12 + r], b[c * 4 + 3]),
    )
}

/// The fixed-point matrix product, column-major.
#[verifier::opaque]
pub open spec fn mm(a: Seq<int>, b: Seq<int>) -> Seq<int> {
    Seq::new(16, |i: int| mm_e(a, b, i % 4, i / 4))
}

impl Mat4 {
    /// The mathematical model: the sixteen entries' bits, column-major.
    pub open spec fn s(self) -> Seq<int> {
        Seq::new(16, |i: int| self.m[i].v())
    }

    /// The identity matrix.
    pub fn identity() -> (r: Mat4)
        ensures
            r.s() == mat_id(),
    {
        let z = Fx { bits: 0 };
        let o = Fx { bits: ONE_B };
        let r = Mat4 { m: [o, z, z, z, z, o, z, z, z, z, o, z, z, z, z, o] };
        proof {
            assert(r.s() =~= mat_id());
        }
        r
    }

    /// A translation matrix.
    pub fn translation(v: Vec3) -> (t: Mat4)
        ensures
            t.s() == mat_translation(v.x.v(), v.y.v(), v.z.v()),
    {
        let z = Fx { bits: 0 };
        let o = Fx { bits: ONE_B };
        let t = Mat4 { m: [o, z, z, z, z, o, z, z, z, z, o, z, v.x, v.y, v.z, o] };
        proof {
            assert(t.s() =~= mat_translation(v.x.v(), v.y.v(), v.z.v()));
        }
        t
    }

    /// A scaling matrix.
    pub fn scaling(v: Vec3) -> (t: Mat4)
        ensures
            t.s() == mat_scaling(v.x.v(), v.y.v(), v.z.v()),
    {
        let z = Fx { bits: 0 };
        let o = Fx { bits: ONE_B };
        let t = Mat4 { m: [v.x, z, z, z, z, v.y, z, z, z, z, v.z, z, z, z, z, o] };
        proof {
            assert(t.s() =~= mat_scaling(v.x.v(), v.y.v(), v.z.v()));
        }
        t
    }

    /// The translation column of the matrix: entries 12, 13 and 14.
    pub fn translation_column(&self) -> (v: Vec3)
        ensures
            v.x.v() == self.s()[12],
            v.y.v() == self.s()[13],
            v.z.v() == self.s()[14],
    {
        Vec3 { x: self.m[12], y: self.m[13], z: self.m[14] }
    }
}

/// The fixed-point matrix product.
pub fn mat_mul(a: &Mat4, b: &Mat4) -> (p: Mat4)
    ensures
        p.s() == mm(a.s(), b.s()),
{
    let mut out: [Fx; 16] = [Fx { bits: 0 }; 16];
    let mut i: usize = 0;
    while i < 16
        invariant
            i <= 16,
            forall|j: int| 0 <= j < i ==> out[j].v() == mm_e(a.s(), b.s(), j % 4, j / 4),
        decreases 16 - i,
    {
        let r: usize = i % 4;
        let c: usize = i / 4;
        let t0 = crate::fixed::fmul_raw_i64(a.m[r].bits, b.m[c * 4].bits);
        let t1 = crate::fixed::fmul_raw_i64(a.m[4 + r].bits, b.m[c * 4 + 1].bits);
        let t2 = crate::fixed::fmul_raw_i64(a.m[8 + r].bits, b.m[c * 4 + 2].bits);
        let t3 = crate::fixed::fmul_raw_i64(a.m[12 + r].bits, b.m[c * 4 + 3].bits);
        let e = crate::fixed::clip_i64(t0 + t1 + t2 + t3);
        out[i] = Fx { bits: e };
        i += 1;
    }
    let p = Mat4 { m: out };
    proof {
        reveal(mm);
        assert(p.s() =~= mm(a.s(), b.s()));
    }
    p
}

/// Right-multiplication by a translation: the matrix moved by `v` in its own
/// local frame.
pub fn translate(m: &Mat4, v: Vec3) -> (t: Mat4)
    ensures
        t.s() == mm(m.s(), mat_translation(v.x.v(), v.y.v(), v.z.v())),
{
    let tr = Mat4::translation(v);
    mat_mul(m, &tr)
}

/// Right-multiplication by a scaling.
pub fn scale(m: &Mat4, v: Vec3) -> (t: Mat4)
    ensures
        t.s() == mm(m.s(), mat_scaling(v.x.v(), v.y.v(), v.z.v())),
{
    let sc = Mat4::scaling(v);
    mat_mul(m, &sc)
}

/// The identity is neutral on the right of the fixed-point product.
pub proof fn lemma_mm_id_right(a: Seq<int>)
    requires
        a.len() == 16,
        forall|i: int| 0 <= i < 16 ==> i32::MIN <= #[trigger] a[i] <= i32::MAX,
    ensures
        mm(a, mat_id()) == a,
{
    reveal(mm);
    assert forall|i: int| 0 <= i < 16 implies mm(a, mat_id())[i] == a[i] by {
        let r = i % 4;
        let c = i / 4;
        lemma_fmul_one(a[c * 4 + r]);
        crate::fixed::lemma_fmul_zero(a[0 + r]);
        crate::fixed::lemma_fmul_zero(a[4 + r]);
        crate::fixed::lemma_fmul_zero(a[8 + r]);
        crate::fixed::lemma_fmul_zero(a[12 + r]);
        assert(c * 4 + r == i);
    }
    assert(mm(a, mat_id()) =~= a);
}

/// The identity is neutral on the left of the fixed-point product.
pub proof fn lemma_mm_id_left(a: Seq<int>)
    requires
        a.len() == 16,
        forall|i: int| 0 <= i < 16 ==> i32::MIN <= #[trigger] a[i] <= i32::MAX,
    ensures
        mm(mat_id(), a) == a,
{
    reveal(mm);
    assert forall|i: int| 0 <= i < 16 implies mm(mat_id(), a)[i] == a[i] by {
        let r = i % 4;
        let c = i / 4;
        lemma_fmul_one(a[c * 4 + r]);
        crate::fixed::lemma_fmul_zero(a[c * 4 + 0]);
        crate::fixed::lemma_fmul_zero(a[c * 4 + 1]);
        crate::fixed::lemma_fmul_zero(a[c * 4 + 2]);
        crate::fixed::lemma_fmul_zero(a[c * 4 + 3]);
        assert(c * 4 + r == i);
    }
    assert(mm(mat_id(), a) =~= a);
}

/// A quaternion, `w` the scalar part.
#[derive(Clone, Copy, PartialEq, Eq, Structural, Debug)]
pub struct Quat {
    pub w: Fx,
    pub x: Fx,
    pub y: Fx,
    pub z: Fx,
}

/// One component of the fixed-point Hamilton product: four raw products
/// summed with the component's signs, then saturated once.
pub open spec fn qmul_s(a: (int, int, int, int), b: (int, int, int, int)) -> (int, int, int, int) {
    (
        clip(
            fmul_raw(a.0, b.0) - fmul_raw(a.1, b.1) - fmul_raw(a.2, b.2) - fmul_raw(a.3, b.3),
        ),
        clip(
            fmul_raw(a.0, b.1) + fmul_raw(a.1, b.0) + fmul_raw(a.2, b.3) - fmul_raw(a.3, b.2),
        ),
        clip(
            fmul_raw(a.0, b.2) - fmul_raw(a.1, b.3) + fmul_raw(a.2, b.0) + fmul_raw(a.3, b.1),
        ),
        clip(
            fmul_raw(a.0, b.3) + fmul_raw(a.1, b.2) - fmul_raw(a.2, b.1) + fmul_raw(a.3, b.0),
        ),
    )
}

/// The model of a quaternion built from an axis and an angle: the scalar part
/// is the cosine of half the angle, the vector part the axis scaled by the
/// sine of half the angle.
pub open spec fn qaa_s(angle: int, ax: int, ay: int, az: int) -> (int, int, int, int) {
    let h = angle / 2;
    (cos_s(h), fmul(ax, sin_s(h)), fmul(ay, sin_s(h)), fmul(az, sin_s(h)))
}

/// The model of the conjugate.
pub open spec fn qconj_s(q: (int, int, int, int)) -> (int, int, int, int) {
    (q.0, fneg(q.1), fneg(q.2), fneg(q.3))
}

/// The model of the squared norm.
pub open spec fn qnorm_sq_s(q: (int, int, int, int)) -> int {
    clip(fmul_raw(q.0, q.0) + fmul_raw(q.1, q.1) + fmul_raw(q.2, q.2) + fmul_raw(q.3, q.3))
}

/// The model of rotating a vector: the vector part of `q * (0, v) * conj(q)`.
pub open spec fn qrot_s(q: (int, int, int, int), x: int, y: int, z: int) -> (int, int, int) {
    let p = qmul_s(qmul_s(q, (0, x, y, z)), qconj_s(q));
    (p.1, p.2, p.3)
}

/// The model of the rotation matrix of a unit quaternion, column-major.
pub open spec fn qmat_s(q: (int, int, int, int)) -> Seq<int> {
    let w = q.0;
    let x = q.1;
    let y = q.2;
    let z = q.3;
    Seq::new(
        16,
        |i: int|
            if i == 0 {
                clip(ONE_B - 2 * fmul_raw(y, y) - 2 * fmul_raw(z, z))
            } else if i == 1 {
                clip(2 * fmul_raw(x, y) + 2 * fmul_raw(w, z))
            } else if i == 2 {
                clip(2 * fmul_raw(x, z) - 2 * fmul_raw(w, y))
            } else if i == 4 {
                clip(2 * fmul_raw(x, y) - 2 * fmul_raw(w, z))
            } else if i == 5 {
                clip(ONE_B - 2 * fmul_raw(x, x) - 2 * fmul_raw(z, z))
            } else if i == 6 {
                clip(2 * fmul_raw(y, z) + 2 * fmul_raw(w, x))
            } else if i == 8 {
                clip(2 * fmul_raw(x, z) + 2 * fmul_raw(w, y))
            } else if i == 9 {
                clip(2 * fmul_raw(y, z) - 2 * fmul_raw(w, x))
            } else if i == 10 {
                clip(ONE_B - 2 * fmul_raw(x, x) - 2 * fmul_raw(y, y))
            } else if i == 15 {
                ONE_B as int
            } else {
                0
            },
    )
}

impl Quat {
    /// The mathematical model: the four components' bits, scalar part first.
    pub open spec fn q(self) -> (int, int, int, int) {
        (self.w.v(), self.x.v(), self.y.v(), self.z.v())
    }

    /// The identity rotation.
    pub fn identity() -> (r: Quat)
        ensures
            r.q() == (ONE_B as int, 0int, 0int, 0int),
    {
        Quat { w: Fx { bits: ONE_B }, x: Fx { bits: 0 }, y: Fx { bits: 0 }, z: Fx { bits: 0 } }
    }

    /// The Hamilton product.
    pub fn mul(self, other: Quat) -> (r: Quat)
        ensures
            r.q() == qmul_s(self.q(), other.q()),
    {
        let a = self;
        let b = other;
        let w = crate::fixed::clip_i64(
            crate::fixed::fmul_raw_i64(a.w.bits, b.w.bits) - crate::fixed::fmul_raw_i64(
                a.x.bits,
                b.x.bits,
            ) - crate::fixed::fmul_raw_i64(a.y.bits, b.y.bits) - crate::fixed::fmul_raw_i64(
                a.z.bits,
                b.z.bits,
            ),
        );
        let x = crate::fixed::clip_i64(
            crate::fixed::fmul_raw_i64(a.w.bits, b.x.bits) + crate::fixed::fmul_raw_i64(
                a.x.bits,
                b.w.bits,
            ) + crate::fixed::fmul_raw_i64(a.y.bits, b.z.bits) - crate::fixed::fmul_raw_i64(
                a.z.bits,
                b.y.bits,
            ),
        );
        let y = crate::fixed::clip_i64(
            crate::fixed::fmul_raw_i64(a.w.bits, b.y.bits) - crate::fixed::fmul_raw_i64(
                a.x.bits,
                b.z.bits,
            ) + crate::fixed::fmul_raw_i64(a.y.bits, b.w.bits) + crate::fixed::fmul_raw_i64(
                a.z.bits,
                b.x.bits,
            ),
        );
        let z = crate::fixed::clip_i64(
            crate::fixed::fmul_raw_i64(a.w.bits, b.z.bits) + crate::fixed::fmul_raw_i64(
                a.x.bits,
                b.y.bits,
            ) - crate::fixed::fmul_raw_i64(a.y.bits, b.x.bits) + crate::fixed::fmul_raw_i64(
                a.z.bits,
                b.w.bits,
            ),
        );
        Quat { w: Fx { bits: w }, x: Fx { bits: x }, y: Fx { bits: y }, z: Fx { bits: z } }
    }

    /// The conjugate: the vector part negated.
    pub fn conjugate(self) -> (r: Quat)
        ensures
            r.q() == qconj_s(self.q()),
    {
        Quat { w: self.w, x: self.x.neg(), y: self.y.neg(), z: self.z.neg() }
    }

    /// The squared norm.
    pub fn norm_sq(self) -> (n: Fx)
        ensures
            n.v() == qnorm_sq_s(self.q()),
    {
        let t = crate::fixed::fmul_raw_i64(self.w.bits, self.w.bits) + crate::fixed::fmul_raw_i64(
            self.x.bits,
            self.x.bits,
        ) + crate::fixed::fmul_raw_i64(self.y.bits, self.y.bits) + crate::fixed::fmul_raw_i64(
            self.z.bits,
            self.z.bits,
        );
        Fx { bits: crate::fixed::clip_i64(t) }
    }
}

/// A quaternion from an axis and an angle.  The axis is taken as given, as a
/// unit axis is the caller's concern.
pub fn quat_from_axis_angle(angle: Fx, axis: Vec3) -> (r: Quat)
    ensures
        r.q() == qaa_s(angle.v(), axis.x.v(), axis.y.v(), axis.z.v()),
{
    let h = half_angle(angle);
    let c = cos_fx(h);
    let s = sin_fx(h);
    Quat { w: c, x: axis.x.mul(s), y: axis.y.mul(s), z: axis.z.mul(s) }
}

/// A quaternion rotated further about an axis: the product with the axis
/// and angle's quaternion on the right.
pub fn quat_rotate(q: Quat, angle: Fx, axis: Vec3) -> (r: Quat)
    ensures
        r.q() == qmul_s(q.q(), qaa_s(angle.v(), axis.x.v(), axis.y.v(), axis.z.v())),
{
    let aa = quat_from_axis_angle(angle, axis);
    q.mul(aa)
}

/// The full inverse: the conjugate divided by the squared norm.  For a unit
/// quaternion this equals the conjugate.
pub fn quat_inverse(q: Quat) -> (r: Quat)
    requires
        qnorm_sq_s(q.q()) != 0,
    ensures
        r.q() == (
            fdiv(q.q().0, qnorm_sq_s(q.q())),
            fdiv(fneg(q.q().1), qnorm_sq_s(q.q())),
            fdiv(fneg(q.q().2), qnorm_sq_s(q.q())),
            fdiv(fneg(q.q().3), qnorm_sq_s(q.q())),
        ),
{
    let n = q.norm_sq();
    let c = q.conjugate();
    Quat { w: c.w.div(n), x: c.x.div(n), y: c.y.div(n), z: c.z.div(n) }
}

/// A vector rotated by a quaternion: the vector part of `q * (0, v) * conj(q)`.
pub fn quat_rotate_vec3(q: Quat, v: Vec3) -> (r: Vec3)
    ensures
        (r.x.v(), r.y.v(), r.z.v()) == qrot_s(q.q(), v.x.v(), v.y.v(), v.z.v()),
{
    let pv = Quat { w: Fx { bits: 0 }, x: v.x, y: v.y, z: v.z };
    let p = q.mul(pv).mul(q.conjugate());
    Vec3 { x: p.x, y: p.y, z: p.z }
}

/// The rotation matrix of a quaternion, in the form valid for unit
/// quaternions.
pub fn quat_to_mat4(q: Quat) -> (r: Mat4)
    ensures
        r.s() == qmat_s(q.q()),
{
    let zf = Fx { bits: 0 };
    let dxx = crate::fixed::fmul_raw_i64(q.x.bits, q.x.bits);
    let dyy = crate::fixed::fmul_raw_i64(q.y.bits, q.y.bits);
    let dzz = crate::fixed::fmul_raw_i64(q.z.bits, q.z.bits);
    let dxy = crate::fixed::fmul_raw_i64(q.x.bits, q.y.bits);
    let dxz = crate::fixed::fmul_raw_i64(q.x.bits, q.z.bits);
    let dyz = crate::fixed::fmul_raw_i64(q.y.bits, q.z.bits);
    let dwx = crate::fixed::fmul_raw_i64(q.w.bits, q.x.bits);
    let dwy = crate::fixed::fmul_raw_i64(q.w.bits, q.y.bits);
    let dwz = crate::fixed::fmul_raw_i64(q.w.bits, q.z.bits);
    let e0 = Fx { bits: crate::fixed::clip_i64(ONE_B as i64 - 2 * dyy - 2 * dzz) };
    let e1 = Fx { bits: crate::fixed::clip_i64(2 * dxy + 2 * dwz) };
    let e2 = Fx { bits: crate::fixed::clip_i64(2 * dxz - 2 * dwy) };
    let e4 = Fx { bits: crate::fixed::clip_i64(2 * dxy - 2 * dwz) };
    let e5 = Fx { bits: crate::fixed::clip_i64(ONE_B as i64 - 2 * dxx - 2 * dzz) };
    let e6 = Fx { bits: crate::fixed::clip_i64(2 * dyz + 2 * dwx) };
    let e8 = Fx { bits: crate::fixed::clip_i64(2 * dxz + 2 * dwy) };
    let e9 = Fx { bits: crate::fixed::clip_i64(2 * dyz - 2 * dwx) };
    let e10 = Fx { bits: crate::fixed::clip_i64(ONE_B as i64 - 2 * dxx - 2 * dyy) };
    let r = Mat4 {
        m: [
            e0,
            e1,
            e2,
            zf,
            e4,
            e5,
            e6,
            zf,
            e8,
            e9,
            e10,
            zf,
            zf,
            zf,
            zf,
            Fx { bits: ONE_B },
        ],
    };
    proof {
        assert(r.s() =~= qmat_s(q.q()));
    }
    r
}

/// The rotation matrices of a quaternion and of its negation are the same:
/// every entry is built from products of two components.
pub proof fn lemma_qmat_negated(q: (int, int, int, int))
    requires
        iabs(q.0) < i32::MAX,
        iabs(q.1) < i32::MAX,
        iabs(q.2) < i32::MAX,
        iabs(q.3) < i32::MAX,
    ensures
        qmat_s((fneg(q.0), fneg(q.1), fneg(q.2), fneg(q.3))) == qmat_s(q),
{
    let n = (fneg(q.0), fneg(q.1), fneg(q.2), fneg(q.3));
    assert(n == (-q.0, -q.1, -q.2, -q.3));
    lemma_neg_product(q.1, q.1);
    lemma_neg_product(q.2, q.2);
    lemma_neg_product(q.3, q.3);
    lemma_neg_product(q.1, q.2);
    lemma_neg_product(q.1, q.3);
    lemma_neg_product(q.2, q.3);
    lemma_neg_product(q.0, q.1);
    lemma_neg_product(q.0, q.2);
    lemma_neg_product(q.0, q.3);
    assert(qmat_s(n) =~= qmat_s(q));
}

/// Negating both factors keeps a raw fixed-point product.
proof fn lemma_neg_product(a: int, b: int)
    ensures
        fmul_raw(-a, -b) == fmul_raw(a, b),
{
    assert((-a) * (-b) == a * b) by (nonlinear_arith);
}

/// The model of the axis-angle rotation matrix, for a unit axis, column-major.
#[verifier::opaque]
pub open spec fn mat_rotation(angle: int, ax: int, ay: int, az: int) -> Seq<int> {
    let c = cos_s(angle);
    let s = sin_s(angle);
    let k = fsub(ONE_B as int, c);
    Seq::new(
        16,
        |i: int|
            if i == 0 {
                fadd(c, fmul(fmul(ax, ax), k))
            } else if i == 1 {
                fadd(fmul(fmul(ay, ax), k), fmul(az, s))
            } else if i == 2 {
                fsub(fmul(fmul(az, ax), k), fmul(ay, s))
            } else if i == 4 {
                fsub(fmul(fmul(ax, ay), k), fmul(az, s))
            } else if i == 5 {
                fadd(c, fmul(fmul(ay, ay), k))
            } else if i == 6 {
                fadd(fmul(fmul(az, ay), k), fmul(ax, s))
            } else if i == 8 {
                fadd(fmul(fmul(ax, az), k), fmul(ay, s))
            } else if i == 9 {
                fsub(fmul(fmul(ay, az), k), fmul(ax, s))
            } else if i == 10 {
                fadd(c, fmul(fmul(az, az), k))
            } else if i == 15 {
                ONE_B as int
            } else {
                0
            },
    )
}

/// The rotation matrix about an axis by an angle.  The axis is taken as
/// given, as a unit axis is the caller's concern.
#[verifier::rlimit(60)]
pub fn axis_angle_matrix(angle: Fx, axis: Vec3) -> (r: Mat4)
    ensures
        r.s() == mat_rotation(angle.v(), axis.x.v(), axis.y.v(), axis.z.v()),
{
    let zf = Fx { bits: 0 };
    let c = cos_fx(angle);
    let s = sin_fx(angle);
    let k = Fx { bits: ONE_B }.sub(c);
    let e0 = c.add(axis.x.mul(axis.x).mul(k));
    let e1 = axis.y.mul(axis.x).mul(k).add(axis.z.mul(s));
    let e2 = axis.z.mul(axis.x).mul(k).sub(axis.y.mul(s));
    let e4 = axis.x.mul(axis.y).mul(k).sub(axis.z.mul(s));
    let e5 = c.add(axis.y.mul(axis.y).mul(k));
    let e6 = axis.z.mul(axis.y).mul(k).add(axis.x.mul(s));
    let e8 = axis.x.mul(axis.z).mul(k).add(axis.y.mul(s));
    let e9 = axis.y.mul(axis.z).mul(k).sub(axis.x.mul(s));
    let e10 = c.add(axis.z.mul(axis.z).mul(k));
    let r = Mat4 {
        m: [
            e0,
            e1,
            e2,
            zf,
            e4,
            e5,
            e6,
            zf,
            e8,
            e9,
            e10,
            zf,
            zf,
            zf,
            zf,
            Fx { bits: ONE_B },
        ],
    };
    proof {
        reveal(mat_rotation);
        assert(r.s() =~= mat_rotation(angle.v(), axis.x.v(), axis.y.v(), axis.z.v()));
    }
    r
}

/// Right-multiplication by an axis-angle rotation.
pub fn rotate(m: &Mat4, angle: Fx, axis: Vec3) -> (t: Mat4)
    ensures
        t.s() == mm(m.s(), mat_rotation(angle.v(), axis.x.v(), axis.y.v(), axis.z.v())),
{
    let rot = axis_angle_matrix(angle, axis);
    mat_mul(m, &rot)
}

/// The model of the perspective projection, column-major: vertical field of
/// view `fovy`, depth range `near` to `far`.
pub open spec fn mat_perspective(aspect: int, fovy: int, near: int, far: int) -> Seq<int> {
    let t = fdiv(sin_s(fovy / 2), cos_s(fovy / 2));
    let f = fdiv(ONE_B as int, t);
    let fn2 = fmul(far, near);
    Seq::new(
        16,
        |i: int|
            if i == 0 {
                fdiv(f, aspect)
            } else if i == 5 {
                f
            } else if i == 10 {
                fdiv(fadd(far, near), fsub(near, far))
            } else if i == 11 {
                -(ONE_B as int)
            } else if i == 14 {
                fdiv(fadd(fn2, fn2), fsub(near, far))
            } else {
                0
            },
    )
}

/// The perspective projection matrix.  The preconditions rule out the inputs
/// on which the tangent or a denominator would vanish; such inputs are the
/// caller's concern.
pub fn perspective(aspect: Fx, fovy: Fx, near: Fx, far: Fx) -> (p: Mat4)
    requires
        cos_s(fovy.v() / 2) != 0,
        fdiv(sin_s(fovy.v() / 2), cos_s(fovy.v() / 2)) != 0,
        aspect.v() != 0,
        near.v() != far.v(),
    ensures
        p.s() == mat_perspective(aspect.v(), fovy.v(), near.v(), far.v()),
{
    let zf = Fx { bits: 0 };
    let h = half_angle(fovy);
    let t = sin_fx(h).div(cos_fx(h));
    let f = Fx { bits: ONE_B }.div(t);
    let denom = near.sub(far);
    let e0 = f.div(aspect);
    let e10 = far.add(near).div(denom);
    let p2 = far.mul(near);
    let e14 = p2.add(p2).div(denom);
    let p = Mat4 {
        m: [
            e0,
            zf,
            zf,
            zf,
            zf,
            f,
            zf,
            zf,
            zf,
            zf,
            e10,
            Fx { bits: -ONE_B },
            zf,
            zf,
            e14,
            zf,
        ],
    };
    proof {
        assert(p.s() =~= mat_perspective(aspect.v(), fovy.v(), near.v(), far.v()));
    }
    p
}

/// The model of the identity quaternion.
pub open spec fn qid_s() -> (int, int, int, int) {
    (ONE_B as int, 0, 0, 0)
}

/// The model of componentwise quaternion negation.
pub open spec fn qneg_s(q: (int, int, int, int)) -> (int, int, int, int) {
    (-q.0, -q.1, -q.2, -q.3)
}

/// All four components within a magnitude bound.
pub open spec fn q_bounded(q: (int, int, int, int), b: int) -> bool {
    iabs(q.0) <= b && iabs(q.1) <= b && iabs(q.2) <= b && iabs(q.3) <= b
}

/// Negating one factor negates a raw fixed-point product.
proof fn lemma_neg_left_raw(a: int, b: int)
    ensures
        fmul_raw(-a, b) == -fmul_raw(a, b),
        fmul_raw(a, -b) == -fmul_raw(a, b),
{
    assert((-a) * b == -(a * b) && a * (-b) == -(a * b)) by (nonlinear_arith);
}

/// The identity quaternion is neutral on the left, for components far from
/// saturation.
pub proof fn lemma_qmul_id_left(q: (int, int, int, int))
    requires
        q_bounded(q, 1_000_000),
    ensures
        qmul_s(qid_s(), q) == q,
{
    lemma_fmul_one(q.0);
    lemma_fmul_one(q.1);
    lemma_fmul_one(q.2);
    lemma_fmul_one(q.3);
    crate::fixed::lemma_fmul_zero(q.0);
    crate::fixed::lemma_fmul_zero(q.1);
    crate::fixed::lemma_fmul_zero(q.2);
    crate::fixed::lemma_fmul_zero(q.3);
}

/// The components of a Hamilton product of bounded quaternions, before
/// saturation would matter.
pub proof fn lemma_qmul_bound(a: (int, int, int, int), b: (int, int, int, int), bound: int)
    requires
        0 <= bound,
        4 * ((bound * bound) / 65536) <= i32::MAX,
        q_bounded(a, bound),
        q_bounded(b, bound),
    ensures
        q_bounded(qmul_s(a, b), 4 * ((bound * bound) / 65536)),
{
    let m = (bound * bound) / 65536;
    crate::fixed::lemma_fmul_bound(a.0, b.0, bound, bound);
    crate::fixed::lemma_fmul_bound(a.0, b.1, bound, bound);
    crate::fixed::lemma_fmul_bound(a.0, b.2, bound, bound);
    crate::fixed::lemma_fmul_bound(a.0, b.3, bound, bound);
    crate::fixed::lemma_fmul_bound(a.1, b.0, bound, bound);
    crate::fixed::lemma_fmul_bound(a.1, b.1, bound, bound);
    crate::fixed::lemma_fmul_bound(a.1, b.2, bound, bound);
    crate::fixed::lemma_fmul_bound(a.1, b.3, bound, bound);
    crate::fixed::lemma_fmul_bound(a.2, b.0, bound, bound);
    crate::fixed::lemma_fmul_bound(a.2, b.1, bound, bound);
    crate::fixed::lemma_fmul_bound(a.2, b.2, bound, bound);
    crate::fixed::lemma_fmul_bound(a.2, b.3, bound, bound);
    crate::fixed::lemma_fmul_bound(a.3, b.0, bound, bound);
    crate::fixed::lemma_fmul_bound(a.3, b.1, bound, bound);
    crate::fixed::lemma_fmul_bound(a.3, b.2, bound, bound);
    crate::fixed::lemma_fmul_bound(a.3, b.3, bound, bound);
}

/// Negation distributes out of the left factor of a Hamilton product when
/// no component saturates.
pub proof fn lemma_qmul_neg_left(a: (int, int, int, int), b: (int, int, int, int))
    requires
        q_bounded(a, 1_000_000),
        q_bounded(b, 1_000_000),
    ensures
        qmul_s(qneg_s(a), b) == qneg_s(qmul_s(a, b)),
{
    lemma_neg_left_raw(a.0, b.0);
    lemma_neg_left_raw(a.0, b.1);
    lemma_neg_left_raw(a.0, b.2);
    lemma_neg_left_raw(a.0, b.3);
    lemma_neg_left_raw(a.1, b.0);
    lemma_neg_left_raw(a.1, b.1);
    lemma_neg_left_raw(a.1, b.2);
    lemma_neg_left_raw(a.1, b.3);
    lemma_neg_left_raw(a.2, b.0);
    lemma_neg_left_raw(a.2, b.1);
    lemma_neg_left_raw(a.2, b.2);
    lemma_neg_left_raw(a.2, b.3);
    lemma_neg_left_raw(a.3, b.0);
    lemma_neg_left_raw(a.3, b.1);
    lemma_neg_left_raw(a.3, b.2);
    lemma_neg_left_raw(a.3, b.3);
    lemma_qmul_bound(a, b, 1_000_000);
}

/// Negation distributes out of the right factor of a Hamilton product when
/// no component saturates.
pub proof fn lemma_qmul_neg_right(a: (int, int, int, int), b: (int, int, int, int))
    requires
        q_bounded(a, 1_000_000),
        q_bounded(b, 1_000_000),
    ensures
        qmul_s(a, qneg_s(b)) == qneg_s(qmul_s(a, b)),
{
    lemma_neg_left_raw(a.0, b.0);
    lemma_neg_left_raw(a.0, b.1);
    lemma_neg_left_raw(a.0, b.2);
    lemma_neg_left_raw(a.0, b.3);
    lemma_neg_left_raw(a.1, b.0);
    lemma_neg_left_raw(a.1, b.1);
    lemma_neg_left_raw(a.1, b.2);
    lemma_neg_left_raw(a.1, b.3);
    lemma_neg_left_raw(a.2, b.0);
    lemma_neg_left_raw(a.2, b.1);
    lemma_neg_left_raw(a.2, b.2);
    lemma_neg_left_raw(a.2, b.3);
    lemma_neg_left_raw(a.3, b.0);
    lemma_neg_left_raw(a.3, b.1);
    lemma_neg_left_raw(a.3, b.2);
    lemma_neg_left_raw(a.3, b.3);
    lemma_qmul_bound(a, b, 1_000_000);
}

/// Translating by the zero vector leaves a matrix unchanged.
pub proof fn lemma_translate_zero(a: Seq<int>)
    requires
        a.len() == 16,
        forall|i: int| 0 <= i < 16 ==> i32::MIN <= #[trigger] a[i] <= i32::MAX,
    ensures
        mm(a, mat_translation(0, 0, 0)) == a,
{
    assert(mat_translation(0, 0, 0) =~= mat_id());
    lemma_mm_id_right(a);
}

} // verus!
