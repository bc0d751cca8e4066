//! The exact algebra behind the crate's rotations.
//!
//! The executable quaternion and matrix functions evaluate the formulas
//! below in fixed point.  Here the same formulas are taken over the
//! unbounded integers, where their algebraic laws hold exactly: rotating a
//! vector through the quaternion built from an axis and an angle is the
//! same as rotating it directly about that axis, and the rotation matrix of
//! a unit quaternion applies exactly as conjugation by it does.

use vstd::prelude::*;

verus! {

/// The exact Hamilton product, components scalar-first.
pub open spec fn qe_mul(a: (int, int, int, int), b: (int, int, int, int)) -> (int, int, int, int) {
    (
        a.0 * b.0 - a.1 * b.1 - a.2 * b.2 - a.3 * b.3,
        a.0 * b.1 + a.1 * b.0 + a.2 * b.3 - a.3 * b.2,
        a.0 * b.2 - a.1 * b.3 + a.2 * b.0 + a.3 * b.1,
        a.0 * b.3 + a.1 * b.2 - a.2 * b.1 + a.3 * b.0,
    )
}

/// The exact conjugate.
pub open spec fn qe_conj(q: (int, int, int, int)) -> (int, int, int, int) {
    (q.0, -q.1, -q.2, -q.3)
}

/// A vector rotated by a quaternion: the vector part of `q * (0, v) *
/// conj(q)`.
pub open spec fn qe_rot(q: (int, int, int, int), v: (int, int, int)) -> (int, int, int) {
    let p = qe_mul(qe_mul(q, (0, v.0, v.1, v.2)), qe_conj(q));
    (p.1, p.2, p.3)
}

/// The quaternion of an axis and an angle, given the sine and cosine of
/// half the angle: the cosine as scalar part, the axis scaled by the sine.
pub open spec fn qe_from_axis_angle(s: int, c: int, a: (int, int, int)) -> (int, int, int, int) {
    (c, s * a.0, s * a.1, s * a.2)
}

/// The rotation matrix of a unit quaternion, applied to a vector.
pub open spec fn qe_mat_apply(q: (int, int, int, int), v: (int, int, int)) -> (int, int, int) {
    let w = q.0;
    let x = q.1;
    let y = q.2;
    let z = q.3;
    (
        (1 - 2 * (y * y + z * z)) * v.0 + (2 * (x * y - w * z)) * v.1 + (2 * (x * z + w * y))
            * v.2,
        (2 * (x * y + w * z)) * v.0 + (1 - 2 * (x * x + z * z)) * v.1 + (2 * (y * z - w * x))
            * v.2,
        (2 * (x * z - w * y)) * v.0 + (2 * (y * z + w * x)) * v.1 + (1 - 2 * (x * x + y * y))
            * v.2,
    )
}

/// Direct rotation about a unit axis `a`, given the cosine and sine of the
/// whole angle: `cos * v + (1 - cos) * (a . v) * a + sin * (a x v)`.
pub open spec fn qe_rodrigues(c2: int, s2: int, a: (int, int, int), v: (int, int, int)) -> (
    int,
    int,
    int,
) {
    let d = a.0 * v.0 + a.1 * v.1 + a.2 * v.2;
    (
        c2 * v.0 + (1 - c2) * d * a.0 + s2 * (a.1 * v.2 - a.2 * v.1),
        c2 * v.1 + (1 - c2) * d * a.1 + s2 * (a.2 * v.0 - a.0 * v.2),
        c2 * v.2 + (1 - c2) * d * a.2 + s2 * (a.0 * v.1 - a.1 * v.0),
    )
}

/// For a unit quaternion, applying its rotation matrix is conjugating by
/// it, and both decompose into the classical three terms: the vector
/// scaled by the scalar part squared minus the vector-part norm, the
/// vector part scaled by twice its alignment with the vector, and twice
/// the scalar part times the cross product.
pub proof fn lemma_qe_mat_rotates(q: (int, int, int, int), v: (int, int, int))
    requires
        q.0 * q.0 + q.1 * q.1 + q.2 * q.2 + q.3 * q.3 == 1,
    ensures
        qe_mat_apply(q, v) == qe_rot(q, v),
        ({
            let w = q.0;
            let u = (q.1, q.2, q.3);
            let n = u.0 * u.0 + u.1 * u.1 + u.2 * u.2;
            let d = u.0 * v.0 + u.1 * v.1 + u.2 * v.2;
            &&& qe_rot(q, v).0 == (w * w - n) * v.0 + 2 * d * u.0 + 2 * w * (u.1 * v.2 - u.2
                * v.1)
            &&& qe_rot(q, v).1 == (w * w - n) * v.1 + 2 * d * u.1 + 2 * w * (u.2 * v.0 - u.0
                * v.2)
            &&& qe_rot(q, v).2 == (w * w - n) * v.2 + 2 * d * u.2 + 2 * w * (u.0 * v.1 - u.1
                * v.0)
        }),
{
    let w = q.0;
    let x = q.1;
    let y = q.2;
    let z = q.3;
    let n = x * x + y * y + z * z;
    let d = x * v.0 + y * v.1 + z * v.2;
    let p10 = w * 0 - x * v.0 - y * v.1 - z * v.2;
    let p11 = w * v.0 + x * 0 + y * v.2 - z * v.1;
    let p12 = w * v.1 - x * v.2 + y * 0 + z * v.0;
    let p13 = w * v.2 + x * v.1 - y * v.0 + z * 0;
    assert(qe_mul(q, (0, v.0, v.1, v.2)) == (p10, p11, p12, p13));
    let r1 = p10 * (-x) + p11 * w + p12 * (-z) - p13 * (-y);
    let r2 = p10 * (-y) - p11 * (-z) + p12 * w + p13 * (-x);
    let r3 = p10 * (-z) + p11 * (-y) - p12 * (-x) + p13 * w;
    assert(qe_rot(q, v) == (r1, r2, r3));
    let m0 = (1 - 2 * (y * y + z * z)) * v.0 + (2 * (x * y - w * z)) * v.1 + (2 * (x * z + w * y))
        * v.2;
    let m1 = (2 * (x * y + w * z)) * v.0 + (1 - 2 * (x * x + z * z)) * v.1 + (2 * (y * z - w * x))
        * v.2;
    let m2 = (2 * (x * z - w * y)) * v.0 + (2 * (y * z + w * x)) * v.1 + (1 - 2 * (x * x + y * y))
        * v.2;
    assert(qe_mat_apply(q, v) == (m0, m1, m2));
    assert(r1 == (w * w - n) * v.0 + 2 * d * x + 2 * w * (y * v.2 - z * v.1) && r1 == m0)
        by (nonlinear_arith)
        requires
            w * w + x * x + y * y + z * z == 1,
            p10 == w * 0 - x * v.0 - y * v.1 - z * v.2,
            p11 == w * v.0 + x * 0 + y * v.2 - z * v.1,
            p12 == w * v.1 - x * v.2 + y * 0 + z * v.0,
            p13 == w * v.2 + x * v.1 - y * v.0 + z * 0,
            r1 == p10 * (-x) + p11 * w + p12 * (-z) - p13 * (-y),
            m0 == (1 - 2 * (y * y + z * z)) * v.0 + (2 * (x * y - w * z)) * v.1 + (2 * (x * z + w
                * y)) * v.2,
            n == x * x + y * y + z * z,
            d == x * v.0 + y * v.1 + z * v.2,
    ;
    assert(r2 == (w * w - n) * v.1 + 2 * d * y + 2 * w * (z * v.0 - x * v.2) && r2 == m1)
        by (nonlinear_arith)
        requires
            w * w + x * x + y * y + z * z == 1,
            p10 == w * 0 - x * v.0 - y * v.1 - z * v.2,
            p11 == w * v.0 + x * 0 + y * v.2 - z * v.1,
            p12 == w * v.1 - x * v.2 + y * 0 + z * v.0,
            p13 == w * v.2 + x * v.1 - y * v.0 + z * 0,
            r2 == p10 * (-y) - p11 * (-z) + p12 * w + p13 * (-x),
            m1 == (2 * (x * y + w * z)) * v.0 + (1 - 2 * (x * x + z * z)) * v.1 + (2 * (y * z - w
                * x)) * v.2,
            n == x * x + y * y + z * z,
            d == x * v.0 + y * v.1 + z * v.2,
    ;
    assert(r3 == (w * w - n) * v.2 + 2 * d * z + 2 * w * (x * v.1 - y * v.0) && r3 == m2)
        by (nonlinear_arith)
        requires
            w * w + x * x + y * y + z * z == 1,
            p10 == w * 0 - x * v.0 - y * v.1 - z * v.2,
            p11 == w * v.0 + x * 0 + y * v.2 - z * v.1,
            p12 == w * v.1 - x * v.2 + y * 0 + z * v.0,
            p13 == w * v.2 + x * v.1 - y * v.0 + z * 0,
            r3 == p10 * (-z) + p11 * (-y) - p12 * (-x) + p13 * w,
            m2 == (2 * (x * z - w * y)) * v.0 + (2 * (y * z + w * x)) * v.1 + (1 - 2 * (x * x + y
                * y)) * v.2,
            n == x * x + y * y + z * z,
            d == x * v.0 + y * v.1 + z * v.2,
    ;
}

/// For any unit axis and any half-angle sine and cosine, the rotation
/// matrix of the axis-angle quaternion moves a vector exactly as the
/// direct axis-angle rotation does, with the whole angle's cosine
/// `c * c - s * s` and sine `2 * s * c`.
pub proof fn lemma_axis_angle_rotation(s: int, c: int, a: (int, int, int), v: (int, int, int))
    requires
        s * s + c * c == 1,
        a.0 * a.0 + a.1 * a.1 + a.2 * a.2 == 1,
    ensures
        qe_mat_apply(qe_from_axis_angle(s, c, a), v) == qe_rodrigues(
            c * c - s * s,
            2 * s * c,
            a,
            v,
        ),
{
    let q = qe_from_axis_angle(s, c, a);
    assert(q == (c, s * a.0, s * a.1, s * a.2));
    assert(q.0 * q.0 + q.1 * q.1 + q.2 * q.2 + q.3 * q.3 == 1) by (nonlinear_arith)
        requires
            q.0 == c && q.1 == s * a.0 && q.2 == s * a.1 && q.3 == s * a.2,
            s * s + c * c == 1,
            a.0 * a.0 + a.1 * a.1 + a.2 * a.2 == 1,
    ;
    lemma_qe_mat_rotates(q, v);
    let w = q.0;
    let x = q.1;
    let y = q.2;
    let z = q.3;
    let n = x * x + y * y + z * z;
    let d = x * v.0 + y * v.1 + z * v.2;
    let da = a.0 * v.0 + a.1 * v.1 + a.2 * v.2;
    let c2 = c * c - s * s;
    let s2 = 2 * s * c;
    let rod0 = c2 * v.0 + (1 - c2) * da * a.0 + s2 * (a.1 * v.2 - a.2 * v.1);
    let rod1 = c2 * v.1 + (1 - c2) * da * a.1 + s2 * (a.2 * v.0 - a.0 * v.2);
    let rod2 = c2 * v.2 + (1 - c2) * da * a.2 + s2 * (a.0 * v.1 - a.1 * v.0);
    assert(qe_rodrigues(c2, s2, a, v) == (rod0, rod1, rod2));
    assert((w * w - n) * v.0 + 2 * d * x + 2 * w * (y * v.2 - z * v.1) == rod0)
        by (nonlinear_arith)
        requires
            w == c && x == s * a.0 && y == s * a.1 && z == s * a.2,
            s * s + c * c == 1,
            a.0 * a.0 + a.1 * a.1 + a.2 * a.2 == 1,
            n == x * x + y * y + z * z,
            d == x * v.0 + y * v.1 + z * v.2,
            da == a.0 * v.0 + a.1 * v.1 + a.2 * v.2,
            c2 == c * c - s * s,
            s2 == 2 * s * c,
            rod0 == c2 * v.0 + (1 - c2) * da * a.0 + s2 * (a.1 * v.2 - a.2 * v.1),
    ;
    assert((w * w - n) * v.1 + 2 * d * y + 2 * w * (z * v.0 - x * v.2) == rod1)
        by (nonlinear_arith)
        requires
            w == c && x == s * a.0 && y == s * a.1 && z == s * a.2,
            s * s + c * c == 1,
            a.0 * a.0 + a.1 * a.1 + a.2 * a.2 == 1,
            n == x * x + y * y + z * z,
            d == x * v.0 + y * v.1 + z * v.2,
            da == a.0 * v.0 + a.1 * v.1 + a.2 * v.2,
            c2 == c * c - s * s,
            s2 == 2 * s * c,
            rod1 == c2 * v.1 + (1 - c2) * da * a.1 + s2 * (a.2 * v.0 - a.0 * v.2),
    ;
    assert((w * w - n) * v.2 + 2 * d * z + 2 * w * (x * v.1 - y * v.0) == rod2)
        by (nonlinear_arith)
        requires
            w == c && x == s * a.0 && y == s * a.1 && z == s * a.2,
            s * s + c * c == 1,
            a.0 * a.0 + a.1 * a.1 + a.2 * a.2 == 1,
            n == x * x + y * y + z * z,
            d == x * v.0 + y * v.1 + z * v.2,
            da == a.0 * v.0 + a.1 * v.1 + a.2 * v.2,
            c2 == c * c - s * s,
            s2 == 2 * s * c,
            rod2 == c2 * v.2 + (1 - c2) * da * a.2 + s2 * (a.0 * v.1 - a.1 * v.0),
    ;
}

} // verus!
