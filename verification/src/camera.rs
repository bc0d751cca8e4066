//! The free-fly camera: a fixed projection, a translation, and an
//! orientation always rebuilt from the accumulated pitch and yaw.
//!
//! Pitch and yaw wrap into one turn after every change, and the orientation
//! quaternion is composed afresh from them (pitch about x, then yaw about
//! y), so neither drifts over a long session.

use crate::fixed::{fadd, fmul, iabs, tmod, Fx, ONE_B};
use crate::trig::{lemma_sin_s_bound, HALF_PI_B, TAU_B};
use crate::vecmat::{
    mat_id, mat_perspective, mat_translation, mm, perspective, q_bounded, qaa_s, qconj_s, qid_s,
    qmat_s, qmul_s, qneg_s, qrot_s, quat_rotate, quat_rotate_vec3, quat_to_mat4, translate,
    lemma_qmat_negated, lemma_qmul_bound, lemma_qmul_id_left,
    lemma_qmul_neg_left, lemma_qmul_neg_right, lemma_translate_zero, mat_mul, Mat4, Quat, Vec3,
};
use vstd::prelude::*;

verus! {

/// The six local movement directions.
#[derive(Clone, Copy, PartialEq, Eq, Structural, Debug)]
pub enum VecDir {
    Forward,
    Left,
    Backward,
    Right,
    Up,
    Down,
}

/// The local-frame unit vector of a movement direction: forward is positive
/// z, left positive x, up negative y.
pub open spec fn dir_s(d: VecDir) -> (int, int, int) {
    match d {
        VecDir::Forward => (0, 0, ONE_B as int),
        VecDir::Backward => (0, 0, -(ONE_B as int)),
        VecDir::Left => (ONE_B as int, 0, 0),
        VecDir::Right => (-(ONE_B as int), 0, 0),
        VecDir::Up => (0, -(ONE_B as int), 0),
        VecDir::Down => (0, ONE_B as int, 0),
    }
}

/// The orientation built from pitch and yaw: the identity rotated by pitch
/// about the x axis, then by yaw about the y axis.
pub open spec fn orient_s(p: int, y: int) -> (int, int, int, int) {
    qmul_s(qmul_s(qid_s(), qaa_s(p, ONE_B as int, 0, 0)), qaa_s(y, 0, ONE_B as int, 0))
}

/// One camera uniform write for the GPU layer: which program, and the
/// combined camera matrix to hand it.
#[derive(Clone, Copy, Debug)]
pub struct CameraUniform {
    pub program_id: u32,
    pub transform: Mat4,
}

/// Why a camera could not be built.
#[derive(Clone, Copy, PartialEq, Eq, Structural, Debug)]
pub enum CameraBuildError {
    /// The projection, the one required field, was never supplied.
    MissingProjection,
}

/// The camera.
pub struct Camera {
    pub projection: Mat4,
    pub translation: Mat4,
    pub orientation: Quat,
    pub pitch: Fx,
    pub yaw: Fx,
    pub move_speed: Fx,
    pub turn_sensitivity: Fx,
    pub binded_programs: Vec<u32>,
}

/// The combined camera matrix: projection, then orientation, then
/// translation.
pub open spec fn camera_transform_s(c: Camera) -> Seq<int> {
    mm(mm(c.projection.s(), qmat_s(c.orientation.q())), c.translation.s())
}

impl Camera {
    /// The combined camera matrix of the current state.
    pub fn camera_transform(&self) -> (m: Mat4)
        ensures
            m.s() == camera_transform_s(*self),
    {
        let rot = quat_to_mat4(self.orientation);
        let pr = mat_mul(&self.projection, &rot);
        mat_mul(&pr, &self.translation)
    }

    /// The camera uniform writes keeping every bound program in step: one
    /// per program, each carrying the current combined camera matrix.
    pub fn assign_camera_uniform(&self) -> (us: Vec<CameraUniform>)
        ensures
            us@.len() == self.binded_programs@.len(),
            forall|i: int|
                0 <= i < us@.len() ==> (#[trigger] us@[i]).program_id
                    == self.binded_programs@[i] && us@[i].transform.s() == camera_transform_s(
                    *self,
                ),
    {
        let ct = self.camera_transform();
        let mut us: Vec<CameraUniform> = Vec::new();
        let mut i: usize = 0;
        while i < self.binded_programs.len()
            invariant
                i <= self.binded_programs@.len(),
                us@.len() == i,
                ct.s() == camera_transform_s(*self),
                forall|j: int|
                    0 <= j < i ==> (#[trigger] us@[j]).program_id == self.binded_programs@[j]
                        && us@[j].transform.s() == camera_transform_s(*self),
            decreases self.binded_programs@.len() - i,
        {
            us.push(CameraUniform { program_id: self.binded_programs[i], transform: ct });
            i += 1;
        }
        us
    }

    /// Moves the camera along one of its local axes: the direction is
    /// carried into world space by the inverse (conjugate) of the unit
    /// orientation, scaled by speed and elapsed time, and applied as a
    /// translation relative to the current facing.  Zero elapsed time or
    /// zero speed moves nothing.
    pub fn move_in_dir(&mut self, direction: VecDir, delta_time: Fx) -> (us: Vec<CameraUniform>)
        ensures
            ({
                let d = dir_s(direction);
                let local = qrot_s(qconj_s(old(self).orientation.q()), d.0, d.1, d.2);
                let stride = fmul(old(self).move_speed.v(), delta_time.v());
                final(self).translation.s() == mm(
                    old(self).translation.s(),
                    mat_translation(
                        fmul(local.0, stride),
                        fmul(local.1, stride),
                        fmul(local.2, stride),
                    ),
                )
            }),
            delta_time.v() == 0 ==> final(self).translation.s() == old(self).translation.s(),
            old(self).move_speed.v() == 0 ==> final(self).translation.s() == old(
                self,
            ).translation.s(),
            final(self).projection == old(self).projection,
            final(self).orientation == old(self).orientation,
            final(self).pitch == old(self).pitch,
            final(self).yaw == old(self).yaw,
            final(self).move_speed == old(self).move_speed,
            final(self).turn_sensitivity == old(self).turn_sensitivity,
            final(self).binded_programs@ == old(self).binded_programs@,
            us@.len() == old(self).binded_programs@.len(),
            forall|i: int|
                0 <= i < us@.len() ==> (#[trigger] us@[i]).program_id == old(
                    self,
                ).binded_programs@[i] && us@[i].transform.s() == camera_transform_s(*final(self)),
    {
        let o = Fx { bits: ONE_B };
        let z = Fx { bits: 0 };
        let global_direction = match direction {
            VecDir::Forward => Vec3 { x: z, y: z, z: o },
            VecDir::Backward => Vec3 { x: z, y: z, z: o.neg() },
            VecDir::Left => Vec3 { x: o, y: z, z: z },
            VecDir::Right => Vec3 { x: o.neg(), y: z, z: z },
            VecDir::Up => Vec3 { x: z, y: o.neg(), z: z },
            VecDir::Down => Vec3 { x: z, y: o, z: z },
        };
        let local_direction = quat_rotate_vec3(self.orientation.conjugate(), global_direction);
        let stride = self.move_speed.mul(delta_time);
        let offset = local_direction.scale_by(stride);
        proof {
            if delta_time.v() == 0 || self.move_speed.v() == 0 {
                crate::fixed::lemma_fmul_zero(self.move_speed.v());
                crate::fixed::lemma_fmul_zero(delta_time.v());
                crate::fixed::lemma_fmul_zero(local_direction.x.v());
                crate::fixed::lemma_fmul_zero(local_direction.y.v());
                crate::fixed::lemma_fmul_zero(local_direction.z.v());
                lemma_translate_zero(self.translation.s());
            }
        }
        self.translation = translate(&self.translation, offset);
        self.assign_camera_uniform()
    }

    /// Turns the camera: the mouse deltas, scaled by elapsed time and
    /// sensitivity, accumulate into pitch and yaw; the orientation is
    /// rebuilt from both; and the stored angles wrap into one turn.
    pub fn turn(&mut self, turn_vector: (Fx, Fx), delta_time: Fx) -> (us: Vec<CameraUniform>)
        ensures
            ({
                let p1 = fadd(
                    old(self).pitch.v(),
                    fmul(fmul(turn_vector.1.v(), delta_time.v()), old(self).turn_sensitivity.v()),
                );
                let y1 = fadd(
                    old(self).yaw.v(),
                    fmul(fmul(turn_vector.0.v(), delta_time.v()), old(self).turn_sensitivity.v()),
                );
                &&& final(self).pitch.v() == tmod(p1, TAU_B as int)
                &&& final(self).yaw.v() == tmod(y1, TAU_B as int)
                &&& final(self).orientation.q() == orient_s(p1, y1)
            }),
            iabs(final(self).pitch.v()) < TAU_B,
            iabs(final(self).yaw.v()) < TAU_B,
            final(self).projection == old(self).projection,
            final(self).translation == old(self).translation,
            final(self).move_speed == old(self).move_speed,
            final(self).turn_sensitivity == old(self).turn_sensitivity,
            final(self).binded_programs@ == old(self).binded_programs@,
            us@.len() == old(self).binded_programs@.len(),
            forall|i: int|
                0 <= i < us@.len() ==> (#[trigger] us@[i]).program_id == old(
                    self,
                ).binded_programs@[i] && us@[i].transform.s() == camera_transform_s(*final(self)),
    {
        let o = Fx { bits: ONE_B };
        let z = Fx { bits: 0 };
        let x_axis = Vec3 { x: o, y: z, z: z };
        let y_axis = Vec3 { x: z, y: o, z: z };
        let tau = Fx { bits: TAU_B };

        let dp = turn_vector.1.mul(delta_time).mul(self.turn_sensitivity);
        let p1 = self.pitch.add(dp);
        let orientation1 = quat_rotate(Quat::identity(), p1, x_axis);

        let dy = turn_vector.0.mul(delta_time).mul(self.turn_sensitivity);
        let y1 = self.yaw.add(dy);
        self.orientation = quat_rotate(orientation1, y1, y_axis);

        self.yaw = y1.rem(tau);
        self.pitch = p1.rem(tau);

        self.assign_camera_uniform()
    }

    /// The camera's position: the translation column of its translation
    /// matrix.
    pub fn position(&self) -> (v: Vec3)
        ensures
            v.x.v() == self.translation.s()[12],
            v.y.v() == self.translation.s()[13],
            v.z.v() == self.translation.s()[14],
    {
        self.translation.translation_column()
    }
}

/// A quaternion built from pitch or yaw about a principal axis has all
/// components within a quarter turn's bits.
proof fn lemma_qaa_axis_bounded(angle: int, ax: int, ay: int, az: int)
    requires
        ax == ONE_B || ax == 0,
        ay == ONE_B || ay == 0,
        az == ONE_B || az == 0,
    ensures
        q_bounded(qaa_s(angle, ax, ay, az), HALF_PI_B as int),
{
    let h = angle / 2;
    lemma_sin_s_bound(h);
    let s = crate::trig::sin_s(h);
    crate::fixed::lemma_fmul_one(s);
    crate::fixed::lemma_fmul_zero(s);
}

/// A full turn added to the pitch or yaw negates the quaternion built from
/// it about a principal axis.
proof fn lemma_qaa_full_turn(angle: int, ax: int, ay: int, az: int)
    requires
        ax == ONE_B || ax == 0,
        ay == ONE_B || ay == 0,
        az == ONE_B || az == 0,
    ensures
        qaa_s(angle + TAU_B, ax, ay, az) == qneg_s(qaa_s(angle, ax, ay, az)),
{
    let h = angle / 2;
    crate::trig::lemma_half_turn(angle);
    crate::trig::lemma_sin_antiperiod(h);
    crate::trig::lemma_sin_antiperiod(h + HALF_PI_B);
    lemma_sin_s_bound(h);
    let s = crate::trig::sin_s(h);
    crate::fixed::lemma_fmul_one(s);
    crate::fixed::lemma_fmul_one(-s);
    crate::fixed::lemma_fmul_zero(s);
    crate::fixed::lemma_fmul_zero(-s);
}

/// A whole extra turn of pitch or of yaw leaves the produced rotation
/// matrix unchanged: the orientation quaternion flips sign, and a
/// quaternion and its negation rotate identically.
pub proof fn lemma_orientation_full_turn(p: int, y: int)
    ensures
        qmat_s(orient_s(p + TAU_B, y)) == qmat_s(orient_s(p, y)),
        qmat_s(orient_s(p, y + TAU_B)) == qmat_s(orient_s(p, y)),
{
    let qp = qaa_s(p, ONE_B as int, 0, 0);
    let qy = qaa_s(y, 0, ONE_B as int, 0);
    lemma_qaa_axis_bounded(p, ONE_B as int, 0, 0);
    lemma_qaa_axis_bounded(p + TAU_B, ONE_B as int, 0, 0);
    lemma_qaa_axis_bounded(y, 0, ONE_B as int, 0);
    lemma_qaa_axis_bounded(y + TAU_B, 0, ONE_B as int, 0);
    lemma_qmul_id_left(qp);
    lemma_qmul_id_left(qaa_s(p + TAU_B, ONE_B as int, 0, 0));
    lemma_qaa_full_turn(p, ONE_B as int, 0, 0);
    lemma_qaa_full_turn(y, 0, ONE_B as int, 0);
    lemma_qmul_id_left(qneg_s(qp));
    lemma_qmul_neg_left(qp, qy);
    lemma_qmul_neg_right(qp, qy);
    lemma_qmul_bound(qp, qy, 1_000_000);
    lemma_qmat_negated(qmul_s(qp, qy));
}

/// Step-by-step configuration of a camera.  Only the projection is
/// required; every other field has a default.
pub struct CameraBuilder {
    pub projection: Option<Mat4>,
    pub translation: Option<Mat4>,
    pub pitch: Option<Fx>,
    pub yaw: Option<Fx>,
    pub move_speed: Option<Fx>,
    pub turn_sensitivity: Option<Fx>,
}

impl CameraBuilder {
    /// A builder with nothing set.
    pub fn init() -> (b: CameraBuilder)
        ensures
            b.projection is None,
            b.translation is None,
            b.pitch is None,
            b.yaw is None,
            b.move_speed is None,
            b.turn_sensitivity is None,
    {
        CameraBuilder {
            projection: None,
            translation: None,
            pitch: None,
            yaw: None,
            move_speed: None,
            turn_sensitivity: None,
        }
    }

    /// Sets the projection to a perspective with the given aspect ratio,
    /// vertical field of view and depth range.
    pub fn projection(self, aspect: Fx, fovy: Fx, near: Fx, far: Fx) -> (b: CameraBuilder)
        requires
            crate::trig::cos_s(fovy.v() / 2) != 0,
            crate::fixed::fdiv(crate::trig::sin_s(fovy.v() / 2), crate::trig::cos_s(fovy.v() / 2))
                != 0,
            aspect.v() != 0,
            near.v() != far.v(),
        ensures
            b.projection matches Some(m) && m.s() == mat_perspective(
                aspect.v(),
                fovy.v(),
                near.v(),
                far.v(),
            ),
            b.translation == self.translation,
            b.pitch == self.pitch,
            b.yaw == self.yaw,
            b.move_speed == self.move_speed,
            b.turn_sensitivity == self.turn_sensitivity,
    {
        let m = perspective(aspect, fovy, near, far);
        CameraBuilder { projection: Some(m), ..self }
    }

    /// Sets the starting position: the identity translated there.
    pub fn translation(self, start_pos: &Vec3) -> (b: CameraBuilder)
        ensures
            b.translation matches Some(m) && m.s() == mm(
                mat_id(),
                mat_translation(start_pos.x.v(), start_pos.y.v(), start_pos.z.v()),
            ),
            b.projection == self.projection,
            b.pitch == self.pitch,
            b.yaw == self.yaw,
            b.move_speed == self.move_speed,
            b.turn_sensitivity == self.turn_sensitivity,
    {
        let ident = Mat4::identity();
        let m = translate(&ident, *start_pos);
        CameraBuilder { translation: Some(m), ..self }
    }

    /// Sets the starting pitch.
    pub fn pitch(self, pitch: Fx) -> (b: CameraBuilder)
        ensures
            b == (CameraBuilder { pitch: Some(pitch), ..self }),
    {
        CameraBuilder { pitch: Some(pitch), ..self }
    }

    /// Sets the starting yaw.
    pub fn yaw(self, yaw: Fx) -> (b: CameraBuilder)
        ensures
            b == (CameraBuilder { yaw: Some(yaw), ..self }),
    {
        CameraBuilder { yaw: Some(yaw), ..self }
    }

    /// Sets the movement speed.
    pub fn move_speed(self, move_speed: Fx) -> (b: CameraBuilder)
        ensures
            b == (CameraBuilder { move_speed: Some(move_speed), ..self }),
    {
        CameraBuilder { move_speed: Some(move_speed), ..self }
    }

    /// Sets the turn sensitivity.
    pub fn turn_sensitivity(self, turn_sensitivity: Fx) -> (b: CameraBuilder)
        ensures
            b == (CameraBuilder { turn_sensitivity: Some(turn_sensitivity), ..self }),
    {
        CameraBuilder { turn_sensitivity: Some(turn_sensitivity), ..self }
    }

    /// Builds the camera bound to the given shader programs.  Fails exactly
    /// when no projection was set; omitted fields take their defaults:
    /// identity translation, zero pitch and yaw, unit speed and
    /// sensitivity.  The orientation starts derived from pitch and yaw.
    #[must_use]
    pub fn build_and_attach_to_programs(self, programs: Vec<u32>) -> (r: Result<
        Camera,
        CameraBuildError,
    >)
        ensures
            self.projection is None ==> r == Err::<Camera, CameraBuildError>(
                CameraBuildError::MissingProjection,
            ),
            self.projection matches Some(proj) ==> (r matches Ok(c) && {
                &&& c.projection == proj
                &&& c.translation.s() == (match self.translation {
                    Some(t) => t.s(),
                    None => mat_id(),
                })
                &&& c.pitch == (match self.pitch {
                    Some(p) => p,
                    None => Fx { bits: 0 },
                })
                &&& c.yaw == (match self.yaw {
                    Some(y) => y,
                    None => Fx { bits: 0 },
                })
                &&& c.move_speed == (match self.move_speed {
                    Some(s) => s,
                    None => Fx { bits: ONE_B },
                })
                &&& c.turn_sensitivity == (match self.turn_sensitivity {
                    Some(s) => s,
                    None => Fx { bits: ONE_B },
                })
                &&& c.orientation.q() == orient_s(c.pitch.v(), c.yaw.v())
                &&& c.binded_programs@ == programs@
            }),
    {
        let projection = match self.projection {
            Some(p) => p,
            None => {
                return Err(CameraBuildError::MissingProjection);
            },
        };
        let translation = match self.translation {
            Some(t) => t,
            None => Mat4::identity(),
        };
        let pitch = match self.pitch {
            Some(p) => p,
            None => Fx { bits: 0 },
        };
        let yaw = match self.yaw {
            Some(y) => y,
            None => Fx { bits: 0 },
        };
        let move_speed = match self.move_speed {
            Some(s) => s,
            None => Fx { bits: ONE_B },
        };
        let turn_sensitivity = match self.turn_sensitivity {
            Some(s) => s,
            None => Fx { bits: ONE_B },
        };

        let o = Fx { bits: ONE_B };
        let z = Fx { bits: 0 };
        let orientation1 = quat_rotate(Quat::identity(), pitch, Vec3 { x: o, y: z, z: z });
        let orientation = quat_rotate(orientation1, yaw, Vec3 { x: z, y: o, z: z });

        Ok(
            Camera {
                projection,
                translation,
                orientation,
                pitch,
                yaw,
                move_speed,
                turn_sensitivity,
                binded_programs: programs,
            },
        )
    }
}

} // verus!
