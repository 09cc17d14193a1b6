//! The first-person camera: movement intent encoding, kinematic state, and
//! the derived view and projection matrices.
//!
//! The camera accumulates incremental yaw, pitch and roll into an
//! orientation quaternion, re-derives its local frame from that quaternion
//! each update (so the frame provably never loses orthogonality), moves in
//! its own local coordinates, and rebuilds its eye-space matrices.

use crate::fixed::{
    lemma_mul_bounds, lemma_tdiv_mag, mul_fp, sat, sat_i128, sqrt_floor, tdiv, tdiv_i128,
    SAT_LIMIT, SCALE,
};
use crate::matrix::{
    inv_translation_mat, inv_translation_of, mat_mul, mat_mul_val, mbounded, perspective_mat,
    perspective_of, view_rot_mat, view_rot_of, Matrix4,
};
use crate::quaternion::{
    axis_quat, axis_quat_val, forward_of, frame, lemma_frame_orthogonal, qbounded, qnormsq,
    quat_mul, quat_mul_val, quat_normalize, quat_normalize_val, right_of, up_of, Quaternion,
    UNIT_NORMSQ_MIN,
};
use crate::trig::{cos_deg, sin_deg};
use crate::vector::{
    bounded3, dot3, normsq3, unit3, unit3_exec, v3, v4xyz, Vector3, Vector4,
};
use vstd::prelude::*;

verus! {

pub const MOVE_LEFT: u16 = 1;

pub const MOVE_RIGHT: u16 = 2;

pub const MOVE_UP: u16 = 4;

pub const MOVE_DOWN: u16 = 8;

pub const MOVE_FORWARD: u16 = 16;

pub const MOVE_BACKWARD: u16 = 32;

pub const PITCH_UP: u16 = 64;

pub const PITCH_DOWN: u16 = 128;

pub const YAW_LEFT: u16 = 256;

pub const YAW_RIGHT: u16 = 512;

pub const ROLL_CLOCKWISE: u16 = 1024;

pub const ROLL_COUNTERCLOCKWISE: u16 = 2048;

pub const NO_MOVEMENT: u16 = 0;

/// One discrete camera command.
#[derive(Clone, Copy, Debug, PartialEq, Eq, Hash, Structural)]
pub enum SimpleCameraMovement {
    MoveLeft,
    MoveRight,
    MoveUp,
    MoveDown,
    MoveForward,
    MoveBackward,
    PitchUp,
    PitchDown,
    YawLeft,
    YawRight,
    RollClockwise,
    RollCounterClockwise,
    NoMovement,
}

/// The mask bit of one discrete command.
pub open spec fn movement_bit(m: SimpleCameraMovement) -> u16 {
    match m {
        SimpleCameraMovement::MoveLeft => MOVE_LEFT,
        SimpleCameraMovement::MoveRight => MOVE_RIGHT,
        SimpleCameraMovement::MoveUp => MOVE_UP,
        SimpleCameraMovement::MoveDown => MOVE_DOWN,
        SimpleCameraMovement::MoveForward => MOVE_FORWARD,
        SimpleCameraMovement::MoveBackward => MOVE_BACKWARD,
        SimpleCameraMovement::PitchUp => PITCH_UP,
        SimpleCameraMovement::PitchDown => PITCH_DOWN,
        SimpleCameraMovement::YawLeft => YAW_LEFT,
        SimpleCameraMovement::YawRight => YAW_RIGHT,
        SimpleCameraMovement::RollClockwise => ROLL_CLOCKWISE,
        SimpleCameraMovement::RollCounterClockwise => ROLL_COUNTERCLOCKWISE,
        SimpleCameraMovement::NoMovement => NO_MOVEMENT,
    }
}

/// A compound camera movement: any subset of the discrete commands, packed
/// into one bitmask for a single frame.
#[derive(Clone, Copy, Debug, PartialEq, Eq, Hash, Structural)]
#[verifier::ext_equal]
pub struct CameraMovement {
    pub total: u16,
}

impl CameraMovement {
    /// The empty compound movement.
    pub fn new() -> (r: CameraMovement)
        ensures
            r.total == 0,
    {
        CameraMovement { total: 0 }
    }

    /// Include a camera movement in the compound camera movement.  If the
    /// movement is already present, nothing changes.
    pub fn add_movement(self, movement: SimpleCameraMovement) -> (r: CameraMovement)
        ensures
            r.total == self.total | movement_bit(movement),
    {
        let move_to: u16 = match movement {
            SimpleCameraMovement::MoveLeft => MOVE_LEFT,
            SimpleCameraMovement::MoveRight => MOVE_RIGHT,
            SimpleCameraMovement::MoveUp => MOVE_UP,
            SimpleCameraMovement::MoveDown => MOVE_DOWN,
            SimpleCameraMovement::MoveForward => MOVE_FORWARD,
            SimpleCameraMovement::MoveBackward => MOVE_BACKWARD,
            SimpleCameraMovement::PitchUp => PITCH_UP,
            SimpleCameraMovement::PitchDown => PITCH_DOWN,
            SimpleCameraMovement::YawLeft => YAW_LEFT,
            SimpleCameraMovement::YawRight => YAW_RIGHT,
            SimpleCameraMovement::RollClockwise => ROLL_CLOCKWISE,
            SimpleCameraMovement::RollCounterClockwise => ROLL_COUNTERCLOCKWISE,
            SimpleCameraMovement::NoMovement => NO_MOVEMENT,
        };
        CameraMovement { total: self.total | move_to }
    }

    /// Remove a camera movement from the compound camera movement.  If the
    /// movement is not present in the compound camera movement, nothing
    /// changes.
    pub fn subtract_movement(self, movement: SimpleCameraMovement) -> (r: CameraMovement)
        ensures
            r.total == self.total & !movement_bit(movement),
    {
        let move_to: u16 = match movement {
            SimpleCameraMovement::MoveLeft => MOVE_LEFT,
            SimpleCameraMovement::MoveRight => MOVE_RIGHT,
            SimpleCameraMovement::MoveUp => MOVE_UP,
            SimpleCameraMovement::MoveDown => MOVE_DOWN,
            SimpleCameraMovement::MoveForward => MOVE_FORWARD,
            SimpleCameraMovement::MoveBackward => MOVE_BACKWARD,
            SimpleCameraMovement::PitchUp => PITCH_UP,
            SimpleCameraMovement::PitchDown => PITCH_DOWN,
            SimpleCameraMovement::YawLeft => YAW_LEFT,
            SimpleCameraMovement::YawRight => YAW_RIGHT,
            SimpleCameraMovement::RollClockwise => ROLL_CLOCKWISE,
            SimpleCameraMovement::RollCounterClockwise => ROLL_COUNTERCLOCKWISE,
            SimpleCameraMovement::NoMovement => NO_MOVEMENT,
        };
        CameraMovement { total: self.total & !move_to }
    }
}

/// The projection parameters of a camera: depth range, field of view in
/// Q47.16 degrees, and width-to-height aspect ratio in Q47.16.
#[derive(Clone, Copy, Debug, PartialEq, Eq, Structural)]
#[verifier::ext_equal]
pub struct CameraSpecification {
    pub near: i64,
    pub far: i64,
    pub fovy: i64,
    pub aspect: i64,
}

impl CameraSpecification {
    /// Gather the projection parameters of a camera.
    pub fn new(near: i64, far: i64, fovy: i64, aspect: i64) -> (r: CameraSpecification)
        ensures
            r == (CameraSpecification { near, far, fovy, aspect }),
    {
        CameraSpecification { near, far, fovy, aspect }
    }
}

/// The construction-time kinematic state of a camera.
#[derive(Clone, Copy, Debug, PartialEq, Eq, Structural)]
#[verifier::ext_equal]
pub struct CameraKinematics {
    pub speed: i64,
    pub yaw_speed: i64,
    pub position: Vector3,
    pub forward: Vector4,
    pub right: Vector4,
    pub up: Vector4,
    pub axis: Quaternion,
}

impl CameraKinematics {
    /// Gather the kinematic state of a camera.
    pub fn new(
        speed: i64,
        yaw_speed: i64,
        position: Vector3,
        forward: Vector4,
        right: Vector4,
        up: Vector4,
        axis: Quaternion,
    ) -> (r: CameraKinematics)
        ensures
            r == (CameraKinematics { speed, yaw_speed, position, forward, right, up, axis }),
    {
        CameraKinematics { speed, yaw_speed, position, forward, right, up, axis }
    }
}

/// A per-update attitude change: roll, pitch and yaw deltas in Q47.16
/// degrees.
#[derive(Clone, Copy, Debug, PartialEq, Eq, Structural)]
#[verifier::ext_equal]
pub struct CameraAttitude {
    pub roll: i64,
    pub pitch: i64,
    pub yaw: i64,
}

impl CameraAttitude {
    /// Gather an attitude change.
    pub fn new(roll: i64, pitch: i64, yaw: i64) -> (r: CameraAttitude)
        ensures
            r == (CameraAttitude { roll, pitch, yaw }),
    {
        CameraAttitude { roll, pitch, yaw }
    }
}

/// An attitude change that rotates about no axis.
pub open spec fn attitude_zero(a: CameraAttitude) -> bool {
    a.roll == 0 && a.pitch == 0 && a.yaw == 0
}

/// A live first-person camera.
#[derive(Clone, Copy, Debug, PartialEq, Eq, Structural)]
#[verifier::ext_equal]
pub struct Camera {
    pub near: i64,
    pub far: i64,
    pub fovy: i64,
    pub aspect: i64,
    pub movement_speed: i64,
    pub rotation_speed: i64,
    pub position: Vector3,
    pub forward: Vector4,
    pub right: Vector4,
    pub up: Vector4,
    pub axis: Quaternion,
    pub proj_mat: Matrix4,
    pub trans_mat: Matrix4,
    pub rot_mat: Matrix4,
    pub view_mat: Matrix4,
}

/// Well-formedness of a camera: the frame is the one its orientation
/// quaternion induces, and every derived matrix agrees with its definition.
pub open spec fn camera_wf(c: Camera) -> bool {
    &&& qbounded(c.axis, SCALE as int)
    &&& qnormsq(c.axis) >= UNIT_NORMSQ_MIN as int
    &&& bounded3(v3(c.position), SAT_LIMIT as int)
    &&& v4xyz(c.forward) == forward_of(c.axis) && c.forward.w == 0
    &&& v4xyz(c.right) == right_of(c.axis) && c.right.w == 0
    &&& v4xyz(c.up) == up_of(c.axis) && c.up.w == 0
    &&& bounded3(v4xyz(c.forward), crate::quaternion::FRAME_BOUND as int)
    &&& bounded3(v4xyz(c.right), crate::quaternion::FRAME_BOUND as int)
    &&& bounded3(v4xyz(c.up), crate::quaternion::FRAME_BOUND as int)
    &&& c.trans_mat == inv_translation_of(c.position)
    &&& c.rot_mat == view_rot_of(c.axis)
    &&& c.view_mat == mat_mul_val(c.rot_mat, c.trans_mat)
    &&& c.proj_mat == perspective_of(c.near, c.far, c.fovy, c.aspect)
    &&& mbounded(c.trans_mat, SAT_LIMIT as int)
    &&& mbounded(c.rot_mat, SCALE as int)
    &&& 1 <= c.near < c.far
    &&& 1 <= c.fovy
    &&& 0 <= c.aspect
}

/// The orientation after composing one attitude change onto `axis`: one
/// incremental rotation about each of the current up, right and forward
/// directions, in the order yaw, pitch, roll, then a renormalization.  A
/// zero attitude leaves the orientation untouched, so an idle frame is
/// exactly a no-op; and if rounding ever collapsed the composed quaternion
/// to zero, the previous orientation would be kept.
pub open spec fn axis_after(c: Camera, att: CameraAttitude) -> Quaternion {
    if attitude_zero(att) {
        c.axis
    } else {
        let q_yaw = axis_quat_val(
            unit3(up_of(c.axis)),
            sin_deg(tdiv(att.yaw as int, 2)),
            cos_deg(tdiv(att.yaw as int, 2)),
        );
        let q_pitch = axis_quat_val(
            unit3(right_of(c.axis)),
            sin_deg(tdiv(att.pitch as int, 2)),
            cos_deg(tdiv(att.pitch as int, 2)),
        );
        let q_roll = axis_quat_val(
            unit3(forward_of(c.axis)),
            sin_deg(tdiv(att.roll as int, 2)),
            cos_deg(tdiv(att.roll as int, 2)),
        );
        let composed = quat_mul_val(q_roll, quat_mul_val(q_pitch, quat_mul_val(q_yaw, c.axis)));
        let renormalized = quat_normalize_val(composed);
        if renormalized.x == 0 && renormalized.y == 0 && renormalized.z == 0 && renormalized.w
            == 0 {
            c.axis
        } else {
            renormalized
        }
    }
}

/// The position after moving by `dp` in the local frame of `axis2`: x along
/// the right direction, y along the up direction, and the negated z along
/// the forward direction.
pub open spec fn position_after(c: Camera, axis2: Quaternion, dp: Vector3) -> Vector3 {
    let fwd = forward_of(axis2);
    let rgt = right_of(axis2);
    let upd = up_of(axis2);
    let n = qnormsq(axis2);
    Vector3 {
        x: sat(
            c.position.x + tdiv(fwd.0 * -(dp.z as int), n) + tdiv(upd.0 * (dp.y as int), n) + tdiv(
                rgt.0 * (dp.x as int),
                n,
            ),
        ) as i64,
        y: sat(
            c.position.y + tdiv(fwd.1 * -(dp.z as int), n) + tdiv(upd.1 * (dp.y as int), n) + tdiv(
                rgt.1 * (dp.x as int),
                n,
            ),
        ) as i64,
        z: sat(
            c.position.z + tdiv(fwd.2 * -(dp.z as int), n) + tdiv(upd.2 * (dp.y as int), n) + tdiv(
                rgt.2 * (dp.x as int),
                n,
            ),
        ) as i64,
    }
}

/// The camera after one kinematic update: the new orientation, the frame it
/// induces, the position moved in that frame, and the re-derived matrices.
pub open spec fn update_val(c: Camera, dp: Vector3, att: CameraAttitude) -> Camera {
    let axis2 = axis_after(c, att);
    let fwd = forward_of(axis2);
    let rgt = right_of(axis2);
    let upd = up_of(axis2);
    let pos2 = position_after(c, axis2, dp);
    let trans2 = inv_translation_of(pos2);
    let rot2 = view_rot_of(axis2);
    Camera {
        near: c.near,
        far: c.far,
        fovy: c.fovy,
        aspect: c.aspect,
        movement_speed: c.movement_speed,
        rotation_speed: c.rotation_speed,
        position: pos2,
        forward: Vector4 { x: fwd.0 as i64, y: fwd.1 as i64, z: fwd.2 as i64, w: 0 },
        right: Vector4 { x: rgt.0 as i64, y: rgt.1 as i64, z: rgt.2 as i64, w: 0 },
        up: Vector4 { x: upd.0 as i64, y: upd.1 as i64, z: upd.2 as i64, w: 0 },
        axis: axis2,
        proj_mat: c.proj_mat,
        trans_mat: trans2,
        rot_mat: rot2,
        view_mat: mat_mul_val(rot2, trans2),
    }
}

/// The camera after construction: the orientation is the normalized given
/// axis, and the frame and all matrices are derived from it.
pub open spec fn camera_new_val(specification: CameraSpecification, kinematics: CameraKinematics) -> Camera {
    let axis = quat_normalize_val(kinematics.axis);
    let fwd = forward_of(axis);
    let rgt = right_of(axis);
    let upd = up_of(axis);
    let trans = inv_translation_of(kinematics.position);
    let rot = view_rot_of(axis);
    Camera {
        near: specification.near,
        far: specification.far,
        fovy: specification.fovy,
        aspect: specification.aspect,
        movement_speed: kinematics.speed,
        rotation_speed: kinematics.yaw_speed,
        position: kinematics.position,
        forward: Vector4 { x: fwd.0 as i64, y: fwd.1 as i64, z: fwd.2 as i64, w: 0 },
        right: Vector4 { x: rgt.0 as i64, y: rgt.1 as i64, z: rgt.2 as i64, w: 0 },
        up: Vector4 { x: upd.0 as i64, y: upd.1 as i64, z: upd.2 as i64, w: 0 },
        axis: axis,
        proj_mat: perspective_of(
            specification.near,
            specification.far,
            specification.fovy,
            specification.aspect,
        ),
        trans_mat: trans,
        rot_mat: rot,
        view_mat: mat_mul_val(rot, trans),
    }
}

/// The local-frame translation that a movement mask commands, with step
/// `v`: opposite commands sum, so they cancel exactly.
pub open spec fn delta_position_of(m: CameraMovement, v: int) -> (int, int, int) {
    (
        (if m.total & MOVE_RIGHT != 0 {
            v
        } else {
            0
        }) - (if m.total & MOVE_LEFT != 0 {
            v
        } else {
            0
        }),
        (if m.total & MOVE_DOWN != 0 {
            v
        } else {
            0
        }) - (if m.total & MOVE_UP != 0 {
            v
        } else {
            0
        }),
        (if m.total & MOVE_BACKWARD != 0 {
            v
        } else {
            0
        }) - (if m.total & MOVE_FORWARD != 0 {
            v
        } else {
            0
        }),
    )
}

/// The attitude change that a movement mask commands, with angular step
/// `v` in Q47.16 degrees.
pub open spec fn delta_attitude_of(m: CameraMovement, v: int) -> CameraAttitude {
    CameraAttitude {
        roll: ((if m.total & ROLL_CLOCKWISE != 0 {
            v
        } else {
            0
        }) - (if m.total & ROLL_COUNTERCLOCKWISE != 0 {
            v
        } else {
            0
        })) as i64,
        pitch: ((if m.total & PITCH_UP != 0 {
            v
        } else {
            0
        }) - (if m.total & PITCH_DOWN != 0 {
            v
        } else {
            0
        })) as i64,
        yaw: ((if m.total & YAW_LEFT != 0 {
            v
        } else {
            0
        }) - (if m.total & YAW_RIGHT != 0 {
            v
        } else {
            0
        })) as i64,
    }
}

/// The camera after one frame of commanded movement: the mask's
/// translation and attitude deltas, each scaled by the matching speed and
/// the elapsed time, fed through one kinematic update.
pub open spec fn movement_step(c: Camera, m: CameraMovement, elapsed: int) -> Camera {
    let v = sat(tdiv(c.movement_speed * elapsed, SCALE as int));
    let w = sat(tdiv(c.rotation_speed * elapsed, SCALE as int));
    let dp = delta_position_of(m, v);
    update_val(
        c,
        Vector3 { x: dp.0 as i64, y: dp.1 as i64, z: dp.2 as i64 },
        delta_attitude_of(m, w),
    )
}

/// The camera after a viewport resize: a new aspect ratio and the
/// projection matrix re-derived from it; everything else is untouched.
pub open spec fn viewport_step(c: Camera, width: u32, height: u32) -> Camera {
    let aspect2 = tdiv(width as int * SCALE, height as int) as i64;
    Camera {
        aspect: aspect2,
        proj_mat: perspective_of(c.near, c.far, c.fovy, aspect2),
        ..c
    }
}

/// One scaled local-frame step along `fwd`, `up` and `rgt`, the frame
/// columns of `axis2`, added onto `p` and saturated componentwise.
fn translate_in_frame(
    p: &Vector3,
    fwd: &Vector4,
    rgt: &Vector4,
    upv: &Vector4,
    axis2: &Quaternion,
    dp: &Vector3,
) -> (r: Vector3)
    requires
        bounded3(v3(*p), SAT_LIMIT as int),
        bounded3(v4xyz(*fwd), crate::quaternion::FRAME_BOUND as int),
        bounded3(v4xyz(*rgt), crate::quaternion::FRAME_BOUND as int),
        bounded3(v4xyz(*upv), crate::quaternion::FRAME_BOUND as int),
        qbounded(*axis2, SCALE as int),
        qnormsq(*axis2) >= 1,
    ensures
        ({
            let n = qnormsq(*axis2);
            &&& r.x as int == sat(
                p.x + tdiv((fwd.x as int) * -(dp.z as int), n) + tdiv(
                    (upv.x as int) * (dp.y as int),
                    n,
                ) + tdiv((rgt.x as int) * (dp.x as int), n),
            )
            &&& r.y as int == sat(
                p.y + tdiv((fwd.y as int) * -(dp.z as int), n) + tdiv(
                    (upv.y as int) * (dp.y as int),
                    n,
                ) + tdiv((rgt.y as int) * (dp.x as int), n),
            )
            &&& r.z as int == sat(
                p.z + tdiv((fwd.z as int) * -(dp.z as int), n) + tdiv(
                    (upv.z as int) * (dp.y as int),
                    n,
                ) + tdiv((rgt.z as int) * (dp.x as int), n),
            )
        }),
        bounded3(v3(r), SAT_LIMIT as int),
{
    proof {
        lemma_mul_bounds(axis2.x as int, axis2.x as int, 65536, 65536);
        lemma_mul_bounds(axis2.y as int, axis2.y as int, 65536, 65536);
        lemma_mul_bounds(axis2.z as int, axis2.z as int, 65536, 65536);
        lemma_mul_bounds(axis2.w as int, axis2.w as int, 65536, 65536);
        let fb = crate::quaternion::FRAME_BOUND as int;
        let db = 0x8000_0000_0000_0000;
        lemma_mul_bounds(fwd.x as int, -(dp.z as int), fb, db);
        lemma_mul_bounds(fwd.y as int, -(dp.z as int), fb, db);
        lemma_mul_bounds(fwd.z as int, -(dp.z as int), fb, db);
        lemma_mul_bounds(upv.x as int, dp.y as int, fb, db);
        lemma_mul_bounds(upv.y as int, dp.y as int, fb, db);
        lemma_mul_bounds(upv.z as int, dp.y as int, fb, db);
        lemma_mul_bounds(rgt.x as int, dp.x as int, fb, db);
        lemma_mul_bounds(rgt.y as int, dp.x as int, fb, db);
        lemma_mul_bounds(rgt.z as int, dp.x as int, fb, db);
    }
    let nq: i128 = (axis2.x as i128) * (axis2.x as i128) + (axis2.y as i128) * (axis2.y as i128)
        + (axis2.z as i128) * (axis2.z as i128) + (axis2.w as i128) * (axis2.w as i128);
    let px = sat_i128(
        (p.x as i128) + tdiv_i128((fwd.x as i128) * (-(dp.z as i128)), nq) + tdiv_i128(
            (upv.x as i128) * (dp.y as i128),
            nq,
        ) + tdiv_i128((rgt.x as i128) * (dp.x as i128), nq),
    );
    let py = sat_i128(
        (p.y as i128) + tdiv_i128((fwd.y as i128) * (-(dp.z as i128)), nq) + tdiv_i128(
            (upv.y as i128) * (dp.y as i128),
            nq,
        ) + tdiv_i128((rgt.y as i128) * (dp.x as i128), nq),
    );
    let pz = sat_i128(
        (p.z as i128) + tdiv_i128((fwd.z as i128) * (-(dp.z as i128)), nq) + tdiv_i128(
            (upv.z as i128) * (dp.y as i128),
            nq,
        ) + tdiv_i128((rgt.z as i128) * (dp.x as i128), nq),
    );
    Vector3 { x: px, y: py, z: pz }
}

impl Camera {
    /// Construct a new camera.  The orientation quaternion is normalized,
    /// and the camera's frame is derived from it, so the orthogonality
    /// invariant holds from birth; the projection preconditions follow the
    /// documented frustum contract.
    #[verifier::rlimit(100)]
    pub fn new(specification: CameraSpecification, kinematics: CameraKinematics) -> (r: Camera)
        requires
            1 <= specification.near < specification.far,
            1 <= specification.fovy,
            0 <= specification.aspect,
            qbounded(kinematics.axis, SAT_LIMIT as int),
            qnormsq(kinematics.axis) >= 1,
            bounded3(v3(kinematics.position), SAT_LIMIT as int),
        ensures
            r == camera_new_val(specification, kinematics),
            camera_wf(r),
    {
        let axis = quat_normalize(&kinematics.axis);
        let f = frame(&axis);
        let trans = inv_translation_mat(&kinematics.position);
        let rot = view_rot_mat(&axis);
        let view = mat_mul(&rot, &trans);
        let proj = perspective_mat(
            specification.near,
            specification.far,
            specification.fovy,
            specification.aspect,
        );
        let r = Camera {
            near: specification.near,
            far: specification.far,
            fovy: specification.fovy,
            aspect: specification.aspect,
            movement_speed: kinematics.speed,
            rotation_speed: kinematics.yaw_speed,
            position: kinematics.position,
            forward: f.0,
            right: f.1,
            up: f.2,
            axis: axis,
            proj_mat: proj,
            trans_mat: trans,
            rot_mat: rot,
            view_mat: view,
        };
        proof {
            let target = camera_new_val(specification, kinematics);
            assert(f.0 =~= target.forward);
            assert(f.1 =~= target.right);
            assert(f.2 =~= target.up);
            assert(r =~= target);
        }
        r
    }

    /// Get the camera's eye position in world space.
    pub fn position(&self) -> (r: Vector3)
        ensures
            r == self.position,
    {
        self.position
    }

    /// Get the camera's up direction in world space.
    pub fn up_axis(&self) -> (r: Vector3)
        ensures
            r == (Vector3 { x: self.up.x, y: self.up.y, z: self.up.z }),
    {
        Vector3 { x: self.up.x, y: self.up.y, z: self.up.z }
    }

    /// Get the camera's right axis in world space.
    pub fn right_axis(&self) -> (r: Vector3)
        ensures
            r == (Vector3 { x: self.right.x, y: self.right.y, z: self.right.z }),
    {
        Vector3 { x: self.right.x, y: self.right.y, z: self.right.z }
    }

    /// Get the camera's forward axis in world space.
    pub fn forward_axis(&self) -> (r: Vector3)
        ensures
            r == (Vector3 { x: self.forward.x, y: self.forward.y, z: self.forward.z }),
    {
        Vector3 { x: self.forward.x, y: self.forward.y, z: self.forward.z }
    }

    /// Get the camera's up direction in camera space.
    pub fn up_axis_eye(&self) -> (r: Vector3)
        ensures
            r == (Vector3 { x: 0i64, y: SCALE, z: 0i64 }),
    {
        Vector3 { x: 0, y: SCALE, z: 0 }
    }

    /// Get the camera's right axis in camera space.
    pub fn right_axis_eye(&self) -> (r: Vector3)
        ensures
            r == (Vector3 { x: SCALE, y: 0i64, z: 0i64 }),
    {
        Vector3 { x: SCALE, y: 0, z: 0 }
    }

    /// Get the camera's forward axis in camera space: the negative z
    /// direction.
    pub fn forward_axis_eye(&self) -> (r: Vector3)
        ensures
            r == (Vector3 { x: 0i64, y: 0i64, z: (-SCALE) as i64 }),
    {
        Vector3 { x: 0, y: 0, z: -SCALE }
    }

    /// Get the camera's axis of rotation.
    pub fn axis(&self) -> (r: Quaternion)
        ensures
            r == self.axis,
    {
        self.axis
    }

    /// Advance the orientation quaternion by one attitude change.
    fn advance_axis(&self, delta_attitude: CameraAttitude) -> (r: Quaternion)
        requires
            camera_wf(*self),
        ensures
            r == axis_after(*self, delta_attitude),
            qbounded(r, SCALE as int),
            qnormsq(r) >= UNIT_NORMSQ_MIN as int,
    {
        let zero_att = delta_attitude.roll == 0 && delta_attitude.pitch == 0 && delta_attitude.yaw
            == 0;
        if zero_att {
            self.axis
        } else {
            proof {
                lemma_frame_orthogonal(self.axis);
                let n = qnormsq(self.axis);
                assert(n * n >= 1) by (nonlinear_arith)
                    requires
                        n >= 1,
                ;
            }
            let upv = Vector3 { x: self.up.x, y: self.up.y, z: self.up.z };
            let rgtv = Vector3 { x: self.right.x, y: self.right.y, z: self.right.z };
            let fwdv = Vector3 { x: self.forward.x, y: self.forward.y, z: self.forward.z };
            let uu = unit3_exec(&upv);
            let ur = unit3_exec(&rgtv);
            let uf = unit3_exec(&fwdv);
            let hy = tdiv_i128(delta_attitude.yaw as i128, 2) as i64;
            let hp = tdiv_i128(delta_attitude.pitch as i128, 2) as i64;
            let hr = tdiv_i128(delta_attitude.roll as i128, 2) as i64;
            let scy = crate::trig::sin_cos_deg(hy);
            let scp = crate::trig::sin_cos_deg(hp);
            let scr = crate::trig::sin_cos_deg(hr);
            let q_yaw = axis_quat(&uu, scy.0, scy.1);
            let q_pitch = axis_quat(&ur, scp.0, scp.1);
            let q_roll = axis_quat(&uf, scr.0, scr.1);
            let a1 = quat_mul(&q_yaw, &self.axis);
            let a2 = quat_mul(&q_pitch, &a1);
            let a3 = quat_mul(&q_roll, &a2);
            let renormalized = quat_normalize(&a3);
            if renormalized.x == 0 && renormalized.y == 0 && renormalized.z == 0
                && renormalized.w == 0 {
                self.axis
            } else {
                proof {
                    // If the composed quaternion were zero, normalization
                    // would have left it zero and the guard above would
                    // have kept the old orientation instead.
                    if a3.x == 0 && a3.y == 0 && a3.z == 0 && a3.w == 0 {
                        assert(qnormsq(a3) == 0);
                        assert(sqrt_floor(0nat) == 0);
                        assert(quat_normalize_val(a3) == a3);
                    }
                    crate::quaternion::lemma_qnormsq_pos(a3);
                }
                renormalized
            }
        }
    }

    /// Update the camera position and attitude in world space.
    #[verifier::rlimit(100)]
    pub fn update(&mut self, delta_position: Vector3, delta_attitude: CameraAttitude)
        requires
            camera_wf(*old(self)),
        ensures
            camera_wf(*final(self)),
            *final(self) == update_val(*old(self), delta_position, delta_attitude),
    {
        let axis2 = self.advance_axis(delta_attitude);
        let f = frame(&axis2);
        proof {
            assert(qbounded(axis2, SCALE as int));
        }
        let pos2 = translate_in_frame(&self.position, &f.0, &f.1, &f.2, &axis2, &delta_position);
        let trans2 = inv_translation_mat(&pos2);
        let rot2 = view_rot_mat(&axis2);
        let view2 = mat_mul(&rot2, &trans2);
        self.axis = axis2;
        self.forward = f.0;
        self.right = f.1;
        self.up = f.2;
        self.position = pos2;
        self.trans_mat = trans2;
        self.rot_mat = rot2;
        self.view_mat = view2;
        proof {
            let target = update_val(*old(self), delta_position, delta_attitude);
            assert(axis2 == axis_after(*old(self), delta_attitude));
            assert(pos2 =~= target.position);
            assert(f.0 =~= target.forward);
            assert(f.1 =~= target.right);
            assert(f.2 =~= target.up);
            assert(*self =~= target);
        }
    }

    /// Update the camera position and attitude from the input camera
    /// movements.  All movements are expressed in the camera's own
    /// coordinate system; opposite commands cancel exactly.
    #[verifier::rlimit(100)]
    pub fn update_movement(&mut self, movement: CameraMovement, elapsed_seconds: i64)
        requires
            camera_wf(*old(self)),
        ensures
            camera_wf(*final(self)),
            *final(self) == movement_step(*old(self), movement, elapsed_seconds as int),
    {
        let v = mul_fp(self.movement_speed, elapsed_seconds);
        let w = mul_fp(self.rotation_speed, elapsed_seconds);
        let mut dx: i64 = 0;
        let mut dy: i64 = 0;
        let mut dz: i64 = 0;
        if movement.total & MOVE_LEFT != 0 {
            dx = dx - v;
        }
        if movement.total & MOVE_RIGHT != 0 {
            dx = dx + v;
        }
        if movement.total & MOVE_UP != 0 {
            dy = dy - v;
        }
        if movement.total & MOVE_DOWN != 0 {
            dy = dy + v;
        }
        if movement.total & MOVE_FORWARD != 0 {
            dz = dz - v;
        }
        if movement.total & MOVE_BACKWARD != 0 {
            dz = dz + v;
        }
        let mut roll: i64 = 0;
        let mut pitch: i64 = 0;
        let mut yaw: i64 = 0;
        if movement.total & PITCH_UP != 0 {
            pitch = pitch + w;
        }
        if movement.total & PITCH_DOWN != 0 {
            pitch = pitch - w;
        }
        if movement.total & YAW_LEFT != 0 {
            yaw = yaw + w;
        }
        if movement.total & YAW_RIGHT != 0 {
            yaw = yaw - w;
        }
        if movement.total & ROLL_CLOCKWISE != 0 {
            roll = roll + w;
        }
        if movement.total & ROLL_COUNTERCLOCKWISE != 0 {
            roll = roll - w;
        }
        let delta_position = Vector3 { x: dx, y: dy, z: dz };
        let delta_attitude = CameraAttitude { roll, pitch, yaw };
        proof {
            let dp = delta_position_of(movement, v as int);
            assert(delta_position =~= (Vector3 { x: dp.0 as i64, y: dp.1 as i64, z: dp.2 as i64 }));
            assert(delta_attitude =~= delta_attitude_of(movement, w as int));
        }
        self.update(delta_position, delta_attitude);
    }

    /// Update the camera viewport dimensions in case the viewport
    /// dimensions have changed.  Resizing to the same dimensions twice
    /// leaves the camera unchanged the second time.
    pub fn update_viewport(&mut self, width: u32, height: u32)
        requires
            camera_wf(*old(self)),
            1 <= height,
        ensures
            camera_wf(*final(self)),
            *final(self) == viewport_step(*old(self), width, height),
    {
        proof {
            lemma_tdiv_mag(
                (width as int) * (SCALE as int),
                height as int,
                (0x1_0000_0000 * 0x1_0000) as int,
            );
        }
        let aspect2 = tdiv_i128((width as i128) * (SCALE as i128), height as i128) as i64;
        let proj2 = perspective_mat(self.near, self.far, self.fovy, aspect2);
        self.aspect = aspect2;
        self.proj_mat = proj2;
        proof {
            assert(*self =~= viewport_step(*old(self), width, height));
        }
    }
}

/// A kinematic update with zero translation and zero attitude leaves the
/// camera exactly unchanged: position, orientation, frame and all four
/// matrices.
pub proof fn lemma_update_identity(c: Camera, dp: Vector3, att: CameraAttitude)
    requires
        camera_wf(c),
        dp.x == 0 && dp.y == 0 && dp.z == 0,
        attitude_zero(att),
    ensures
        update_val(c, dp, att) == c,
{
    let axis2 = axis_after(c, att);
    assert(axis2 == c.axis);
    let n = qnormsq(c.axis);
    let fwd = forward_of(c.axis);
    let rgt = right_of(c.axis);
    let upd = up_of(c.axis);
    assert(fwd.0 * -(dp.z as int) == 0 && fwd.1 * -(dp.z as int) == 0 && fwd.2 * -(dp.z as int)
        == 0) by (nonlinear_arith)
        requires
            dp.z == 0,
    ;
    assert(upd.0 * (dp.y as int) == 0 && upd.1 * (dp.y as int) == 0 && upd.2 * (dp.y as int) == 0)
        by (nonlinear_arith)
        requires
            dp.y == 0,
    ;
    assert(rgt.0 * (dp.x as int) == 0 && rgt.1 * (dp.x as int) == 0 && rgt.2 * (dp.x as int) == 0)
        by (nonlinear_arith)
        requires
            dp.x == 0,
    ;
    assert(tdiv(0, n) == 0) by {
        vstd::arithmetic::div_mod::lemma_div_of0(n);
    }
    assert(position_after(c, axis2, dp) =~= c.position);
    assert(update_val(c, dp, att).forward =~= c.forward);
    assert(update_val(c, dp, att).right =~= c.right);
    assert(update_val(c, dp, att).up =~= c.up);
    assert(update_val(c, dp, att) =~= c);
}

/// The camera's forward, right and up directions are mutually orthogonal,
/// and all three have the same squared length, exactly: the squared norm of
/// the orientation quaternion, squared.  That common scale factor never
/// decays below `UNIT_NORMSQ_MIN` — about six parts in a hundred thousand
/// under a squared unit — however many updates have run, so the directions
/// cannot drift toward zero.
pub proof fn lemma_camera_frame_orthogonal(c: Camera)
    requires
        camera_wf(c),
    ensures
        dot3(v4xyz(c.forward), v4xyz(c.right)) == 0,
        dot3(v4xyz(c.forward), v4xyz(c.up)) == 0,
        dot3(v4xyz(c.right), v4xyz(c.up)) == 0,
        normsq3(v4xyz(c.forward)) == qnormsq(c.axis) * qnormsq(c.axis),
        normsq3(v4xyz(c.right)) == qnormsq(c.axis) * qnormsq(c.axis),
        normsq3(v4xyz(c.up)) == qnormsq(c.axis) * qnormsq(c.axis),
        UNIT_NORMSQ_MIN as int <= qnormsq(c.axis) <= 4 * (SCALE as int) * (SCALE as int),
{
    lemma_frame_orthogonal(c.axis);
    let qx = c.axis.x as int;
    let qy = c.axis.y as int;
    let qz = c.axis.z as int;
    let qw = c.axis.w as int;
    assert(qx * qx <= 65536 * 65536) by (nonlinear_arith)
        requires
            -65536 <= qx <= 65536,
    ;
    assert(qy * qy <= 65536 * 65536) by (nonlinear_arith)
        requires
            -65536 <= qy <= 65536,
    ;
    assert(qz * qz <= 65536 * 65536) by (nonlinear_arith)
        requires
            -65536 <= qz <= 65536,
    ;
    assert(qw * qw <= 65536 * 65536) by (nonlinear_arith)
        requires
            -65536 <= qw <= 65536,
    ;
}

/// The view matrix is always exactly the product of the rotation and
/// translation matrices.
pub proof fn lemma_view_is_rot_times_trans(c: Camera)
    requires
        camera_wf(c),
    ensures
        c.view_mat == mat_mul_val(c.rot_mat, c.trans_mat),
{
}

/// Opposite movement commands cancel arithmetically: a mask holding both
/// commands of an opposing pair contributes no net translation on that
/// axis.
pub proof fn lemma_opposing_moves_cancel(m: CameraMovement, v: int)
    ensures
        m.total & MOVE_LEFT != 0 && m.total & MOVE_RIGHT != 0 ==> delta_position_of(m, v).0 == 0,
        m.total & MOVE_UP != 0 && m.total & MOVE_DOWN != 0 ==> delta_position_of(m, v).1 == 0,
        m.total & MOVE_FORWARD != 0 && m.total & MOVE_BACKWARD != 0 ==> delta_position_of(
            m,
            v,
        ).2 == 0,
{
}

/// A frame commanding both left and right movement, and nothing else,
/// leaves the whole camera unchanged.
pub proof fn lemma_opposing_mask_is_identity(c: Camera, m: CameraMovement, elapsed: int)
    requires
        camera_wf(c),
        m.total == MOVE_LEFT | MOVE_RIGHT,
    ensures
        movement_step(c, m, elapsed) == c,
{
    let t = m.total;
    assert(t == 3) by (bit_vector)
        requires
            t == 1u16 | 2u16,
    ;
    assert(3u16 & 1u16 != 0 && 3u16 & 2u16 != 0 && 3u16 & 4u16 == 0 && 3u16 & 8u16 == 0 && 3u16
        & 16u16 == 0 && 3u16 & 32u16 == 0 && 3u16 & 64u16 == 0 && 3u16 & 128u16 == 0 && 3u16
        & 256u16 == 0 && 3u16 & 512u16 == 0 && 3u16 & 1024u16 == 0 && 3u16 & 2048u16 == 0)
        by (bit_vector);
    let v = sat(tdiv(c.movement_speed * elapsed, SCALE as int));
    let w = sat(tdiv(c.rotation_speed * elapsed, SCALE as int));
    let dp = delta_position_of(m, v);
    assert(dp.0 == 0 && dp.1 == 0 && dp.2 == 0);
    assert(attitude_zero(delta_attitude_of(m, w)));
    lemma_update_identity(
        c,
        Vector3 { x: dp.0 as i64, y: dp.1 as i64, z: dp.2 as i64 },
        delta_attitude_of(m, w),
    );
}

/// Resizing the viewport twice to the same dimensions is idempotent: the
/// second resize changes nothing, in particular the projection matrix.
pub proof fn lemma_viewport_idempotent(c: Camera, width: u32, height: u32)
    requires
        camera_wf(c),
        1 <= height,
    ensures
        viewport_step(viewport_step(c, width, height), width, height) == viewport_step(
            c,
            width,
            height,
        ),
{
    assert(viewport_step(viewport_step(c, width, height), width, height) =~= viewport_step(
        c,
        width,
        height,
    ));
}

} // verus!
