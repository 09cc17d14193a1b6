use freelook::camera::{
    Camera, CameraAttitude, CameraKinematics, CameraMovement, CameraSpecification,
    SimpleCameraMovement,
};
use freelook::quaternion::Quaternion;
use freelook::vector::{Vector3, Vector4};

const S: i64 = 65536;

fn demo_camera() -> Camera {
    let spec = CameraSpecification::new(6554, 100 * S, 67 * S, 800 * S / 600);
    let kinematics = CameraKinematics::new(
        5 * S,
        50 * S,
        Vector3::new(0, 0, 3 * S),
        Vector4::new(0, 0, S, 0),
        Vector4::new(S, 0, 0, 0),
        Vector4::new(0, S, 0, 0),
        Quaternion::new(0, 0, 0, -S),
    );
    Camera::new(spec, kinematics)
}

fn dot3(a: (i64, i64, i64), b: (i64, i64, i64)) -> i128 {
    a.0 as i128 * b.0 as i128 + a.1 as i128 * b.1 as i128 + a.2 as i128 * b.2 as i128
}

fn normsq3(a: (i64, i64, i64)) -> i128 {
    dot3(a, a)
}

fn fwd(c: &Camera) -> (i64, i64, i64) {
    (c.forward.x, c.forward.y, c.forward.z)
}

fn rgt(c: &Camera) -> (i64, i64, i64) {
    (c.right.x, c.right.y, c.right.z)
}

fn upv(c: &Camera) -> (i64, i64, i64) {
    (c.up.x, c.up.y, c.up.z)
}

#[test]
fn movement_mask_accumulates() {
    let m = CameraMovement::new();
    assert_eq!(m.total, 0);
    let m = m.add_movement(SimpleCameraMovement::MoveLeft);
    assert_eq!(m.total, 1);
    let m = m.add_movement(SimpleCameraMovement::MoveRight);
    assert_eq!(m.total, 3);
    let m = m.add_movement(SimpleCameraMovement::MoveLeft);
    assert_eq!(m.total, 3);
    let m = m.add_movement(SimpleCameraMovement::NoMovement);
    assert_eq!(m.total, 3);
    let m = m.add_movement(SimpleCameraMovement::RollCounterClockwise);
    assert_eq!(m.total, 3 | 2048);
}

#[test]
fn movement_mask_subtract_removes() {
    let m = CameraMovement::new()
        .add_movement(SimpleCameraMovement::MoveUp)
        .add_movement(SimpleCameraMovement::YawLeft);
    assert_eq!(m.total, 4 | 256);
    let m = m.subtract_movement(SimpleCameraMovement::MoveUp);
    assert_eq!(m.total, 256);
    // Subtracting an absent movement changes nothing.
    let m = m.subtract_movement(SimpleCameraMovement::MoveUp);
    assert_eq!(m.total, 256);
    let m = m.subtract_movement(SimpleCameraMovement::YawLeft);
    assert_eq!(m.total, 0);
}

#[test]
fn camera_construction_state() {
    let c = demo_camera();
    assert_eq!(c.near, 6554);
    assert_eq!(c.far, 100 * S);
    assert_eq!(c.fovy, 67 * S);
    assert_eq!(c.aspect, 87381);
    assert_eq!(c.position(), Vector3::new(0, 0, 3 * S));
    let a = c.axis();
    assert_eq!((a.x, a.y, a.z, a.w), (0, 0, 0, -S));
    // With the identity-like orientation the frame is axis-aligned, scaled
    // by the squared quaternion norm.
    let n2 = (S as i128 * S as i128) as i64;
    assert_eq!(fwd(&c), (0, 0, -n2));
    assert_eq!(rgt(&c), (n2, 0, 0));
    assert_eq!(upv(&c), (0, n2, 0));
}

#[test]
fn eye_space_axes_are_fixed() {
    let c = demo_camera();
    assert_eq!(c.up_axis_eye(), Vector3::new(0, S, 0));
    assert_eq!(c.right_axis_eye(), Vector3::new(S, 0, 0));
    assert_eq!(c.forward_axis_eye(), Vector3::new(0, 0, -S));
}

#[test]
fn forward_step_moves_along_forward_axis() {
    // A unit step along the camera's forward axis from the canonical start
    // lowers z by exactly one unit and leaves the orientation untouched.
    let mut c = demo_camera();
    c.update(Vector3::new(0, 0, -S), CameraAttitude::new(0, 0, 0));
    assert_eq!(c.position(), Vector3::new(0, 0, 2 * S));
    let a = c.axis();
    assert_eq!((a.x, a.y, a.z, a.w), (0, 0, 0, -S));
}

#[test]
fn zero_update_is_identity() {
    let mut c = demo_camera();
    // Put the camera in a non-trivial pose first.
    c.update(Vector3::new(S / 4, -S / 8, S / 2), CameraAttitude::new(3 * S, -2 * S, 5 * S));
    let before = c;
    c.update(Vector3::new(0, 0, 0), CameraAttitude::new(0, 0, 0));
    assert_eq!(c.position(), before.position());
    let (a, b) = (c.axis(), before.axis());
    assert_eq!((a.x, a.y, a.z, a.w), (b.x, b.y, b.z, b.w));
    assert_eq!(fwd(&c), fwd(&before));
    assert_eq!(rgt(&c), rgt(&before));
    assert_eq!(upv(&c), upv(&before));
    assert_eq!(c.view_mat, before.view_mat);
    assert_eq!(c.rot_mat, before.rot_mat);
    assert_eq!(c.trans_mat, before.trans_mat);
    assert_eq!(c.proj_mat, before.proj_mat);
}

#[test]
fn opposing_movements_cancel() {
    let mut c = demo_camera();
    let m = CameraMovement::new()
        .add_movement(SimpleCameraMovement::MoveLeft)
        .add_movement(SimpleCameraMovement::MoveRight);
    c.update_movement(m, 655);
    assert_eq!(c.position(), Vector3::new(0, 0, 3 * S));
    let a = c.axis();
    assert_eq!((a.x, a.y, a.z, a.w), (0, 0, 0, -S));
}

#[test]
fn opposing_updown_cancels_but_forward_moves() {
    let mut c = demo_camera();
    let m = CameraMovement::new()
        .add_movement(SimpleCameraMovement::MoveUp)
        .add_movement(SimpleCameraMovement::MoveDown)
        .add_movement(SimpleCameraMovement::MoveForward);
    // One full second at five units per second, facing down negative z.
    c.update_movement(m, S);
    let p = c.position();
    assert_eq!((p.x, p.y), (0, 0));
    assert_eq!(p.z, 3 * S - 5 * S);
}

#[test]
fn frame_stays_orthogonal_under_rotation() {
    // The heart of the drift-freedom claim: after thousands of small
    // incremental rotations, the three frame vectors are still exactly
    // mutually orthogonal, and all three have exactly the same squared
    // length.
    let mut c = demo_camera();
    let m = CameraMovement::new()
        .add_movement(SimpleCameraMovement::YawLeft)
        .add_movement(SimpleCameraMovement::PitchUp);
    for i in 0..10_000u32 {
        let dt = 328 + (i % 7) as i64;
        c.update_movement(m, dt);
        let (f, r, u) = (fwd(&c), rgt(&c), upv(&c));
        assert_eq!(dot3(f, r), 0);
        assert_eq!(dot3(f, u), 0);
        assert_eq!(dot3(r, u), 0);
        let nf = normsq3(f);
        assert_eq!(nf, normsq3(r));
        assert_eq!(nf, normsq3(u));
        // In real terms the directions stay unit length to well within
        // a part in ten thousand.
        let a = c.axis();
        let n = a.x as i128 * a.x as i128 + a.y as i128 * a.y as i128 + a.z as i128 * a.z as i128
            + a.w as i128 * a.w as i128;
        let len = (nf as f64).sqrt() / n as f64;
        assert!((len - 1.0).abs() < 1e-4, "frame length drifted: {}", len);
    }
}

#[test]
fn view_matrix_is_rotation_times_translation() {
    let mut c = demo_camera();
    let m = CameraMovement::new()
        .add_movement(SimpleCameraMovement::YawRight)
        .add_movement(SimpleCameraMovement::MoveForward);
    for _ in 0..100 {
        c.update_movement(m, 655);
        let product = freelook::matrix::mat_mul(&c.rot_mat, &c.trans_mat);
        assert_eq!(c.view_mat, product);
    }
}

#[test]
fn viewport_resize_is_idempotent() {
    let mut c = demo_camera();
    c.update_viewport(1024, 768);
    assert_eq!(c.aspect, 1024 * S / 768);
    let first = c;
    c.update_viewport(1024, 768);
    assert_eq!(c.proj_mat, first.proj_mat);
    assert_eq!(c.aspect, first.aspect);
    assert_eq!(c.position(), first.position());
}

#[test]
fn projection_matrix_entries() {
    let c = demo_camera();
    // Plain-float cross-check of the fixed-point frustum: near 0.1,
    // far 100, fovy 67 degrees, aspect 800/600.
    let f = 1.0 / (67.0f64.to_radians() / 2.0).tan();
    let e00 = c.proj_mat.c0.x as f64 / S as f64;
    let e11 = c.proj_mat.c1.y as f64 / S as f64;
    let e22 = c.proj_mat.c2.z as f64 / S as f64;
    let e32 = c.proj_mat.c3.z as f64 / S as f64;
    let near = 6554.0 / S as f64;
    let far = 100.0;
    assert!((e11 - f).abs() < 0.01, "e11 = {}", e11);
    assert!((e00 - f / (800.0 / 600.0)).abs() < 0.01, "e00 = {}", e00);
    assert!((e22 - (far + near) / (near - far)).abs() < 0.001, "e22 = {}", e22);
    assert!((e32 - 2.0 * far * near / (near - far)).abs() < 0.001, "e32 = {}", e32);
    assert_eq!(c.proj_mat.c2.w, -S);
    assert_eq!(c.proj_mat.c3.w, 0);
}

#[test]
fn position_saturates_at_world_limit() {
    // An absurdly large step clamps the position at the representable
    // world bound instead of wrapping.
    let mut c = demo_camera();
    c.update(Vector3::new(0, 0, i64::MIN), CameraAttitude::new(0, 0, 0));
    assert_eq!(c.position().z, -0x4000_0000_0000_0000);
    // The camera is still usable afterwards: an idle frame changes nothing.
    let before = c.position();
    c.update(Vector3::new(0, 0, 0), CameraAttitude::new(0, 0, 0));
    assert_eq!(c.position(), before);
}

#[test]
fn degenerate_viewport_is_harmless() {
    // A zero-width surface yields a zero aspect ratio; the projection
    // construction guards its divisors, so nothing panics.
    let mut c = demo_camera();
    c.update_viewport(0, 1);
    assert_eq!(c.aspect, 0);
    assert_eq!(c.proj_mat.c2.w, -S);
}

#[test]
fn yaw_quarter_turn_faces_right() {
    // Yawing ninety degrees to the left swings the forward axis from
    // negative z towards negative x.
    let mut c = demo_camera();
    c.update(Vector3::new(0, 0, 0), CameraAttitude::new(0, 0, 90 * S));
    let (fx, _, fz) = fwd(&c);
    let n = normsq3(fwd(&c));
    let fx_unit = fx as f64 / (n as f64).sqrt();
    let fz_unit = fz as f64 / (n as f64).sqrt();
    assert!((fx_unit.abs() - 1.0).abs() < 0.01, "fx = {}", fx_unit);
    assert!(fz_unit.abs() < 0.01, "fz = {}", fz_unit);
}
