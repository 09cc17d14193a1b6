use freelook::fixed::{emod_i128, isqrt_u128, mul_fp, sat_i128, tdiv_i128};
use freelook::quaternion::{quat_mul, quat_normalize, Quaternion};
use freelook::trig::sin_cos_deg;
use freelook::vector::{sub3_sat, unit3_exec, Vector3};

const S: i64 = 65536;

#[test]
fn truncating_division_rounds_toward_zero() {
    assert_eq!(tdiv_i128(7, 2), 3);
    assert_eq!(tdiv_i128(-7, 2), -3);
    assert_eq!(tdiv_i128(6, 3), 2);
    assert_eq!(tdiv_i128(-6, 3), -2);
    assert_eq!(tdiv_i128(1, 100), 0);
    assert_eq!(tdiv_i128(-1, 100), 0);
}

#[test]
fn saturation_clamps_extremes() {
    let lim: i64 = 0x4000_0000_0000_0000;
    assert_eq!(sat_i128(5), 5);
    assert_eq!(sat_i128(i128::from(i64::MAX) * 2), lim);
    assert_eq!(sat_i128(i128::from(i64::MIN) * 2), -lim);
}

#[test]
fn fixed_point_product() {
    assert_eq!(mul_fp(S, S), S);
    assert_eq!(mul_fp(2 * S, 3 * S), 6 * S);
    assert_eq!(mul_fp(S / 2, S / 2), S / 4);
    assert_eq!(mul_fp(-S, 5 * S), -5 * S);
    assert_eq!(mul_fp(0, 12345), 0);
}

#[test]
fn integer_square_root_brackets() {
    assert_eq!(isqrt_u128(0), 0);
    assert_eq!(isqrt_u128(1), 1);
    assert_eq!(isqrt_u128(3), 1);
    assert_eq!(isqrt_u128(4), 2);
    assert_eq!(isqrt_u128(99), 9);
    assert_eq!(isqrt_u128(100), 10);
    assert_eq!(isqrt_u128(u128::from(u64::MAX)), 4294967295);
}

#[test]
fn euclidean_remainder_is_nonnegative() {
    assert_eq!(emod_i128(7, 3), 1);
    assert_eq!(emod_i128(-7, 3), 2);
    assert_eq!(emod_i128(-6, 3), 0);
    assert_eq!(emod_i128(0, 5), 0);
}

#[test]
fn sine_cosine_special_angles() {
    assert_eq!(sin_cos_deg(0), (0, S));
    assert_eq!(sin_cos_deg(90 * S), (S, 0));
    assert_eq!(sin_cos_deg(180 * S), (0, -S));
    assert_eq!(sin_cos_deg(-90 * S), (-S, 0));
    assert_eq!(sin_cos_deg(360 * S), (0, S));
}

#[test]
fn sine_cosine_thirty_degrees() {
    let (s, c) = sin_cos_deg(30 * S);
    assert!((s - 32768).abs() <= 16, "sin 30 = {}", s);
    assert!((c - 56756).abs() <= 16, "cos 30 = {}", c);
}

#[test]
fn sine_cosine_stay_on_unit_circle() {
    for deg in -720..=720 {
        let (s, c) = sin_cos_deg(deg as i64 * S / 2);
        let r = ((s as f64).powi(2) + (c as f64).powi(2)).sqrt() / S as f64;
        assert!((r - 1.0).abs() < 1e-3, "unit circle at {}: {}", deg, r);
    }
}

#[test]
fn quaternion_product_identity() {
    let identity = Quaternion::new(0, 0, 0, S);
    let q = Quaternion::new(123, -456, 789, -S);
    let p = quat_mul(&identity, &q);
    assert_eq!((p.x, p.y, p.z, p.w), (q.x, q.y, q.z, q.w));
    let p = quat_mul(&q, &identity);
    assert_eq!((p.x, p.y, p.z, p.w), (q.x, q.y, q.z, q.w));
}

#[test]
fn quaternion_normalization() {
    let q = Quaternion::new(0, 0, 0, -3 * S);
    let n = quat_normalize(&q);
    assert_eq!((n.x, n.y, n.z, n.w), (0, 0, 0, -S));
    let q = Quaternion::new(3 * S, 4 * S, 0, 0);
    let n = quat_normalize(&q);
    assert_eq!((n.x, n.y, n.z, n.w), (3 * S / 5, 4 * S / 5, 0, 0));
    // The zero quaternion is left untouched.
    let q = Quaternion::new(0, 0, 0, 0);
    let n = quat_normalize(&q);
    assert_eq!((n.x, n.y, n.z, n.w), (0, 0, 0, 0));
}

#[test]
fn vector_difference_and_unit() {
    let a = Vector3::new(5 * S, 0, 0);
    let b = Vector3::new(2 * S, 0, 0);
    let d = sub3_sat(&a, &b);
    assert_eq!(d, Vector3::new(3 * S, 0, 0));
    let u = unit3_exec(&d);
    assert_eq!(u, Vector3::new(S, 0, 0));
    let diag = Vector3::new(S, S, S);
    let u = unit3_exec(&diag);
    let len = ((u.x as f64).powi(2) + (u.y as f64).powi(2) + (u.z as f64).powi(2)).sqrt()
        / S as f64;
    assert!((len - 1.0).abs() < 1e-4, "unit length {}", len);
    // The zero vector normalizes to itself.
    let z = unit3_exec(&Vector3::zero());
    assert_eq!(z, Vector3::zero());
}
