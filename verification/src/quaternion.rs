//! Orientation quaternions over Q47.16 components, their Hamilton product,
//! normalization, and the orthogonal frame a quaternion induces.
//!
//! A quaternion here need not be exactly unit: the frame columns carry an
//! overall factor of the squared norm, which every consumer divides out.
//! That makes the mutual orthogonality of the frame an exact polynomial
//! identity over the integers rather than an approximate property.

use crate::fixed::{
    lemma_mul_bounds, lemma_sqrt_floor_ge, lemma_tdiv_mag, lemma_tdiv_scale_le, sat, sat_i128,
    sqrt_floor, tdiv, tdiv_i128, SAT_LIMIT, SCALE,
};
use crate::vector::{bounded3, dot3, neg3, normsq3, v3, v4xyz, Vector3, Vector4};
use vstd::arithmetic::div_mod::{
    lemma_div_is_ordered, lemma_div_multiples_vanish, lemma_div_pos_is_pos,
    lemma_fundamental_div_mod, lemma_mod_division_less_than_divisor,
};
use vstd::prelude::*;

verus! {

/// An orientation quaternion; `w` is the scalar part.
#[derive(Clone, Copy, Debug, PartialEq, Eq, Structural)]
#[verifier::ext_equal]
pub struct Quaternion {
    pub x: i64,
    pub y: i64,
    pub z: i64,
    pub w: i64,
}

/// The squared norm of a quaternion.
pub open spec fn qnormsq(q: Quaternion) -> int {
    (q.x as int) * (q.x as int) + (q.y as int) * (q.y as int) + (q.z as int) * (q.z as int) + (
    q.w as int) * (q.w as int)
}

/// All four components within `[-b, b]`.
pub open spec fn qbounded(q: Quaternion, b: int) -> bool {
    &&& -b <= q.x as int <= b
    &&& -b <= q.y as int <= b
    &&& -b <= q.z as int <= b
    &&& -b <= q.w as int <= b
}

impl Quaternion {
    /// Construct a quaternion from its vector and scalar components.
    pub fn new(x: i64, y: i64, z: i64, w: i64) -> (r: Quaternion)
        ensures
            r == (Quaternion { x, y, z, w }),
    {
        Quaternion { x, y, z, w }
    }
}

/// The Hamilton product of two quaternions, rescaled by one factor of
/// `SCALE` and saturated into the storable range.
pub open spec fn quat_mul_val(a: Quaternion, b: Quaternion) -> Quaternion {
    let ax = a.x as int;
    let ay = a.y as int;
    let az = a.z as int;
    let aw = a.w as int;
    let bx = b.x as int;
    let by = b.y as int;
    let bz = b.z as int;
    let bw = b.w as int;
    Quaternion {
        x: sat(tdiv(aw * bx + ax * bw + ay * bz - az * by, SCALE as int)) as i64,
        y: sat(tdiv(aw * by - ax * bz + ay * bw + az * bx, SCALE as int)) as i64,
        z: sat(tdiv(aw * bz + ax * by - ay * bx + az * bw, SCALE as int)) as i64,
        w: sat(tdiv(aw * bw - ax * bx - ay * by - az * bz, SCALE as int)) as i64,
    }
}

/// The Hamilton product `a * b` in Q.16.
pub fn quat_mul(a: &Quaternion, b: &Quaternion) -> (r: Quaternion)
    requires
        qbounded(*a, SAT_LIMIT as int),
        qbounded(*b, SAT_LIMIT as int),
    ensures
        r == quat_mul_val(*a, *b),
        qbounded(r, SAT_LIMIT as int),
{
    proof {
        let bound = SAT_LIMIT as int;
        lemma_mul_bounds(a.w as int, b.x as int, bound, bound);
        lemma_mul_bounds(a.x as int, b.w as int, bound, bound);
        lemma_mul_bounds(a.y as int, b.z as int, bound, bound);
        lemma_mul_bounds(a.z as int, b.y as int, bound, bound);
        lemma_mul_bounds(a.w as int, b.y as int, bound, bound);
        lemma_mul_bounds(a.x as int, b.z as int, bound, bound);
        lemma_mul_bounds(a.y as int, b.w as int, bound, bound);
        lemma_mul_bounds(a.z as int, b.x as int, bound, bound);
        lemma_mul_bounds(a.w as int, b.z as int, bound, bound);
        lemma_mul_bounds(a.x as int, b.y as int, bound, bound);
        lemma_mul_bounds(a.y as int, b.x as int, bound, bound);
        lemma_mul_bounds(a.z as int, b.w as int, bound, bound);
        lemma_mul_bounds(a.w as int, b.w as int, bound, bound);
        lemma_mul_bounds(a.x as int, b.x as int, bound, bound);
        lemma_mul_bounds(a.y as int, b.y as int, bound, bound);
        lemma_mul_bounds(a.z as int, b.z as int, bound, bound);
    }
    let ax = a.x as i128;
    let ay = a.y as i128;
    let az = a.z as i128;
    let aw = a.w as i128;
    let bx = b.x as i128;
    let by = b.y as i128;
    let bz = b.z as i128;
    let bw = b.w as i128;
    let sx: i128 = aw * bx + ax * bw + ay * bz - az * by;
    let sy: i128 = aw * by - ax * bz + ay * bw + az * bx;
    let sz: i128 = aw * bz + ax * by - ay * bx + az * bw;
    let sw: i128 = aw * bw - ax * bx - ay * by - az * bz;
    Quaternion {
        x: sat_i128(tdiv_i128(sx, SCALE as i128)),
        y: sat_i128(tdiv_i128(sy, SCALE as i128)),
        z: sat_i128(tdiv_i128(sz, SCALE as i128)),
        w: sat_i128(tdiv_i128(sw, SCALE as i128)),
    }
}

/// The quaternion rescaled to (approximately) unit length in Q.16; the zero
/// quaternion is left unchanged.
pub open spec fn quat_normalize_val(q: Quaternion) -> Quaternion {
    let n = sqrt_floor(qnormsq(q) as nat) as int;
    if n == 0 {
        q
    } else {
        Quaternion {
            x: tdiv((q.x as int) * (SCALE as int), n) as i64,
            y: tdiv((q.y as int) * (SCALE as int), n) as i64,
            z: tdiv((q.z as int) * (SCALE as int), n) as i64,
            w: tdiv((q.w as int) * (SCALE as int), n) as i64,
        }
    }
}

/// A quaternion with any nonzero component has squared norm at least one.
pub proof fn lemma_qnormsq_pos(q: Quaternion)
    requires
        !(q.x == 0 && q.y == 0 && q.z == 0 && q.w == 0),
    ensures
        qnormsq(q) >= 1,
{
    let qx = q.x as int;
    let qy = q.y as int;
    let qz = q.z as int;
    let qw = q.w as int;
    assert(0 <= qx * qx && 0 <= qy * qy && 0 <= qz * qz && 0 <= qw * qw) by (nonlinear_arith);
    assert(qx != 0 ==> qx * qx >= 1) by (nonlinear_arith);
    assert(qy != 0 ==> qy * qy >= 1) by (nonlinear_arith);
    assert(qz != 0 ==> qz * qz >= 1) by (nonlinear_arith);
    assert(qw != 0 ==> qw * qw >= 1) by (nonlinear_arith);
}

/// The squared norm of the orientation stays above this bound after every
/// renormalization of a nonzero quaternion: `SCALE * SCALE - 8 * SCALE`,
/// within one part in eight thousand of a squared unit.
pub const UNIT_NORMSQ_MIN: i64 = 4294443008;

/// One rescaled component, bracketed: with `0 <= a <= n`, the floor of
/// `a * SCALE / n` squares to within one truncation step of the exact
/// rational square.
proof fn lemma_comp_sq_bounds(a: int, n: int)
    requires
        0 <= a <= n,
        1 <= n,
    ensures
        ({
            let t = (a * 65536) / n;
            &&& 0 <= t <= 65536
            &&& n * n * (t * t) >= (a * a) * (65536 * 65536) - (2 * 65536 * (n - 1)) * a
            &&& n * n * (t * t) <= (a * a) * (65536 * 65536)
        }),
{
    let t = (a * 65536) / n;
    let r = (a * 65536) % n;
    lemma_fundamental_div_mod(a * 65536, n);
    lemma_mod_division_less_than_divisor(a * 65536, n);
    lemma_div_pos_is_pos(a * 65536, n);
    assert(a * 65536 <= n * 65536) by (nonlinear_arith)
        requires
            a <= n,
    ;
    lemma_div_is_ordered(a * 65536, n * 65536, n);
    lemma_div_multiples_vanish(65536, n);
    assert(n * t >= 0) by (nonlinear_arith)
        requires
            t >= 0,
            n >= 1,
    ;
    assert(n * n * (t * t) == (a * 65536 - r) * (a * 65536 - r)) by (nonlinear_arith)
        requires
            a * 65536 == n * t + r,
    ;
    assert((a * 65536 - r) * (a * 65536 - r) >= (a * a) * (65536 * 65536) - (2 * 65536 * (n - 1))
        * a) by (nonlinear_arith)
        requires
            0 <= a,
            0 <= r <= n - 1,
    ;
    assert((a * 65536 - r) * (a * 65536 - r) <= (a * a) * (65536 * 65536)) by (nonlinear_arith)
        requires
            0 <= r,
            0 <= a * 65536 - r,
    ;
}

/// Renormalization is tight: the renormalized quaternion's squared norm
/// never falls below `SCALE^2 - 8 * SCALE` (so the orientation stays unit
/// to within about six parts in a hundred thousand from below), and, when
/// the quaternion being normalized holds at least half a unit of norm, it
/// never rises above `SCALE^2 + 4 * SCALE + 5` either.
pub proof fn lemma_normalize_norm_tight(q: Quaternion)
    requires
        qbounded(q, SAT_LIMIT as int),
        qnormsq(q) >= 1,
    ensures
        qnormsq(quat_normalize_val(q)) >= UNIT_NORMSQ_MIN as int,
        qnormsq(q) >= 1073872900 ==> qnormsq(quat_normalize_val(q)) <= 65536 * 65536 + 4 * 65536
            + 5,
{
    let qx = q.x as int;
    let qy = q.y as int;
    let qz = q.z as int;
    let qw = q.w as int;
    let sq = qnormsq(q);
    let n = sqrt_floor(sq as nat) as int;
    crate::fixed::lemma_sqrt_floor_bounds(sq as nat);
    lemma_sqrt_floor_ge(1, sq as nat);
    let ax = if qx >= 0 {
        qx
    } else {
        -qx
    };
    let ay = if qy >= 0 {
        qy
    } else {
        -qy
    };
    let az = if qz >= 0 {
        qz
    } else {
        -qz
    };
    let aw = if qw >= 0 {
        qw
    } else {
        -qw
    };
    assert((-qx) * (-qx) == qx * qx) by (nonlinear_arith);
    assert((-qy) * (-qy) == qy * qy) by (nonlinear_arith);
    assert((-qz) * (-qz) == qz * qz) by (nonlinear_arith);
    assert((-qw) * (-qw) == qw * qw) by (nonlinear_arith);
    assert(0 <= qx * qx && 0 <= qy * qy && 0 <= qz * qz && 0 <= qw * qw) by (nonlinear_arith);
    lemma_sqrt_floor_ge(ax, sq as nat);
    lemma_sqrt_floor_ge(ay, sq as nat);
    lemma_sqrt_floor_ge(az, sq as nat);
    lemma_sqrt_floor_ge(aw, sq as nat);
    lemma_comp_sq_bounds(ax, n);
    lemma_comp_sq_bounds(ay, n);
    lemma_comp_sq_bounds(az, n);
    lemma_comp_sq_bounds(aw, n);
    let tx = (ax * 65536) / n;
    let ty = (ay * 65536) / n;
    let tz = (az * 65536) / n;
    let tw = (aw * 65536) / n;
    let r = quat_normalize_val(q);
    lemma_tdiv_scale_le(qx, SCALE as int, n);
    lemma_tdiv_scale_le(qy, SCALE as int, n);
    lemma_tdiv_scale_le(qz, SCALE as int, n);
    lemma_tdiv_scale_le(qw, SCALE as int, n);
    assert(r.x as int == tdiv(qx * 65536, n));
    assert(r.y as int == tdiv(qy * 65536, n));
    assert(r.z as int == tdiv(qz * 65536, n));
    assert(r.w as int == tdiv(qw * 65536, n));
    assert(tdiv(qx * 65536, n) == tx || tdiv(qx * 65536, n) == -tx);
    assert(tdiv(qy * 65536, n) == ty || tdiv(qy * 65536, n) == -ty);
    assert(tdiv(qz * 65536, n) == tz || tdiv(qz * 65536, n) == -tz);
    assert(tdiv(qw * 65536, n) == tw || tdiv(qw * 65536, n) == -tw);
    assert((-tx) * (-tx) == tx * tx) by (nonlinear_arith);
    assert((-ty) * (-ty) == ty * ty) by (nonlinear_arith);
    assert((-tz) * (-tz) == tz * tz) by (nonlinear_arith);
    assert((-tw) * (-tw) == tw * tw) by (nonlinear_arith);
    let total = tx * tx + ty * ty + tz * tz + tw * tw;
    assert(qnormsq(r) == total);
    // Distribute the three summed quantities over their four components, so
    // the per-component bounds can be added linearly.
    assert(n * n * total == n * n * (tx * tx) + n * n * (ty * ty) + n * n * (tz * tz) + n * n * (
    tw * tw)) by (nonlinear_arith)
        requires
            total == tx * tx + ty * ty + tz * tz + tw * tw,
    ;
    assert((65536 * 65536) * sq == (ax * ax) * (65536 * 65536) + (ay * ay) * (65536 * 65536) + (az
        * az) * (65536 * 65536) + (aw * aw) * (65536 * 65536)) by (nonlinear_arith)
        requires
            sq == ax * ax + ay * ay + az * az + aw * aw,
    ;
    assert((2 * 65536 * (n - 1)) * (ax + ay + az + aw) == (2 * 65536 * (n - 1)) * ax + (2 * 65536
        * (n - 1)) * ay + (2 * 65536 * (n - 1)) * az + (2 * 65536 * (n - 1)) * aw)
        by (nonlinear_arith);
    // Lower bound: the four truncations together lose at most eight scale
    // units of squared norm.
    assert(n * n * total >= (65536 * 65536) * sq - (2 * 65536 * (n - 1)) * (ax + ay + az + aw));
    assert((2 * 65536 * (n - 1)) * (ax + ay + az + aw) <= 8 * 65536 * (n * n))
        by (nonlinear_arith)
        requires
            1 <= n,
            0 <= ax <= n,
            0 <= ay <= n,
            0 <= az <= n,
            0 <= aw <= n,
    ;
    assert((65536 * 65536) * sq >= (65536 * 65536) * (n * n)) by (nonlinear_arith)
        requires
            sq >= n * n,
    ;
    assert(n * n * total >= (n * n) * (65536 * 65536 - 8 * 65536)) by (nonlinear_arith)
        requires
            n * n * total >= (65536 * 65536) * (n * n) - 8 * 65536 * (n * n),
    ;
    assert(total >= 65536 * 65536 - 8 * 65536) by (nonlinear_arith)
        requires
            n * n * total >= (n * n) * (65536 * 65536 - 8 * 65536),
            1 <= n,
    ;
    // Conditional upper bound: with at least half a unit of norm going in,
    // the rounding of the root costs at most four scale units above.
    if sq >= 1073872900 {
        lemma_sqrt_floor_ge(32770, sq as nat);
        assert(n * n * total <= (65536 * 65536) * sq);
        assert((65536 * 65536) * sq <= (65536 * 65536) * ((n + 1) * (n + 1))) by (nonlinear_arith)
            requires
                sq <= (n + 1) * (n + 1),
        ;
        if total >= 65536 * 65536 + 4 * 65536 + 6 {
            assert(false) by (nonlinear_arith)
                requires
                    n >= 32770,
                    n * n * total <= (65536 * 65536) * ((n + 1) * (n + 1)),
                    total >= 65536 * 65536 + 4 * 65536 + 6,
            ;
        }
    }
}

/// Rescale a quaternion to (approximately) unit length in Q.16.
pub fn quat_normalize(q: &Quaternion) -> (r: Quaternion)
    requires
        qbounded(*q, SAT_LIMIT as int),
    ensures
        r == quat_normalize_val(*q),
        qbounded(r, SCALE as int),
        qnormsq(*q) >= 1 ==> qnormsq(r) >= UNIT_NORMSQ_MIN as int,
{
    proof {
        lemma_mul_bounds(q.x as int, q.x as int, SAT_LIMIT as int, SAT_LIMIT as int);
        lemma_mul_bounds(q.y as int, q.y as int, SAT_LIMIT as int, SAT_LIMIT as int);
        lemma_mul_bounds(q.z as int, q.z as int, SAT_LIMIT as int, SAT_LIMIT as int);
        lemma_mul_bounds(q.w as int, q.w as int, SAT_LIMIT as int, SAT_LIMIT as int);
        assert(0 <= (q.x as int) * (q.x as int)) by (nonlinear_arith);
        assert(0 <= (q.y as int) * (q.y as int)) by (nonlinear_arith);
        assert(0 <= (q.z as int) * (q.z as int)) by (nonlinear_arith);
        assert(0 <= (q.w as int) * (q.w as int)) by (nonlinear_arith);
    }
    let sq: i128 = (q.x as i128) * (q.x as i128) + (q.y as i128) * (q.y as i128) + (q.z as i128) * (
    q.z as i128) + (q.w as i128) * (q.w as i128);
    let n = crate::fixed::isqrt_u128(sq as u128) as i128;
    if n == 0 {
        proof {
            let s = sqrt_floor(sq as nat);
            assert((s + 1) * (s + 1) == 1) by (nonlinear_arith)
                requires
                    s == 0,
            ;
            assert(qnormsq(*q) < 1);
            assert((q.x as int) * (q.x as int) == 0 && (q.y as int) * (q.y as int) == 0 && (
            q.z as int) * (q.z as int) == 0 && (q.w as int) * (q.w as int) == 0)
                by (nonlinear_arith)
                requires
                    (q.x as int) * (q.x as int) + (q.y as int) * (q.y as int) + (q.z as int) * (
                    q.z as int) + (q.w as int) * (q.w as int) < 1,
            ;
            assert(q.x == 0 && q.y == 0 && q.z == 0 && q.w == 0) by (nonlinear_arith)
                requires
                    (q.x as int) * (q.x as int) == 0,
                    (q.y as int) * (q.y as int) == 0,
                    (q.z as int) * (q.z as int) == 0,
                    (q.w as int) * (q.w as int) == 0,
            ;
        }
        *q
    } else {
        proof {
            let ni = n as int;
            let sqi = qnormsq(*q);
            assert((q.x as int) * (q.x as int) <= sqi) by (nonlinear_arith)
                requires
                    sqi == qnormsq(*q),
            ;
            assert((q.y as int) * (q.y as int) <= sqi) by (nonlinear_arith)
                requires
                    sqi == qnormsq(*q),
            ;
            assert((q.z as int) * (q.z as int) <= sqi) by (nonlinear_arith)
                requires
                    sqi == qnormsq(*q),
            ;
            assert((q.w as int) * (q.w as int) <= sqi) by (nonlinear_arith)
                requires
                    sqi == qnormsq(*q),
            ;
            assert((-(q.x as int)) * (-(q.x as int)) == (q.x as int) * (q.x as int))
                by (nonlinear_arith);
            assert((-(q.y as int)) * (-(q.y as int)) == (q.y as int) * (q.y as int))
                by (nonlinear_arith);
            assert((-(q.z as int)) * (-(q.z as int)) == (q.z as int) * (q.z as int))
                by (nonlinear_arith);
            assert((-(q.w as int)) * (-(q.w as int)) == (q.w as int) * (q.w as int))
                by (nonlinear_arith);
            if q.x >= 0 {
                lemma_sqrt_floor_ge(q.x as int, sqi as nat);
            } else {
                lemma_sqrt_floor_ge(-(q.x as int), sqi as nat);
            }
            if q.y >= 0 {
                lemma_sqrt_floor_ge(q.y as int, sqi as nat);
            } else {
                lemma_sqrt_floor_ge(-(q.y as int), sqi as nat);
            }
            if q.z >= 0 {
                lemma_sqrt_floor_ge(q.z as int, sqi as nat);
            } else {
                lemma_sqrt_floor_ge(-(q.z as int), sqi as nat);
            }
            if q.w >= 0 {
                lemma_sqrt_floor_ge(q.w as int, sqi as nat);
            } else {
                lemma_sqrt_floor_ge(-(q.w as int), sqi as nat);
            }
            lemma_tdiv_scale_le(q.x as int, SCALE as int, ni);
            lemma_tdiv_scale_le(q.y as int, SCALE as int, ni);
            lemma_tdiv_scale_le(q.z as int, SCALE as int, ni);
            lemma_tdiv_scale_le(q.w as int, SCALE as int, ni);
            lemma_mul_bounds(q.x as int, SCALE as int, SAT_LIMIT as int, SCALE as int);
            lemma_mul_bounds(q.y as int, SCALE as int, SAT_LIMIT as int, SCALE as int);
            lemma_mul_bounds(q.z as int, SCALE as int, SAT_LIMIT as int, SCALE as int);
            lemma_mul_bounds(q.w as int, SCALE as int, SAT_LIMIT as int, SCALE as int);
            if qnormsq(*q) >= 1 {
                lemma_normalize_norm_tight(*q);
            }
        }
        Quaternion {
            x: tdiv_i128((q.x as i128) * (SCALE as i128), n) as i64,
            y: tdiv_i128((q.y as i128) * (SCALE as i128), n) as i64,
            z: tdiv_i128((q.z as i128) * (SCALE as i128), n) as i64,
            w: tdiv_i128((q.w as i128) * (SCALE as i128), n) as i64,
        }
    }
}

/// The image of the x axis under the rotation of `q`, carrying an overall
/// factor of `qnormsq(q)`.
pub open spec fn rot_col0(q: Quaternion) -> (int, int, int) {
    let x = q.x as int;
    let y = q.y as int;
    let z = q.z as int;
    let w = q.w as int;
    let n = qnormsq(q);
    (n - 2 * (y * y + z * z), 2 * (x * y + z * w), 2 * (x * z - y * w))
}

/// The image of the y axis under the rotation of `q`, scaled by
/// `qnormsq(q)`.
pub open spec fn rot_col1(q: Quaternion) -> (int, int, int) {
    let x = q.x as int;
    let y = q.y as int;
    let z = q.z as int;
    let w = q.w as int;
    let n = qnormsq(q);
    (2 * (x * y - z * w), n - 2 * (x * x + z * z), 2 * (y * z + x * w))
}

/// The image of the z axis under the rotation of `q`, scaled by
/// `qnormsq(q)`.
pub open spec fn rot_col2(q: Quaternion) -> (int, int, int) {
    let x = q.x as int;
    let y = q.y as int;
    let z = q.z as int;
    let w = q.w as int;
    let n = qnormsq(q);
    (2 * (x * z + y * w), 2 * (y * z - x * w), n - 2 * (x * x + y * y))
}

/// The camera-forward direction of `q`: the image of the eye-space forward
/// axis `(0, 0, -1)`, scaled by `qnormsq(q)`.
pub open spec fn forward_of(q: Quaternion) -> (int, int, int) {
    neg3(rot_col2(q))
}

/// The camera-right direction of `q`, scaled by `qnormsq(q)`.
pub open spec fn right_of(q: Quaternion) -> (int, int, int) {
    rot_col0(q)
}

/// The camera-up direction of `q`, scaled by `qnormsq(q)`.
pub open spec fn up_of(q: Quaternion) -> (int, int, int) {
    rot_col1(q)
}

/// The three columns of the rotation of any quaternion are mutually
/// orthogonal, and each has squared norm exactly `qnormsq(q)^2`: an exact
/// polynomial identity, independent of rounding.
pub proof fn lemma_rot_cols_orthogonal(q: Quaternion)
    ensures
        dot3(rot_col0(q), rot_col1(q)) == 0,
        dot3(rot_col0(q), rot_col2(q)) == 0,
        dot3(rot_col1(q), rot_col2(q)) == 0,
        normsq3(rot_col0(q)) == qnormsq(q) * qnormsq(q),
        normsq3(rot_col1(q)) == qnormsq(q) * qnormsq(q),
        normsq3(rot_col2(q)) == qnormsq(q) * qnormsq(q),
{
    let x = q.x as int;
    let y = q.y as int;
    let z = q.z as int;
    let w = q.w as int;
    let n = qnormsq(q);
    let sx = x * x;
    let sy = y * y;
    let sz = z * z;
    let sw = w * w;
    let pxy = x * y;
    let pxz = x * z;
    let pxw = x * w;
    let pyz = y * z;
    let pyw = y * w;
    let pzw = z * w;
    // The entries of the three columns, over the quadratic atoms.
    let a0 = sx + sw - sy - sz;
    let b1 = sy + sw - sx - sz;
    let c2 = sz + sw - sx - sy;
    assert(n - 2 * (y * y + z * z) == a0);
    assert(n - 2 * (x * x + z * z) == b1);
    assert(n - 2 * (x * x + y * y) == c2);
    // Degree-four monomial identities over the atoms.
    assert(pxz * pyz == sz * pxy) by (nonlinear_arith)
        requires
            pxz == x * z && pyz == y * z && sz == z * z && pxy == x * y,
    ;
    assert(pxz * pxw == sx * pzw) by (nonlinear_arith)
        requires
            pxz == x * z && pxw == x * w && sx == x * x && pzw == z * w,
    ;
    assert(pyw * pyz == sy * pzw) by (nonlinear_arith)
        requires
            pyw == y * w && pyz == y * z && sy == y * y && pzw == z * w,
    ;
    assert(pyw * pxw == sw * pxy) by (nonlinear_arith)
        requires
            pyw == y * w && pxw == x * w && sw == w * w && pxy == x * y,
    ;
    assert(pxy * pyz == sy * pxz) by (nonlinear_arith)
        requires
            pxy == x * y && pyz == y * z && sy == y * y && pxz == x * z,
    ;
    assert(pxy * pxw == sx * pyw) by (nonlinear_arith)
        requires
            pxy == x * y && pxw == x * w && sx == x * x && pyw == y * w,
    ;
    assert(pzw * pyz == sz * pyw) by (nonlinear_arith)
        requires
            pzw == z * w && pyz == y * z && sz == z * z && pyw == y * w,
    ;
    assert(pzw * pxw == sw * pxz) by (nonlinear_arith)
        requires
            pzw == z * w && pxw == x * w && sw == w * w && pxz == x * z,
    ;
    assert(pxy * pxz == sx * pyz) by (nonlinear_arith)
        requires
            pxy == x * y && pxz == x * z && sx == x * x && pyz == y * z,
    ;
    assert(pxy * pyw == sy * pxw) by (nonlinear_arith)
        requires
            pxy == x * y && pyw == y * w && sy == y * y && pxw == x * w,
    ;
    assert(pzw * pxz == sz * pxw) by (nonlinear_arith)
        requires
            pzw == z * w && pxz == x * z && sz == z * z && pxw == x * w,
    ;
    assert(pzw * pyw == sw * pyz) by (nonlinear_arith)
        requires
            pzw == z * w && pyw == y * w && sw == w * w && pyz == y * z,
    ;
    assert(pxy * pxy == sx * sy) by (nonlinear_arith)
        requires
            pxy == x * y && sx == x * x && sy == y * y,
    ;
    assert(pzw * pzw == sz * sw) by (nonlinear_arith)
        requires
            pzw == z * w && sz == z * z && sw == w * w,
    ;
    assert(pxz * pxz == sx * sz) by (nonlinear_arith)
        requires
            pxz == x * z && sx == x * x && sz == z * z,
    ;
    assert(pyw * pyw == sy * sw) by (nonlinear_arith)
        requires
            pyw == y * w && sy == y * y && sw == w * w,
    ;
    assert(pyz * pyz == sy * sz) by (nonlinear_arith)
        requires
            pyz == y * z && sy == y * y && sz == z * z,
    ;
    assert(pxw * pxw == sx * sw) by (nonlinear_arith)
        requires
            pxw == x * w && sx == x * x && sw == w * w,
    ;
    assert(pxy * pzw == pxz * pyw) by (nonlinear_arith)
        requires
            pxy == x * y && pzw == z * w && pxz == x * z && pyw == y * w,
    ;
    assert(pxy * pzw == pyz * pxw) by (nonlinear_arith)
        requires
            pxy == x * y && pzw == z * w && pyz == y * z && pxw == x * w,
    ;
    // Products of column entries, distributed over the atoms.
    assert(a0 * (2 * (pxy - pzw)) == 2 * (sx * pxy + sw * pxy - sy * pxy - sz * pxy - sx * pzw - sw
        * pzw + sy * pzw + sz * pzw)) by (nonlinear_arith)
        requires
            a0 == sx + sw - sy - sz,
    ;
    assert((2 * (pxy + pzw)) * b1 == 2 * (sy * pxy + sw * pxy - sx * pxy - sz * pxy + sy * pzw + sw
        * pzw - sx * pzw - sz * pzw)) by (nonlinear_arith)
        requires
            b1 == sy + sw - sx - sz,
    ;
    assert((2 * (pxz - pyw)) * (2 * (pyz + pxw)) == 4 * (pxz * pyz + pxz * pxw - pyw * pyz - pyw
        * pxw)) by (nonlinear_arith);
    assert(a0 * (2 * (pxz + pyw)) == 2 * (sx * pxz + sw * pxz - sy * pxz - sz * pxz + sx * pyw + sw
        * pyw - sy * pyw - sz * pyw)) by (nonlinear_arith)
        requires
            a0 == sx + sw - sy - sz,
    ;
    assert((2 * (pxy + pzw)) * (2 * (pyz - pxw)) == 4 * (pxy * pyz - pxy * pxw + pzw * pyz - pzw
        * pxw)) by (nonlinear_arith);
    assert((2 * (pxz - pyw)) * c2 == 2 * (sz * pxz + sw * pxz - sx * pxz - sy * pxz - sz * pyw - sw
        * pyw + sx * pyw + sy * pyw)) by (nonlinear_arith)
        requires
            c2 == sz + sw - sx - sy,
    ;
    assert((2 * (pxy - pzw)) * (2 * (pxz + pyw)) == 4 * (pxy * pxz + pxy * pyw - pzw * pxz - pzw
        * pyw)) by (nonlinear_arith);
    assert(b1 * (2 * (pyz - pxw)) == 2 * (sy * pyz + sw * pyz - sx * pyz - sz * pyz - sy * pxw - sw
        * pxw + sx * pxw + sz * pxw)) by (nonlinear_arith)
        requires
            b1 == sy + sw - sx - sz,
    ;
    assert((2 * (pyz + pxw)) * c2 == 2 * (sz * pyz + sw * pyz - sx * pyz - sy * pyz + sz * pxw + sw
        * pxw - sx * pxw - sy * pxw)) by (nonlinear_arith)
        requires
            c2 == sz + sw - sx - sy,
    ;
    assert(a0 * a0 == sx * sx + sy * sy + sz * sz + sw * sw + 2 * (sx * sw) + 2 * (sy * sz) - 2 * (
    sx * sy) - 2 * (sx * sz) - 2 * (sy * sw) - 2 * (sz * sw)) by (nonlinear_arith)
        requires
            a0 == sx + sw - sy - sz,
    ;
    assert(b1 * b1 == sx * sx + sy * sy + sz * sz + sw * sw + 2 * (sy * sw) + 2 * (sx * sz) - 2 * (
    sx * sy) - 2 * (sy * sz) - 2 * (sx * sw) - 2 * (sz * sw)) by (nonlinear_arith)
        requires
            b1 == sy + sw - sx - sz,
    ;
    assert(c2 * c2 == sx * sx + sy * sy + sz * sz + sw * sw + 2 * (sz * sw) + 2 * (sx * sy) - 2 * (
    sx * sz) - 2 * (sy * sz) - 2 * (sx * sw) - 2 * (sy * sw)) by (nonlinear_arith)
        requires
            c2 == sz + sw - sx - sy,
    ;
    assert((2 * (pxy + pzw)) * (2 * (pxy + pzw)) == 4 * (pxy * pxy) + 8 * (pxy * pzw) + 4 * (pzw
        * pzw)) by (nonlinear_arith);
    assert((2 * (pxz - pyw)) * (2 * (pxz - pyw)) == 4 * (pxz * pxz) - 8 * (pxz * pyw) + 4 * (pyw
        * pyw)) by (nonlinear_arith);
    assert((2 * (pxy - pzw)) * (2 * (pxy - pzw)) == 4 * (pxy * pxy) - 8 * (pxy * pzw) + 4 * (pzw
        * pzw)) by (nonlinear_arith);
    assert((2 * (pyz + pxw)) * (2 * (pyz + pxw)) == 4 * (pyz * pyz) + 8 * (pyz * pxw) + 4 * (pxw
        * pxw)) by (nonlinear_arith);
    assert((2 * (pxz + pyw)) * (2 * (pxz + pyw)) == 4 * (pxz * pxz) + 8 * (pxz * pyw) + 4 * (pyw
        * pyw)) by (nonlinear_arith);
    assert((2 * (pyz - pxw)) * (2 * (pyz - pxw)) == 4 * (pyz * pyz) - 8 * (pyz * pxw) + 4 * (pxw
        * pxw)) by (nonlinear_arith);
    assert(n * n == sx * sx + sy * sy + sz * sz + sw * sw + 2 * (sx * sy) + 2 * (sx * sz) + 2 * (sx
        * sw) + 2 * (sy * sz) + 2 * (sy * sw) + 2 * (sz * sw)) by (nonlinear_arith)
        requires
            n == sx + sy + sz + sw,
    ;
    // The six claims now follow by linear recombination.
    assert(dot3(rot_col0(q), rot_col1(q)) == 0);
    assert(dot3(rot_col0(q), rot_col2(q)) == 0);
    assert(dot3(rot_col1(q), rot_col2(q)) == 0);
    assert(normsq3(rot_col0(q)) == n * n);
    assert(normsq3(rot_col1(q)) == n * n);
    assert(normsq3(rot_col2(q)) == n * n);
}

/// The forward, right and up directions are mutually orthogonal and of
/// equal squared norm `qnormsq(q)^2`.
pub proof fn lemma_frame_orthogonal(q: Quaternion)
    ensures
        dot3(forward_of(q), right_of(q)) == 0,
        dot3(forward_of(q), up_of(q)) == 0,
        dot3(right_of(q), up_of(q)) == 0,
        normsq3(forward_of(q)) == qnormsq(q) * qnormsq(q),
        normsq3(right_of(q)) == qnormsq(q) * qnormsq(q),
        normsq3(up_of(q)) == qnormsq(q) * qnormsq(q),
{
    lemma_rot_cols_orthogonal(q);
    let c2 = rot_col2(q);
    let c0 = rot_col0(q);
    let c1 = rot_col1(q);
    assert((-c2.0) * c0.0 + (-c2.1) * c0.1 + (-c2.2) * c0.2 == -(c2.0 * c0.0 + c2.1 * c0.1 + c2.2
        * c0.2)) by (nonlinear_arith);
    assert((-c2.0) * c1.0 + (-c2.1) * c1.1 + (-c2.2) * c1.2 == -(c2.0 * c1.0 + c2.1 * c1.1 + c2.2
        * c1.2)) by (nonlinear_arith);
    assert(c0.0 * c2.0 + c0.1 * c2.1 + c0.2 * c2.2 == c2.0 * c0.0 + c2.1 * c0.1 + c2.2 * c0.2)
        by (nonlinear_arith);
    assert(c1.0 * c2.0 + c1.1 * c2.1 + c1.2 * c2.2 == c2.0 * c1.0 + c2.1 * c1.1 + c2.2 * c1.2)
        by (nonlinear_arith);
    assert((-c2.0) * (-c2.0) + (-c2.1) * (-c2.1) + (-c2.2) * (-c2.2) == c2.0 * c2.0 + c2.1 * c2.1
        + c2.2 * c2.2) by (nonlinear_arith);
}

/// Frame entries are bounded by eight squared scale units.
pub const FRAME_BOUND: i64 = 0x8_0000_0000;

/// The forward, right and up directions induced by a bounded quaternion, as
/// homogeneous directions (`w == 0`).
pub fn frame(q: &Quaternion) -> (r: (Vector4, Vector4, Vector4))
    requires
        qbounded(*q, SCALE as int),
    ensures
        v4xyz(r.0) == forward_of(*q) && r.0.w == 0,
        v4xyz(r.1) == right_of(*q) && r.1.w == 0,
        v4xyz(r.2) == up_of(*q) && r.2.w == 0,
        bounded3(v4xyz(r.0), FRAME_BOUND as int),
        bounded3(v4xyz(r.1), FRAME_BOUND as int),
        bounded3(v4xyz(r.2), FRAME_BOUND as int),
{
    proof {
        let s = SCALE as int;
        lemma_mul_bounds(q.x as int, q.x as int, s, s);
        lemma_mul_bounds(q.y as int, q.y as int, s, s);
        lemma_mul_bounds(q.z as int, q.z as int, s, s);
        lemma_mul_bounds(q.w as int, q.w as int, s, s);
        lemma_mul_bounds(q.x as int, q.y as int, s, s);
        lemma_mul_bounds(q.x as int, q.z as int, s, s);
        lemma_mul_bounds(q.x as int, q.w as int, s, s);
        lemma_mul_bounds(q.y as int, q.z as int, s, s);
        lemma_mul_bounds(q.y as int, q.w as int, s, s);
        lemma_mul_bounds(q.z as int, q.w as int, s, s);
    }
    let x = q.x as i128;
    let y = q.y as i128;
    let z = q.z as i128;
    let w = q.w as i128;
    let n: i128 = x * x + y * y + z * z + w * w;
    let c0x = (n - 2 * (y * y + z * z)) as i64;
    let c0y = (2 * (x * y + z * w)) as i64;
    let c0z = (2 * (x * z - y * w)) as i64;
    let c1x = (2 * (x * y - z * w)) as i64;
    let c1y = (n - 2 * (x * x + z * z)) as i64;
    let c1z = (2 * (y * z + x * w)) as i64;
    let c2x = (2 * (x * z + y * w)) as i64;
    let c2y = (2 * (y * z - x * w)) as i64;
    let c2z = (n - 2 * (x * x + y * y)) as i64;
    let fwd = Vector4 { x: -c2x, y: -c2y, z: -c2z, w: 0 };
    let right = Vector4 { x: c0x, y: c0y, z: c0z, w: 0 };
    let up = Vector4 { x: c1x, y: c1y, z: c1z, w: 0 };
    (fwd, right, up)
}

/// A vector rotated by a quaternion: the matrix of `q` applied to `a`,
/// divided by the squared norm that the matrix carries.
pub open spec fn rotate3_val(q: Quaternion, a: (int, int, int)) -> (int, int, int) {
    let c0 = rot_col0(q);
    let c1 = rot_col1(q);
    let c2 = rot_col2(q);
    let n = qnormsq(q);
    (
        tdiv(c0.0 * a.0 + c1.0 * a.1 + c2.0 * a.2, n),
        tdiv(c0.1 * a.0 + c1.1 * a.1 + c2.1 * a.2, n),
        tdiv(c0.2 * a.0 + c1.2 * a.1 + c2.2 * a.2, n),
    )
}

/// Rotate a bounded vector by a nonzero bounded quaternion.
pub fn rotate3(q: &Quaternion, a: &Vector3) -> (r: Vector3)
    requires
        qbounded(*q, SCALE as int),
        bounded3(v3(*a), SCALE as int),
        qnormsq(*q) >= 1,
    ensures
        v3(r) == rotate3_val(*q, v3(*a)),
        bounded3(v3(r), 0x80_0000_0000_0000),
{
    let f = frame(q);
    proof {
        let fb = FRAME_BOUND as int;
        let s = SCALE as int;
        lemma_mul_bounds(f.1.x as int, a.x as int, fb, s);
        lemma_mul_bounds(f.1.y as int, a.x as int, fb, s);
        lemma_mul_bounds(f.1.z as int, a.x as int, fb, s);
        lemma_mul_bounds(f.2.x as int, a.y as int, fb, s);
        lemma_mul_bounds(f.2.y as int, a.y as int, fb, s);
        lemma_mul_bounds(f.2.z as int, a.y as int, fb, s);
        lemma_mul_bounds(-(f.0.x as int), a.z as int, fb, s);
        lemma_mul_bounds(-(f.0.y as int), a.z as int, fb, s);
        lemma_mul_bounds(-(f.0.z as int), a.z as int, fb, s);
        lemma_tdiv_mag(
            (f.1.x as int) * (a.x as int) + (f.2.x as int) * (a.y as int) + (-(f.0.x as int)) * (
            a.z as int),
            qnormsq(*q),
            (3 * 0x8_0000_0000 * 0x1_0000) as int,
        );
        lemma_tdiv_mag(
            (f.1.y as int) * (a.x as int) + (f.2.y as int) * (a.y as int) + (-(f.0.y as int)) * (
            a.z as int),
            qnormsq(*q),
            (3 * 0x8_0000_0000 * 0x1_0000) as int,
        );
        lemma_tdiv_mag(
            (f.1.z as int) * (a.x as int) + (f.2.z as int) * (a.y as int) + (-(f.0.z as int)) * (
            a.z as int),
            qnormsq(*q),
            (3 * 0x8_0000_0000 * 0x1_0000) as int,
        );
    }
    proof {
        let s = SCALE as int;
        lemma_mul_bounds(q.x as int, q.x as int, s, s);
        lemma_mul_bounds(q.y as int, q.y as int, s, s);
        lemma_mul_bounds(q.z as int, q.z as int, s, s);
        lemma_mul_bounds(q.w as int, q.w as int, s, s);
    }
    let nq: i128 = (q.x as i128) * (q.x as i128) + (q.y as i128) * (q.y as i128) + (q.z as i128)
        * (q.z as i128) + (q.w as i128) * (q.w as i128);
    let rx = tdiv_i128(
        (f.1.x as i128) * (a.x as i128) + (f.2.x as i128) * (a.y as i128) + (-(f.0.x as i128)) * (
        a.z as i128),
        nq,
    ) as i64;
    let ry = tdiv_i128(
        (f.1.y as i128) * (a.x as i128) + (f.2.y as i128) * (a.y as i128) + (-(f.0.y as i128)) * (
        a.z as i128),
        nq,
    ) as i64;
    let rz = tdiv_i128(
        (f.1.z as i128) * (a.x as i128) + (f.2.z as i128) * (a.y as i128) + (-(f.0.z as i128)) * (
        a.z as i128),
        nq,
    ) as i64;
    Vector3 { x: rx, y: ry, z: rz }
}

/// The quaternion of a rotation about a unit axis, from the sine and cosine
/// of the half angle.
pub open spec fn axis_quat_val(u: (int, int, int), s: int, c: int) -> Quaternion {
    Quaternion {
        x: tdiv(u.0 * s, SCALE as int) as i64,
        y: tdiv(u.1 * s, SCALE as int) as i64,
        z: tdiv(u.2 * s, SCALE as int) as i64,
        w: c as i64,
    }
}

/// Build the rotation quaternion about `u` whose half angle has sine `s`
/// and cosine `c`, all in Q.16.
pub fn axis_quat(u: &Vector3, s: i64, c: i64) -> (r: Quaternion)
    requires
        bounded3(v3(*u), SCALE as int),
        -SCALE <= s <= SCALE,
        -SCALE <= c <= SCALE,
    ensures
        r == axis_quat_val(v3(*u), s as int, c as int),
        qbounded(r, SCALE as int),
{
    proof {
        lemma_mul_bounds(u.x as int, s as int, SCALE as int, SCALE as int);
        lemma_mul_bounds(u.y as int, s as int, SCALE as int, SCALE as int);
        lemma_mul_bounds(u.z as int, s as int, SCALE as int, SCALE as int);
        lemma_tdiv_mag((u.x as int) * (s as int), SCALE as int, (0x1_0000 * 0x1_0000) as int);
        lemma_tdiv_mag((u.y as int) * (s as int), SCALE as int, (0x1_0000 * 0x1_0000) as int);
        lemma_tdiv_mag((u.z as int) * (s as int), SCALE as int, (0x1_0000 * 0x1_0000) as int);
    }
    Quaternion {
        x: tdiv_i128((u.x as i128) * (s as i128), SCALE as i128) as i64,
        y: tdiv_i128((u.y as i128) * (s as i128), SCALE as i128) as i64,
        z: tdiv_i128((u.z as i128) * (s as i128), SCALE as i128) as i64,
        w: c,
    }
}

} // verus!
