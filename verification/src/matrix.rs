//! Column-major 4x4 matrices of Q47.16 entries: translations, the view
//! rotation of a quaternion, perspective projection, and matrix product.

use crate::fixed::{
    lemma_abs_le_of_sq_le, lemma_mul_bounds, lemma_tdiv_mag, lemma_tdiv_scale_le, sat, sat_i128,
    tdiv, tdiv_i128, SAT_LIMIT, SCALE,
};
use crate::quaternion::{
    frame, lemma_rot_cols_orthogonal, qbounded, qnormsq, rot_col0, rot_col1, rot_col2, Quaternion,
};
use crate::trig::{cos_deg, sin_deg};
use crate::vector::{bounded3, v3, Vector3, Vector4};
use vstd::prelude::*;

verus! {

/// A 4x4 matrix, stored as four columns.
#[derive(Clone, Copy, Debug, PartialEq, Eq, Structural)]
#[verifier::ext_equal]
pub struct Matrix4 {
    pub c0: Vector4,
    pub c1: Vector4,
    pub c2: Vector4,
    pub c3: Vector4,
}

/// All sixteen entries within `[-b, b]`.
pub open spec fn col_bounded(v: Vector4, b: int) -> bool {
    &&& -b <= v.x as int <= b
    &&& -b <= v.y as int <= b
    &&& -b <= v.z as int <= b
    &&& -b <= v.w as int <= b
}

/// All sixteen entries within `[-b, b]`.
pub open spec fn mbounded(m: Matrix4, b: int) -> bool {
    &&& col_bounded(m.c0, b)
    &&& col_bounded(m.c1, b)
    &&& col_bounded(m.c2, b)
    &&& col_bounded(m.c3, b)
}

/// The matrix translating by `p`.
pub open spec fn translation_of(p: Vector3) -> Matrix4 {
    Matrix4 {
        c0: Vector4 { x: SCALE, y: 0, z: 0, w: 0 },
        c1: Vector4 { x: 0, y: SCALE, z: 0, w: 0 },
        c2: Vector4 { x: 0, y: 0, z: SCALE, w: 0 },
        c3: Vector4 { x: p.x, y: p.y, z: p.z, w: SCALE },
    }
}

/// The matrix translating by `-p`: the inverse of `translation_of(p)`.
pub open spec fn inv_translation_of(p: Vector3) -> Matrix4 {
    Matrix4 {
        c0: Vector4 { x: SCALE, y: 0, z: 0, w: 0 },
        c1: Vector4 { x: 0, y: SCALE, z: 0, w: 0 },
        c2: Vector4 { x: 0, y: 0, z: SCALE, w: 0 },
        c3: Vector4 { x: (-(p.x as int)) as i64, y: (-(p.y as int)) as i64, z: (-(
        p.z as int)) as i64, w: SCALE },
    }
}

/// The view rotation of `q`: the transpose (inverse) of the rotation that
/// `q` induces, rescaled into Q.16 by the squared norm the columns carry.
pub open spec fn view_rot_of(q: Quaternion) -> Matrix4 {
    let n = qnormsq(q);
    let c0 = rot_col0(q);
    let c1 = rot_col1(q);
    let c2 = rot_col2(q);
    Matrix4 {
        c0: Vector4 {
            x: tdiv(c0.0 * SCALE, n) as i64,
            y: tdiv(c1.0 * SCALE, n) as i64,
            z: tdiv(c2.0 * SCALE, n) as i64,
            w: 0,
        },
        c1: Vector4 {
            x: tdiv(c0.1 * SCALE, n) as i64,
            y: tdiv(c1.1 * SCALE, n) as i64,
            z: tdiv(c2.1 * SCALE, n) as i64,
            w: 0,
        },
        c2: Vector4 {
            x: tdiv(c0.2 * SCALE, n) as i64,
            y: tdiv(c1.2 * SCALE, n) as i64,
            z: tdiv(c2.2 * SCALE, n) as i64,
            w: 0,
        },
        c3: Vector4 { x: 0, y: 0, z: 0, w: SCALE },
    }
}

/// A Q.16 dot product of a matrix row and a matrix column, saturated.
pub open spec fn dot4_scaled(a: (int, int, int, int), b: (int, int, int, int)) -> int {
    sat(tdiv(a.0 * b.0 + a.1 * b.1 + a.2 * b.2 + a.3 * b.3, SCALE as int))
}

/// The matrix product `a * b` over Q.16 entries.
pub open spec fn mat_mul_val(a: Matrix4, b: Matrix4) -> Matrix4 {
    let r0 = (a.c0.x as int, a.c1.x as int, a.c2.x as int, a.c3.x as int);
    let r1 = (a.c0.y as int, a.c1.y as int, a.c2.y as int, a.c3.y as int);
    let r2 = (a.c0.z as int, a.c1.z as int, a.c2.z as int, a.c3.z as int);
    let r3 = (a.c0.w as int, a.c1.w as int, a.c2.w as int, a.c3.w as int);
    let b0 = (b.c0.x as int, b.c0.y as int, b.c0.z as int, b.c0.w as int);
    let b1 = (b.c1.x as int, b.c1.y as int, b.c1.z as int, b.c1.w as int);
    let b2 = (b.c2.x as int, b.c2.y as int, b.c2.z as int, b.c2.w as int);
    let b3 = (b.c3.x as int, b.c3.y as int, b.c3.z as int, b.c3.w as int);
    Matrix4 {
        c0: Vector4 {
            x: dot4_scaled(r0, b0) as i64,
            y: dot4_scaled(r1, b0) as i64,
            z: dot4_scaled(r2, b0) as i64,
            w: dot4_scaled(r3, b0) as i64,
        },
        c1: Vector4 {
            x: dot4_scaled(r0, b1) as i64,
            y: dot4_scaled(r1, b1) as i64,
            z: dot4_scaled(r2, b1) as i64,
            w: dot4_scaled(r3, b1) as i64,
        },
        c2: Vector4 {
            x: dot4_scaled(r0, b2) as i64,
            y: dot4_scaled(r1, b2) as i64,
            z: dot4_scaled(r2, b2) as i64,
            w: dot4_scaled(r3, b2) as i64,
        },
        c3: Vector4 {
            x: dot4_scaled(r0, b3) as i64,
            y: dot4_scaled(r1, b3) as i64,
            z: dot4_scaled(r2, b3) as i64,
            w: dot4_scaled(r3, b3) as i64,
        },
    }
}

/// The perspective projection of a symmetric frustum.  The tangent and the
/// aspect divisor are clamped to at least one fixed-point step, so the
/// construction is total.
pub open spec fn perspective_of(near: i64, far: i64, fovy: i64, aspect: i64) -> Matrix4 {
    let half = tdiv(fovy as int, 2);
    let s = sin_deg(half);
    let c = cos_deg(half);
    let sd = if s < 1 {
        1
    } else {
        s
    };
    let f = tdiv(c * SCALE, sd);
    let ad = if aspect < 1 {
        1
    } else {
        aspect as int
    };
    Matrix4 {
        c0: Vector4 { x: sat(tdiv(f * SCALE, ad)) as i64, y: 0, z: 0, w: 0 },
        c1: Vector4 { x: 0, y: f as i64, z: 0, w: 0 },
        c2: Vector4 {
            x: 0,
            y: 0,
            z: sat(-tdiv((far + near) * SCALE, far - near)) as i64,
            w: (-SCALE) as i64,
        },
        c3: Vector4 {
            x: 0,
            y: 0,
            z: sat(-tdiv(2 * (far as int) * (near as int), far - near)) as i64,
            w: 0,
        },
    }
}

/// Build the matrix translating by `p`.
pub fn translation_mat(p: &Vector3) -> (r: Matrix4)
    ensures
        r == translation_of(*p),
{
    Matrix4 {
        c0: Vector4 { x: SCALE, y: 0, z: 0, w: 0 },
        c1: Vector4 { x: 0, y: SCALE, z: 0, w: 0 },
        c2: Vector4 { x: 0, y: 0, z: SCALE, w: 0 },
        c3: Vector4 { x: p.x, y: p.y, z: p.z, w: SCALE },
    }
}

/// Build the matrix translating by `-p`.
pub fn inv_translation_mat(p: &Vector3) -> (r: Matrix4)
    requires
        bounded3(v3(*p), SAT_LIMIT as int),
    ensures
        r == inv_translation_of(*p),
        mbounded(r, SAT_LIMIT as int),
{
    Matrix4 {
        c0: Vector4 { x: SCALE, y: 0, z: 0, w: 0 },
        c1: Vector4 { x: 0, y: SCALE, z: 0, w: 0 },
        c2: Vector4 { x: 0, y: 0, z: SCALE, w: 0 },
        c3: Vector4 { x: -p.x, y: -p.y, z: -p.z, w: SCALE },
    }
}

/// Build the view rotation of a nonzero bounded quaternion.
pub fn view_rot_mat(q: &Quaternion) -> (r: Matrix4)
    requires
        qbounded(*q, SCALE as int),
        qnormsq(*q) >= 1,
    ensures
        r == view_rot_of(*q),
        mbounded(r, SCALE as int),
{
    let f = frame(q);
    let nq: i128 = {
        proof {
            let s = SCALE as int;
            lemma_mul_bounds(q.x as int, q.x as int, s, s);
            lemma_mul_bounds(q.y as int, q.y as int, s, s);
            lemma_mul_bounds(q.z as int, q.z as int, s, s);
            lemma_mul_bounds(q.w as int, q.w as int, s, s);
        }
        (q.x as i128) * (q.x as i128) + (q.y as i128) * (q.y as i128) + (q.z as i128) * (
        q.z as i128) + (q.w as i128) * (q.w as i128)
    };
    proof {
        let n = qnormsq(*q);
        lemma_rot_cols_orthogonal(*q);
        let c0 = rot_col0(*q);
        let c1 = rot_col1(*q);
        let c2 = rot_col2(*q);
        assert(c0.0 * c0.0 <= n * n && c0.1 * c0.1 <= n * n && c0.2 * c0.2 <= n * n)
            by (nonlinear_arith)
            requires
                c0.0 * c0.0 + c0.1 * c0.1 + c0.2 * c0.2 == n * n,
        ;
        assert(c1.0 * c1.0 <= n * n && c1.1 * c1.1 <= n * n && c1.2 * c1.2 <= n * n)
            by (nonlinear_arith)
            requires
                c1.0 * c1.0 + c1.1 * c1.1 + c1.2 * c1.2 == n * n,
        ;
        assert(c2.0 * c2.0 <= n * n && c2.1 * c2.1 <= n * n && c2.2 * c2.2 <= n * n)
            by (nonlinear_arith)
            requires
                c2.0 * c2.0 + c2.1 * c2.1 + c2.2 * c2.2 == n * n,
        ;
        lemma_abs_le_of_sq_le(c0.0, n);
        lemma_abs_le_of_sq_le(c0.1, n);
        lemma_abs_le_of_sq_le(c0.2, n);
        lemma_abs_le_of_sq_le(c1.0, n);
        lemma_abs_le_of_sq_le(c1.1, n);
        lemma_abs_le_of_sq_le(c1.2, n);
        lemma_abs_le_of_sq_le(c2.0, n);
        lemma_abs_le_of_sq_le(c2.1, n);
        lemma_abs_le_of_sq_le(c2.2, n);
        lemma_tdiv_scale_le(c0.0, SCALE as int, n);
        lemma_tdiv_scale_le(c0.1, SCALE as int, n);
        lemma_tdiv_scale_le(c0.2, SCALE as int, n);
        lemma_tdiv_scale_le(c1.0, SCALE as int, n);
        lemma_tdiv_scale_le(c1.1, SCALE as int, n);
        lemma_tdiv_scale_le(c1.2, SCALE as int, n);
        lemma_tdiv_scale_le(c2.0, SCALE as int, n);
        lemma_tdiv_scale_le(c2.1, SCALE as int, n);
        lemma_tdiv_scale_le(c2.2, SCALE as int, n);
        lemma_mul_bounds(c0.0, SCALE as int, n, SCALE as int);
        lemma_mul_bounds(c0.1, SCALE as int, n, SCALE as int);
        lemma_mul_bounds(c0.2, SCALE as int, n, SCALE as int);
        lemma_mul_bounds(c1.0, SCALE as int, n, SCALE as int);
        lemma_mul_bounds(c1.1, SCALE as int, n, SCALE as int);
        lemma_mul_bounds(c1.2, SCALE as int, n, SCALE as int);
        lemma_mul_bounds(c2.0, SCALE as int, n, SCALE as int);
        lemma_mul_bounds(c2.1, SCALE as int, n, SCALE as int);
        lemma_mul_bounds(c2.2, SCALE as int, n, SCALE as int);
    }
    let r0x = tdiv_i128((f.1.x as i128) * (SCALE as i128), nq) as i64;
    let r0y = tdiv_i128((f.2.x as i128) * (SCALE as i128), nq) as i64;
    let r0z = tdiv_i128((-(f.0.x as i128)) * (SCALE as i128), nq) as i64;
    let r1x = tdiv_i128((f.1.y as i128) * (SCALE as i128), nq) as i64;
    let r1y = tdiv_i128((f.2.y as i128) * (SCALE as i128), nq) as i64;
    let r1z = tdiv_i128((-(f.0.y as i128)) * (SCALE as i128), nq) as i64;
    let r2x = tdiv_i128((f.1.z as i128) * (SCALE as i128), nq) as i64;
    let r2y = tdiv_i128((f.2.z as i128) * (SCALE as i128), nq) as i64;
    let r2z = tdiv_i128((-(f.0.z as i128)) * (SCALE as i128), nq) as i64;
    Matrix4 {
        c0: Vector4 { x: r0x, y: r0y, z: r0z, w: 0 },
        c1: Vector4 { x: r1x, y: r1y, z: r1z, w: 0 },
        c2: Vector4 { x: r2x, y: r2y, z: r2z, w: 0 },
        c3: Vector4 { x: 0, y: 0, z: 0, w: SCALE },
    }
}

/// One saturated Q.16 row-by-column product.
fn dot4_scaled_exec(
    a0: i64,
    a1: i64,
    a2: i64,
    a3: i64,
    b0: i64,
    b1: i64,
    b2: i64,
    b3: i64,
) -> (r: i64)
    requires
        -SAT_LIMIT <= a0 <= SAT_LIMIT,
        -SAT_LIMIT <= a1 <= SAT_LIMIT,
        -SAT_LIMIT <= a2 <= SAT_LIMIT,
        -SAT_LIMIT <= a3 <= SAT_LIMIT,
        -SAT_LIMIT <= b0 <= SAT_LIMIT,
        -SAT_LIMIT <= b1 <= SAT_LIMIT,
        -SAT_LIMIT <= b2 <= SAT_LIMIT,
        -SAT_LIMIT <= b3 <= SAT_LIMIT,
    ensures
        r == dot4_scaled(
            (a0 as int, a1 as int, a2 as int, a3 as int),
            (b0 as int, b1 as int, b2 as int, b3 as int),
        ),
{
    proof {
        lemma_mul_bounds(a0 as int, b0 as int, SAT_LIMIT as int, SAT_LIMIT as int);
        lemma_mul_bounds(a1 as int, b1 as int, SAT_LIMIT as int, SAT_LIMIT as int);
        lemma_mul_bounds(a2 as int, b2 as int, SAT_LIMIT as int, SAT_LIMIT as int);
        lemma_mul_bounds(a3 as int, b3 as int, SAT_LIMIT as int, SAT_LIMIT as int);
    }
    let s: i128 = (a0 as i128) * (b0 as i128) + (a1 as i128) * (b1 as i128) + (a2 as i128) * (
    b2 as i128) + (a3 as i128) * (b3 as i128);
    sat_i128(tdiv_i128(s, SCALE as i128))
}

/// The matrix product `a * b`.
pub fn mat_mul(a: &Matrix4, b: &Matrix4) -> (r: Matrix4)
    requires
        mbounded(*a, SAT_LIMIT as int),
        mbounded(*b, SAT_LIMIT as int),
    ensures
        r == mat_mul_val(*a, *b),
        mbounded(r, SAT_LIMIT as int),
{
    Matrix4 {
        c0: Vector4 {
            x: dot4_scaled_exec(a.c0.x, a.c1.x, a.c2.x, a.c3.x, b.c0.x, b.c0.y, b.c0.z, b.c0.w),
            y: dot4_scaled_exec(a.c0.y, a.c1.y, a.c2.y, a.c3.y, b.c0.x, b.c0.y, b.c0.z, b.c0.w),
            z: dot4_scaled_exec(a.c0.z, a.c1.z, a.c2.z, a.c3.z, b.c0.x, b.c0.y, b.c0.z, b.c0.w),
            w: dot4_scaled_exec(a.c0.w, a.c1.w, a.c2.w, a.c3.w, b.c0.x, b.c0.y, b.c0.z, b.c0.w),
        },
        c1: Vector4 {
            x: dot4_scaled_exec(a.c0.x, a.c1.x, a.c2.x, a.c3.x, b.c1.x, b.c1.y, b.c1.z, b.c1.w),
            y: dot4_scaled_exec(a.c0.y, a.c1.y, a.c2.y, a.c3.y, b.c1.x, b.c1.y, b.c1.z, b.c1.w),
            z: dot4_scaled_exec(a.c0.z, a.c1.z, a.c2.z, a.c3.z, b.c1.x, b.c1.y, b.c1.z, b.c1.w),
            w: dot4_scaled_exec(a.c0.w, a.c1.w, a.c2.w, a.c3.w, b.c1.x, b.c1.y, b.c1.z, b.c1.w),
        },
        c2: Vector4 {
            x: dot4_scaled_exec(a.c0.x, a.c1.x, a.c2.x, a.c3.x, b.c2.x, b.c2.y, b.c2.z, b.c2.w),
            y: dot4_scaled_exec(a.c0.y, a.c1.y, a.c2.y, a.c3.y, b.c2.x, b.c2.y, b.c2.z, b.c2.w),
            z: dot4_scaled_exec(a.c0.z, a.c1.z, a.c2.z, a.c3.z, b.c2.x, b.c2.y, b.c2.z, b.c2.w),
            w: dot4_scaled_exec(a.c0.w, a.c1.w, a.c2.w, a.c3.w, b.c2.x, b.c2.y, b.c2.z, b.c2.w),
        },
        c3: Vector4 {
            x: dot4_scaled_exec(a.c0.x, a.c1.x, a.c2.x, a.c3.x, b.c3.x, b.c3.y, b.c3.z, b.c3.w),
            y: dot4_scaled_exec(a.c0.y, a.c1.y, a.c2.y, a.c3.y, b.c3.x, b.c3.y, b.c3.z, b.c3.w),
            z: dot4_scaled_exec(a.c0.z, a.c1.z, a.c2.z, a.c3.z, b.c3.x, b.c3.y, b.c3.z, b.c3.w),
            w: dot4_scaled_exec(a.c0.w, a.c1.w, a.c2.w, a.c3.w, b.c3.x, b.c3.y, b.c3.z, b.c3.w),
        },
    }
}

/// Build the perspective projection of a symmetric frustum.
pub fn perspective_mat(near: i64, far: i64, fovy: i64, aspect: i64) -> (r: Matrix4)
    requires
        near < far,
    ensures
        r == perspective_of(near, far, fovy, aspect),
        mbounded(r, SAT_LIMIT as int),
{
    let half = tdiv_i128(fovy as i128, 2) as i64;
    let sc = crate::trig::sin_cos_deg(half);
    let sd: i64 = if sc.0 < 1 {
        1
    } else {
        sc.0
    };
    proof {
        lemma_mul_bounds(sc.1 as int, SCALE as int, SCALE as int, SCALE as int);
        lemma_tdiv_mag((sc.1 as int) * (SCALE as int), sd as int, (0x1_0000 * 0x1_0000) as int);
    }
    let f = tdiv_i128((sc.1 as i128) * (SCALE as i128), sd as i128) as i64;
    let ad: i64 = if aspect < 1 {
        1
    } else {
        aspect
    };
    proof {
        lemma_mul_bounds(f as int, SCALE as int, 0x1_0000_0000, SCALE as int);
        lemma_mul_bounds(far as int + near as int, SCALE as int, 0x1_0000_0000_0000_0000,
            SCALE as int);
        lemma_mul_bounds(2 * (far as int), near as int, 0xffff_ffff_ffff_fffe,
            0x8000_0000_0000_0000);
    }
    let e00 = sat_i128(tdiv_i128((f as i128) * (SCALE as i128), ad as i128));
    let e22 = sat_i128(-tdiv_i128(((far as i128) + (near as i128)) * (SCALE as i128), (far as i128)
        - (near as i128)));
    let e32 = sat_i128(-tdiv_i128(2 * (far as i128) * (near as i128), (far as i128) - (
    near as i128)));
    Matrix4 {
        c0: Vector4 { x: e00, y: 0, z: 0, w: 0 },
        c1: Vector4 { x: 0, y: f, z: 0, w: 0 },
        c2: Vector4 { x: 0, y: 0, z: e22, w: -SCALE },
        c3: Vector4 { x: 0, y: 0, z: e32, w: 0 },
    }
}

} // verus!
