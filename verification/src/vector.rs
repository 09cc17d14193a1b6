//! Three- and four-component vectors of Q47.16 fixed-point values.

use crate::fixed::{
    lemma_mul_bounds, lemma_sqrt_floor_ge, lemma_tdiv_scale_le, sat, sat_i128, sqrt_floor, tdiv,
    tdiv_i128, SAT_LIMIT, SCALE,
};
use vstd::prelude::*;

verus! {

/// A vector in three-dimensional space, components in Q47.16.
#[derive(Clone, Copy, Debug, PartialEq, Eq, Structural)]
#[verifier::ext_equal]
pub struct Vector3 {
    pub x: i64,
    pub y: i64,
    pub z: i64,
}

/// A homogeneous vector: a direction when `w == 0`, a point when `w == SCALE`.
#[derive(Clone, Copy, Debug, PartialEq, Eq, Structural)]
#[verifier::ext_equal]
pub struct Vector4 {
    pub x: i64,
    pub y: i64,
    pub z: i64,
    pub w: i64,
}

/// The components of a `Vector3` as unbounded integers.
pub open spec fn v3(v: Vector3) -> (int, int, int) {
    (v.x as int, v.y as int, v.z as int)
}

/// The spatial components of a `Vector4` as unbounded integers.
pub open spec fn v4xyz(v: Vector4) -> (int, int, int) {
    (v.x as int, v.y as int, v.z as int)
}

/// The dot product of two component triples.
pub open spec fn dot3(a: (int, int, int), b: (int, int, int)) -> int {
    a.0 * b.0 + a.1 * b.1 + a.2 * b.2
}

/// The squared Euclidean norm of a component triple.
pub open spec fn normsq3(a: (int, int, int)) -> int {
    a.0 * a.0 + a.1 * a.1 + a.2 * a.2
}

/// Componentwise difference.
pub open spec fn sub3(a: (int, int, int), b: (int, int, int)) -> (int, int, int) {
    (a.0 - b.0, a.1 - b.1, a.2 - b.2)
}

/// Componentwise negation.
pub open spec fn neg3(a: (int, int, int)) -> (int, int, int) {
    (-a.0, -a.1, -a.2)
}

/// Componentwise saturation into the storable range.
pub open spec fn sat3(a: (int, int, int)) -> (int, int, int) {
    (sat(a.0), sat(a.1), sat(a.2))
}

/// All three components within `[-b, b]`.
pub open spec fn bounded3(a: (int, int, int), b: int) -> bool {
    &&& -b <= a.0 <= b
    &&& -b <= a.1 <= b
    &&& -b <= a.2 <= b
}

/// The unit direction of a triple in Q.16: each component is rescaled by the
/// floor square root of the squared norm.  The zero triple is left unchanged.
pub open spec fn unit3(a: (int, int, int)) -> (int, int, int) {
    let n = sqrt_floor(normsq3(a) as nat) as int;
    if n == 0 {
        a
    } else {
        (tdiv(a.0 * SCALE, n), tdiv(a.1 * SCALE, n), tdiv(a.2 * SCALE, n))
    }
}

/// A squared norm is never negative, and vanishes only on the zero triple.
pub proof fn lemma_normsq3_cases(a: (int, int, int))
    ensures
        normsq3(a) >= 0,
        normsq3(a) == 0 ==> a.0 == 0 && a.1 == 0 && a.2 == 0,
{
    assert(0 <= a.0 * a.0 && 0 <= a.1 * a.1 && 0 <= a.2 * a.2) by (nonlinear_arith);
    assert(a.0 != 0 ==> a.0 * a.0 >= 1) by (nonlinear_arith);
    assert(a.1 != 0 ==> a.1 * a.1 >= 1) by (nonlinear_arith);
    assert(a.2 != 0 ==> a.2 * a.2 >= 1) by (nonlinear_arith);
}

impl Vector3 {
    /// Construct a vector from its components.
    pub fn new(x: i64, y: i64, z: i64) -> (r: Vector3)
        ensures
            r == (Vector3 { x, y, z }),
    {
        Vector3 { x, y, z }
    }

    /// The zero vector.
    pub fn zero() -> (r: Vector3)
        ensures
            r == (Vector3 { x: 0i64, y: 0i64, z: 0i64 }),
    {
        Vector3 { x: 0, y: 0, z: 0 }
    }
}

impl Vector4 {
    /// Construct a homogeneous vector from its components.
    pub fn new(x: i64, y: i64, z: i64, w: i64) -> (r: Vector4)
        ensures
            r == (Vector4 { x, y, z, w }),
    {
        Vector4 { x, y, z, w }
    }
}

/// Componentwise difference, saturated into the storable range.
pub fn sub3_sat(a: &Vector3, b: &Vector3) -> (r: Vector3)
    ensures
        v3(r) == sat3(sub3(v3(*a), v3(*b))),
        bounded3(v3(r), SAT_LIMIT as int),
{
    let x = sat_i128((a.x as i128) - (b.x as i128));
    let y = sat_i128((a.y as i128) - (b.y as i128));
    let z = sat_i128((a.z as i128) - (b.z as i128));
    Vector3 { x, y, z }
}

/// The squared Euclidean norm of a bounded vector.
pub fn normsq3_exec(v: &Vector3) -> (r: i128)
    requires
        bounded3(v3(*v), SAT_LIMIT as int),
    ensures
        r == normsq3(v3(*v)),
        r >= 0,
{
    proof {
        lemma_mul_bounds(v.x as int, v.x as int, SAT_LIMIT as int, SAT_LIMIT as int);
        lemma_mul_bounds(v.y as int, v.y as int, SAT_LIMIT as int, SAT_LIMIT as int);
        lemma_mul_bounds(v.z as int, v.z as int, SAT_LIMIT as int, SAT_LIMIT as int);
        assert(0 <= (v.x as int) * (v.x as int)) by (nonlinear_arith);
        assert(0 <= (v.y as int) * (v.y as int)) by (nonlinear_arith);
        assert(0 <= (v.z as int) * (v.z as int)) by (nonlinear_arith);
    }
    (v.x as i128) * (v.x as i128) + (v.y as i128) * (v.y as i128) + (v.z as i128) * (v.z as i128)
}

/// The unit direction of a nonzero bounded vector, in Q.16.
pub fn unit3_exec(v: &Vector3) -> (r: Vector3)
    requires
        bounded3(v3(*v), SAT_LIMIT as int),
    ensures
        v3(r) == unit3(v3(*v)),
        normsq3(v3(*v)) >= 1 ==> bounded3(v3(r), SCALE as int),
{
    let sq = normsq3_exec(v);
    let n = crate::fixed::isqrt_u128(sq as u128) as i128;
    if n == 0 {
        proof {
            let s = sqrt_floor(sq as nat);
            assert((s + 1) * (s + 1) == 1) by (nonlinear_arith)
                requires
                    s == 0,
            ;
        }
        *v
    } else {
        proof {
            let ni = n as int;
            let sqi = normsq3(v3(*v));
            assert((v.x as int) * (v.x as int) <= sqi) by (nonlinear_arith)
                requires
                    sqi == normsq3(v3(*v)),
            ;
            assert((v.y as int) * (v.y as int) <= sqi) by (nonlinear_arith)
                requires
                    sqi == normsq3(v3(*v)),
            ;
            assert((v.z as int) * (v.z as int) <= sqi) by (nonlinear_arith)
                requires
                    sqi == normsq3(v3(*v)),
            ;
            assert((-(v.x as int)) * (-(v.x as int)) == (v.x as int) * (v.x as int))
                by (nonlinear_arith);
            assert((-(v.y as int)) * (-(v.y as int)) == (v.y as int) * (v.y as int))
                by (nonlinear_arith);
            assert((-(v.z as int)) * (-(v.z as int)) == (v.z as int) * (v.z as int))
                by (nonlinear_arith);
            if v.x >= 0 {
                lemma_sqrt_floor_ge(v.x as int, sqi as nat);
            } else {
                lemma_sqrt_floor_ge(-(v.x as int), sqi as nat);
            }
            if v.y >= 0 {
                lemma_sqrt_floor_ge(v.y as int, sqi as nat);
            } else {
                lemma_sqrt_floor_ge(-(v.y as int), sqi as nat);
            }
            if v.z >= 0 {
                lemma_sqrt_floor_ge(v.z as int, sqi as nat);
            } else {
                lemma_sqrt_floor_ge(-(v.z as int), sqi as nat);
            }
            lemma_tdiv_scale_le(v.x as int, SCALE as int, ni);
            lemma_tdiv_scale_le(v.y as int, SCALE as int, ni);
            lemma_tdiv_scale_le(v.z as int, SCALE as int, ni);
            lemma_mul_bounds(v.x as int, SCALE as int, SAT_LIMIT as int, SCALE as int);
            lemma_mul_bounds(v.y as int, SCALE as int, SAT_LIMIT as int, SCALE as int);
            lemma_mul_bounds(v.z as int, SCALE as int, SAT_LIMIT as int, SCALE as int);
        }
        let x = tdiv_i128((v.x as i128) * (SCALE as i128), n) as i64;
        let y = tdiv_i128((v.y as i128) * (SCALE as i128), n) as i64;
        let z = tdiv_i128((v.z as i128) * (SCALE as i128), n) as i64;
        Vector3 { x, y, z }
    }
}

} // verus!
