//! Fixed-point sine and cosine of Q47.16 angles, in degrees or radians.
//!
//! An angle is reduced to one octant of the circle and the value is taken
//! from a degree-five (sine) or degree-six (cosine) polynomial evaluated in
//! Q.48 radians, then rescaled to Q.16 and clamped into `[-SCALE, SCALE]`.

use crate::fixed::{emod_i128, lemma_mul_bounds, lemma_tdiv_mag, tdiv, tdiv_i128, SCALE};
use vstd::prelude::*;

verus! {

/// A full turn, in Q47.16 degrees.
pub const DEG_FULL: i64 = 23592960;

/// Half a turn, in Q47.16 degrees.
pub const DEG_HALF: i64 = 11796480;

/// A quarter turn, in Q47.16 degrees.
pub const DEG_QUARTER: i64 = 5898240;

/// An eighth of a turn, in Q47.16 degrees.
pub const DEG_EIGHTH: i64 = 2949120;

/// Radians per degree, in Q.32: multiplying a Q.16 degree count by this
/// constant yields Q.48 radians.
pub const DEG2RAD_Q32: i64 = 74961321;

/// Degrees per radian, in Q.16.
pub const RAD2DEG_Q16: i64 = 3754936;

/// One, in Q.48.
pub const ONE_Q48: i128 = 281474976710656;

/// One, in Q.32.
pub const ONE_Q32: i128 = 4294967296;

/// Clamp a raw polynomial value into the Q.16 range of a sine or cosine.
pub open spec fn clamp_unit(v: int) -> int {
    if v < 0 {
        0
    } else if v > SCALE {
        SCALE as int
    } else {
        v
    }
}

/// The sine polynomial `x - x^3/6 + x^5/120` over Q.48 radians.
pub open spec fn sin_poly_q48(x: int) -> int {
    let x2 = tdiv(x * x, ONE_Q48 as int);
    let x3 = tdiv(x2 * x, ONE_Q48 as int);
    let x5 = tdiv(x3 * x2, ONE_Q48 as int);
    x - tdiv(x3, 6) + tdiv(x5, 120)
}

/// The cosine polynomial `1 - x^2/2 + x^4/24 - x^6/720` over Q.48 radians.
pub open spec fn cos_poly_q48(x: int) -> int {
    let x2 = tdiv(x * x, ONE_Q48 as int);
    let x4 = tdiv(x2 * x2, ONE_Q48 as int);
    let x6 = tdiv(x4 * x2, ONE_Q48 as int);
    (ONE_Q48 as int) - tdiv(x2, 2) + tdiv(x4, 24) - tdiv(x6, 720)
}

/// Sine of an angle in the first quarter turn, `0 <= t <= DEG_QUARTER`.
pub open spec fn sin_base(t: int) -> int {
    if t <= DEG_EIGHTH {
        clamp_unit(tdiv(sin_poly_q48(t * DEG2RAD_Q32), ONE_Q32 as int))
    } else {
        clamp_unit(tdiv(cos_poly_q48((DEG_QUARTER - t) * DEG2RAD_Q32), ONE_Q32 as int))
    }
}

/// Cosine of an angle in the first quarter turn, `0 <= t <= DEG_QUARTER`.
pub open spec fn cos_base(t: int) -> int {
    if t <= DEG_EIGHTH {
        clamp_unit(tdiv(cos_poly_q48(t * DEG2RAD_Q32), ONE_Q32 as int))
    } else {
        clamp_unit(tdiv(sin_poly_q48((DEG_QUARTER - t) * DEG2RAD_Q32), ONE_Q32 as int))
    }
}

/// Sine of a reduced angle, `0 <= m < DEG_FULL`.
pub open spec fn sin_mod(m: int) -> int {
    if m < DEG_QUARTER {
        sin_base(m)
    } else if m < DEG_HALF {
        sin_base(DEG_HALF - m)
    } else if m < DEG_HALF + DEG_QUARTER {
        -sin_base(m - DEG_HALF)
    } else {
        -sin_base(DEG_FULL - m)
    }
}

/// Cosine of a reduced angle, `0 <= m < DEG_FULL`.
pub open spec fn cos_mod(m: int) -> int {
    if m < DEG_QUARTER {
        cos_base(m)
    } else if m < DEG_HALF {
        -cos_base(DEG_HALF - m)
    } else if m < DEG_HALF + DEG_QUARTER {
        -cos_base(m - DEG_HALF)
    } else {
        cos_base(DEG_FULL - m)
    }
}

/// Sine of any Q47.16 degree angle.
#[verifier::opaque]
pub open spec fn sin_deg(a: int) -> int {
    sin_mod(a % (DEG_FULL as int))
}

/// Cosine of any Q47.16 degree angle.
#[verifier::opaque]
pub open spec fn cos_deg(a: int) -> int {
    cos_mod(a % (DEG_FULL as int))
}

/// The degree count of a Q47.16 radian angle.
pub open spec fn rad_to_deg(a: int) -> int {
    tdiv(a * RAD2DEG_Q16, SCALE as int)
}

/// Sine of any Q47.16 radian angle.
#[verifier::opaque]
pub open spec fn sin_rad(a: int) -> int {
    sin_deg(rad_to_deg(a))
}

/// Cosine of any Q47.16 radian angle.
#[verifier::opaque]
pub open spec fn cos_rad(a: int) -> int {
    cos_deg(rad_to_deg(a))
}

/// Clamp a raw Q.16 value into `[0, SCALE]`.
fn clamp_unit_exec(v: i128) -> (r: i64)
    ensures
        r == clamp_unit(v as int),
{
    if v < 0 {
        0
    } else if v > SCALE as i128 {
        SCALE
    } else {
        v as i64
    }
}

/// Evaluate both polynomials at an angle within the first eighth of a turn.
fn poly_pair(t: i64) -> (r: (i64, i64))
    requires
        0 <= t <= DEG_EIGHTH,
    ensures
        r.0 == clamp_unit(tdiv(sin_poly_q48(t * DEG2RAD_Q32), ONE_Q32 as int)),
        r.1 == clamp_unit(tdiv(cos_poly_q48(t * DEG2RAD_Q32), ONE_Q32 as int)),
{
    proof {
        lemma_mul_bounds(t as int, DEG2RAD_Q32 as int, 2949120, 74961321);
    }
    let x: i128 = (t as i128) * (DEG2RAD_Q32 as i128);
    proof {
        assert(-221069930987520 <= x <= 221069930987520);
        lemma_mul_bounds(x as int, x as int, 221069930987520, 221069930987520);
        lemma_tdiv_mag(x * x, ONE_Q48 as int, (221069930987520 * 221069930987520) as int);
    }
    let x2: i128 = tdiv_i128(x * x, ONE_Q48);
    proof {
        assert(-173627918751246 <= x2 <= 173627918751246);
        lemma_mul_bounds(x2 as int, x as int, 173627918751246, 221069930987520);
        lemma_tdiv_mag(x2 * x, ONE_Q48 as int, (173627918751246 * 221069930987520) as int);
        lemma_mul_bounds(x2 as int, x2 as int, 173627918751246, 173627918751246);
        lemma_tdiv_mag(x2 * x2, ONE_Q48 as int, (173627918751246 * 173627918751246) as int);
    }
    let x3: i128 = tdiv_i128(x2 * x, ONE_Q48);
    let x4: i128 = tdiv_i128(x2 * x2, ONE_Q48);
    proof {
        assert(-136367049264566 <= x3 <= 136367049264566);
        assert(-107102430639433 <= x4 <= 107102430639433);
        lemma_mul_bounds(x3 as int, x2 as int, 136367049264566, 173627918751246);
        lemma_tdiv_mag(x3 * x2, ONE_Q48 as int, (136367049264566 * 173627918751246) as int);
        lemma_mul_bounds(x4 as int, x2 as int, 107102430639433, 173627918751246);
        lemma_tdiv_mag(x4 * x2, ONE_Q48 as int, (107102430639433 * 173627918751246) as int);
    }
    let x5: i128 = tdiv_i128(x3 * x2, ONE_Q48);
    let x6: i128 = tdiv_i128(x4 * x2, ONE_Q48);
    proof {
        assert(-84118052790157 <= x5 <= 84118052790157);
        assert(-66066164539522 <= x6 <= 66066164539522);
        lemma_tdiv_mag(x3 as int, 6, 136367049264566);
        lemma_tdiv_mag(x5 as int, 120, 84118052790157);
        lemma_tdiv_mag(x2 as int, 2, 173627918751246);
        lemma_tdiv_mag(x4 as int, 24, 107102430639433);
        lemma_tdiv_mag(x6 as int, 720, 66066164539522);
    }
    let s_q48: i128 = x - tdiv_i128(x3, 6) + tdiv_i128(x5, 120);
    let c_q48: i128 = ONE_Q48 - tdiv_i128(x2, 2) + tdiv_i128(x4, 24) - tdiv_i128(x6, 720);
    proof {
        lemma_tdiv_mag(s_q48 as int, ONE_Q32 as int, 500000000000000);
        lemma_tdiv_mag(c_q48 as int, ONE_Q32 as int, 500000000000000);
    }
    let s = clamp_unit_exec(tdiv_i128(s_q48, ONE_Q32));
    let c = clamp_unit_exec(tdiv_i128(c_q48, ONE_Q32));
    (s, c)
}

/// Sine and cosine of an angle within the first quarter turn.
fn sin_cos_base(t: i64) -> (r: (i64, i64))
    requires
        0 <= t <= DEG_QUARTER,
    ensures
        r.0 == sin_base(t as int),
        r.1 == cos_base(t as int),
{
    if t <= DEG_EIGHTH {
        poly_pair(t)
    } else {
        let p = poly_pair(DEG_QUARTER - t);
        (p.1, p.0)
    }
}

/// Sine and cosine of a reduced angle, `0 <= m < DEG_FULL`.
fn sin_cos_mod(m: i64) -> (r: (i64, i64))
    requires
        0 <= m < DEG_FULL,
    ensures
        r.0 == sin_mod(m as int),
        r.1 == cos_mod(m as int),
        -SCALE <= r.0 <= SCALE,
        -SCALE <= r.1 <= SCALE,
{
    if m < DEG_QUARTER {
        sin_cos_base(m)
    } else if m < DEG_HALF {
        let p = sin_cos_base(DEG_HALF - m);
        (p.0, -p.1)
    } else if m < DEG_HALF + DEG_QUARTER {
        let p = sin_cos_base(m - DEG_HALF);
        (-p.0, -p.1)
    } else {
        let p = sin_cos_base(DEG_FULL - m);
        (-p.0, p.1)
    }
}

/// Sine and cosine of any Q47.16 degree angle.
pub fn sin_cos_deg(a: i64) -> (r: (i64, i64))
    ensures
        r.0 == sin_deg(a as int),
        r.1 == cos_deg(a as int),
        -SCALE <= r.0 <= SCALE,
        -SCALE <= r.1 <= SCALE,
{
    proof {
        reveal(sin_deg);
        reveal(cos_deg);
    }
    let m = emod_i128(a as i128, DEG_FULL);
    sin_cos_mod(m)
}

/// Sine and cosine of any Q47.16 radian angle.
pub fn sin_cos_rad(a: i64) -> (r: (i64, i64))
    ensures
        r.0 == sin_rad(a as int),
        r.1 == cos_rad(a as int),
        -SCALE <= r.0 <= SCALE,
        -SCALE <= r.1 <= SCALE,
{
    proof {
        reveal(sin_deg);
        reveal(cos_deg);
        reveal(sin_rad);
        reveal(cos_rad);
        lemma_mul_bounds(a as int, RAD2DEG_Q16 as int, 0x8000_0000_0000_0000, 3754936);
    }
    let d: i128 = tdiv_i128((a as i128) * (RAD2DEG_Q16 as i128), SCALE as i128);
    let m = emod_i128(d, DEG_FULL);
    sin_cos_mod(m)
}

/// A zero angle has sine zero and cosine one.
pub proof fn lemma_sin_cos_deg_zero()
    ensures
        sin_deg(0) == 0,
        cos_deg(0) == SCALE,
{
    reveal(sin_deg);
    reveal(cos_deg);
    assert(0int % (DEG_FULL as int) == 0);
    assert(tdiv(0, ONE_Q48 as int) == 0);
    assert(tdiv(0, ONE_Q32 as int) == 0);
    assert(tdiv(0, 2) == 0 && tdiv(0, 6) == 0 && tdiv(0, 24) == 0 && tdiv(0, 120) == 0 && tdiv(
        0,
        720,
    ) == 0);
    assert(sin_poly_q48(0) == 0);
    assert(cos_poly_q48(0) == ONE_Q48);
    assert(tdiv(ONE_Q48 as int, ONE_Q32 as int) == SCALE);
    assert(sin_base(0) == 0);
    assert(cos_base(0) == SCALE);
}

} // verus!
