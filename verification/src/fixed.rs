//! Q47.16 fixed-point scalars: saturation, truncating division, square roots.

use vstd::arithmetic::div_mod::{
    lemma_div_is_ordered, lemma_div_multiples_vanish, lemma_div_nonincreasing,
    lemma_div_pos_is_pos, lemma_fundamental_div_mod, lemma_fundamental_div_mod_converse_mod,
    lemma_mod_multiples_basic,
};
use vstd::prelude::*;

verus! {

/// Number of fixed-point steps in one unit: values are Q47.16.
pub const SCALE: i64 = 65536;

/// Largest magnitude a stored fixed-point value may take.
pub const SAT_LIMIT: i64 = 0x4000_0000_0000_0000;

/// Clamp an unbounded integer into the representable fixed-point range.
pub open spec fn sat(x: int) -> int {
    if x > SAT_LIMIT {
        SAT_LIMIT as int
    } else if x < -SAT_LIMIT {
        -SAT_LIMIT
    } else {
        x
    }
}

/// Truncating division (quotient rounded toward zero) by a positive divisor.
pub open spec fn tdiv(a: int, d: int) -> int {
    if a >= 0 {
        a / d
    } else {
        -((-a) / d)
    }
}

/// The magnitude of a truncating quotient never exceeds the dividend's.
pub proof fn lemma_tdiv_bound(a: int, d: int, bound: int)
    requires
        d >= 1,
        -bound <= a <= bound,
        0 <= bound,
    ensures
        -bound <= tdiv(a, d) <= bound,
        a >= 0 ==> 0 <= tdiv(a, d) <= a,
        a <= 0 ==> a <= tdiv(a, d) <= 0,
{
    if a >= 0 {
        lemma_div_nonincreasing(a, d);
        lemma_div_pos_is_pos(a, d);
    } else {
        lemma_div_nonincreasing(-a, d);
        lemma_div_pos_is_pos(-a, d);
    }
}

/// A truncating quotient is bounded by the quotient of any bound on the
/// dividend.
pub proof fn lemma_tdiv_mag(a: int, d: int, aa: int)
    requires
        d >= 1,
        -aa <= a <= aa,
        0 <= aa,
    ensures
        -(aa / d) <= tdiv(a, d) <= aa / d,
{
    if a >= 0 {
        lemma_div_is_ordered(a, aa, d);
        lemma_div_pos_is_pos(a, d);
    } else {
        lemma_div_is_ordered(-a, aa, d);
        lemma_div_pos_is_pos(-a, d);
    }
}

/// Bound the product of two bounded factors.
pub proof fn lemma_mul_bounds(a: int, b: int, aa: int, bb: int)
    requires
        -aa <= a <= aa,
        -bb <= b <= bb,
        0 <= aa,
        0 <= bb,
    ensures
        -(aa * bb) <= a * b <= aa * bb,
{
    assert(-(aa * bb) <= a * b <= aa * bb) by (nonlinear_arith)
        requires
            -aa <= a <= aa,
            -bb <= b <= bb,
            0 <= aa,
            0 <= bb,
    ;
}

/// Rescaling a value bounded by the divisor keeps it within one scale unit.
pub proof fn lemma_tdiv_scale_le(c: int, s: int, n: int)
    requires
        1 <= n,
        0 <= s,
        -n <= c <= n,
    ensures
        -s <= tdiv(c * s, n) <= s,
{
    lemma_mul_bounds(c, s, n, s);
    lemma_tdiv_mag(c * s, n, n * s);
    lemma_div_multiples_vanish(s, n);
}

/// A value whose square is bounded by a square is bounded by the root.
pub proof fn lemma_abs_le_of_sq_le(c: int, n: int)
    requires
        c * c <= n * n,
        0 <= n,
    ensures
        -n <= c <= n,
{
    assert(-n <= c <= n) by (nonlinear_arith)
        requires
            c * c <= n * n,
            0 <= n,
    ;
}

/// Truncating division of an `i128` by a positive divisor.
pub fn tdiv_i128(a: i128, d: i128) -> (r: i128)
    requires
        1 <= d,
        i128::MIN < a,
    ensures
        r == tdiv(a as int, d as int),
        a >= 0 ==> 0 <= r <= a,
        a <= 0 ==> a <= r <= 0,
{
    proof {
        lemma_tdiv_bound(a as int, d as int, if a >= 0 { a as int } else { -a as int });
    }
    if a >= 0 {
        ((a as u128) / (d as u128)) as i128
    } else {
        let neg: u128 = (-a) as u128;
        let q: u128 = neg / (d as u128);
        -(q as i128)
    }
}

/// Clamp an `i128` into the storable fixed-point range.
pub fn sat_i128(x: i128) -> (r: i64)
    ensures
        r == sat(x as int),
        -SAT_LIMIT <= r <= SAT_LIMIT,
{
    if x > SAT_LIMIT as i128 {
        SAT_LIMIT
    } else if x < -(SAT_LIMIT as i128) {
        -SAT_LIMIT
    } else {
        x as i64
    }
}

/// `a * b / d` with truncation, saturated into the storable range.
pub fn scale_div(a: i64, b: i64, d: i64) -> (r: i64)
    requires
        1 <= d,
    ensures
        r == sat(tdiv(a * b, d as int)),
{
    proof {
        lemma_mul_bounds(a as int, b as int, 0x8000_0000_0000_0000, 0x8000_0000_0000_0000);
    }
    let p: i128 = (a as i128) * (b as i128);
    let q: i128 = tdiv_i128(p, d as i128);
    sat_i128(q)
}

/// Fixed-point product: `a * b` rescaled by one factor of `SCALE`.
pub fn mul_fp(a: i64, b: i64) -> (r: i64)
    ensures
        r == sat(tdiv(a * b, SCALE as int)),
{
    scale_div(a, b, SCALE)
}

/// The floor of the square root of a natural number.
pub open spec fn sqrt_floor(n: nat) -> nat
    decreases n,
{
    if n == 0 {
        0
    } else {
        let r = sqrt_floor((n - 1) as nat);
        if (r + 1) * (r + 1) <= n {
            r + 1
        } else {
            r
        }
    }
}

/// `sqrt_floor(n)` is the unique natural root: its square is at most `n`,
/// and the next square is beyond `n`.
pub proof fn lemma_sqrt_floor_bounds(n: nat)
    ensures
        sqrt_floor(n) * sqrt_floor(n) <= n,
        n < (sqrt_floor(n) + 1) * (sqrt_floor(n) + 1),
    decreases n,
{
    if n == 0 {
        assert(sqrt_floor(0) == 0);
        let s = sqrt_floor(n);
        assert((s + 1) * (s + 1) == 1) by (nonlinear_arith)
            requires
                s == 0,
        ;
    } else {
        lemma_sqrt_floor_bounds((n - 1) as nat);
        let r = sqrt_floor((n - 1) as nat);
        if (r + 1) * (r + 1) <= n {
            assert(sqrt_floor(n) == r + 1);
            assert(n == (r + 1) * (r + 1));
            assert((r + 1) * (r + 1) < (r + 2) * (r + 2)) by (nonlinear_arith);
            assert(n < (sqrt_floor(n) + 1) * (sqrt_floor(n) + 1));
        } else {
            assert(sqrt_floor(n) == r);
            assert(n < (sqrt_floor(n) + 1) * (sqrt_floor(n) + 1));
        }
    }
}

/// The root of a sum of squares is at least each summand's magnitude.
pub proof fn lemma_sqrt_floor_ge(c: int, sq: nat)
    requires
        0 <= c,
        c * c <= sq,
    ensures
        c <= sqrt_floor(sq),
{
    lemma_sqrt_floor_bounds(sq);
    let s = sqrt_floor(sq);
    if s < c {
        assert((s + 1) * (s + 1) <= c * c) by (nonlinear_arith)
            requires
                s < c,
                0 <= s,
        ;
    }
}

/// Any natural number whose square brackets `n` is `sqrt_floor(n)`.
pub proof fn lemma_sqrt_floor_unique(n: nat, a: nat)
    requires
        a * a <= n,
        n < (a + 1) * (a + 1),
    ensures
        a == sqrt_floor(n),
{
    lemma_sqrt_floor_bounds(n);
    let s = sqrt_floor(n);
    if a < s {
        assert((a + 1) * (a + 1) <= s * s) by (nonlinear_arith)
            requires
                a < s,
        ;
    }
    if s < a {
        assert((s + 1) * (s + 1) <= a * a) by (nonlinear_arith)
            requires
                s < a,
        ;
    }
}

/// The integer square root of a `u128`, by bisection.
pub fn isqrt_u128(n: u128) -> (r: u128)
    ensures
        r == sqrt_floor(n as nat),
        r * r <= n,
        n < (r + 1) * (r + 1),
        r < 0x1_0000_0000_0000_0000,
{
    let mut lo: u128 = 0;
    let mut hi: u128 = 1u128 << 64;
    proof {
        assert((1u128 << 64) == 0x1_0000_0000_0000_0000u128) by (bit_vector);
        assert(n < 0x1_0000_0000_0000_0000 * 0x1_0000_0000_0000_0000) by (nonlinear_arith)
            requires
                n <= u128::MAX,
        ;
    }
    while hi - lo > 1
        invariant
            lo < hi <= 0x1_0000_0000_0000_0000u128,
            lo * lo <= n,
            n < hi * hi,
        decreases hi - lo,
    {
        let mid: u128 = lo + (hi - lo) / 2;
        proof {
            assert(lo < mid < hi);
            assert(mid * mid < 0x1_0000_0000_0000_0000 * 0x1_0000_0000_0000_0000)
                by (nonlinear_arith)
                requires
                    mid < 0x1_0000_0000_0000_0000u128,
            ;
        }
        if mid * mid <= n {
            lo = mid;
        } else {
            hi = mid;
        }
    }
    proof {
        assert(hi == lo + 1);
        lemma_sqrt_floor_unique(n as nat, lo as nat);
    }
    lo
}

/// Euclidean remainder of an `i128` by a positive `i64` modulus.
pub fn emod_i128(a: i128, m: i64) -> (r: i64)
    requires
        1 <= m,
        i128::MIN < a,
    ensures
        r == (a as int) % (m as int),
        0 <= r < m,
{
    if a >= 0 {
        ((a as u128) % (m as u128)) as i64
    } else {
        let neg: u128 = (-a) as u128;
        let t: u128 = neg % (m as u128);
        proof {
            let ai = a as int;
            let mi = m as int;
            let na = -ai;
            assert(neg == na);
            let q = na / mi;
            lemma_fundamental_div_mod(na, mi);
            assert(na == mi * q + na % mi);
            assert(t == na % mi);
            assert(ai == (-q) * mi - (t as int)) by (nonlinear_arith)
                requires
                    -ai == mi * q + t,
            ;
            if t == 0 {
                lemma_fundamental_div_mod_converse_mod(ai, mi, -q, 0);
            } else {
                assert(ai == (-q - 1) * mi + (mi - (t as int))) by (nonlinear_arith)
                    requires
                        ai == (-q) * mi - (t as int),
                ;
                lemma_fundamental_div_mod_converse_mod(ai, mi, -q - 1, mi - (t as int));
            }
        }
        if t == 0 {
            0
        } else {
            m - (t as i64)
        }
    }
}

} // verus!
