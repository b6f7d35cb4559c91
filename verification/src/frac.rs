//! Exact fractional unit targets: rationals with an integer numerator and a
//! positive integer denominator, and their floor and ceiling roundings.

use vstd::arithmetic::div_mod::lemma_div_is_ordered;
use vstd::arithmetic::div_mod::lemma_div_multiples_vanish;
use vstd::arithmetic::div_mod::lemma_div_nonincreasing;
use vstd::arithmetic::div_mod::lemma_div_of0;
use vstd::arithmetic::div_mod::lemma_div_pos_is_pos;
use vstd::arithmetic::div_mod::lemma_fundamental_div_mod;
use vstd::arithmetic::div_mod::lemma_fundamental_div_mod_converse;
use vstd::arithmetic::div_mod::lemma_mod_pos_bound;
use vstd::prelude::*;

use crate::model::DEN_MAX;
use crate::model::NUM_MAX;

verus! {

/// The exact rational `num / den`; well-formed values have `den > 0`.
#[derive(Clone, Copy, Debug, PartialEq, Eq, Structural)]
pub struct Frac {
    pub num: i128,
    pub den: i128,
}

/// The fraction has a positive denominator and sits within the bounds that
/// the validity limits of the portfolio force.
pub open spec fn frac_ok(f: Frac) -> bool {
    &&& 0 < f.den <= DEN_MAX
    &&& -NUM_MAX <= f.num <= NUM_MAX
}

/// Floor of `num / den` for `den > 0`; Euclidean division of `int` floors.
pub open spec fn frac_floor(num: int, den: int) -> int {
    num / den
}

/// Ceiling of `num / den` for `den > 0`.
pub open spec fn frac_ceil(num: int, den: int) -> int {
    -((-num) / den)
}

/// Floor of a negated positive rational, written with division of
/// non-negative integers only: `(-a) / d == -((a + d - 1) / d)`.
proof fn lemma_neg_div(a: int, d: int)
    requires
        1 <= a,
        1 <= d,
    ensures
        (-a) / d == -((a + d - 1) / d),
{
    let q = (a + d - 1) / d;
    let r = (a + d - 1) % d;
    lemma_fundamental_div_mod(a + d - 1, d);
    lemma_mod_pos_bound(a + d - 1, d);
    assert(d * (-q) == -(d * q)) by (nonlinear_arith);
    assert(-a == (-q) * d + (d - 1 - r)) by {
        assert(d * q == q * d) by (nonlinear_arith);
    }
    lemma_fundamental_div_mod_converse(-a, d, -q, d - 1 - r);
}

/// The ceiling of `a / d` for positive `a` and `d` is at most `a`.
proof fn lemma_ceil_le_num(a: int, d: int)
    requires
        1 <= a,
        1 <= d,
    ensures
        (a + d - 1) / d <= a,
{
    assert(a + d - 1 <= a * d) by (nonlinear_arith)
        requires
            1 <= a,
            1 <= d,
    ;
    assert(a * d == d * a) by (nonlinear_arith);
    lemma_div_is_ordered(a + d - 1, d * a, d);
    lemma_div_multiples_vanish(a, d);
}

/// Rounding a positive rational either way gives a non-negative integer.
pub proof fn lemma_round_nonneg(num: int, den: int)
    requires
        num > 0,
        den > 0,
    ensures
        frac_floor(num, den) >= 0,
        frac_ceil(num, den) >= 0,
{
    lemma_div_pos_is_pos(num, den);
    lemma_div_is_ordered(-num, 0, den);
    lemma_div_of0(den);
}

/// Computes the floor of `num / den` exactly.
pub fn frac_floor_exec(num: i128, den: i128) -> (r: i128)
    requires
        0 < den <= DEN_MAX,
        -NUM_MAX <= num <= NUM_MAX,
    ensures
        r == frac_floor(num as int, den as int),
        -NUM_MAX <= r <= NUM_MAX,
{
    if num >= 0 {
        let q = (num as u128) / (den as u128);
        proof {
            lemma_div_pos_is_pos(num as int, den as int);
            lemma_div_nonincreasing(num as int, den as int);
        }
        q as i128
    } else {
        let a = (-num) as u128;
        let d = den as u128;
        let q = (a + d - 1) / d;
        proof {
            lemma_neg_div((-num) as int, den as int);
            lemma_ceil_le_num((-num) as int, den as int);
            lemma_div_pos_is_pos((-num) as int + den - 1, den as int);
        }
        -(q as i128)
    }
}

/// Computes the ceiling of `num / den` exactly.
pub fn frac_ceil_exec(num: i128, den: i128) -> (r: i128)
    requires
        0 < den <= DEN_MAX,
        -NUM_MAX <= num <= NUM_MAX,
    ensures
        r == frac_ceil(num as int, den as int),
        -NUM_MAX <= r <= NUM_MAX,
{
    if num > 0 {
        let q = ((num as u128) + (den as u128) - 1) / (den as u128);
        proof {
            lemma_neg_div(num as int, den as int);
            lemma_ceil_le_num(num as int, den as int);
            lemma_div_pos_is_pos(num as int + den - 1, den as int);
        }
        q as i128
    } else {
        let a = (-num) as u128;
        let q = a / (den as u128);
        proof {
            lemma_div_pos_is_pos((-num) as int, den as int);
            lemma_div_nonincreasing((-num) as int, den as int);
        }
        -(q as i128)
    }
}

} // verus!
