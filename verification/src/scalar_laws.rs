//! Laws of scalar arithmetic, stated over raw counts.
use crate::scalar::{in_range, magnitude, sat_div, sat_mul, trunc_div, SCALE};
use vstd::prelude::*;

verus! {

/// Dividing a multiple of `d` by `d` leaves nothing to round.
pub proof fn lemma_trunc_div_of_multiple(a: int, d: int)
    requires
        d > 0,
    ensures
        trunc_div(a * d, d) == a,
{
    let m = magnitude(a);
    assert(magnitude(a * d) == m * d && ((a * d >= 0) == (a >= 0) || a * d == 0))
        by (nonlinear_arith)
        requires
            d > 0,
            m == magnitude(a),
    ;
    assert((m * d) / d == m) by (nonlinear_arith)
        requires
            d > 0,
            m >= 0,
    ;
}

/// One is neutral for the product.
pub proof fn lemma_mul_one(a: int)
    requires
        in_range(a),
    ensures
        sat_mul(a, SCALE as int) == a,
        sat_mul(SCALE as int, a) == a,
{
    lemma_trunc_div_of_multiple(a, SCALE as int);
    assert(SCALE * a == a * SCALE) by (nonlinear_arith);
}

/// A product with zero is zero.
pub proof fn lemma_mul_zero(a: int)
    ensures
        sat_mul(a, 0) == 0,
        sat_mul(0, a) == 0,
{
    assert(a * 0 == 0 && 0 * a == 0) by (nonlinear_arith);
}

/// The product does not depend on the order of its factors.
pub proof fn lemma_mul_commutes(a: int, b: int)
    ensures
        sat_mul(a, b) == sat_mul(b, a),
{
    assert(a * b == b * a) by (nonlinear_arith);
}

/// Dividing by one changes nothing.
pub proof fn lemma_div_one(a: int)
    requires
        in_range(a),
    ensures
        sat_div(a, SCALE as int) == a,
{
    lemma_trunc_div_of_multiple(a, SCALE as int);
}

} // verus!
