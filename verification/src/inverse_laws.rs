//! The inverse of a matrix of whole numbers.
//!
//! Where every cell of a matrix is a whole number of moderate size, nothing
//! is rounded or clamped on the way to its cofactors and its determinant, so
//! that they obey the laws of exact determinants; only the cells of the
//! inverse are rounded, each by less than one raw unit.
use crate::determinant_laws::{
    d2, d3, exact_cofactor4, exact_det4, exact_minor4, lemma_column_times_cofactors,
    lemma_row_times_cofactors, minor_cell,
};
use crate::matrix::{
    applied4, applied_component, cells_approx_eq, cofactor3, cofactor4, det2, det3, det4,
    expansion3, expansion4, identity4, inverse4, invertible4, minor4, product4, product_cell,
    skip, submatrix3, submatrix4, Mat4,
};
use crate::scalar::{approx_eq, magnitude, sat_div, sat_mul, trunc_div};
use crate::scalar_laws::{lemma_mul_commutes, lemma_trunc_div_of_multiple};
use crate::tuple::{Tuple, TupleView};
use vstd::prelude::*;

verus! {

/// Whether the raw count `v` stands for a whole number between `-bound`
/// and `bound`.
pub open spec fn is_whole(v: int, bound: int) -> bool {
    v % 1_000_000_000 == 0 && -bound * 1_000_000_000 <= v <= bound * 1_000_000_000
}

/// Whether `m` is a matrix with four rows whose cells are all whole numbers
/// between `-bound` and `bound`.
pub open spec fn whole_cells(m: Seq<int>, bound: int) -> bool {
    m.len() == 16 && forall|i: int| 0 <= i < 16 ==> is_whole(#[trigger] m[i], bound)
}

/// The whole numbers that the cells of `m` stand for.
pub open spec fn wholes(m: Seq<int>) -> Seq<int> {
    Seq::new(m.len(), |i: int| m[i] / 1_000_000_000)
}

proof fn lemma_product_bound(x: int, y: int, bx: int, by: int)
    by (nonlinear_arith)
    requires
        -bx <= x <= bx,
        -by <= y <= by,
    ensures
        -(bx * by) <= x * y <= bx * by,
{
}

/// The product of two whole numbers is exact.
proof fn lemma_mul_wholes(p: int, q: int)
    requires
        -9_000_000_000 <= p * q <= 9_000_000_000,
    ensures
        sat_mul(p * 1_000_000_000, q * 1_000_000_000) == p * q * 1_000_000_000,
{
    let s = 1_000_000_000int;
    assert((p * s) * (q * s) == (p * q * s) * s) by (nonlinear_arith);
    lemma_trunc_div_of_multiple(p * q * s, s);
}

proof fn lemma_det2_whole(m: Seq<int>, p: int, q: int, r: int, s: int)
    requires
        m[0] == p * 1_000_000_000,
        m[1] == q * 1_000_000_000,
        m[2] == r * 1_000_000_000,
        m[3] == s * 1_000_000_000,
        -100 <= p <= 100,
        -100 <= q <= 100,
        -100 <= r <= 100,
        -100 <= s <= 100,
    ensures
        det2(m) == d2(p, q, r, s) * 1_000_000_000,
        -20_000 <= d2(p, q, r, s) <= 20_000,
{
    lemma_product_bound(p, s, 100, 100);
    lemma_product_bound(q, r, 100, 100);
    lemma_mul_wholes(p, s);
    lemma_mul_wholes(q, r);
}

proof fn lemma_det3_whole(
    m: Seq<int>,
    a0: int,
    a1: int,
    a2: int,
    b0: int,
    b1: int,
    b2: int,
    c0: int,
    c1: int,
    c2: int,
)
    requires
        m.len() == 9,
        m[0] == a0 * 1_000_000_000,
        m[1] == a1 * 1_000_000_000,
        m[2] == a2 * 1_000_000_000,
        m[3] == b0 * 1_000_000_000,
        m[4] == b1 * 1_000_000_000,
        m[5] == b2 * 1_000_000_000,
        m[6] == c0 * 1_000_000_000,
        m[7] == c1 * 1_000_000_000,
        m[8] == c2 * 1_000_000_000,
        -100 <= a0 <= 100,
        -100 <= a1 <= 100,
        -100 <= a2 <= 100,
        -100 <= b0 <= 100,
        -100 <= b1 <= 100,
        -100 <= b2 <= 100,
        -100 <= c0 <= 100,
        -100 <= c1 <= 100,
        -100 <= c2 <= 100,
    ensures
        det3(m) == d3(a0, a1, a2, b0, b1, b2, c0, c1, c2) * 1_000_000_000,
        -6_000_000 <= d3(a0, a1, a2, b0, b1, b2, c0, c1, c2) <= 6_000_000,
{
    let s = 1_000_000_000int;
    let x0 = d2(b1, b2, c1, c2);
    let x1 = d2(b0, b2, c0, c2);
    let x2 = d2(b0, b1, c0, c1);
    lemma_det2_whole(submatrix3(m, 0, 0), b1, b2, c1, c2);
    lemma_det2_whole(submatrix3(m, 0, 1), b0, b2, c0, c2);
    lemma_det2_whole(submatrix3(m, 0, 2), b0, b1, c0, c1);
    assert(cofactor3(m, 0, 0) == x0 * s);
    assert(cofactor3(m, 0, 1) == (-x1) * s);
    assert(cofactor3(m, 0, 2) == x2 * s);
    lemma_product_bound(a0, x0, 100, 20_000);
    lemma_product_bound(a1, -x1, 100, 20_000);
    lemma_product_bound(a2, x2, 100, 20_000);
    lemma_mul_wholes(a0, x0);
    lemma_mul_wholes(a1, -x1);
    lemma_mul_wholes(a2, x2);
    assert(a1 * (-x1) == -(a1 * x1)) by (nonlinear_arith);
    reveal_with_fuel(expansion3, 4);
    assert(expansion3(m, 1) == a0 * x0 * s);
    assert(expansion3(m, 2) == (a0 * x0 - a1 * x1) * s);
    assert(expansion3(m, 3) == (a0 * x0 - a1 * x1 + a2 * x2) * s);
}

proof fn lemma_whole_cell(m: Seq<int>, bound: int, i: int)
    requires
        whole_cells(m, bound),
        0 <= i < 16,
    ensures
        m[i] == wholes(m)[i] * 1_000_000_000,
        -bound <= wholes(m)[i] <= bound,
{
    assert(is_whole(m[i], bound));
}

/// On a matrix of whole numbers every cofactor is exact.
proof fn lemma_cofactor4_whole(m: Seq<int>, row: int, col: int)
    requires
        whole_cells(m, 100),
        0 <= row < 4,
        0 <= col < 4,
    ensures
        cofactor4(m, row, col) == exact_cofactor4(wholes(m), row, col) * 1_000_000_000,
        -6_000_000 <= exact_cofactor4(wholes(m), row, col) <= 6_000_000,
{
    let a = wholes(m);
    let sub = submatrix4(m, row, col);
    lemma_whole_cell(m, 100, skip(0, row) * 4 + skip(0, col));
    assert(sub[0] == minor_cell(a, row, col, 0, 0) * 1_000_000_000);
    lemma_whole_cell(m, 100, skip(0, row) * 4 + skip(1, col));
    assert(sub[1] == minor_cell(a, row, col, 0, 1) * 1_000_000_000);
    lemma_whole_cell(m, 100, skip(0, row) * 4 + skip(2, col));
    assert(sub[2] == minor_cell(a, row, col, 0, 2) * 1_000_000_000);
    lemma_whole_cell(m, 100, skip(1, row) * 4 + skip(0, col));
    assert(sub[3] == minor_cell(a, row, col, 1, 0) * 1_000_000_000);
    lemma_whole_cell(m, 100, skip(1, row) * 4 + skip(1, col));
    assert(sub[4] == minor_cell(a, row, col, 1, 1) * 1_000_000_000);
    lemma_whole_cell(m, 100, skip(1, row) * 4 + skip(2, col));
    assert(sub[5] == minor_cell(a, row, col, 1, 2) * 1_000_000_000);
    lemma_whole_cell(m, 100, skip(2, row) * 4 + skip(0, col));
    assert(sub[6] == minor_cell(a, row, col, 2, 0) * 1_000_000_000);
    lemma_whole_cell(m, 100, skip(2, row) * 4 + skip(1, col));
    assert(sub[7] == minor_cell(a, row, col, 2, 1) * 1_000_000_000);
    lemma_whole_cell(m, 100, skip(2, row) * 4 + skip(2, col));
    assert(sub[8] == minor_cell(a, row, col, 2, 2) * 1_000_000_000);
    lemma_det3_whole(
        sub,
        minor_cell(a, row, col, 0, 0),
        minor_cell(a, row, col, 0, 1),
        minor_cell(a, row, col, 0, 2),
        minor_cell(a, row, col, 1, 0),
        minor_cell(a, row, col, 1, 1),
        minor_cell(a, row, col, 1, 2),
        minor_cell(a, row, col, 2, 0),
        minor_cell(a, row, col, 2, 1),
        minor_cell(a, row, col, 2, 2),
    );
    assert(minor4(m, row, col) == exact_minor4(a, row, col) * 1_000_000_000);
}

/// On a matrix of whole numbers the determinant is exact.
proof fn lemma_det4_whole(m: Seq<int>)
    requires
        whole_cells(m, 100),
    ensures
        det4(m) == exact_det4(wholes(m)) * 1_000_000_000,
        -2_400_000_000 <= exact_det4(wholes(m)) <= 2_400_000_000,
{
    let a = wholes(m);
    let s = 1_000_000_000int;
    let c0 = exact_cofactor4(a, 0, 0);
    let c1 = exact_cofactor4(a, 0, 1);
    let c2 = exact_cofactor4(a, 0, 2);
    let c3 = exact_cofactor4(a, 0, 3);
    lemma_cofactor4_whole(m, 0, 0);
    lemma_cofactor4_whole(m, 0, 1);
    lemma_cofactor4_whole(m, 0, 2);
    lemma_cofactor4_whole(m, 0, 3);
    lemma_whole_cell(m, 100, 0);
    lemma_whole_cell(m, 100, 1);
    lemma_whole_cell(m, 100, 2);
    lemma_whole_cell(m, 100, 3);
    lemma_product_bound(a[0], c0, 100, 6_000_000);
    lemma_product_bound(a[1], c1, 100, 6_000_000);
    lemma_product_bound(a[2], c2, 100, 6_000_000);
    lemma_product_bound(a[3], c3, 100, 6_000_000);
    lemma_mul_wholes(a[0], c0);
    lemma_mul_wholes(a[1], c1);
    lemma_mul_wholes(a[2], c2);
    lemma_mul_wholes(a[3], c3);
    reveal_with_fuel(expansion4, 5);
    assert(expansion4(m, 1) == a[0] * c0 * s);
    assert(expansion4(m, 2) == (a[0] * c0 + a[1] * c1) * s);
    assert(expansion4(m, 3) == (a[0] * c0 + a[1] * c1 + a[2] * c2) * s);
    assert(expansion4(m, 4) == (a[0] * c0 + a[1] * c1 + a[2] * c2 + a[3] * c3) * s);
    assert(exact_det4(a) == a[0] * c0 + a[1] * c1 + a[2] * c2 + a[3] * c3);
}

/// A quotient does not change when dividend and divisor are multiplied by
/// the same positive number.
proof fn lemma_trunc_div_cancel(n: int, d: int, s: int)
    requires
        d != 0,
        s > 0,
    ensures
        trunc_div(n * s, d * s) == trunc_div(n, d),
{
    let nn = magnitude(n);
    let dd = magnitude(d);
    assert(magnitude(n * s) == nn * s && magnitude(d * s) == dd * s && (d * s > 0) == (d > 0) && (n
        * s >= 0) == (n >= 0 || s == 0) && (n == 0 ==> n * s == 0)) by (nonlinear_arith)
        requires
            s > 0,
            nn == magnitude(n),
            dd == magnitude(d),
    ;
    vstd::arithmetic::div_mod::lemma_div_multiples_vanish_quotient(s, nn, dd);
    assert(s * nn == nn * s && s * dd == dd * s) by (nonlinear_arith);
    assert(-(n * s) == (-n) * s && -(d * s) == (-d) * s) by (nonlinear_arith);
}

/// A rounded quotient times the divisor misses the dividend by less than
/// the divisor, and is no larger than the dividend.
proof fn lemma_trunc_div_error(n: int, d: int)
    requires
        d != 0,
    ensures
        -magnitude(d) < trunc_div(n, d) * d - n < magnitude(d),
        -magnitude(n) <= trunc_div(n, d) <= magnitude(n),
{
    let nn = magnitude(n);
    let dd = magnitude(d);
    let q = nn / dd;
    vstd::arithmetic::div_mod::lemma_fundamental_div_mod(nn, dd);
    assert(0 <= nn % dd < dd);
    assert(0 <= q <= nn && q * dd == dd * q) by (nonlinear_arith)
        requires
            nn == dd * q + nn % dd,
            0 <= nn % dd < dd,
            dd >= 1,
            nn >= 0,
    ;
    let t = trunc_div(n, d);
    assert(t == q || t == -q);
    assert(t * d - n == -(nn % dd) || t * d - n == nn % dd) by (nonlinear_arith)
        requires
            nn == q * dd + nn % dd,
            nn == n || nn == -n,
            dd == d || dd == -d,
            (nn == n) == (n >= 0),
            (dd == d) == (d > 0),
            d != 0,
            t == (if (n >= 0) == (d > 0) {
                q
            } else {
                -q
            }),
    ;
}

/// A cell of the inverse of a matrix of whole numbers is the exact
/// cofactor over the exact determinant, rounded by less than one raw unit.
proof fn lemma_inverse_cell_whole(m: Seq<int>, row: int, col: int) -> (t: int)
    requires
        whole_cells(m, 100),
        exact_det4(wholes(m)) != 0,
        0 <= row < 4,
        0 <= col < 4,
    ensures
        t == inverse4(m)[row * 4 + col],
        -magnitude(exact_det4(wholes(m))) < t * exact_det4(wholes(m)) - exact_cofactor4(
            wholes(m),
            col,
            row,
        ) * 1_000_000_000 < magnitude(exact_det4(wholes(m))),
        -6_000_000_000_000_000 <= t <= 6_000_000_000_000_000,
        -magnitude(exact_cofactor4(wholes(m), col, row)) * 1_000_000_000 <= t <= magnitude(
            exact_cofactor4(wholes(m), col, row),
        ) * 1_000_000_000,
{
    let s = 1_000_000_000int;
    let a = wholes(m);
    let c = exact_cofactor4(a, col, row);
    let d = exact_det4(a);
    lemma_cofactor4_whole(m, col, row);
    lemma_det4_whole(m);
    let k = row * 4 + col;
    assert(k % 4 == col && k / 4 == row);
    assert(inverse4(m)[k] == sat_div(cofactor4(m, col, row), det4(m)));
    assert(d * s != 0) by (nonlinear_arith)
        requires
            d != 0,
            s == 1_000_000_000,
    ;
    lemma_trunc_div_cancel(c * s, d, s);
    lemma_trunc_div_error(c * s, d);
    assert(magnitude(c * s) == magnitude(c) * s && magnitude(c * s) <= 6_000_000_000_000_000)
        by (nonlinear_arith)
        requires
            -6_000_000 <= c <= 6_000_000,
            s == 1_000_000_000,
    ;
    trunc_div(c * s, d)
}

/// A whole number times a scalar is exact while it stays in range.
proof fn lemma_whole_times(a: int, t: int)
    requires
        -100 <= a <= 100,
        -6_000_000_000_000_000 <= t <= 6_000_000_000_000_000,
    ensures
        sat_mul(a * 1_000_000_000, t) == a * t,
        -600_000_000_000_000_000 <= a * t <= 600_000_000_000_000_000,
{
    let s = 1_000_000_000int;
    assert((a * s) * t == (a * t) * s) by (nonlinear_arith);
    lemma_trunc_div_of_multiple(a * t, s);
    lemma_product_bound(a, t, 100, 6_000_000_000_000_000);
}

proof fn lemma_small_multiple(d: int, z: int, bound: int)
    by (nonlinear_arith)
    requires
        d != 0,
        bound > 0,
        -(bound * (magnitude(d) - 1)) <= d * z <= bound * (magnitude(d) - 1),
    ensures
        -bound < z < bound,
{
}

proof fn lemma_product_split(d: int, s: int, a: int, t: int, c: int)
    by (nonlinear_arith)
    ensures
        d * (a * t) == a * (t * d - c * s) + (a * c) * s,
{
}

proof fn lemma_product_of_sum(d: int, p0: int, p1: int, p2: int, p3: int)
    by (nonlinear_arith)
    ensures
        d * (p0 + p1 + p2 + p3) == d * p0 + d * p1 + d * p2 + d * p3,
        (p0 + p1 + p2 + p3) * d == p0 * d + p1 * d + p2 * d + p3 * d,
{
}

/// Four whole numbers `a` up to `bound` times four rounded quotients
/// `t = c / d`: where the whole numbers times the dividends `c` add up to
/// the divisor `d` (or to zero), the products with the quotients add up to
/// one (or to zero), up to four times `bound` raw units.
proof fn lemma_rounded_row(
    d: int,
    bound: int,
    a0: int,
    a1: int,
    a2: int,
    a3: int,
    t0: int,
    t1: int,
    t2: int,
    t3: int,
    c0: int,
    c1: int,
    c2: int,
    c3: int,
    diagonal: bool,
)
    requires
        d != 0,
        0 < bound,
        -bound <= a0 <= bound,
        -bound <= a1 <= bound,
        -bound <= a2 <= bound,
        -bound <= a3 <= bound,
        -magnitude(d) < t0 * d - c0 * 1_000_000_000 < magnitude(d),
        -magnitude(d) < t1 * d - c1 * 1_000_000_000 < magnitude(d),
        -magnitude(d) < t2 * d - c2 * 1_000_000_000 < magnitude(d),
        -magnitude(d) < t3 * d - c3 * 1_000_000_000 < magnitude(d),
        a0 * c0 + a1 * c1 + a2 * c2 + a3 * c3 == (if diagonal {
            d
        } else {
            0
        }),
    ensures
        -4 * bound < a0 * t0 + a1 * t1 + a2 * t2 + a3 * t3 - (if diagonal {
            1_000_000_000int
        } else {
            0
        }) < 4 * bound,
{
    let s = 1_000_000_000int;
    let y = a0 * t0 + a1 * t1 + a2 * t2 + a3 * t3;
    let e0 = t0 * d - c0 * s;
    let e1 = t1 * d - c1 * s;
    let e2 = t2 * d - c2 * s;
    let e3 = t3 * d - c3 * s;
    let unit = if diagonal {
        d
    } else {
        0
    };
    let one = if diagonal {
        s
    } else {
        0
    };
    lemma_product_split(d, s, a0, t0, c0);
    lemma_product_split(d, s, a1, t1, c1);
    lemma_product_split(d, s, a2, t2, c2);
    lemma_product_split(d, s, a3, t3, c3);
    lemma_product_of_sum(d, a0 * t0, a1 * t1, a2 * t2, a3 * t3);
    lemma_product_of_sum(s, a0 * c0, a1 * c1, a2 * c2, a3 * c3);
    assert(d * y == a0 * e0 + a1 * e1 + a2 * e2 + a3 * e3 + unit * s);
    let slack = magnitude(d) - 1;
    lemma_product_bound(a0, e0, bound, slack);
    lemma_product_bound(a1, e1, bound, slack);
    lemma_product_bound(a2, e2, bound, slack);
    lemma_product_bound(a3, e3, bound, slack);
    assert(unit * s == d * one) by (nonlinear_arith)
        requires
            unit == d && one == s || unit == 0 && one == 0,
    ;
    assert(d * (y - one) == d * y - d * one) by (nonlinear_arith);
    assert((4 * bound) * slack == bound * slack + bound * slack + bound * slack + bound * slack)
        by (nonlinear_arith);
    lemma_small_multiple(d, y - one, 4 * bound);
}

/// A cell of a matrix of whole numbers times its inverse is the cell of
/// the identity, up to four hundred raw units.
#[verifier::rlimit(50)]
proof fn lemma_product_cell_whole(m: Seq<int>, i: int, k: int)
    requires
        whole_cells(m, 100),
        exact_det4(wholes(m)) != 0,
        0 <= i < 4,
        0 <= k < 4,
    ensures
        approx_eq(product_cell(m, inverse4(m), i, k), identity4()[i * 4 + k]),
{
    let s = 1_000_000_000int;
    let a = wholes(m);
    let d = exact_det4(a);
    let inv = inverse4(m);
    let t0 = lemma_inverse_cell_whole(m, 0, k);
    let t1 = lemma_inverse_cell_whole(m, 1, k);
    let t2 = lemma_inverse_cell_whole(m, 2, k);
    let t3 = lemma_inverse_cell_whole(m, 3, k);
    assert(inv[k] == t0 && inv[4 + k] == t1 && inv[8 + k] == t2 && inv[12 + k] == t3);
    let a0 = a[i * 4];
    let a1 = a[i * 4 + 1];
    let a2 = a[i * 4 + 2];
    let a3 = a[i * 4 + 3];
    lemma_whole_cell(m, 100, i * 4);
    lemma_whole_cell(m, 100, i * 4 + 1);
    lemma_whole_cell(m, 100, i * 4 + 2);
    lemma_whole_cell(m, 100, i * 4 + 3);
    lemma_whole_times(a0, t0);
    lemma_whole_times(a1, t1);
    lemma_whole_times(a2, t2);
    lemma_whole_times(a3, t3);
    assert(sat_mul(m[i * 4], inv[k]) == a0 * t0);
    assert(sat_mul(m[i * 4 + 1], inv[4 + k]) == a1 * t1);
    assert(sat_mul(m[i * 4 + 2], inv[8 + k]) == a2 * t2);
    assert(sat_mul(m[i * 4 + 3], inv[12 + k]) == a3 * t3);
    let y = a0 * t0 + a1 * t1 + a2 * t2 + a3 * t3;
    assert(product_cell(m, inv, i, k) == y);
    let c0 = exact_cofactor4(a, k, 0);
    let c1 = exact_cofactor4(a, k, 1);
    let c2 = exact_cofactor4(a, k, 2);
    let c3 = exact_cofactor4(a, k, 3);
    lemma_row_times_cofactors(a, i, k);
    let unit = if i == k {
        d
    } else {
        0
    };
    assert(a0 * c0 + a1 * c1 + a2 * c2 + a3 * c3 == unit);
    let one = if i == k {
        s
    } else {
        0
    };
    lemma_rounded_row(d, 100, a0, a1, a2, a3, t0, t1, t2, t3, c0, c1, c2, c3, i == k);
    assert(identity4()[i * 4 + k] == one);
}

/// A cell of the inverse of a matrix of whole numbers times the matrix is
/// the cell of the identity, up to four hundred raw units.
#[verifier::rlimit(50)]
proof fn lemma_inverse_product_cell_whole(m: Seq<int>, j: int, l: int)
    requires
        whole_cells(m, 100),
        exact_det4(wholes(m)) != 0,
        0 <= j < 4,
        0 <= l < 4,
    ensures
        approx_eq(product_cell(inverse4(m), m, j, l), identity4()[j * 4 + l]),
{
    let s = 1_000_000_000int;
    let a = wholes(m);
    let d = exact_det4(a);
    let inv = inverse4(m);
    let t0 = lemma_inverse_cell_whole(m, j, 0);
    let t1 = lemma_inverse_cell_whole(m, j, 1);
    let t2 = lemma_inverse_cell_whole(m, j, 2);
    let t3 = lemma_inverse_cell_whole(m, j, 3);
    let a0 = a[l];
    let a1 = a[4 + l];
    let a2 = a[8 + l];
    let a3 = a[12 + l];
    lemma_whole_cell(m, 100, l);
    lemma_whole_cell(m, 100, 4 + l);
    lemma_whole_cell(m, 100, 8 + l);
    lemma_whole_cell(m, 100, 12 + l);
    lemma_whole_times(a0, t0);
    lemma_whole_times(a1, t1);
    lemma_whole_times(a2, t2);
    lemma_whole_times(a3, t3);
    assert(sat_mul(inv[j * 4], m[l]) == a0 * t0) by {
        lemma_mul_commutes(t0, a0 * s);
    }
    assert(sat_mul(inv[j * 4 + 1], m[4 + l]) == a1 * t1) by {
        lemma_mul_commutes(t1, a1 * s);
    }
    assert(sat_mul(inv[j * 4 + 2], m[8 + l]) == a2 * t2) by {
        lemma_mul_commutes(t2, a2 * s);
    }
    assert(sat_mul(inv[j * 4 + 3], m[12 + l]) == a3 * t3) by {
        lemma_mul_commutes(t3, a3 * s);
    }
    let y = a0 * t0 + a1 * t1 + a2 * t2 + a3 * t3;
    assert(product_cell(inv, m, j, l) == y);
    let c0 = exact_cofactor4(a, 0, j);
    let c1 = exact_cofactor4(a, 1, j);
    let c2 = exact_cofactor4(a, 2, j);
    let c3 = exact_cofactor4(a, 3, j);
    lemma_column_times_cofactors(a, l, j);
    let unit = if l == j {
        d
    } else {
        0
    };
    assert(a0 * c0 + a1 * c1 + a2 * c2 + a3 * c3 == unit);
    let one = if l == j {
        s
    } else {
        0
    };
    lemma_rounded_row(d, 100, a0, a1, a2, a3, t0, t1, t2, t3, c0, c1, c2, c3, l == j);
    assert(identity4()[j * 4 + l] == one);
}

/// An invertible matrix of whole numbers times its inverse is the
/// identity, on either side: `m * m.inverse() == identity()` and
/// `m.inverse() * m == identity()` for every matrix that can be inverted
/// and whose cells are whole numbers from -100 to 100.
pub proof fn lemma_whole_matrix_times_inverse(m: Mat4)
    requires
        whole_cells(m@, 100),
        invertible4(m@),
    ensures
        cells_approx_eq(product4(m@, inverse4(m@)), identity4()),
        cells_approx_eq(product4(inverse4(m@), m@), identity4()),
{
    lemma_det4_whole(m@);
    let right = product4(m@, inverse4(m@));
    assert forall|n: int| 0 <= n < 16 implies approx_eq(#[trigger] right[n], identity4()[n]) by {
        lemma_product_cell_whole(m@, n / 4, n % 4);
    }
    let left = product4(inverse4(m@), m@);
    assert forall|n: int| 0 <= n < 16 implies approx_eq(#[trigger] left[n], identity4()[n]) by {
        lemma_inverse_product_cell_whole(m@, n / 4, n % 4);
    }
}

proof fn lemma_d3_small(
    a0: int,
    a1: int,
    a2: int,
    b0: int,
    b1: int,
    b2: int,
    c0: int,
    c1: int,
    c2: int,
)
    requires
        -10 <= a0 <= 10,
        -10 <= a1 <= 10,
        -10 <= a2 <= 10,
        -10 <= b0 <= 10,
        -10 <= b1 <= 10,
        -10 <= b2 <= 10,
        -10 <= c0 <= 10,
        -10 <= c1 <= 10,
        -10 <= c2 <= 10,
    ensures
        -6_000 <= d3(a0, a1, a2, b0, b1, b2, c0, c1, c2) <= 6_000,
{
    lemma_product_bound(b1, c2, 10, 10);
    lemma_product_bound(b2, c1, 10, 10);
    lemma_product_bound(b0, c2, 10, 10);
    lemma_product_bound(b2, c0, 10, 10);
    lemma_product_bound(b0, c1, 10, 10);
    lemma_product_bound(b1, c0, 10, 10);
    lemma_product_bound(a0, d2(b1, b2, c1, c2), 10, 200);
    lemma_product_bound(a1, d2(b0, b2, c0, c2), 10, 200);
    lemma_product_bound(a2, d2(b0, b1, c0, c1), 10, 200);
}

proof fn lemma_cofactor4_small(m: Seq<int>, row: int, col: int)
    requires
        whole_cells(m, 10),
        0 <= row < 4,
        0 <= col < 4,
    ensures
        -6_000 <= exact_cofactor4(wholes(m), row, col) <= 6_000,
{
    let a = wholes(m);
    lemma_whole_cell(m, 10, skip(0, row) * 4 + skip(0, col));
    lemma_whole_cell(m, 10, skip(0, row) * 4 + skip(1, col));
    lemma_whole_cell(m, 10, skip(0, row) * 4 + skip(2, col));
    lemma_whole_cell(m, 10, skip(1, row) * 4 + skip(0, col));
    lemma_whole_cell(m, 10, skip(1, row) * 4 + skip(1, col));
    lemma_whole_cell(m, 10, skip(1, row) * 4 + skip(2, col));
    lemma_whole_cell(m, 10, skip(2, row) * 4 + skip(0, col));
    lemma_whole_cell(m, 10, skip(2, row) * 4 + skip(1, col));
    lemma_whole_cell(m, 10, skip(2, row) * 4 + skip(2, col));
    lemma_d3_small(
        minor_cell(a, row, col, 0, 0),
        minor_cell(a, row, col, 0, 1),
        minor_cell(a, row, col, 0, 2),
        minor_cell(a, row, col, 1, 0),
        minor_cell(a, row, col, 1, 1),
        minor_cell(a, row, col, 1, 2),
        minor_cell(a, row, col, 2, 0),
        minor_cell(a, row, col, 2, 1),
        minor_cell(a, row, col, 2, 2),
    );
}

/// Row `j` of the inverse of a matrix of whole numbers times column `l` of
/// the matrix is one where `j` is `l` and zero where it is not, up to four
/// times the bound of the cells.
proof fn lemma_inverse_row_times_column(m: Seq<int>, bound: int, j: int, l: int) -> (f: int)
    requires
        whole_cells(m, bound),
        0 < bound <= 100,
        exact_det4(wholes(m)) != 0,
        0 <= j < 4,
        0 <= l < 4,
    ensures
        f == wholes(m)[l] * inverse4(m)[j * 4] + wholes(m)[4 + l] * inverse4(m)[j * 4 + 1]
            + wholes(m)[8 + l] * inverse4(m)[j * 4 + 2] + wholes(m)[12 + l] * inverse4(m)[j * 4
            + 3] - (if l == j {
            1_000_000_000int
        } else {
            0
        }),
        -4 * bound < f < 4 * bound,
{
    assert(whole_cells(m, 100)) by {
        assert forall|i: int| 0 <= i < 16 implies is_whole(#[trigger] m[i], 100) by {
            assert(is_whole(m[i], bound));
        }
    }
    let a = wholes(m);
    let d = exact_det4(a);
    let t0 = lemma_inverse_cell_whole(m, j, 0);
    let t1 = lemma_inverse_cell_whole(m, j, 1);
    let t2 = lemma_inverse_cell_whole(m, j, 2);
    let t3 = lemma_inverse_cell_whole(m, j, 3);
    lemma_whole_cell(m, bound, l);
    lemma_whole_cell(m, bound, 4 + l);
    lemma_whole_cell(m, bound, 8 + l);
    lemma_whole_cell(m, bound, 12 + l);
    lemma_column_times_cofactors(a, l, j);
    lemma_rounded_row(
        d,
        bound,
        a[l],
        a[4 + l],
        a[8 + l],
        a[12 + l],
        t0,
        t1,
        t2,
        t3,
        exact_cofactor4(a, 0, j),
        exact_cofactor4(a, 1, j),
        exact_cofactor4(a, 2, j),
        exact_cofactor4(a, 3, j),
        l == j,
    );
    a[l] * t0 + a[4 + l] * t1 + a[8 + l] * t2 + a[12 + l] * t3 - (if l == j {
        1_000_000_000int
    } else {
        0
    })
}

/// Whether every component of the tuple is at most sixty in size.
pub open spec fn within_sixty(p: TupleView) -> bool {
    &&& -60_000_000_000 <= p.x <= 60_000_000_000
    &&& -60_000_000_000 <= p.y <= 60_000_000_000
    &&& -60_000_000_000 <= p.z <= 60_000_000_000
    &&& -60_000_000_000 <= p.w <= 60_000_000_000
}

/// Component `i` of a tuple: `x`, `y`, `z` and `w` are components 0 to 3.
pub open spec fn component(p: TupleView, i: int) -> int {
    if i == 0 {
        p.x
    } else if i == 1 {
        p.y
    } else if i == 2 {
        p.z
    } else {
        p.w
    }
}

/// A small matrix of whole numbers applied to a tuple is exact.
proof fn lemma_applied_whole(m: Seq<int>, p: TupleView, k: int) -> (q: int)
    requires
        whole_cells(m, 10),
        within_sixty(p),
        0 <= k < 4,
    ensures
        q == applied_component(m, p, k),
        q == wholes(m)[k * 4] * p.x + wholes(m)[k * 4 + 1] * p.y + wholes(m)[k * 4 + 2] * p.z
            + wholes(m)[k * 4 + 3] * p.w,
        -2_400_000_000_000 <= q <= 2_400_000_000_000,
{
    let a = wholes(m);
    lemma_whole_cell(m, 10, k * 4);
    lemma_whole_cell(m, 10, k * 4 + 1);
    lemma_whole_cell(m, 10, k * 4 + 2);
    lemma_whole_cell(m, 10, k * 4 + 3);
    lemma_whole_times(a[k * 4], p.x);
    lemma_whole_times(a[k * 4 + 1], p.y);
    lemma_whole_times(a[k * 4 + 2], p.z);
    lemma_whole_times(a[k * 4 + 3], p.w);
    lemma_product_bound(a[k * 4], p.x, 10, 60_000_000_000);
    lemma_product_bound(a[k * 4 + 1], p.y, 10, 60_000_000_000);
    lemma_product_bound(a[k * 4 + 2], p.z, 10, 60_000_000_000);
    lemma_product_bound(a[k * 4 + 3], p.w, 10, 60_000_000_000);
    a[k * 4] * p.x + a[k * 4 + 1] * p.y + a[k * 4 + 2] * p.z + a[k * 4 + 3] * p.w
}

/// A product of two scalars of moderate size is rounded by less than one
/// raw unit and not clamped.
proof fn lemma_rounded_product(t: int, q: int) -> (g: int)
    requires
        -6_000_000_000_000 <= t <= 6_000_000_000_000,
        -2_400_000_000_000 <= q <= 2_400_000_000_000,
    ensures
        g == sat_mul(t, q),
        -1_000_000_000 < g * 1_000_000_000 - t * q < 1_000_000_000,
        -20_000_000_000_000_000 <= g <= 20_000_000_000_000_000,
{
    lemma_product_bound(t, q, 6_000_000_000_000, 2_400_000_000_000);
    lemma_trunc_div_error(t * q, 1_000_000_000);
    trunc_div(t * q, 1_000_000_000)
}

proof fn lemma_factors_turned(t: int, a: int, p: int)
    by (nonlinear_arith)
    ensures
        t * (a * p) == p * (a * t),
{
}

proof fn lemma_product_of_shifted(p: int, f: int, one: int)
    by (nonlinear_arith)
    ensures
        p * (f + one) == p * f + p * one,
{
}

/// The sum over rows of `t` times a row of sums is the sum over columns of
/// `p` times a column of sums.
proof fn lemma_sums_exchanged(
    t0: int,
    t1: int,
    t2: int,
    t3: int,
    p0: int,
    p1: int,
    p2: int,
    p3: int,
    a: Seq<int>,
)
    ensures
        t0 * (a[0] * p0 + a[1] * p1 + a[2] * p2 + a[3] * p3) + t1 * (a[4] * p0 + a[5] * p1 + a[6]
            * p2 + a[7] * p3) + t2 * (a[8] * p0 + a[9] * p1 + a[10] * p2 + a[11] * p3) + t3 * (
        a[12] * p0 + a[13] * p1 + a[14] * p2 + a[15] * p3) == p0 * (a[0] * t0 + a[4] * t1 + a[8]
            * t2 + a[12] * t3) + p1 * (a[1] * t0 + a[5] * t1 + a[9] * t2 + a[13] * t3) + p2 * (a[2]
            * t0 + a[6] * t1 + a[10] * t2 + a[14] * t3) + p3 * (a[3] * t0 + a[7] * t1 + a[11] * t2
            + a[15] * t3),
{
    lemma_product_of_sum(t0, a[0] * p0, a[1] * p1, a[2] * p2, a[3] * p3);
    lemma_product_of_sum(t1, a[4] * p0, a[5] * p1, a[6] * p2, a[7] * p3);
    lemma_product_of_sum(t2, a[8] * p0, a[9] * p1, a[10] * p2, a[11] * p3);
    lemma_product_of_sum(t3, a[12] * p0, a[13] * p1, a[14] * p2, a[15] * p3);
    lemma_product_of_sum(p0, a[0] * t0, a[4] * t1, a[8] * t2, a[12] * t3);
    lemma_product_of_sum(p1, a[1] * t0, a[5] * t1, a[9] * t2, a[13] * t3);
    lemma_product_of_sum(p2, a[2] * t0, a[6] * t1, a[10] * t2, a[14] * t3);
    lemma_product_of_sum(p3, a[3] * t0, a[7] * t1, a[11] * t2, a[15] * t3);
    lemma_factors_turned(t0, a[0], p0);
    lemma_factors_turned(t0, a[1], p1);
    lemma_factors_turned(t0, a[2], p2);
    lemma_factors_turned(t0, a[3], p3);
    lemma_factors_turned(t1, a[4], p0);
    lemma_factors_turned(t1, a[5], p1);
    lemma_factors_turned(t1, a[6], p2);
    lemma_factors_turned(t1, a[7], p3);
    lemma_factors_turned(t2, a[8], p0);
    lemma_factors_turned(t2, a[9], p1);
    lemma_factors_turned(t2, a[10], p2);
    lemma_factors_turned(t2, a[11], p3);
    lemma_factors_turned(t3, a[12], p0);
    lemma_factors_turned(t3, a[13], p1);
    lemma_factors_turned(t3, a[14], p2);
    lemma_factors_turned(t3, a[15], p3);
}

/// A component of a tuple that went through a small matrix of whole
/// numbers and back through its inverse is the component that it was, up to
/// less than the tolerance of approximate equality.
#[verifier::rlimit(50)]
proof fn lemma_there_and_back_component(m: Seq<int>, p: TupleView, j: int)
    requires
        whole_cells(m, 10),
        exact_det4(wholes(m)) != 0,
        within_sixty(p),
        0 <= j < 4,
    ensures
        approx_eq(applied_component(inverse4(m), applied4(m, p), j), component(p, j)),
{
    let s = 1_000_000_000int;
    let a = wholes(m);
    let inv = inverse4(m);
    let q0 = lemma_applied_whole(m, p, 0);
    let q1 = lemma_applied_whole(m, p, 1);
    let q2 = lemma_applied_whole(m, p, 2);
    let q3 = lemma_applied_whole(m, p, 3);
    assert(whole_cells(m, 100)) by {
        assert forall|i: int| 0 <= i < 16 implies is_whole(#[trigger] m[i], 100) by {
            assert(is_whole(m[i], 10));
        }
    }
    let t0 = lemma_inverse_cell_whole(m, j, 0);
    let t1 = lemma_inverse_cell_whole(m, j, 1);
    let t2 = lemma_inverse_cell_whole(m, j, 2);
    let t3 = lemma_inverse_cell_whole(m, j, 3);
    lemma_cofactor4_small(m, 0, j);
    lemma_cofactor4_small(m, 1, j);
    lemma_cofactor4_small(m, 2, j);
    lemma_cofactor4_small(m, 3, j);
    let g0 = lemma_rounded_product(t0, q0);
    let g1 = lemma_rounded_product(t1, q1);
    let g2 = lemma_rounded_product(t2, q2);
    let g3 = lemma_rounded_product(t3, q3);
    let r = g0 + g1 + g2 + g3;
    let q = applied4(m, p);
    assert(applied_component(inv, q, j) == r);
    let f0 = lemma_inverse_row_times_column(m, 10, j, 0);
    let f1 = lemma_inverse_row_times_column(m, 10, j, 1);
    let f2 = lemma_inverse_row_times_column(m, 10, j, 2);
    let f3 = lemma_inverse_row_times_column(m, 10, j, 3);
    lemma_sums_exchanged(t0, t1, t2, t3, p.x, p.y, p.z, p.w, a);
    let one0 = if j == 0 {
        s
    } else {
        0
    };
    let one1 = if j == 1 {
        s
    } else {
        0
    };
    let one2 = if j == 2 {
        s
    } else {
        0
    };
    let one3 = if j == 3 {
        s
    } else {
        0
    };
    lemma_product_of_shifted(p.x, f0, one0);
    lemma_product_of_shifted(p.y, f1, one1);
    lemma_product_of_shifted(p.z, f2, one2);
    lemma_product_of_shifted(p.w, f3, one3);
    assert(p.x * one0 + p.y * one1 + p.z * one2 + p.w * one3 == component(p, j) * s) by {
        assert(p.x * 0 == 0 && p.y * 0 == 0 && p.z * 0 == 0 && p.w * 0 == 0);
    }
    assert(t0 * q0 + t1 * q1 + t2 * q2 + t3 * q3 == p.x * f0 + p.y * f1 + p.z * f2 + p.w * f3
        + component(p, j) * s);
    lemma_product_bound(p.x, f0, 60_000_000_000, 39);
    lemma_product_bound(p.y, f1, 60_000_000_000, 39);
    lemma_product_bound(p.z, f2, 60_000_000_000, 39);
    lemma_product_bound(p.w, f3, 60_000_000_000, 39);
    assert(r * s == g0 * s + g1 * s + g2 * s + g3 * s);
}

/// A tuple that goes through an invertible matrix of whole numbers and
/// back through its inverse comes back to where it was:
/// `m.inverse() * (m * p) == p` for every matrix that can be inverted and
/// whose cells are whole numbers from -10 to 10, and every tuple whose
/// components are at most sixty in size.
pub proof fn lemma_whole_matrix_there_and_back(m: Mat4, p: Tuple)
    requires
        whole_cells(m@, 10),
        invertible4(m@),
        within_sixty(p@),
    ensures
        applied4(inverse4(m@), applied4(m@, p@)).approx_eq(p@),
{
    assert(whole_cells(m@, 100)) by {
        assert forall|i: int| 0 <= i < 16 implies is_whole(#[trigger] m@[i], 100) by {
            assert(is_whole(m@[i], 10));
        }
    }
    lemma_det4_whole(m@);
    lemma_there_and_back_component(m@, p@, 0);
    lemma_there_and_back_component(m@, p@, 1);
    lemma_there_and_back_component(m@, p@, 2);
    lemma_there_and_back_component(m@, p@, 3);
}

} // verus!
