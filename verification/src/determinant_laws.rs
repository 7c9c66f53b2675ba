//! Exact determinants of whole-number matrices, and the laws that they obey.
//!
//! The determinants here are polynomials over the integers: nothing is
//! rounded and nothing is clamped. They are expanded along the first row,
//! as the determinants of scalar matrices are.
use crate::matrix::skip;
use vstd::prelude::*;

verus! {

/// Determinant of the rows `(p, q)` and `(r, s)`.
pub open spec fn d2(p: int, q: int, r: int, s: int) -> int {
    p * s - q * r
}

/// Determinant of the rows `a`, `b` and `c`.
pub open spec fn d3(
    a0: int,
    a1: int,
    a2: int,
    b0: int,
    b1: int,
    b2: int,
    c0: int,
    c1: int,
    c2: int,
) -> int {
    a0 * d2(b1, b2, c1, c2) - a1 * d2(b0, b2, c0, c2) + a2 * d2(b0, b1, c0, c1)
}

/// Determinant of the rows `u`, `v`, `w` and `x`.
pub open spec fn d4(
    u0: int,
    u1: int,
    u2: int,
    u3: int,
    v0: int,
    v1: int,
    v2: int,
    v3: int,
    w0: int,
    w1: int,
    w2: int,
    w3: int,
    x0: int,
    x1: int,
    x2: int,
    x3: int,
) -> int {
    u0 * d3(v1, v2, v3, w1, w2, w3, x1, x2, x3) - u1 * d3(v0, v2, v3, w0, w2, w3, x0, x2, x3) + u2
        * d3(v0, v1, v3, w0, w1, w3, x0, x1, x3) - u3 * d3(v0, v1, v2, w0, w1, w2, x0, x1, x2)
}

proof fn lemma_product_of_difference(u: int, p: int, q: int)
    by (nonlinear_arith)
    ensures
        u * (p - q) == u * p - u * q,
{
}

proof fn lemma_product_of_three(u: int, p: int, q: int, r: int)
    by (nonlinear_arith)
    ensures
        u * (p - q + r) == u * p - u * q + u * r,
{
}

proof fn lemma_factors_change_places(u: int, v: int, x: int)
    by (nonlinear_arith)
    ensures
        u * (v * x) == v * (u * x),
{
}

proof fn lemma_product_with_negative(u: int, p: int)
    by (nonlinear_arith)
    ensures
        u * (-p) == -(u * p),
{
}

/// A determinant of two rows changes its sign when the rows change places.
pub proof fn lemma_d2_rows_swapped(p: int, q: int, r: int, s: int)
    by (nonlinear_arith)
    ensures
        d2(r, s, p, q) == -d2(p, q, r, s),
{
}

/// A determinant of three rows changes its sign when the last two rows
/// change places.
pub proof fn lemma_d3_last_rows_swapped(
    a0: int,
    a1: int,
    a2: int,
    b0: int,
    b1: int,
    b2: int,
    c0: int,
    c1: int,
    c2: int,
)
    ensures
        d3(a0, a1, a2, c0, c1, c2, b0, b1, b2) == -d3(a0, a1, a2, b0, b1, b2, c0, c1, c2),
{
    lemma_d2_rows_swapped(b1, b2, c1, c2);
    lemma_d2_rows_swapped(b0, b2, c0, c2);
    lemma_d2_rows_swapped(b0, b1, c0, c1);
    lemma_product_with_negative(a0, d2(b1, b2, c1, c2));
    lemma_product_with_negative(a1, d2(b0, b2, c0, c2));
    lemma_product_with_negative(a2, d2(b0, b1, c0, c1));
}

/// A determinant of three rows changes its sign when the first two rows
/// change places.
pub proof fn lemma_d3_first_rows_swapped(
    a0: int,
    a1: int,
    a2: int,
    b0: int,
    b1: int,
    b2: int,
    c0: int,
    c1: int,
    c2: int,
)
    ensures
        d3(b0, b1, b2, a0, a1, a2, c0, c1, c2) == -d3(a0, a1, a2, b0, b1, b2, c0, c1, c2),
{
    lemma_product_of_difference(a0, b1 * c2, b2 * c1);
    lemma_product_of_difference(a1, b0 * c2, b2 * c0);
    lemma_product_of_difference(a2, b0 * c1, b1 * c0);
    lemma_product_of_difference(b0, a1 * c2, a2 * c1);
    lemma_product_of_difference(b1, a0 * c2, a2 * c0);
    lemma_product_of_difference(b2, a0 * c1, a1 * c0);
    lemma_factors_change_places(a0, b1, c2);
    lemma_factors_change_places(a0, b2, c1);
    lemma_factors_change_places(a1, b0, c2);
    lemma_factors_change_places(a1, b2, c0);
    lemma_factors_change_places(a2, b0, c1);
    lemma_factors_change_places(a2, b1, c0);
}

/// A determinant of four rows changes its sign when the last two rows
/// change places.
pub proof fn lemma_d4_last_rows_swapped(
    u0: int,
    u1: int,
    u2: int,
    u3: int,
    v0: int,
    v1: int,
    v2: int,
    v3: int,
    w0: int,
    w1: int,
    w2: int,
    w3: int,
    x0: int,
    x1: int,
    x2: int,
    x3: int,
)
    ensures
        d4(u0, u1, u2, u3, v0, v1, v2, v3, x0, x1, x2, x3, w0, w1, w2, w3) == -d4(
            u0, u1, u2, u3, v0, v1, v2, v3, w0, w1, w2, w3, x0, x1, x2, x3,
        ),
{
    lemma_d3_last_rows_swapped(v1, v2, v3, w1, w2, w3, x1, x2, x3);
    lemma_d3_last_rows_swapped(v0, v2, v3, w0, w2, w3, x0, x2, x3);
    lemma_d3_last_rows_swapped(v0, v1, v3, w0, w1, w3, x0, x1, x3);
    lemma_d3_last_rows_swapped(v0, v1, v2, w0, w1, w2, x0, x1, x2);
    lemma_product_with_negative(u0, d3(v1, v2, v3, w1, w2, w3, x1, x2, x3));
    lemma_product_with_negative(u1, d3(v0, v2, v3, w0, w2, w3, x0, x2, x3));
    lemma_product_with_negative(u2, d3(v0, v1, v3, w0, w1, w3, x0, x1, x3));
    lemma_product_with_negative(u3, d3(v0, v1, v2, w0, w1, w2, x0, x1, x2));
}

/// A determinant of four rows changes its sign when the two rows in the
/// middle change places.
pub proof fn lemma_d4_middle_rows_swapped(
    u0: int,
    u1: int,
    u2: int,
    u3: int,
    v0: int,
    v1: int,
    v2: int,
    v3: int,
    w0: int,
    w1: int,
    w2: int,
    w3: int,
    x0: int,
    x1: int,
    x2: int,
    x3: int,
)
    ensures
        d4(u0, u1, u2, u3, w0, w1, w2, w3, v0, v1, v2, v3, x0, x1, x2, x3) == -d4(
            u0, u1, u2, u3, v0, v1, v2, v3, w0, w1, w2, w3, x0, x1, x2, x3,
        ),
{
    lemma_d3_first_rows_swapped(v1, v2, v3, w1, w2, w3, x1, x2, x3);
    lemma_d3_first_rows_swapped(v0, v2, v3, w0, w2, w3, x0, x2, x3);
    lemma_d3_first_rows_swapped(v0, v1, v3, w0, w1, w3, x0, x1, x3);
    lemma_d3_first_rows_swapped(v0, v1, v2, w0, w1, w2, x0, x1, x2);
    lemma_product_with_negative(u0, d3(v1, v2, v3, w1, w2, w3, x1, x2, x3));
    lemma_product_with_negative(u1, d3(v0, v2, v3, w0, w2, w3, x0, x2, x3));
    lemma_product_with_negative(u2, d3(v0, v1, v3, w0, w1, w3, x0, x1, x3));
    lemma_product_with_negative(u3, d3(v0, v1, v2, w0, w1, w2, x0, x1, x2));
}

/// The determinant of four rows, sorted by the minors of the last two
/// rows: `m01` is the determinant of their columns 0 and 1, and so on.
spec fn by_minors(
    u0: int,
    u1: int,
    u2: int,
    u3: int,
    v0: int,
    v1: int,
    v2: int,
    v3: int,
    m01: int,
    m02: int,
    m03: int,
    m12: int,
    m13: int,
    m23: int,
) -> int {
    u0 * (v1 * m23 - v2 * m13 + v3 * m12) - u1 * (v0 * m23 - v2 * m03 + v3 * m02) + u2 * (v0 * m13
        - v1 * m03 + v3 * m01) - u3 * (v0 * m12 - v1 * m02 + v2 * m01)
}

proof fn lemma_by_minors_swapped(
    u0: int,
    u1: int,
    u2: int,
    u3: int,
    v0: int,
    v1: int,
    v2: int,
    v3: int,
    m01: int,
    m02: int,
    m03: int,
    m12: int,
    m13: int,
    m23: int,
)
    ensures
        by_minors(v0, v1, v2, v3, u0, u1, u2, u3, m01, m02, m03, m12, m13, m23) == -by_minors(
            u0, u1, u2, u3, v0, v1, v2, v3, m01, m02, m03, m12, m13, m23,
        ),
{
    lemma_product_of_three(u0, v1 * m23, v2 * m13, v3 * m12);
    lemma_product_of_three(u1, v0 * m23, v2 * m03, v3 * m02);
    lemma_product_of_three(u2, v0 * m13, v1 * m03, v3 * m01);
    lemma_product_of_three(u3, v0 * m12, v1 * m02, v2 * m01);
    lemma_product_of_three(v0, u1 * m23, u2 * m13, u3 * m12);
    lemma_product_of_three(v1, u0 * m23, u2 * m03, u3 * m02);
    lemma_product_of_three(v2, u0 * m13, u1 * m03, u3 * m01);
    lemma_product_of_three(v3, u0 * m12, u1 * m02, u2 * m01);
    lemma_factors_change_places(u0, v1, m23);
    lemma_factors_change_places(u0, v2, m13);
    lemma_factors_change_places(u0, v3, m12);
    lemma_factors_change_places(u1, v0, m23);
    lemma_factors_change_places(u1, v2, m03);
    lemma_factors_change_places(u1, v3, m02);
    lemma_factors_change_places(u2, v0, m13);
    lemma_factors_change_places(u2, v1, m03);
    lemma_factors_change_places(u2, v3, m01);
    lemma_factors_change_places(u3, v0, m12);
    lemma_factors_change_places(u3, v1, m02);
    lemma_factors_change_places(u3, v2, m01);
}

/// A determinant of four rows changes its sign when the first two rows
/// change places.
pub proof fn lemma_d4_first_rows_swapped(
    u0: int,
    u1: int,
    u2: int,
    u3: int,
    v0: int,
    v1: int,
    v2: int,
    v3: int,
    w0: int,
    w1: int,
    w2: int,
    w3: int,
    x0: int,
    x1: int,
    x2: int,
    x3: int,
)
    ensures
        d4(v0, v1, v2, v3, u0, u1, u2, u3, w0, w1, w2, w3, x0, x1, x2, x3) == -d4(
            u0, u1, u2, u3, v0, v1, v2, v3, w0, w1, w2, w3, x0, x1, x2, x3,
        ),
{
    let m01 = d2(w0, w1, x0, x1);
    let m02 = d2(w0, w2, x0, x2);
    let m03 = d2(w0, w3, x0, x3);
    let m12 = d2(w1, w2, x1, x2);
    let m13 = d2(w1, w3, x1, x3);
    let m23 = d2(w2, w3, x2, x3);
    assert(d4(u0, u1, u2, u3, v0, v1, v2, v3, w0, w1, w2, w3, x0, x1, x2, x3) == by_minors(
        u0, u1, u2, u3, v0, v1, v2, v3, m01, m02, m03, m12, m13, m23,
    ));
    assert(d4(v0, v1, v2, v3, u0, u1, u2, u3, w0, w1, w2, w3, x0, x1, x2, x3) == by_minors(
        v0, v1, v2, v3, u0, u1, u2, u3, m01, m02, m03, m12, m13, m23,
    ));
    lemma_by_minors_swapped(u0, u1, u2, u3, v0, v1, v2, v3, m01, m02, m03, m12, m13, m23);
}

/// A determinant of four rows is zero where the first row stands a second
/// time among the others.
pub proof fn lemma_d4_repeated_row(
    u0: int,
    u1: int,
    u2: int,
    u3: int,
    a0: int,
    a1: int,
    a2: int,
    a3: int,
    b0: int,
    b1: int,
    b2: int,
    b3: int,
)
    ensures
        d4(u0, u1, u2, u3, u0, u1, u2, u3, a0, a1, a2, a3, b0, b1, b2, b3) == 0,
        d4(u0, u1, u2, u3, a0, a1, a2, a3, u0, u1, u2, u3, b0, b1, b2, b3) == 0,
        d4(u0, u1, u2, u3, a0, a1, a2, a3, b0, b1, b2, b3, u0, u1, u2, u3) == 0,
{
    lemma_d4_first_rows_swapped(u0, u1, u2, u3, u0, u1, u2, u3, a0, a1, a2, a3, b0, b1, b2, b3);
    lemma_d4_middle_rows_swapped(u0, u1, u2, u3, u0, u1, u2, u3, a0, a1, a2, a3, b0, b1, b2, b3);
    lemma_d4_first_rows_swapped(u0, u1, u2, u3, u0, u1, u2, u3, b0, b1, b2, b3, a0, a1, a2, a3);
    lemma_d4_middle_rows_swapped(u0, u1, u2, u3, u0, u1, u2, u3, b0, b1, b2, b3, a0, a1, a2, a3);
    lemma_d4_last_rows_swapped(u0, u1, u2, u3, a0, a1, a2, a3, u0, u1, u2, u3, b0, b1, b2, b3);
}

/// A determinant of three rows does not change when rows and columns
/// change places.
pub proof fn lemma_d3_transposed(
    a0: int,
    a1: int,
    a2: int,
    b0: int,
    b1: int,
    b2: int,
    c0: int,
    c1: int,
    c2: int,
)
    ensures
        d3(a0, b0, c0, a1, b1, c1, a2, b2, c2) == d3(a0, a1, a2, b0, b1, b2, c0, c1, c2),
{
    lemma_product_of_difference(a0, b1 * c2, b2 * c1);
    lemma_product_of_difference(a1, b0 * c2, b2 * c0);
    lemma_product_of_difference(a2, b0 * c1, b1 * c0);
    lemma_product_of_difference(a0, b1 * c2, c1 * b2);
    lemma_product_of_difference(b0, a1 * c2, c1 * a2);
    lemma_product_of_difference(c0, a1 * b2, b1 * a2);
    assert(b2 * c1 == c1 * b2) by (nonlinear_arith);
    assert(a1 * (b0 * c2) == b0 * (a1 * c2)) by {
        lemma_factors_change_places(a1, b0, c2);
    }
    assert(a1 * (b2 * c0) == c0 * (a1 * b2)) by (nonlinear_arith);
    assert(a2 * (b0 * c1) == b0 * (c1 * a2)) by (nonlinear_arith);
    assert(a2 * (b1 * c0) == c0 * (b1 * a2)) by (nonlinear_arith);
}

/// A determinant of three rows, expanded along its first column.
pub proof fn lemma_d3_by_first_column(
    a0: int,
    a1: int,
    a2: int,
    b0: int,
    b1: int,
    b2: int,
    c0: int,
    c1: int,
    c2: int,
)
    ensures
        d3(a0, a1, a2, b0, b1, b2, c0, c1, c2) == a0 * d2(b1, b2, c1, c2) - b0 * d2(
            a1, a2, c1, c2,
        ) + c0 * d2(a1, a2, b1, b2),
{
    lemma_product_of_difference(a1, b0 * c2, b2 * c0);
    lemma_product_of_difference(a2, b0 * c1, b1 * c0);
    lemma_product_of_difference(b0, a1 * c2, a2 * c1);
    lemma_product_of_difference(c0, a1 * b2, a2 * b1);
    lemma_factors_change_places(a1, b0, c2);
    lemma_factors_change_places(a2, b0, c1);
    assert(a1 * (b2 * c0) == c0 * (a1 * b2)) by (nonlinear_arith);
    assert(a2 * (b1 * c0) == c0 * (a2 * b1)) by (nonlinear_arith);
}

/// A determinant of four rows, expanded along its first column.
pub proof fn lemma_d4_by_first_column(
    u0: int,
    u1: int,
    u2: int,
    u3: int,
    v0: int,
    v1: int,
    v2: int,
    v3: int,
    w0: int,
    w1: int,
    w2: int,
    w3: int,
    x0: int,
    x1: int,
    x2: int,
    x3: int,
)
    ensures
        d4(u0, u1, u2, u3, v0, v1, v2, v3, w0, w1, w2, w3, x0, x1, x2, x3) == u0 * d3(
            v1, v2, v3, w1, w2, w3, x1, x2, x3,
        ) - v0 * d3(u1, u2, u3, w1, w2, w3, x1, x2, x3) + w0 * d3(
            u1, u2, u3, v1, v2, v3, x1, x2, x3,
        ) - x0 * d3(u1, u2, u3, v1, v2, v3, w1, w2, w3),
{
    // The minors of two rows in two of the last three columns.
    let wx23 = d2(w2, w3, x2, x3);
    let wx13 = d2(w1, w3, x1, x3);
    let wx12 = d2(w1, w2, x1, x2);
    let vx23 = d2(v2, v3, x2, x3);
    let vx13 = d2(v1, v3, x1, x3);
    let vx12 = d2(v1, v2, x1, x2);
    let vw23 = d2(v2, v3, w2, w3);
    let vw13 = d2(v1, v3, w1, w3);
    let vw12 = d2(v1, v2, w1, w2);
    // The three determinants that hold the first column, by that column.
    lemma_d3_by_first_column(v0, v2, v3, w0, w2, w3, x0, x2, x3);
    lemma_d3_by_first_column(v0, v1, v3, w0, w1, w3, x0, x1, x3);
    lemma_d3_by_first_column(v0, v1, v2, w0, w1, w2, x0, x1, x2);
    lemma_product_of_three(u1, v0 * wx23, w0 * vx23, x0 * vw23);
    lemma_product_of_three(u2, v0 * wx13, w0 * vx13, x0 * vw13);
    lemma_product_of_three(u3, v0 * wx12, w0 * vx12, x0 * vw12);
    lemma_product_of_three(v0, u1 * wx23, u2 * wx13, u3 * wx12);
    lemma_product_of_three(w0, u1 * vx23, u2 * vx13, u3 * vx12);
    lemma_product_of_three(x0, u1 * vw23, u2 * vw13, u3 * vw12);
    lemma_factors_change_places(u1, v0, wx23);
    lemma_factors_change_places(u1, w0, vx23);
    lemma_factors_change_places(u1, x0, vw23);
    lemma_factors_change_places(u2, v0, wx13);
    lemma_factors_change_places(u2, w0, vx13);
    lemma_factors_change_places(u2, x0, vw13);
    lemma_factors_change_places(u3, v0, wx12);
    lemma_factors_change_places(u3, w0, vx12);
    lemma_factors_change_places(u3, x0, vw12);
}

/// A determinant of four rows does not change when rows and columns change
/// places.
pub proof fn lemma_d4_transposed(
    u0: int,
    u1: int,
    u2: int,
    u3: int,
    v0: int,
    v1: int,
    v2: int,
    v3: int,
    w0: int,
    w1: int,
    w2: int,
    w3: int,
    x0: int,
    x1: int,
    x2: int,
    x3: int,
)
    ensures
        d4(u0, v0, w0, x0, u1, v1, w1, x1, u2, v2, w2, x2, u3, v3, w3, x3) == d4(
            u0, u1, u2, u3, v0, v1, v2, v3, w0, w1, w2, w3, x0, x1, x2, x3,
        ),
{
    lemma_d4_by_first_column(u0, u1, u2, u3, v0, v1, v2, v3, w0, w1, w2, w3, x0, x1, x2, x3);
    lemma_d3_transposed(v1, v2, v3, w1, w2, w3, x1, x2, x3);
    lemma_d3_transposed(u1, u2, u3, w1, w2, w3, x1, x2, x3);
    lemma_d3_transposed(u1, u2, u3, v1, v2, v3, x1, x2, x3);
    lemma_d3_transposed(u1, u2, u3, v1, v2, v3, w1, w2, w3);
}

/// Cell `(i, j)` of the matrix `a` without row `row` and column `col`.
pub open spec fn minor_cell(a: Seq<int>, row: int, col: int, i: int, j: int) -> int {
    a[skip(i, row) * 4 + skip(j, col)]
}

/// The exact minor of cell `(row, col)` of the matrix `a` with four rows.
pub open spec fn exact_minor4(a: Seq<int>, row: int, col: int) -> int {
    d3(
        minor_cell(a, row, col, 0, 0),
        minor_cell(a, row, col, 0, 1),
        minor_cell(a, row, col, 0, 2),
        minor_cell(a, row, col, 1, 0),
        minor_cell(a, row, col, 1, 1),
        minor_cell(a, row, col, 1, 2),
        minor_cell(a, row, col, 2, 0),
        minor_cell(a, row, col, 2, 1),
        minor_cell(a, row, col, 2, 2),
    )
}

/// The exact cofactor of cell `(row, col)`.
pub open spec fn exact_cofactor4(a: Seq<int>, row: int, col: int) -> int {
    if (row + col) % 2 == 0 {
        exact_minor4(a, row, col)
    } else {
        -exact_minor4(a, row, col)
    }
}

/// Row `i` of the matrix `a` times the cofactors of row `k`.
pub open spec fn row_times_cofactors(a: Seq<int>, i: int, k: int) -> int {
    a[i * 4] * exact_cofactor4(a, k, 0) + a[i * 4 + 1] * exact_cofactor4(a, k, 1) + a[i * 4 + 2]
        * exact_cofactor4(a, k, 2) + a[i * 4 + 3] * exact_cofactor4(a, k, 3)
}

/// The exact determinant of the matrix `a` with four rows, expanded along
/// its first row.
pub open spec fn exact_det4(a: Seq<int>) -> int {
    row_times_cofactors(a, 0, 0)
}

proof fn lemma_cofactors_of_row_0(a: Seq<int>, i: int)
    requires
        0 <= i < 4,
    ensures
        row_times_cofactors(a, i, 0) == (if i == 0 {
            exact_det4(a)
        } else {
            0
        }),
{
    assert(exact_minor4(a, 0, 0) == d3(a[5], a[6], a[7], a[9], a[10], a[11], a[13], a[14], a[15]));
    assert(exact_minor4(a, 0, 1) == d3(a[4], a[6], a[7], a[8], a[10], a[11], a[12], a[14], a[15]));
    lemma_product_with_negative(a[i * 4 + 1], exact_minor4(a, 0, 1));
    assert(exact_minor4(a, 0, 2) == d3(a[4], a[5], a[7], a[8], a[9], a[11], a[12], a[13], a[15]));
    assert(exact_minor4(a, 0, 3) == d3(a[4], a[5], a[6], a[8], a[9], a[10], a[12], a[13], a[14]));
    lemma_product_with_negative(a[i * 4 + 3], exact_minor4(a, 0, 3));
    assert(row_times_cofactors(a, i, 0) == d4(
        a[i * 4], a[i * 4 + 1], a[i * 4 + 2], a[i * 4 + 3], a[4], a[5], a[6], a[7], a[8], a[9],
        a[10], a[11], a[12], a[13], a[14], a[15],
    ));
    lemma_exact_det4_unfolded(a);
    if i == 0 {
    } else if i == 1 {
        lemma_d4_repeated_row(
            a[4], a[5], a[6], a[7], a[8], a[9], a[10], a[11], a[12], a[13], a[14], a[15],
        );
    } else if i == 2 {
        lemma_d4_repeated_row(
            a[8], a[9], a[10], a[11], a[4], a[5], a[6], a[7], a[12], a[13], a[14], a[15],
        );
    } else {
        lemma_d4_repeated_row(
            a[12], a[13], a[14], a[15], a[4], a[5], a[6], a[7], a[8], a[9], a[10], a[11],
        );
    }
}

proof fn lemma_cofactors_of_row_1(a: Seq<int>, i: int)
    requires
        0 <= i < 4,
    ensures
        row_times_cofactors(a, i, 1) == (if i == 1 {
            exact_det4(a)
        } else {
            0
        }),
{
    assert(exact_minor4(a, 1, 0) == d3(a[1], a[2], a[3], a[9], a[10], a[11], a[13], a[14], a[15]));
    lemma_product_with_negative(a[i * 4], exact_minor4(a, 1, 0));
    assert(exact_minor4(a, 1, 1) == d3(a[0], a[2], a[3], a[8], a[10], a[11], a[12], a[14], a[15]));
    assert(exact_minor4(a, 1, 2) == d3(a[0], a[1], a[3], a[8], a[9], a[11], a[12], a[13], a[15]));
    lemma_product_with_negative(a[i * 4 + 2], exact_minor4(a, 1, 2));
    assert(exact_minor4(a, 1, 3) == d3(a[0], a[1], a[2], a[8], a[9], a[10], a[12], a[13], a[14]));
    assert(row_times_cofactors(a, i, 1) == -d4(
        a[i * 4], a[i * 4 + 1], a[i * 4 + 2], a[i * 4 + 3], a[0], a[1], a[2], a[3], a[8], a[9],
        a[10], a[11], a[12], a[13], a[14], a[15],
    ));
    lemma_exact_det4_unfolded(a);
    if i == 0 {
        lemma_d4_repeated_row(
            a[0], a[1], a[2], a[3], a[8], a[9], a[10], a[11], a[12], a[13], a[14], a[15],
        );
    } else if i == 1 {
        lemma_d4_first_rows_swapped(
            a[0], a[1], a[2], a[3], a[4], a[5], a[6], a[7], a[8], a[9], a[10], a[11], a[12], a[13],
            a[14], a[15],
        );
    } else if i == 2 {
        lemma_d4_repeated_row(
            a[8], a[9], a[10], a[11], a[0], a[1], a[2], a[3], a[12], a[13], a[14], a[15],
        );
    } else {
        lemma_d4_repeated_row(
            a[12], a[13], a[14], a[15], a[0], a[1], a[2], a[3], a[8], a[9], a[10], a[11],
        );
    }
}

proof fn lemma_cofactors_of_row_2(a: Seq<int>, i: int)
    requires
        0 <= i < 4,
    ensures
        row_times_cofactors(a, i, 2) == (if i == 2 {
            exact_det4(a)
        } else {
            0
        }),
{
    assert(exact_minor4(a, 2, 0) == d3(a[1], a[2], a[3], a[5], a[6], a[7], a[13], a[14], a[15]));
    assert(exact_minor4(a, 2, 1) == d3(a[0], a[2], a[3], a[4], a[6], a[7], a[12], a[14], a[15]));
    lemma_product_with_negative(a[i * 4 + 1], exact_minor4(a, 2, 1));
    assert(exact_minor4(a, 2, 2) == d3(a[0], a[1], a[3], a[4], a[5], a[7], a[12], a[13], a[15]));
    assert(exact_minor4(a, 2, 3) == d3(a[0], a[1], a[2], a[4], a[5], a[6], a[12], a[13], a[14]));
    lemma_product_with_negative(a[i * 4 + 3], exact_minor4(a, 2, 3));
    assert(row_times_cofactors(a, i, 2) == d4(
        a[i * 4], a[i * 4 + 1], a[i * 4 + 2], a[i * 4 + 3], a[0], a[1], a[2], a[3], a[4], a[5],
        a[6], a[7], a[12], a[13], a[14], a[15],
    ));
    lemma_exact_det4_unfolded(a);
    if i == 0 {
        lemma_d4_repeated_row(
            a[0], a[1], a[2], a[3], a[4], a[5], a[6], a[7], a[12], a[13], a[14], a[15],
        );
    } else if i == 1 {
        lemma_d4_repeated_row(
            a[4], a[5], a[6], a[7], a[0], a[1], a[2], a[3], a[12], a[13], a[14], a[15],
        );
    } else if i == 2 {
        lemma_d4_first_rows_swapped(
            a[0], a[1], a[2], a[3], a[8], a[9], a[10], a[11], a[4], a[5], a[6], a[7], a[12], a[13],
            a[14], a[15],
        );
        lemma_d4_middle_rows_swapped(
            a[0], a[1], a[2], a[3], a[4], a[5], a[6], a[7], a[8], a[9], a[10], a[11], a[12], a[13],
            a[14], a[15],
        );
    } else {
        lemma_d4_repeated_row(
            a[12], a[13], a[14], a[15], a[0], a[1], a[2], a[3], a[4], a[5], a[6], a[7],
        );
    }
}

proof fn lemma_cofactors_of_row_3(a: Seq<int>, i: int)
    requires
        0 <= i < 4,
    ensures
        row_times_cofactors(a, i, 3) == (if i == 3 {
            exact_det4(a)
        } else {
            0
        }),
{
    assert(exact_minor4(a, 3, 0) == d3(a[1], a[2], a[3], a[5], a[6], a[7], a[9], a[10], a[11]));
    lemma_product_with_negative(a[i * 4], exact_minor4(a, 3, 0));
    assert(exact_minor4(a, 3, 1) == d3(a[0], a[2], a[3], a[4], a[6], a[7], a[8], a[10], a[11]));
    assert(exact_minor4(a, 3, 2) == d3(a[0], a[1], a[3], a[4], a[5], a[7], a[8], a[9], a[11]));
    lemma_product_with_negative(a[i * 4 + 2], exact_minor4(a, 3, 2));
    assert(exact_minor4(a, 3, 3) == d3(a[0], a[1], a[2], a[4], a[5], a[6], a[8], a[9], a[10]));
    assert(row_times_cofactors(a, i, 3) == -d4(
        a[i * 4], a[i * 4 + 1], a[i * 4 + 2], a[i * 4 + 3], a[0], a[1], a[2], a[3], a[4], a[5],
        a[6], a[7], a[8], a[9], a[10], a[11],
    ));
    lemma_exact_det4_unfolded(a);
    if i == 0 {
        lemma_d4_repeated_row(
            a[0], a[1], a[2], a[3], a[4], a[5], a[6], a[7], a[8], a[9], a[10], a[11],
        );
    } else if i == 1 {
        lemma_d4_repeated_row(
            a[4], a[5], a[6], a[7], a[0], a[1], a[2], a[3], a[8], a[9], a[10], a[11],
        );
    } else if i == 2 {
        lemma_d4_repeated_row(
            a[8], a[9], a[10], a[11], a[0], a[1], a[2], a[3], a[4], a[5], a[6], a[7],
        );
    } else {
        lemma_d4_first_rows_swapped(
            a[0], a[1], a[2], a[3], a[12], a[13], a[14], a[15], a[4], a[5], a[6], a[7], a[8], a[9],
            a[10], a[11],
        );
        lemma_d4_middle_rows_swapped(
            a[0], a[1], a[2], a[3], a[4], a[5], a[6], a[7], a[12], a[13], a[14], a[15], a[8], a[9],
            a[10], a[11],
        );
        lemma_d4_last_rows_swapped(
            a[0], a[1], a[2], a[3], a[4], a[5], a[6], a[7], a[8], a[9], a[10], a[11], a[12], a[13],
            a[14], a[15],
        );
    }
}

/// The adjugate law: a row of a matrix times the cofactors of the same row
/// is the determinant, and times the cofactors of another row it is zero.
pub proof fn lemma_row_times_cofactors(a: Seq<int>, i: int, k: int)
    requires
        0 <= i < 4,
        0 <= k < 4,
    ensures
        row_times_cofactors(a, i, k) == (if i == k {
            exact_det4(a)
        } else {
            0
        }),
{
    if k == 0 {
        lemma_cofactors_of_row_0(a, i);
    } else if k == 1 {
        lemma_cofactors_of_row_1(a, i);
    } else if k == 2 {
        lemma_cofactors_of_row_2(a, i);
    } else {
        lemma_cofactors_of_row_3(a, i);
    }
}

/// The matrix `a` with rows and columns exchanged.
pub open spec fn exact_transpose(a: Seq<int>) -> Seq<int> {
    Seq::new(16, |k: int| a[(k % 4) * 4 + k / 4])
}

/// Column `l` of the matrix `a` times the cofactors of column `j`.
pub open spec fn column_times_cofactors(a: Seq<int>, l: int, j: int) -> int {
    a[l] * exact_cofactor4(a, 0, j) + a[4 + l] * exact_cofactor4(a, 1, j) + a[8 + l]
        * exact_cofactor4(a, 2, j) + a[12 + l] * exact_cofactor4(a, 3, j)
}

proof fn lemma_exact_det4_unfolded(a: Seq<int>)
    ensures
        exact_det4(a) == d4(
            a[0], a[1], a[2], a[3], a[4], a[5], a[6], a[7], a[8], a[9], a[10], a[11], a[12], a[13],
            a[14], a[15],
        ),
{
    lemma_product_with_negative(a[1], exact_minor4(a, 0, 1));
    lemma_product_with_negative(a[3], exact_minor4(a, 0, 3));
}

proof fn lemma_cofactor_of_transpose(a: Seq<int>, row: int, col: int)
    requires
        a.len() == 16,
        0 <= row < 4,
        0 <= col < 4,
    ensures
        exact_cofactor4(exact_transpose(a), col, row) == exact_cofactor4(a, row, col),
{
    let b = exact_transpose(a);
    assert forall|p: int, q: int| 0 <= p < 3 && 0 <= q < 3 implies #[trigger] minor_cell(
        b,
        col,
        row,
        p,
        q,
    ) == minor_cell(a, row, col, q, p) by {
        let k = skip(p, col) * 4 + skip(q, row);
        assert(k % 4 == skip(q, row) && k / 4 == skip(p, col));
        assert(b[k] == a[skip(q, row) * 4 + skip(p, col)]);
    }
    lemma_d3_transposed(
        minor_cell(a, row, col, 0, 0),
        minor_cell(a, row, col, 0, 1),
        minor_cell(a, row, col, 0, 2),
        minor_cell(a, row, col, 1, 0),
        minor_cell(a, row, col, 1, 1),
        minor_cell(a, row, col, 1, 2),
        minor_cell(a, row, col, 2, 0),
        minor_cell(a, row, col, 2, 1),
        minor_cell(a, row, col, 2, 2),
    );
    assert(exact_minor4(b, col, row) == exact_minor4(a, row, col));
}

/// The adjugate law for columns: a column of a matrix times the cofactors
/// of the same column is the determinant, and times the cofactors of
/// another column it is zero.
pub proof fn lemma_column_times_cofactors(a: Seq<int>, l: int, j: int)
    requires
        a.len() == 16,
        0 <= l < 4,
        0 <= j < 4,
    ensures
        column_times_cofactors(a, l, j) == (if l == j {
            exact_det4(a)
        } else {
            0
        }),
{
    let b = exact_transpose(a);
    lemma_cofactor_of_transpose(a, 0, j);
    lemma_cofactor_of_transpose(a, 1, j);
    lemma_cofactor_of_transpose(a, 2, j);
    lemma_cofactor_of_transpose(a, 3, j);
    assert(b[l * 4] == a[l]);
    assert(b[l * 4 + 1] == a[4 + l]);
    assert(b[l * 4 + 2] == a[8 + l]);
    assert(b[l * 4 + 3] == a[12 + l]);
    assert(row_times_cofactors(b, l, j) == column_times_cofactors(a, l, j));
    lemma_row_times_cofactors(b, l, j);
    lemma_exact_det4_unfolded(a);
    lemma_exact_det4_unfolded(b);
    lemma_d4_transposed(
        a[0], a[1], a[2], a[3], a[4], a[5], a[6], a[7], a[8], a[9], a[10], a[11], a[12], a[13],
        a[14], a[15],
    );
}

} // verus!
