//! Laws of matrices with four rows.
use crate::matrix::{
    applied4, applied_component, cells_approx_eq, cofactor4, det4, expansion3, expansion4,
    identity4, inverse4, invertible4, product4, product_cell, translation4, Mat4,
};
use crate::scalar::{approx_eq, in_range, sat_add, sat_div, sat_mul, sat_neg, Scalar, SCALE};
use crate::scalar_laws::{lemma_div_one, lemma_mul_one, lemma_mul_zero};
use crate::tuple::{Tuple, TupleView};
use vstd::prelude::*;

verus! {

proof fn lemma_identity_cells(m: Seq<int>, row: int, col: int)
    requires
        m.len() == 16,
        forall|i: int| 0 <= i < 16 ==> in_range(#[trigger] m[i]),
        0 <= row < 4,
        0 <= col < 4,
    ensures
        product_cell(m, identity4(), row, col) == m[row * 4 + col],
        product_cell(identity4(), m, row, col) == m[row * 4 + col],
{
    let id = identity4();
    assert forall|j: int| 0 <= j < 4 implies {
        &&& #[trigger] id[j * 4 + col] == (if j == col { SCALE as int } else { 0 })
        &&& id[row * 4 + j] == (if j == row { SCALE as int } else { 0 })
    } by {
    }
    assert(id[col] == id[0 * 4 + col]);
    assert(id[4 + col] == id[1 * 4 + col]);
    assert(id[8 + col] == id[2 * 4 + col]);
    assert(id[12 + col] == id[3 * 4 + col]);
    assert forall|i: int| 0 <= i < 16 implies {
        &&& sat_mul(#[trigger] m[i], 0) == 0
        &&& sat_mul(0, m[i]) == 0
        &&& sat_mul(m[i], SCALE as int) == m[i]
        &&& sat_mul(SCALE as int, m[i]) == m[i]
    } by {
        lemma_mul_zero(m[i]);
        lemma_mul_one(m[i]);
    }
    assert(in_range(m[row * 4 + col]));
}

/// The identity is neutral for the matrix product: `m * identity() == m`
/// and `identity() * m == m`, cell for cell.
pub proof fn lemma_identity_is_neutral(m: Mat4)
    ensures
        product4(m@, identity4()) == m@,
        product4(identity4(), m@) == m@,
        cells_approx_eq(product4(m@, identity4()), m@),
        cells_approx_eq(product4(identity4(), m@), m@),
{
    Mat4::lemma_view_len(m);
    let right = product4(m@, identity4());
    let left = product4(identity4(), m@);
    assert forall|k: int| 0 <= k < 16 implies right[k] == m@[k] && left[k] == m@[k] by {
        let row = k / 4;
        let col = k % 4;
        assert(row * 4 + col == k);
        lemma_identity_cells(m@, row, col);
        assert(right[k] == product_cell(m@, identity4(), row, col));
        assert(left[k] == product_cell(identity4(), m@, row, col));
    }
    assert(right =~= m@);
    assert(left =~= m@);
}

/// A translation adds to every spatial component of a tuple the move along
/// that axis times the tuple's `w`, and leaves `w` as it is.
pub proof fn lemma_translation_moves_by_w(x: Scalar, y: Scalar, z: Scalar, p: Tuple)
    ensures
        applied4(translation4(x@, y@, z@), p@) == (TupleView {
            x: sat_add(p@.x, sat_mul(x@, p@.w)),
            y: sat_add(p@.y, sat_mul(y@, p@.w)),
            z: sat_add(p@.z, sat_mul(z@, p@.w)),
            w: p@.w,
        }),
{
    Scalar::lemma_view_range(x);
    Scalar::lemma_view_range(y);
    Scalar::lemma_view_range(z);
    Tuple::lemma_view_range(p);
    lemma_translation_applied(x@, y@, z@, p@);
}

/// A translation leaves a tuple with `w` zero as it is:
/// `translation(x, y, z) * v == v` for every vector `v` made by
/// `Tuple::vector`.
pub proof fn lemma_translation_keeps_vectors(x: Scalar, y: Scalar, z: Scalar, v: Tuple)
    requires
        v@.w == 0,
    ensures
        applied4(translation4(x@, y@, z@), v@) == v@,
        applied4(translation4(x@, y@, z@), v@).approx_eq(v@),
{
    lemma_translation_moves_by_w(x, y, z, v);
    Tuple::lemma_view_range(v);
    lemma_mul_zero(x@);
    lemma_mul_zero(y@);
    lemma_mul_zero(z@);
}

proof fn lemma_products_with_zero_or_one()
    ensures
        forall|a: int, b: int|
            #![trigger sat_mul(a, b)]
            {
                &&& (a == 0 || b == 0 ==> sat_mul(a, b) == 0)
                &&& (b == SCALE && in_range(a) ==> sat_mul(a, b) == a)
                &&& (a == SCALE && in_range(b) ==> sat_mul(a, b) == b)
            },
{
    assert forall|a: int, b: int| #![trigger sat_mul(a, b)] {
        &&& (a == 0 || b == 0 ==> sat_mul(a, b) == 0)
        &&& (b == SCALE && in_range(a) ==> sat_mul(a, b) == a)
        &&& (a == SCALE && in_range(b) ==> sat_mul(a, b) == b)
    } by {
        if a == 0 {
            lemma_mul_zero(b);
        }
        if b == 0 {
            lemma_mul_zero(a);
        }
        if b == SCALE && in_range(a) {
            lemma_mul_one(a);
        }
        if a == SCALE && in_range(b) {
            lemma_mul_one(b);
        }
    }
}

proof fn lemma_quotients_by_one()
    ensures
        forall|a: int|
            in_range(a) ==> #[trigger] sat_div(a, 1_000_000_000) == a,
{
    assert forall|a: int| in_range(a) implies #[trigger] sat_div(a, 1_000_000_000) == a by {
        lemma_div_one(a);
    }
}

proof fn lemma_translation_inverse_cells(x: int, y: int, z: int)
    requires
        in_range(x),
        in_range(y),
        in_range(z),
    ensures
        det4(translation4(x, y, z)) == SCALE,
        inverse4(translation4(x, y, z)) == translation4(sat_neg(x), sat_neg(y), sat_neg(z)),
{
    lemma_products_with_zero_or_one();
    lemma_quotients_by_one();
    reveal_with_fuel(expansion3, 4);
    reveal_with_fuel(expansion4, 5);
    let t = translation4(x, y, z);
    let one = SCALE as int;
    assert(cofactor4(t, 0, 0) == one);
    assert(cofactor4(t, 0, 1) == 0);
    assert(cofactor4(t, 0, 2) == 0);
    assert(cofactor4(t, 0, 3) == 0);
    assert(det4(t) == one);
    assert(cofactor4(t, 1, 0) == 0);
    assert(cofactor4(t, 1, 1) == one);
    assert(cofactor4(t, 1, 2) == 0);
    assert(cofactor4(t, 1, 3) == 0);
    assert(cofactor4(t, 2, 0) == 0);
    assert(cofactor4(t, 2, 1) == 0);
    assert(cofactor4(t, 2, 2) == one);
    assert(cofactor4(t, 2, 3) == 0);
    assert(cofactor4(t, 3, 0) == sat_neg(x));
    assert(cofactor4(t, 3, 1) == sat_neg(y));
    assert(cofactor4(t, 3, 2) == sat_neg(z));
    assert(cofactor4(t, 3, 3) == one);
    let back = translation4(sat_neg(x), sat_neg(y), sat_neg(z));
    assert forall|k: int| 0 <= k < 16 implies inverse4(t)[k] == back[k] by {
        assert(inverse4(t)[k] == sat_div(cofactor4(t, k % 4, k / 4), det4(t)));
    }
    assert(inverse4(t) =~= back);
}

/// The inverse of a translation is the translation back: every cell of
/// `translation(x, y, z).inverse()` is the cell of
/// `translation(-x, -y, -z)`.
pub proof fn lemma_translation_inverse(x: Scalar, y: Scalar, z: Scalar)
    ensures
        invertible4(translation4(x@, y@, z@)),
        inverse4(translation4(x@, y@, z@)) == translation4(
            sat_neg(x@),
            sat_neg(y@),
            sat_neg(z@),
        ),
{
    Scalar::lemma_view_range(x);
    Scalar::lemma_view_range(y);
    Scalar::lemma_view_range(z);
    lemma_translation_inverse_cells(x@, y@, z@);
}

/// A translation times its inverse is the identity, on either side:
/// `m * m.inverse() == identity()` for every `m = translation(x, y, z)`.
pub proof fn lemma_translation_times_inverse(x: Scalar, y: Scalar, z: Scalar)
    ensures
        cells_approx_eq(
            product4(translation4(x@, y@, z@), inverse4(translation4(x@, y@, z@))),
            identity4(),
        ),
        cells_approx_eq(
            product4(inverse4(translation4(x@, y@, z@)), translation4(x@, y@, z@)),
            identity4(),
        ),
{
    Scalar::lemma_view_range(x);
    Scalar::lemma_view_range(y);
    Scalar::lemma_view_range(z);
    lemma_translation_inverse_cells(x@, y@, z@);
    lemma_products_with_zero_or_one();
    let t = translation4(x@, y@, z@);
    let back = translation4(sat_neg(x@), sat_neg(y@), sat_neg(z@));
    let id = identity4();
    let right = product4(t, back);
    let left = product4(back, t);
    assert forall|k: int| 0 <= k < 16 implies approx_eq(#[trigger] right[k], id[k]) by {
        lemma_translation_product_cell(t, back, x@, y@, z@, k / 4, k % 4);
    }
    assert forall|k: int| 0 <= k < 16 implies approx_eq(#[trigger] left[k], id[k]) by {
        lemma_translation_product_cell(back, t, x@, y@, z@, k / 4, k % 4);
    }
}

proof fn lemma_translation_product_cell(
    a: Seq<int>,
    b: Seq<int>,
    x: int,
    y: int,
    z: int,
    row: int,
    col: int,
)
    requires
        in_range(x),
        in_range(y),
        in_range(z),
        a == translation4(x, y, z) && b == translation4(sat_neg(x), sat_neg(y), sat_neg(z))
            || b == translation4(x, y, z) && a == translation4(sat_neg(x), sat_neg(y), sat_neg(z)),
        0 <= row < 4,
        0 <= col < 4,
    ensures
        approx_eq(product_cell(a, b, row, col), identity4()[row * 4 + col]),
{
    lemma_products_with_zero_or_one();
}

proof fn lemma_translation_applied(x: int, y: int, z: int, p: TupleView)
    requires
        in_range(x),
        in_range(y),
        in_range(z),
        in_range(p.x),
        in_range(p.y),
        in_range(p.z),
        in_range(p.w),
    ensures
        applied4(translation4(x, y, z), p) == (TupleView {
            x: sat_add(p.x, sat_mul(x, p.w)),
            y: sat_add(p.y, sat_mul(y, p.w)),
            z: sat_add(p.z, sat_mul(z, p.w)),
            w: p.w,
        }),
{
    lemma_products_with_zero_or_one();
    let m = translation4(x, y, z);
    assert(applied_component(m, p, 0) == sat_add(p.x, sat_mul(x, p.w)));
    assert(applied_component(m, p, 1) == sat_add(p.y, sat_mul(y, p.w)));
    assert(applied_component(m, p, 2) == sat_add(p.z, sat_mul(z, p.w)));
    assert(applied_component(m, p, 3) == p.w);
}

/// A translation and then its inverse bring a point or a vector back to
/// where it was: `m.inverse() * (m * p) == p` for every
/// `m = translation(x, y, z)` and every `p` made by `Tuple::point` or
/// `Tuple::vector`, as long as the moved point is not clamped.
pub proof fn lemma_translation_there_and_back(x: Scalar, y: Scalar, z: Scalar, p: Tuple)
    requires
        p@.w == 0 || p@.w == SCALE,
        p@.w == SCALE ==> in_range(p@.x + x@) && in_range(p@.y + y@) && in_range(p@.z + z@),
    ensures
        applied4(
            inverse4(translation4(x@, y@, z@)),
            applied4(translation4(x@, y@, z@), p@),
        ).approx_eq(p@),
{
    Scalar::lemma_view_range(x);
    Scalar::lemma_view_range(y);
    Scalar::lemma_view_range(z);
    Tuple::lemma_view_range(p);
    lemma_translation_inverse_cells(x@, y@, z@);
    lemma_translation_applied(x@, y@, z@, p@);
    let moved = applied4(translation4(x@, y@, z@), p@);
    lemma_translation_applied(sat_neg(x@), sat_neg(y@), sat_neg(z@), moved);
    lemma_mul_zero(x@);
    lemma_mul_zero(y@);
    lemma_mul_zero(z@);
    lemma_mul_zero(sat_neg(x@));
    lemma_mul_zero(sat_neg(y@));
    lemma_mul_zero(sat_neg(z@));
    lemma_mul_one(x@);
    lemma_mul_one(y@);
    lemma_mul_one(z@);
    lemma_mul_one(sat_neg(x@));
    lemma_mul_one(sat_neg(y@));
    lemma_mul_one(sat_neg(z@));
}

} // verus!
