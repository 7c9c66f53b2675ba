//! Laws of tuple arithmetic.
use crate::root::{floor_sqrt, is_floor_sqrt, lemma_floor_sqrt_exists, lemma_square_monotonic};
use crate::scalar::{approx_eq, magnitude, sat_div, sat_mul, sat_sub, EPSILON_RAW, SCALE};
use crate::scalar_laws::lemma_mul_commutes;
use crate::tuple::{Tuple, TupleView};
use vstd::prelude::*;

verus! {

/// The exact sum of two raw counts leaves the raw range by less than the
/// tolerance of approximate equality, if it leaves it at all.
pub open spec fn sum_in_reach(a: int, b: int) -> bool {
    i64::MIN - EPSILON_RAW < a + b < i64::MAX + EPSILON_RAW
}

/// Every component of the exact sum of two tuples is in reach.
pub open spec fn sums_in_reach(a: TupleView, b: TupleView) -> bool {
    &&& sum_in_reach(a.x, b.x)
    &&& sum_in_reach(a.y, b.y)
    &&& sum_in_reach(a.z, b.z)
    &&& sum_in_reach(a.w, b.w)
}

/// Adding a tuple and taking it away again gives back the first tuple:
/// `a + b - b == a`, as long as no component of the sum is clamped by the
/// tolerance or more.
pub proof fn lemma_add_then_sub(a: Tuple, b: Tuple)
    requires
        sums_in_reach(a@, b@),
    ensures
        a@.plus(b@).minus(b@).approx_eq(a@),
{
    Tuple::lemma_view_range(a);
    Tuple::lemma_view_range(b);
}

/// Where a component of the sum is clamped by the tolerance or more,
/// `a + b - b` is not `a`.
pub proof fn lemma_add_then_sub_out_of_reach(a: Tuple, b: Tuple)
    requires
        !sums_in_reach(a@, b@),
    ensures
        !a@.plus(b@).minus(b@).approx_eq(a@),
{
    Tuple::lemma_view_range(a);
    Tuple::lemma_view_range(b);
}

/// Where no component of the sum is clamped at all, `a + b - b` is exactly
/// `a`.
pub proof fn lemma_add_then_sub_exact(a: Tuple, b: Tuple)
    requires
        i64::MIN <= a@.x + b@.x <= i64::MAX,
        i64::MIN <= a@.y + b@.y <= i64::MAX,
        i64::MIN <= a@.z + b@.z <= i64::MAX,
        i64::MIN <= a@.w + b@.w <= i64::MAX,
    ensures
        a@.plus(b@).minus(b@) == a@,
{
    Tuple::lemma_view_range(a);
    Tuple::lemma_view_range(b);
}

proof fn lemma_difference_flips(p: int, q: int)
    requires
        i64::MIN <= p <= i64::MAX,
        i64::MIN <= q <= i64::MAX,
    ensures
        approx_eq(sat_sub(p, q), sat_sub(0, sat_sub(q, p))),
{
}

/// The cross product changes its sign when its factors change places:
/// `a * b == -(b * a)`.
pub proof fn lemma_cross_anticommutes(a: Tuple, b: Tuple)
    ensures
        a@.cross(b@).approx_eq(b@.cross(a@).negated()),
{
    let u = a@;
    let v = b@;
    lemma_mul_commutes(u.y, v.z);
    lemma_mul_commutes(u.z, v.y);
    lemma_mul_commutes(u.z, v.x);
    lemma_mul_commutes(u.x, v.z);
    lemma_mul_commutes(u.x, v.y);
    lemma_mul_commutes(u.y, v.x);
    lemma_difference_flips(sat_mul(u.y, v.z), sat_mul(u.z, v.y));
    lemma_difference_flips(sat_mul(u.z, v.x), sat_mul(u.x, v.z));
    lemma_difference_flips(sat_mul(u.x, v.y), sat_mul(u.y, v.x));
}

/// The shortest length, in raw units, from which normalizing is known to
/// give a tuple of length one: 0.0001.
pub open spec fn shortest_normalizable() -> int {
    100_000
}

proof fn lemma_bounded_by_root(c: int, n: int, m: int)
    requires
        0 <= m,
        c * c <= n < (m + 1) * (m + 1),
    ensures
        -m <= c <= m,
{
    if c > m {
        lemma_square_monotonic(m + 1, c);
    }
    if c < -m {
        lemma_square_monotonic(m + 1, -c);
        assert((-c) * (-c) == c * c) by (nonlinear_arith);
    }
}

proof fn lemma_quotient_square(c: int, m: int) -> (q: int)
    requires
        1 <= m <= i64::MAX,
        -m <= c <= m,
    ensures
        q == sat_div(c, m),
        -SCALE <= q <= SCALE,
        q * q * (m * m) <= c * c * (SCALE * SCALE),
        q * q * (m * m) >= c * c * (SCALE * SCALE) - 2 * SCALE * (m * m),
{
    let s = SCALE as int;
    let t = magnitude(c) * s;
    let k = t / m;
    assert(magnitude(c * s) == t) by (nonlinear_arith)
        requires
            t == magnitude(c) * s,
            s > 0,
    ;
    assert(k * m <= t < (k + 1) * m && 0 <= k) by (nonlinear_arith)
        requires
            k == t / m,
            m >= 1,
            t >= 0,
    ;
    assert(k <= s) by (nonlinear_arith)
        requires
            k * m <= t,
            t <= m * s,
            m >= 1,
            0 <= k,
            t == magnitude(c) * s,
            magnitude(c) <= m,
            s > 0,
    ;
    let q = sat_div(c, m);
    assert(q == k || q == -k);
    assert(q * q == k * k) by (nonlinear_arith)
        requires
            q == k || q == -k,
    ;
    assert(t * t == c * c * (s * s)) by (nonlinear_arith)
        requires
            t == magnitude(c) * s,
            magnitude(c) == c || magnitude(c) == -c,
    ;
    assert(k * k * (m * m) <= t * t) by (nonlinear_arith)
        requires
            0 <= k * m <= t,
    ;
    assert(k * k * (m * m) >= t * t - 2 * s * (m * m)) by (nonlinear_arith)
        requires
            0 <= k,
            1 <= m,
            0 <= t <= m * s,
            t < (k + 1) * m,
            s > 0,
    ;
    q
}

proof fn lemma_root_below(n: int, r: int, bound: int)
    requires
        is_floor_sqrt(n, r),
        0 <= bound,
        n < bound * bound,
    ensures
        r < bound,
{
    if r >= bound {
        lemma_square_monotonic(bound, r);
    }
}

proof fn lemma_root_at_least(n: int, r: int, bound: int)
    requires
        is_floor_sqrt(n, r),
        0 <= bound,
        bound * bound <= n,
    ensures
        bound <= r,
{
    if r + 1 <= bound {
        lemma_square_monotonic(r + 1, bound);
    }
}

/// A normalized tuple has length one: `a.normalize().magnitude() == 1`, for
/// every tuple whose own length is at least 0.0001 and below the largest
/// scalar.
pub proof fn lemma_normalized_has_unit_magnitude(a: Tuple)
    requires
        shortest_normalizable() <= a@.magnitude() < i64::MAX,
    ensures
        approx_eq(a@.normalized().magnitude(), SCALE as int),
{
    Tuple::lemma_view_range(a);
    let v = a@;
    let s = SCALE as int;
    let n = v.sum_of_squares();
    assert(n >= 0 && v.x * v.x <= n && v.y * v.y <= n && v.z * v.z <= n && v.w * v.w <= n)
        by (nonlinear_arith)
        requires
            n == v.x * v.x + v.y * v.y + v.z * v.z + v.w * v.w,
    ;
    lemma_floor_sqrt_exists(n);
    let m = floor_sqrt(n);
    assert(m == v.magnitude());
    lemma_bounded_by_root(v.x, n, m);
    lemma_bounded_by_root(v.y, n, m);
    lemma_bounded_by_root(v.z, n, m);
    lemma_bounded_by_root(v.w, n, m);
    let qx = lemma_quotient_square(v.x, m);
    let qy = lemma_quotient_square(v.y, m);
    let qz = lemma_quotient_square(v.z, m);
    let qw = lemma_quotient_square(v.w, m);
    let u = v.normalized();
    assert(u == TupleView { x: qx, y: qy, z: qz, w: qw });
    let n2 = u.sum_of_squares();
    let mm = m * m;
    let ss = s * s;
    assert(n2 * mm == qx * qx * mm + qy * qy * mm + qz * qz * mm + qw * qw * mm
        && n * ss == v.x * v.x * ss + v.y * v.y * ss + v.z * v.z * ss + v.w * v.w * ss
        && n2 >= 0) by (nonlinear_arith)
        requires
            n2 == qx * qx + qy * qy + qz * qz + qw * qw,
            n == v.x * v.x + v.y * v.y + v.z * v.z + v.w * v.w,
    ;
    assert(n2 * mm <= n * ss);
    assert(2 * SCALE * (m * m) == 2 * s * mm);
    assert(qx * qx * mm >= v.x * v.x * ss - 2 * s * mm);
    assert(qy * qy * mm >= v.y * v.y * ss - 2 * s * mm);
    assert(qz * qz * mm >= v.z * v.z * ss - 2 * s * mm);
    assert(qw * qw * mm >= v.w * v.w * ss - 2 * s * mm);
    assert(n2 * mm >= n * ss - 8 * s * mm) by (nonlinear_arith)
        requires
            n2 * mm == qx * qx * mm + qy * qy * mm + qz * qz * mm + qw * qw * mm,
            n * ss == v.x * v.x * ss + v.y * v.y * ss + v.z * v.z * ss + v.w * v.w * ss,
            qx * qx * mm >= v.x * v.x * ss - 2 * s * mm,
            qy * qy * mm >= v.y * v.y * ss - 2 * s * mm,
            qz * qz * mm >= v.z * v.z * ss - 2 * s * mm,
            qw * qw * mm >= v.w * v.w * ss - 2 * s * mm,
    ;
    lemma_floor_sqrt_exists(n2);
    let m2 = floor_sqrt(n2);
    // From above: the new length is below one plus the tolerance.
    assert(n2 < (s + EPSILON_RAW) * (s + EPSILON_RAW)) by (nonlinear_arith)
        requires
            n2 * mm <= n * ss,
            n < (m + 1) * (m + 1),
            mm == m * m,
            ss == s * s,
            s == 1_000_000_000,
            EPSILON_RAW == 10_000,
            m >= 100_000,
            n2 >= 0,
    ;
    lemma_root_below(n2, m2, s + EPSILON_RAW);
    // From below: it is above one minus the tolerance.
    assert((s - 5) * (s - 5) <= n2) by (nonlinear_arith)
        requires
            n2 * mm >= n * ss - 8 * s * mm,
            m * m <= n,
            mm == m * m,
            ss == s * s,
            s == 1_000_000_000,
            m >= 100_000,
    ;
    lemma_root_at_least(n2, m2, s - 5);
}

} // verus!
