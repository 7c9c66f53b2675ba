//! Tuples of four scalars in homogeneous coordinates: points have `w` one,
//! vectors have `w` zero.
use crate::root::{floor_sqrt, isqrt, lemma_floor_sqrt_exists, lemma_square_monotonic};
use crate::scalar::{
    approx_eq, in_range, sat_add, sat_div, sat_mul, sat_sub, saturate, Scalar, SCALE,
};
use crate::text::{push_two_places, two_places};
use vstd::prelude::*;
use vstd::string::StringExecFns;

verus! {

/// The four components of a tuple as raw counts of billionths.
pub struct TupleView {
    pub x: int,
    pub y: int,
    pub z: int,
    pub w: int,
}

impl TupleView {
    /// The tuple with all components zero.
    pub open spec fn zero() -> TupleView {
        TupleView { x: 0, y: 0, z: 0, w: 0 }
    }

    /// Whether the tuple is a point: `w` is approximately one.
    pub open spec fn is_point(self) -> bool {
        approx_eq(self.w, SCALE as int)
    }

    /// Whether the tuple is a vector: `w` is approximately zero.
    pub open spec fn is_vector(self) -> bool {
        approx_eq(self.w, 0)
    }

    /// Component-wise sum.
    pub open spec fn plus(self, other: TupleView) -> TupleView {
        TupleView {
            x: sat_add(self.x, other.x),
            y: sat_add(self.y, other.y),
            z: sat_add(self.z, other.z),
            w: sat_add(self.w, other.w),
        }
    }

    /// Component-wise difference.
    pub open spec fn minus(self, other: TupleView) -> TupleView {
        TupleView {
            x: sat_sub(self.x, other.x),
            y: sat_sub(self.y, other.y),
            z: sat_sub(self.z, other.z),
            w: sat_sub(self.w, other.w),
        }
    }

    /// The negated tuple: zero minus the tuple.
    pub open spec fn negated(self) -> TupleView {
        TupleView::zero().minus(self)
    }

    /// Every component multiplied by the scalar with raw count `k`.
    pub open spec fn scaled(self, k: int) -> TupleView {
        TupleView {
            x: sat_mul(self.x, k),
            y: sat_mul(self.y, k),
            z: sat_mul(self.z, k),
            w: sat_mul(self.w, k),
        }
    }

    /// Every component divided by the scalar with raw count `k`.
    pub open spec fn divided(self, k: int) -> TupleView {
        TupleView {
            x: sat_div(self.x, k),
            y: sat_div(self.y, k),
            z: sat_div(self.z, k),
            w: sat_div(self.w, k),
        }
    }

    /// The dot product, summed from `x` to `w`.
    pub open spec fn dot(self, other: TupleView) -> int {
        sat_add(
            sat_add(
                sat_add(sat_mul(self.x, other.x), sat_mul(self.y, other.y)),
                sat_mul(self.z, other.z),
            ),
            sat_mul(self.w, other.w),
        )
    }

    /// The cross product of the spatial components. The result is a vector
    /// whatever `w` the two tuples have.
    pub open spec fn cross(self, other: TupleView) -> TupleView {
        TupleView {
            x: sat_sub(sat_mul(self.y, other.z), sat_mul(self.z, other.y)),
            y: sat_sub(sat_mul(self.z, other.x), sat_mul(self.x, other.z)),
            z: sat_sub(sat_mul(self.x, other.y), sat_mul(self.y, other.x)),
            w: 0,
        }
    }

    /// The exact sum of the squares of the four raw counts.
    pub open spec fn sum_of_squares(self) -> int {
        self.x * self.x + self.y * self.y + self.z * self.z + self.w * self.w
    }

    /// The length of the tuple: the square root of the sum of the squares of
    /// its components, rounded down to a whole count of raw units.
    pub open spec fn magnitude(self) -> int {
        saturate(floor_sqrt(self.sum_of_squares()))
    }

    /// The tuple divided by its length.
    pub open spec fn normalized(self) -> TupleView {
        self.divided(self.magnitude())
    }

    /// Every component of one tuple is approximately the component of the
    /// other.
    pub open spec fn approx_eq(self, other: TupleView) -> bool {
        &&& approx_eq(self.x, other.x)
        &&& approx_eq(self.y, other.y)
        &&& approx_eq(self.z, other.z)
        &&& approx_eq(self.w, other.w)
    }

    /// The spatial components with two decimal places each, in round
    /// brackets: `(x, y, z)`.
    pub open spec fn text(self) -> Seq<char> {
        seq!['('] + two_places(self.x) + seq![',', ' '] + two_places(self.y) + seq![',', ' ']
            + two_places(self.z) + seq![')']
    }
}

/// A point or a vector in space.
#[derive(Clone, Copy, Debug)]
pub struct Tuple {
    x: Scalar,
    y: Scalar,
    z: Scalar,
    w: Scalar,
}

impl View for Tuple {
    type V = TupleView;

    closed spec fn view(&self) -> TupleView {
        TupleView { x: self.x@, y: self.y@, z: self.z@, w: self.w@ }
    }
}

fn square(v: i64) -> (r: u128)
    ensures
        r == v * v,
        r <= 0x4000_0000_0000_0000_0000_0000_0000_0000,
{
    let m: u128 = if v >= 0 {
        v as u128
    } else {
        (-(v as i128)) as u128
    };
    assert(m * m == v * v && m * m <= 0x4000_0000_0000_0000_0000_0000_0000_0000)
        by (nonlinear_arith)
        requires
            m == v || m == -v,
            0 <= m <= 0x8000_0000_0000_0000,
    ;
    m * m
}

impl Tuple {
    /// The tuple with the given components.
    pub fn new(x: Scalar, y: Scalar, z: Scalar, w: Scalar) -> (t: Tuple)
        ensures
            t@ == (TupleView { x: x@, y: y@, z: z@, w: w@ }),
    {
        Tuple { x, y, z, w }
    }

    /// The point at the given coordinates.
    pub fn point(x: Scalar, y: Scalar, z: Scalar) -> (t: Tuple)
        ensures
            t@ == (TupleView { x: x@, y: y@, z: z@, w: SCALE as int }),
    {
        Tuple::new(x, y, z, Scalar::one())
    }

    /// The vector with the given components.
    pub fn vector(x: Scalar, y: Scalar, z: Scalar) -> (t: Tuple)
        ensures
            t@ == (TupleView { x: x@, y: y@, z: z@, w: 0 }),
    {
        Tuple::new(x, y, z, Scalar::zero())
    }

    /// The first component.
    pub fn x(&self) -> (r: Scalar)
        ensures
            r@ == self@.x,
    {
        self.x
    }

    /// The second component.
    pub fn y(&self) -> (r: Scalar)
        ensures
            r@ == self@.y,
    {
        self.y
    }

    /// The third component.
    pub fn z(&self) -> (r: Scalar)
        ensures
            r@ == self@.z,
    {
        self.z
    }

    /// The fourth component: one for a point, zero for a vector.
    pub fn w(&self) -> (r: Scalar)
        ensures
            r@ == self@.w,
    {
        self.w
    }

    /// Whether `w` is approximately one.
    pub fn is_point(&self) -> (r: bool)
        ensures
            r == self@.is_point(),
    {
        crate::scalar::eq(self.w, Scalar::one())
    }

    /// Whether `w` is approximately zero.
    pub fn is_vector(&self) -> (r: bool)
        ensures
            r == self@.is_vector(),
    {
        crate::scalar::eq(self.w, Scalar::zero())
    }

    /// The length of the tuple, rounded down to a whole count of raw units
    /// and clamped to the largest scalar.
    pub fn magnitude(&self) -> (m: Scalar)
        ensures
            m@ == self@.magnitude(),
    {
        let front: u128 = square(self.x.raw()) + square(self.y.raw());
        let back: u128 = square(self.z.raw()) + square(self.w.raw());
        proof {
            lemma_floor_sqrt_exists(self@.sum_of_squares());
        }
        if front > u128::MAX - back {
            proof {
                let r = floor_sqrt(self@.sum_of_squares());
                if r + 1 <= 0x1_0000_0000_0000_0000 {
                    lemma_square_monotonic(r + 1, 0x1_0000_0000_0000_0000);
                }
            }
            Scalar::from_raw(i64::MAX)
        } else {
            let r: u128 = isqrt(front + back);
            if r > i64::MAX as u128 {
                Scalar::from_raw(i64::MAX)
            } else {
                Scalar::from_raw(r as i64)
            }
        }
    }

    /// The tuple scaled to length one. A tuple of length zero has no
    /// direction: each of its components is divided by zero.
    pub fn normalize(&self) -> (t: Tuple)
        ensures
            t@ == self@.normalized(),
    {
        let m = self.magnitude();
        Tuple::new(self.x / m, self.y / m, self.z / m, self.w / m)
    }

    /// The dot product with `other`.
    pub fn dot(&self, other: Tuple) -> (r: Scalar)
        ensures
            r@ == self@.dot(other@),
    {
        self.x * other.x + self.y * other.y + self.z * other.z + self.w * other.w
    }

    /// The tuple as text for people to read.
    pub fn to_text(&self) -> (text: String)
        ensures
            text@ == self@.text(),
    {
        proof {
            reveal_strlit("(");
            reveal_strlit(", ");
            reveal_strlit(")");
        }
        let mut s = String::new();
        s.append("(");
        push_two_places(&mut s, self.x);
        s.append(", ");
        push_two_places(&mut s, self.y);
        s.append(", ");
        push_two_places(&mut s, self.z);
        s.append(")");
        assert(s@ =~= self@.text());
        s
    }

    /// Every component of a tuple's view is the raw count of a scalar.
    pub proof fn lemma_view_range(t: Tuple)
        ensures
            in_range(t@.x),
            in_range(t@.y),
            in_range(t@.z),
            in_range(t@.w),
    {
        Scalar::lemma_view_range(t.x);
        Scalar::lemma_view_range(t.y);
        Scalar::lemma_view_range(t.z);
        Scalar::lemma_view_range(t.w);
    }

    /// Views determine tuples.
    pub proof fn lemma_view_injective(a: Tuple, b: Tuple)
        requires
            a@ == b@,
        ensures
            a == b,
    {
        Scalar::lemma_view_injective(a.x, b.x);
        Scalar::lemma_view_injective(a.y, b.y);
        Scalar::lemma_view_injective(a.z, b.z);
        Scalar::lemma_view_injective(a.w, b.w);
    }
}

impl PartialEq for Tuple {
    /// Approximate equality, component by component.
    fn eq(&self, other: &Tuple) -> (r: bool) {
        crate::scalar::eq(self.x, other.x) && crate::scalar::eq(self.y, other.y)
            && crate::scalar::eq(self.z, other.z) && crate::scalar::eq(self.w, other.w)
    }
}

impl vstd::std_specs::cmp::PartialEqSpecImpl for Tuple {
    open spec fn obeys_eq_spec() -> bool {
        true
    }

    open spec fn eq_spec(&self, other: &Tuple) -> bool {
        self@.approx_eq(other@)
    }
}

impl core::ops::Add<Tuple> for Tuple {
    type Output = Tuple;

    fn add(self, other: Tuple) -> (r: Tuple)
        ensures
            r@ == self@.plus(other@),
    {
        let r = Tuple::new(
            self.x + other.x,
            self.y + other.y,
            self.z + other.z,
            self.w + other.w,
        );
        proof {
            let c = choose|c: Tuple| c@ == self@.plus(other@);
            Tuple::lemma_view_injective(c, r);
        }
        r
    }
}

impl vstd::std_specs::ops::AddSpecImpl<Tuple> for Tuple {
    open spec fn obeys_add_spec() -> bool {
        true
    }

    open spec fn add_req(self, other: Tuple) -> bool {
        true
    }

    open spec fn add_spec(self, other: Tuple) -> Tuple {
        choose|c: Tuple| c@ == self@.plus(other@)
    }
}

impl core::ops::Sub<Tuple> for Tuple {
    type Output = Tuple;

    fn sub(self, other: Tuple) -> (r: Tuple)
        ensures
            r@ == self@.minus(other@),
    {
        let r = Tuple::new(
            self.x - other.x,
            self.y - other.y,
            self.z - other.z,
            self.w - other.w,
        );
        proof {
            let c = choose|c: Tuple| c@ == self@.minus(other@);
            Tuple::lemma_view_injective(c, r);
        }
        r
    }
}

impl vstd::std_specs::ops::SubSpecImpl<Tuple> for Tuple {
    open spec fn obeys_sub_spec() -> bool {
        true
    }

    open spec fn sub_req(self, other: Tuple) -> bool {
        true
    }

    open spec fn sub_spec(self, other: Tuple) -> Tuple {
        choose|c: Tuple| c@ == self@.minus(other@)
    }
}

impl core::ops::Mul<Scalar> for Tuple {
    type Output = Tuple;

    fn mul(self, other: Scalar) -> (r: Tuple)
        ensures
            r@ == self@.scaled(other@),
    {
        let r = Tuple::new(self.x * other, self.y * other, self.z * other, self.w * other);
        proof {
            let c = choose|c: Tuple| c@ == self@.scaled(other@);
            Tuple::lemma_view_injective(c, r);
        }
        r
    }
}

impl vstd::std_specs::ops::MulSpecImpl<Scalar> for Tuple {
    open spec fn obeys_mul_spec() -> bool {
        true
    }

    open spec fn mul_req(self, other: Scalar) -> bool {
        true
    }

    open spec fn mul_spec(self, other: Scalar) -> Tuple {
        choose|c: Tuple| c@ == self@.scaled(other@)
    }
}

impl core::ops::Mul<Tuple> for Tuple {
    type Output = Tuple;

    /// The cross product.
    fn mul(self, other: Tuple) -> (r: Tuple)
        ensures
            r@ == self@.cross(other@),
    {
        let r = Tuple::vector(
            self.y * other.z - self.z * other.y,
            self.z * other.x - self.x * other.z,
            self.x * other.y - self.y * other.x,
        );
        proof {
            let c = choose|c: Tuple| c@ == self@.cross(other@);
            Tuple::lemma_view_injective(c, r);
        }
        r
    }
}

impl vstd::std_specs::ops::MulSpecImpl<Tuple> for Tuple {
    open spec fn obeys_mul_spec() -> bool {
        true
    }

    open spec fn mul_req(self, other: Tuple) -> bool {
        true
    }

    open spec fn mul_spec(self, other: Tuple) -> Tuple {
        choose|c: Tuple| c@ == self@.cross(other@)
    }
}

impl core::ops::Div<Scalar> for Tuple {
    type Output = Tuple;

    fn div(self, other: Scalar) -> (r: Tuple)
        ensures
            r@ == self@.divided(other@),
    {
        let r = Tuple::new(self.x / other, self.y / other, self.z / other, self.w / other);
        proof {
            let c = choose|c: Tuple| c@ == self@.divided(other@);
            Tuple::lemma_view_injective(c, r);
        }
        r
    }
}

impl vstd::std_specs::ops::DivSpecImpl<Scalar> for Tuple {
    open spec fn obeys_div_spec() -> bool {
        true
    }

    open spec fn div_req(self, other: Scalar) -> bool {
        true
    }

    open spec fn div_spec(self, other: Scalar) -> Tuple {
        choose|c: Tuple| c@ == self@.divided(other@)
    }
}

impl core::ops::Neg for Tuple {
    type Output = Tuple;

    fn neg(self) -> (r: Tuple)
        ensures
            r@ == self@.negated(),
    {
        let zero = Scalar::zero();
        let r = Tuple::new(zero, zero, zero, zero) - self;
        proof {
            let c = choose|c: Tuple| c@ == self@.negated();
            Tuple::lemma_view_injective(c, r);
        }
        r
    }
}

impl vstd::std_specs::ops::NegSpecImpl for Tuple {
    open spec fn obeys_neg_spec() -> bool {
        true
    }

    open spec fn neg_req(self) -> bool {
        true
    }

    open spec fn neg_spec(self) -> Tuple {
        choose|c: Tuple| c@ == self@.negated()
    }
}

} // verus!
