//! Fixed-point scalars.
//!
//! A [`Scalar`] counts billionths: the number it stands for is its raw count
//! divided by [`SCALE`]. Every operation is total. A result that does not fit
//! the raw range is clamped to the nearest end of it, products and quotients
//! are rounded toward zero, and a division by zero clamps toward the sign of
//! the dividend (zero divided by zero is zero).
//!
//! Contracts are stated over the raw counts as mathematical integers: the
//! view of a scalar is its raw count.
use vstd::prelude::*;

verus! {

/// Raw units in one whole.
pub const SCALE: i64 = 1_000_000_000;

/// Two scalars closer than this many raw units (0.00001) compare as equal.
pub const EPSILON_RAW: i64 = 10_000;

/// Whether `v` is the raw count of some scalar.
pub open spec fn in_range(v: int) -> bool {
    i64::MIN <= v <= i64::MAX
}

/// Clamps an integer to the raw range of a scalar.
pub open spec fn saturate(v: int) -> int {
    if v > i64::MAX {
        i64::MAX as int
    } else if v < i64::MIN {
        i64::MIN as int
    } else {
        v
    }
}

/// Absolute value of an integer.
pub open spec fn magnitude(v: int) -> int {
    if v >= 0 {
        v
    } else {
        -v
    }
}

/// Quotient of `n` by `d`, rounded toward zero.
pub open spec fn trunc_div(n: int, d: int) -> int
    recommends
        d != 0,
{
    if d > 0 {
        if n >= 0 {
            n / d
        } else {
            -((-n) / d)
        }
    } else {
        if n >= 0 {
            -(n / (-d))
        } else {
            (-n) / (-d)
        }
    }
}

/// The whole number nearest to `n / d`; a tie goes to the even neighbour.
pub open spec fn round_half_even(n: int, d: int) -> int
    recommends
        n >= 0,
        d > 0,
{
    let q = n / d;
    let rest = n % d;
    if 2 * rest < d {
        q
    } else if 2 * rest > d {
        q + 1
    } else if q % 2 == 0 {
        q
    } else {
        q + 1
    }
}

/// Raw sum of two raw counts.
pub open spec fn sat_add(a: int, b: int) -> int {
    saturate(a + b)
}

/// Raw difference of two raw counts.
pub open spec fn sat_sub(a: int, b: int) -> int {
    saturate(a - b)
}

/// Raw count of the negated scalar.
pub open spec fn sat_neg(a: int) -> int {
    saturate(-a)
}

/// Raw product: the exact product of the two numbers, rounded toward zero to
/// a whole count of raw units.
pub open spec fn sat_mul(a: int, b: int) -> int {
    saturate(trunc_div(a * b, 1_000_000_000))
}

/// Raw quotient: the exact quotient of the two numbers, rounded toward zero
/// to a whole count of raw units. Dividing by zero clamps toward the sign of
/// the dividend.
pub open spec fn sat_div(a: int, b: int) -> int {
    if b != 0 {
        saturate(trunc_div(a * 1_000_000_000, b))
    } else if a > 0 {
        i64::MAX as int
    } else if a < 0 {
        i64::MIN as int
    } else {
        0
    }
}

/// Approximate equality of two raw counts: they differ by less than
/// [`EPSILON_RAW`].
pub open spec fn approx_eq(a: int, b: int) -> bool {
    -EPSILON_RAW < a - b < EPSILON_RAW
}

/// A fixed-point number with nine decimal places.
#[derive(Clone, Copy, Debug, PartialEq, Eq, Structural)]
pub struct Scalar {
    raw: i64,
}

impl View for Scalar {
    type V = int;

    closed spec fn view(&self) -> int {
        self.raw as int
    }
}

fn clamp(wide: i128) -> (r: i64)
    ensures
        r == saturate(wide as int),
{
    if wide > i64::MAX as i128 {
        i64::MAX
    } else if wide < i64::MIN as i128 {
        i64::MIN
    } else {
        wide as i64
    }
}

fn magnitude_of(v: i64) -> (r: u128)
    ensures
        r == magnitude(v as int),
        r <= 0x8000_0000_0000_0000,
{
    if v >= 0 {
        v as u128
    } else {
        (-(v as i128)) as u128
    }
}

impl Scalar {
    /// The scalar with the given raw count of billionths.
    pub fn from_raw(raw: i64) -> (r: Scalar)
        ensures
            r@ == raw,
    {
        Scalar { raw }
    }

    /// The scalar that stands for the whole number `n`.
    pub fn from_int(n: i32) -> (r: Scalar)
        ensures
            r@ == n * 1_000_000_000,
    {
        Scalar { raw: (n as i64) * SCALE }
    }

    /// The raw count of billionths.
    pub fn raw(&self) -> (r: i64)
        ensures
            r == self@,
    {
        self.raw
    }

    /// Zero.
    pub fn zero() -> (r: Scalar)
        ensures
            r@ == 0,
    {
        Scalar { raw: 0 }
    }

    /// One.
    pub fn one() -> (r: Scalar)
        ensures
            r@ == SCALE,
    {
        Scalar { raw: SCALE }
    }

    /// Views determine scalars: two scalars with the same raw count are the
    /// same scalar.
    pub proof fn lemma_view_injective(a: Scalar, b: Scalar)
        requires
            a@ == b@,
        ensures
            a == b,
    {
    }

    /// The raw count of a scalar fits in sixty-four bits.
    pub proof fn lemma_view_range(a: Scalar)
        ensures
            in_range(a@),
    {
    }
}

impl core::ops::Add for Scalar {
    type Output = Scalar;

    fn add(self, rhs: Scalar) -> (r: Scalar)
        ensures
            r@ == sat_add(self@, rhs@),
    {
        let r = Scalar { raw: clamp(self.raw as i128 + rhs.raw as i128) };
        proof {
            let c = choose|s: Scalar| s@ == sat_add(self@, rhs@);
            Scalar::lemma_view_injective(c, r);
        }
        r
    }
}

impl vstd::std_specs::ops::AddSpecImpl for Scalar {
    open spec fn obeys_add_spec() -> bool {
        true
    }

    open spec fn add_req(self, rhs: Scalar) -> bool {
        true
    }

    open spec fn add_spec(self, rhs: Scalar) -> Scalar {
        choose|s: Scalar| s@ == sat_add(self@, rhs@)
    }
}

impl core::ops::Sub for Scalar {
    type Output = Scalar;

    fn sub(self, rhs: Scalar) -> (r: Scalar)
        ensures
            r@ == sat_sub(self@, rhs@),
    {
        let r = Scalar { raw: clamp(self.raw as i128 - rhs.raw as i128) };
        proof {
            let c = choose|s: Scalar| s@ == sat_sub(self@, rhs@);
            Scalar::lemma_view_injective(c, r);
        }
        r
    }
}

impl vstd::std_specs::ops::SubSpecImpl for Scalar {
    open spec fn obeys_sub_spec() -> bool {
        true
    }

    open spec fn sub_req(self, rhs: Scalar) -> bool {
        true
    }

    open spec fn sub_spec(self, rhs: Scalar) -> Scalar {
        choose|s: Scalar| s@ == sat_sub(self@, rhs@)
    }
}

impl core::ops::Neg for Scalar {
    type Output = Scalar;

    fn neg(self) -> (r: Scalar)
        ensures
            r@ == sat_neg(self@),
    {
        let r = Scalar { raw: clamp(-(self.raw as i128)) };
        proof {
            let c = choose|s: Scalar| s@ == sat_neg(self@);
            Scalar::lemma_view_injective(c, r);
        }
        r
    }
}

impl vstd::std_specs::ops::NegSpecImpl for Scalar {
    open spec fn obeys_neg_spec() -> bool {
        true
    }

    open spec fn neg_req(self) -> bool {
        true
    }

    open spec fn neg_spec(self) -> Scalar {
        choose|s: Scalar| s@ == sat_neg(self@)
    }
}

impl core::ops::Mul for Scalar {
    type Output = Scalar;

    fn mul(self, rhs: Scalar) -> (r: Scalar)
        ensures
            r@ == sat_mul(self@, rhs@),
    {
        let a: i128 = self.raw as i128;
        let b: i128 = rhs.raw as i128;
        assert(-0x4000_0000_0000_0000_0000_0000_0000_0000 <= a * b
            <= 0x4000_0000_0000_0000_0000_0000_0000_0000) by (nonlinear_arith)
            requires
                -0x8000_0000_0000_0000 <= a <= 0x8000_0000_0000_0000,
                -0x8000_0000_0000_0000 <= b <= 0x8000_0000_0000_0000,
        ;
        let wide: i128 = a * b;
        let r = Scalar { raw: clamp(wide / (SCALE as i128)) };
        proof {
            let c = choose|s: Scalar| s@ == sat_mul(self@, rhs@);
            Scalar::lemma_view_injective(c, r);
        }
        r
    }
}

impl vstd::std_specs::ops::MulSpecImpl for Scalar {
    open spec fn obeys_mul_spec() -> bool {
        true
    }

    open spec fn mul_req(self, rhs: Scalar) -> bool {
        true
    }

    open spec fn mul_spec(self, rhs: Scalar) -> Scalar {
        choose|s: Scalar| s@ == sat_mul(self@, rhs@)
    }
}

impl core::ops::Div for Scalar {
    type Output = Scalar;

    fn div(self, rhs: Scalar) -> (r: Scalar)
        ensures
            r@ == sat_div(self@, rhs@),
    {
        let r = if rhs.raw == 0 {
            if self.raw > 0 {
                Scalar { raw: i64::MAX }
            } else if self.raw < 0 {
                Scalar { raw: i64::MIN }
            } else {
                Scalar { raw: 0 }
            }
        } else {
            let a: u128 = magnitude_of(self.raw);
            let b: u128 = magnitude_of(rhs.raw);
            assert(a * (SCALE as u128) == a * 1_000_000_000);
            let n: u128 = a * (SCALE as u128);
            let q: u128 = n / b;
            assert(q <= n) by (nonlinear_arith)
                requires
                    q == n / b,
                    b >= 1,
            ;
            if (self.raw >= 0) == (rhs.raw > 0) {
                Scalar { raw: clamp(q as i128) }
            } else {
                Scalar { raw: clamp(-(q as i128)) }
            }
        };
        proof {
            let c = choose|s: Scalar| s@ == sat_div(self@, rhs@);
            Scalar::lemma_view_injective(c, r);
        }
        r
    }
}

impl vstd::std_specs::ops::DivSpecImpl for Scalar {
    open spec fn obeys_div_spec() -> bool {
        true
    }

    open spec fn div_req(self, rhs: Scalar) -> bool {
        true
    }

    open spec fn div_spec(self, rhs: Scalar) -> Scalar {
        choose|s: Scalar| s@ == sat_div(self@, rhs@)
    }
}

/// Whether two scalars are equal enough: closer than 0.00001.
pub fn eq(a: Scalar, b: Scalar) -> (r: bool)
    ensures
        r == approx_eq(a@, b@),
{
    let d: i128 = a.raw as i128 - b.raw as i128;
    -(EPSILON_RAW as i128) < d && d < EPSILON_RAW as i128
}

} // verus!
