//! Colors: a red, a green and a blue channel, each a scalar of any size.
//!
//! Arithmetic leaves the channels unbounded. Only the conversion to bytes
//! clamps them.
use crate::scalar::{approx_eq, round_half_even, sat_add, sat_mul, sat_sub, Scalar, SCALE};
use vstd::prelude::*;

verus! {

/// The three channels of a color as raw counts of billionths.
pub struct ColorView {
    pub red: int,
    pub green: int,
    pub blue: int,
}

impl ColorView {
    /// Channel-wise sum.
    pub open spec fn plus(self, other: ColorView) -> ColorView {
        ColorView {
            red: sat_add(self.red, other.red),
            green: sat_add(self.green, other.green),
            blue: sat_add(self.blue, other.blue),
        }
    }

    /// Channel-wise difference.
    pub open spec fn minus(self, other: ColorView) -> ColorView {
        ColorView {
            red: sat_sub(self.red, other.red),
            green: sat_sub(self.green, other.green),
            blue: sat_sub(self.blue, other.blue),
        }
    }

    /// Every channel multiplied by the scalar with raw count `k`.
    pub open spec fn scaled(self, k: int) -> ColorView {
        ColorView {
            red: sat_mul(self.red, k),
            green: sat_mul(self.green, k),
            blue: sat_mul(self.blue, k),
        }
    }

    /// Channel-wise (Hadamard) product.
    pub open spec fn blended(self, other: ColorView) -> ColorView {
        ColorView {
            red: sat_mul(self.red, other.red),
            green: sat_mul(self.green, other.green),
            blue: sat_mul(self.blue, other.blue),
        }
    }

    /// Every channel of one color is approximately the channel of the other.
    pub open spec fn approx_eq(self, other: ColorView) -> bool {
        &&& approx_eq(self.red, other.red)
        &&& approx_eq(self.green, other.green)
        &&& approx_eq(self.blue, other.blue)
    }
}

/// The byte of a channel with raw count `raw`: the channel times 255,
/// clamped to `0..=255` and rounded to the nearest whole number.
pub open spec fn channel_byte(raw: int) -> int {
    let scaled = raw * 255;
    if scaled > 255_000_000_000 {
        255
    } else if scaled <= 0 {
        0
    } else {
        round_half_even(scaled, 1_000_000_000)
    }
}

/// An RGB color.
#[derive(Clone, Copy, Debug)]
pub struct Color {
    red: Scalar,
    green: Scalar,
    blue: Scalar,
}

impl View for Color {
    type V = ColorView;

    closed spec fn view(&self) -> ColorView {
        ColorView { red: self.red@, green: self.green@, blue: self.blue@ }
    }
}

impl Color {
    /// The color with the given channels.
    pub fn new(red: Scalar, green: Scalar, blue: Scalar) -> (c: Color)
        ensures
            c@ == (ColorView { red: red@, green: green@, blue: blue@ }),
    {
        Color { red, green, blue }
    }

    /// The red channel.
    pub fn red(&self) -> (r: Scalar)
        ensures
            r@ == self@.red,
    {
        self.red
    }

    /// The green channel.
    pub fn green(&self) -> (r: Scalar)
        ensures
            r@ == self@.green,
    {
        self.green
    }

    /// The blue channel.
    pub fn blue(&self) -> (r: Scalar)
        ensures
            r@ == self@.blue,
    {
        self.blue
    }

    /// The red channel as a byte: times 255, clamped to `0..=255`, rounded
    /// to the nearest whole number with ties to the even one.
    pub fn red_u8(&self) -> (r: u8)
        ensures
            r == channel_byte(self@.red),
    {
        Color::to_u8(self.red)
    }

    /// The green channel as a byte, made as the red one.
    pub fn green_u8(&self) -> (r: u8)
        ensures
            r == channel_byte(self@.green),
    {
        Color::to_u8(self.green)
    }

    /// The blue channel as a byte, made as the red one.
    pub fn blue_u8(&self) -> (r: u8)
        ensures
            r == channel_byte(self@.blue),
    {
        Color::to_u8(self.blue)
    }

    fn to_u8(n: Scalar) -> (r: u8)
        ensures
            r == channel_byte(n@),
    {
        let scale: i128 = SCALE as i128;
        let scaled: i128 = (n.raw() as i128) * 255;
        if scaled > 255 * scale {
            255
        } else if scaled <= 0 {
            0
        } else {
            let q: i128 = scaled / scale;
            let rest: i128 = scaled % scale;
            if 2 * rest < scale {
                q as u8
            } else if 2 * rest > scale {
                (q + 1) as u8
            } else if q % 2 == 0 {
                q as u8
            } else {
                (q + 1) as u8
            }
        }
    }

    /// Views determine colors.
    pub proof fn lemma_view_injective(a: Color, b: Color)
        requires
            a@ == b@,
        ensures
            a == b,
    {
        Scalar::lemma_view_injective(a.red, b.red);
        Scalar::lemma_view_injective(a.green, b.green);
        Scalar::lemma_view_injective(a.blue, b.blue);
    }
}

impl PartialEq for Color {
    /// Approximate equality, channel by channel.
    fn eq(&self, other: &Color) -> (r: bool) {
        crate::scalar::eq(self.red, other.red) && crate::scalar::eq(self.green, other.green)
            && crate::scalar::eq(self.blue, other.blue)
    }
}

impl vstd::std_specs::cmp::PartialEqSpecImpl for Color {
    open spec fn obeys_eq_spec() -> bool {
        true
    }

    open spec fn eq_spec(&self, other: &Color) -> bool {
        self@.approx_eq(other@)
    }
}

impl core::ops::Add<Color> for Color {
    type Output = Color;

    fn add(self, other: Color) -> (r: Color)
        ensures
            r@ == self@.plus(other@),
    {
        let r = Color {
            red: self.red + other.red,
            green: self.green + other.green,
            blue: self.blue + other.blue,
        };
        proof {
            let c = choose|c: Color| c@ == self@.plus(other@);
            Color::lemma_view_injective(c, r);
        }
        r
    }
}

impl vstd::std_specs::ops::AddSpecImpl<Color> for Color {
    open spec fn obeys_add_spec() -> bool {
        true
    }

    open spec fn add_req(self, other: Color) -> bool {
        true
    }

    open spec fn add_spec(self, other: Color) -> Color {
        choose|c: Color| c@ == self@.plus(other@)
    }
}

impl core::ops::Sub<Color> for Color {
    type Output = Color;

    fn sub(self, other: Color) -> (r: Color)
        ensures
            r@ == self@.minus(other@),
    {
        let r = Color {
            red: self.red - other.red,
            green: self.green - other.green,
            blue: self.blue - other.blue,
        };
        proof {
            let c = choose|c: Color| c@ == self@.minus(other@);
            Color::lemma_view_injective(c, r);
        }
        r
    }
}

impl vstd::std_specs::ops::SubSpecImpl<Color> for Color {
    open spec fn obeys_sub_spec() -> bool {
        true
    }

    open spec fn sub_req(self, other: Color) -> bool {
        true
    }

    open spec fn sub_spec(self, other: Color) -> Color {
        choose|c: Color| c@ == self@.minus(other@)
    }
}

impl core::ops::Mul<Scalar> for Color {
    type Output = Color;

    fn mul(self, other: Scalar) -> (r: Color)
        ensures
            r@ == self@.scaled(other@),
    {
        let r = Color { red: self.red * other, green: self.green * other, blue: self.blue * other };
        proof {
            let c = choose|c: Color| c@ == self@.scaled(other@);
            Color::lemma_view_injective(c, r);
        }
        r
    }
}

impl vstd::std_specs::ops::MulSpecImpl<Scalar> for Color {
    open spec fn obeys_mul_spec() -> bool {
        true
    }

    open spec fn mul_req(self, other: Scalar) -> bool {
        true
    }

    open spec fn mul_spec(self, other: Scalar) -> Color {
        choose|c: Color| c@ == self@.scaled(other@)
    }
}

impl core::ops::Mul<Color> for Color {
    type Output = Color;

    fn mul(self, other: Color) -> (r: Color)
        ensures
            r@ == self@.blended(other@),
    {
        let r = Color {
            red: self.red * other.red,
            green: self.green * other.green,
            blue: self.blue * other.blue,
        };
        proof {
            let c = choose|c: Color| c@ == self@.blended(other@);
            Color::lemma_view_injective(c, r);
        }
        r
    }
}

impl vstd::std_specs::ops::MulSpecImpl<Color> for Color {
    open spec fn obeys_mul_spec() -> bool {
        true
    }

    open spec fn mul_req(self, other: Color) -> bool {
        true
    }

    open spec fn mul_spec(self, other: Color) -> Color {
        choose|c: Color| c@ == self@.blended(other@)
    }
}

} // verus!
