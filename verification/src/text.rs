//! Numbers as decimal text.
use crate::scalar::{magnitude, round_half_even, Scalar};
use vstd::prelude::*;
use vstd::string::StringExecFns;

verus! {

/// The character of a decimal digit.
pub open spec fn digit_char(d: int) -> char
    recommends
        0 <= d < 10,
{
    if d == 0 {
        '0'
    } else if d == 1 {
        '1'
    } else if d == 2 {
        '2'
    } else if d == 3 {
        '3'
    } else if d == 4 {
        '4'
    } else if d == 5 {
        '5'
    } else if d == 6 {
        '6'
    } else if d == 7 {
        '7'
    } else if d == 8 {
        '8'
    } else {
        '9'
    }
}

/// The decimal digits of `n`, most significant first, without leading zeros.
pub open spec fn decimal(n: nat) -> Seq<char>
    decreases n,
{
    if n < 10 {
        seq![digit_char(n as int)]
    } else {
        decimal(n / 10).push(digit_char((n % 10) as int))
    }
}

fn digit_text(d: u64) -> (r: &'static str)
    requires
        d < 10,
    ensures
        r@ == seq![digit_char(d as int)],
{
    proof {
        reveal_strlit("0");
        reveal_strlit("1");
        reveal_strlit("2");
        reveal_strlit("3");
        reveal_strlit("4");
        reveal_strlit("5");
        reveal_strlit("6");
        reveal_strlit("7");
        reveal_strlit("8");
        reveal_strlit("9");
    }
    let r = if d == 0 {
        "0"
    } else if d == 1 {
        "1"
    } else if d == 2 {
        "2"
    } else if d == 3 {
        "3"
    } else if d == 4 {
        "4"
    } else if d == 5 {
        "5"
    } else if d == 6 {
        "6"
    } else if d == 7 {
        "7"
    } else if d == 8 {
        "8"
    } else {
        "9"
    };
    assert(r@ =~= seq![digit_char(d as int)]);
    r
}

/// Appends the decimal digits of `n` to `out`.
pub fn push_decimal(out: &mut String, n: u64)
    ensures
        final(out)@ == old(out)@ + decimal(n as nat),
    decreases n,
{
    if n >= 10 {
        push_decimal(out, n / 10);
    }
    out.append(digit_text(n % 10));
    assert(out@ =~= old(out)@ + decimal(n as nat));
}

/// The number of hundredths nearest to the absolute value of the scalar with
/// raw count `raw`; a tie goes to the even neighbour.
pub open spec fn hundredths(raw: int) -> int {
    round_half_even(magnitude(raw), 10_000_000)
}

/// The scalar with raw count `raw` written with two decimal places: a minus
/// sign where it is negative, the whole part, a point, and two digits.
pub open spec fn two_places(raw: int) -> Seq<char> {
    let h = hundredths(raw);
    let sign = if raw < 0 {
        seq!['-']
    } else {
        Seq::<char>::empty()
    };
    sign + decimal((h / 100) as nat) + seq!['.', digit_char((h / 10) % 10), digit_char(h % 10)]
}

/// Appends `value`, written with two decimal places, to `out`.
pub fn push_two_places(out: &mut String, value: Scalar)
    ensures
        final(out)@ == old(out)@ + two_places(value@),
{
    proof {
        reveal_strlit("-");
        reveal_strlit(".");
    }
    let raw: i64 = value.raw();
    let size: u64 = if raw >= 0 {
        raw as u64
    } else {
        (-(raw as i128)) as u64
    };
    let q: u64 = size / 10_000_000;
    let rest: u64 = size % 10_000_000;
    let h: u64 = if 2 * rest < 10_000_000 {
        q
    } else if 2 * rest > 10_000_000 {
        q + 1
    } else if q % 2 == 0 {
        q
    } else {
        q + 1
    };
    assert(h == hundredths(raw as int));
    if raw < 0 {
        out.append("-");
    }
    push_decimal(out, h / 100);
    out.append(".");
    out.append(digit_text((h / 10) % 10));
    out.append(digit_text(h % 10));
    assert(out@ =~= old(out)@ + two_places(value@));
}

} // verus!
