use ray_kernel::scalar::{eq, Scalar, EPSILON_RAW, SCALE};

fn s(v: f64) -> Scalar {
    Scalar::from_raw((v * 1e9).round() as i64)
}

fn raw(n: i64) -> Scalar {
    Scalar::from_raw(n)
}

#[test]
fn constants_are_a_billion_and_a_hundred_thousandth() {
    assert_eq!(SCALE, 1_000_000_000);
    assert_eq!(EPSILON_RAW, 10_000);
    assert_eq!(Scalar::zero().raw(), 0);
    assert_eq!(Scalar::one().raw(), SCALE);
}

#[test]
fn from_int_counts_wholes() {
    assert_eq!(Scalar::from_int(0).raw(), 0);
    assert_eq!(Scalar::from_int(255).raw(), 255_000_000_000);
    assert_eq!(Scalar::from_int(-7).raw(), -7_000_000_000);
    assert_eq!(Scalar::from_int(i32::MAX).raw(), 2_147_483_647_000_000_000);
    assert_eq!(Scalar::from_int(i32::MIN).raw(), -2_147_483_648_000_000_000);
}

#[test]
fn from_raw_and_raw_are_inverse() {
    for n in [0, 1, -1, 123_456_789, i64::MAX, i64::MIN] {
        assert_eq!(raw(n).raw(), n);
    }
}

#[test]
fn eq_is_true_below_the_tolerance_only() {
    assert!(eq(s(1.0), s(1.0)));
    assert!(eq(raw(SCALE), raw(SCALE + 9_999)));
    assert!(eq(raw(SCALE), raw(SCALE - 9_999)));
    assert!(!eq(raw(SCALE), raw(SCALE + 10_000)));
    assert!(!eq(raw(SCALE), raw(SCALE - 10_000)));
    assert!(!eq(s(1.0), s(1.1)));
}

#[test]
fn eq_holds_at_the_ends_of_the_range() {
    assert!(!eq(raw(i64::MAX), raw(i64::MIN)));
    assert!(!eq(raw(i64::MIN), raw(i64::MAX)));
    assert!(eq(raw(i64::MAX), raw(i64::MAX - 1)));
    assert!(eq(raw(i64::MIN), raw(i64::MIN)));
}

#[test]
fn sum_and_difference_are_exact() {
    assert_eq!((s(1.5) + s(2.25)).raw(), 3_750_000_000);
    assert_eq!((s(1.5) - s(2.25)).raw(), -750_000_000);
    assert_eq!((raw(1) + raw(-1)).raw(), 0);
}

#[test]
fn sum_and_difference_clamp() {
    assert_eq!((raw(i64::MAX) + raw(1)).raw(), i64::MAX);
    assert_eq!((raw(i64::MAX) + raw(i64::MAX)).raw(), i64::MAX);
    assert_eq!((raw(i64::MIN) + raw(-1)).raw(), i64::MIN);
    assert_eq!((raw(i64::MIN) - raw(1)).raw(), i64::MIN);
    assert_eq!((raw(i64::MAX) - raw(-1)).raw(), i64::MAX);
    assert_eq!((raw(0) - raw(i64::MIN)).raw(), i64::MAX);
}

#[test]
fn negation_clamps_the_smallest() {
    assert_eq!((-s(2.5)).raw(), -2_500_000_000);
    assert_eq!((-s(-2.5)).raw(), 2_500_000_000);
    assert_eq!((-raw(0)).raw(), 0);
    assert_eq!((-raw(i64::MAX)).raw(), -i64::MAX);
    assert_eq!((-raw(i64::MIN)).raw(), i64::MAX);
}

#[test]
fn product_of_wholes_is_exact() {
    assert_eq!((s(3.0) * s(2.0)).raw(), 6_000_000_000);
    assert_eq!((s(-3.0) * s(2.0)).raw(), -6_000_000_000);
    assert_eq!((s(-3.0) * s(-2.0)).raw(), 6_000_000_000);
    assert_eq!((s(0.5) * s(0.5)).raw(), 250_000_000);
    assert_eq!((s(1.5) * s(0.0)).raw(), 0);
    assert_eq!((s(1.5) * s(1.0)).raw(), 1_500_000_000);
}

#[test]
fn product_rounds_toward_zero() {
    assert_eq!((raw(1) * s(0.5)).raw(), 0);
    assert_eq!((raw(3) * s(0.5)).raw(), 1);
    assert_eq!((raw(-3) * s(0.5)).raw(), -1);
    assert_eq!((raw(-1) * s(0.5)).raw(), 0);
    assert_eq!((raw(99_999) * raw(9_999)).raw(), 0);
    assert_eq!((raw(100_000) * raw(10_000)).raw(), 1);
}

#[test]
fn product_clamps() {
    assert_eq!((raw(i64::MAX) * s(2.0)).raw(), i64::MAX);
    assert_eq!((raw(i64::MAX) * s(-2.0)).raw(), i64::MIN);
    assert_eq!((raw(i64::MIN) * raw(i64::MIN)).raw(), i64::MAX);
    assert_eq!((raw(i64::MIN) * raw(i64::MAX)).raw(), i64::MIN);
    assert_eq!((s(100_000.0) * s(100_000.0)).raw(), i64::MAX);
}

#[test]
fn quotient_of_wholes() {
    assert_eq!((s(6.0) / s(2.0)).raw(), 3_000_000_000);
    assert_eq!((s(-6.0) / s(2.0)).raw(), -3_000_000_000);
    assert_eq!((s(6.0) / s(-2.0)).raw(), -3_000_000_000);
    assert_eq!((s(-6.0) / s(-2.0)).raw(), 3_000_000_000);
    assert_eq!((s(1.0) / s(4.0)).raw(), 250_000_000);
    assert_eq!((s(7.5) / s(1.0)).raw(), 7_500_000_000);
}

#[test]
fn quotient_rounds_toward_zero() {
    assert_eq!((s(1.0) / s(3.0)).raw(), 333_333_333);
    assert_eq!((s(-1.0) / s(3.0)).raw(), -333_333_333);
    assert_eq!((s(2.0) / s(3.0)).raw(), 666_666_666);
    assert_eq!((s(2.0) / s(-3.0)).raw(), -666_666_666);
    assert_eq!((s(-160.0) / s(532.0)).raw(), -300_751_879);
}

#[test]
fn quotient_clamps() {
    assert_eq!((raw(i64::MAX) / s(0.5)).raw(), i64::MAX);
    assert_eq!((raw(i64::MIN) / s(0.5)).raw(), i64::MIN);
    assert_eq!((s(1.0) / raw(1)).raw(), 1_000_000_000_000_000_000);
    assert_eq!((s(10.0) / raw(1)).raw(), i64::MAX);
    assert_eq!((raw(i64::MIN) / raw(-1)).raw(), i64::MAX);
}

#[test]
fn quotient_by_zero_follows_the_sign() {
    assert_eq!((s(1.0) / s(0.0)).raw(), i64::MAX);
    assert_eq!((raw(1) / s(0.0)).raw(), i64::MAX);
    assert_eq!((s(-1.0) / s(0.0)).raw(), i64::MIN);
    assert_eq!((s(0.0) / s(0.0)).raw(), 0);
}

#[test]
fn scalars_compare_by_raw_count() {
    assert_eq!(s(1.5), raw(1_500_000_000));
    assert_ne!(raw(1), raw(2));
}

#[test]
fn arithmetic_agrees_with_machine_floats_on_a_grid() {
    let values = [-250.75, -3.0, -1.0, -0.5, -0.001, 0.0, 0.002, 0.25, 1.0, 2.0, 7.125, 1234.5];
    for &a in values.iter() {
        for &b in values.iter() {
            assert!(eq(s(a) + s(b), s(a + b)));
            assert!(eq(s(a) - s(b), s(a - b)));
            assert!(eq(s(a) * s(b), s(a * b)));
            if b != 0.0 {
                let q = a / b;
                let got = (s(a) / s(b)).raw();
                let want = (q * 1e9).round() as i64;
                assert!((got - want).abs() <= 1 + (want.abs() / 1_000_000_000_000));
            }
        }
    }
}

#[test]
fn product_commutes_on_a_grid() {
    let values = [i64::MIN, -5_000_000_001, -1_500_000_000, -1, 0, 1, 999_999_999, 3_000_000_007, i64::MAX];
    for &a in values.iter() {
        for &b in values.iter() {
            assert_eq!((raw(a) * raw(b)).raw(), (raw(b) * raw(a)).raw());
        }
    }
}

#[test]
fn one_and_zero_are_neutral_and_absorbing() {
    let values = [i64::MIN, -5_000_000_001, -1, 0, 1, 999_999_999, i64::MAX];
    for &a in values.iter() {
        assert_eq!((raw(a) * Scalar::one()).raw(), a);
        assert_eq!((Scalar::one() * raw(a)).raw(), a);
        assert_eq!((raw(a) / Scalar::one()).raw(), a);
        assert_eq!((raw(a) * Scalar::zero()).raw(), 0);
        assert_eq!((raw(a) + Scalar::zero()).raw(), a);
        assert_eq!((raw(a) - Scalar::zero()).raw(), a);
    }
}
