use ray_kernel::matrix::{Mat2, Mat3, Mat4};
use ray_kernel::scalar::{eq, Scalar};
use ray_kernel::tuple::Tuple;

fn s(v: f64) -> Scalar {
    Scalar::from_raw((v * 1e9).round() as i64)
}

fn m2(cells: [f64; 4]) -> Mat2 {
    Mat2::new(cells.map(s))
}

fn m3(cells: [f64; 9]) -> Mat3 {
    Mat3::new(cells.map(s))
}

fn m4(cells: [f64; 16]) -> Mat4 {
    Mat4::new(cells.map(s))
}

fn point(x: f64, y: f64, z: f64) -> Tuple {
    Tuple::point(s(x), s(y), s(z))
}

fn vector(x: f64, y: f64, z: f64) -> Tuple {
    Tuple::vector(s(x), s(y), s(z))
}

fn rotation_x(radians: f64) -> Mat4 {
    Mat4::rotation_x(s(radians.sin()), s(radians.cos()))
}

#[test]
fn test_mat4_new() {
    let m = m4([
        1.0, 2.0, 3.0, 4.0,
        5.5, 6.5, 7.5, 8.5,
        9.0, 10.0, 11.0, 12.0,
        13.5, 14.5, 15.5, 16.5,
    ]);

    assert!(eq(m.at(0, 0), s(1.0)));
    assert!(eq(m.at(0, 3), s(4.0)));
    assert!(eq(m.at(1, 0), s(5.5)));
    assert!(eq(m.at(1, 2), s(7.5)));
    assert!(eq(m.at(2, 2), s(11.0)));
    assert!(eq(m.at(3, 0), s(13.5)));
    assert!(eq(m.at(3, 2), s(15.5)));
}

#[test]
fn test_mat3_new() {
    let m = m3([
        -3.0, 5.0, 0.0,
        1.0, -2.0, -7.0,
        0.0, 1.0, 1.0,
    ]);

    assert!(eq(m.at(0, 0), s(-3.0)));
    assert!(eq(m.at(1, 1), s(-2.0)));
    assert!(eq(m.at(2, 2), s(1.0)));
}

#[test]
fn test_mat2_new() {
    let m = m2([
        -3.0, 5.0,
        1.0, -2.0,
    ]);

    assert!(eq(m.at(0, 0), s(-3.0)));
    assert!(eq(m.at(0, 1), s(5.0)));
    assert!(eq(m.at(1, 0), s(1.0)));
    assert!(eq(m.at(1, 1), s(-2.0)));
}

#[test]
fn test_mat4_eq() {
    let a = m4([
        1.0, 2.0, 3.0, 4.0,
        5.5, 6.5, 7.5, 8.5,
        9.0, 10.0, 11.0, 12.0,
        13.5, 14.5, 15.5, 16.5,
    ]);

    let b = m4([
        1.0, 2.0, 3.0, 4.0,
        5.5, 6.5, 7.5, 8.5,
        9.0, 10.0, 11.0, 12.0,
        13.5, 14.5, 15.5, 16.5,
    ]);

    assert_eq!(a, b);
}

#[test]
fn test_mat3_eq() {
    let a = m3([
        1.0, 2.0, 3.0,
        5.5, 6.5, 7.5,
        9.0, 10.0, 11.0,
    ]);

    let b = m3([
        1.0, 2.0, 3.0,
        5.5, 6.5, 7.5,
        9.0, 10.0, 11.0,
    ]);

    assert_eq!(a, b);
}

#[test]
fn test_mat2_eq() {
    let a = m2([
        1.0, 2.0,
        5.5, 6.5,
    ]);

    let b = m2([
        1.0, 2.0,
        5.5, 6.5,
    ]);

    assert_eq!(a, b);
}

#[test]
fn test_mat4_not_eq() {
    let a = m4([
        2.0, 2.0, 3.0, 4.0,
        5.5, 6.5, 7.5, 8.5,
        9.0, 10.0, 11.0, 12.0,
        13.5, 14.5, 15.5, 16.5,
    ]);

    let b = m4([
        1.0, 2.0, 3.0, 4.0,
        5.5, 6.5, 7.5, 8.5,
        9.0, 10.0, 11.0, 12.0,
        13.5, 14.5, 15.5, 16.5,
    ]);

    assert_ne!(a, b);
}

#[test]
fn test_mat3_not_eq() {
    let a = m3([
        2.0, 2.0, 3.0,
        5.5, 6.5, 7.5,
        9.0, 10.0, 11.0,
    ]);

    let b = m3([
        1.0, 2.0, 3.0,
        5.5, 6.5, 7.5,
        9.0, 10.0, 11.0,
    ]);

    assert_ne!(a, b);
}

#[test]
fn test_mat2_not_eq() {
    let a = m2([
        2.0, 2.0,
        5.5, 6.5,
    ]);

    let b = m2([
        1.0, 2.0,
        5.5, 6.5,
    ]);

    assert_ne!(a, b);
}

#[test]
fn test_mat4_mat4_mul() {
    let a = m4([
        1.0, 2.0, 3.0, 4.0,
        5.0, 6.0, 7.0, 8.0,
        9.0, 8.0, 7.0, 6.0,
        5.0, 4.0, 3.0, 2.0,
    ]);

    let b = m4([
        -2.0, 1.0, 2.0, 3.0,
        3.0, 2.0, 1.0, -1.0,
        4.0, 3.0, 6.0, 5.0,
        1.0, 2.0, 7.0, 8.0,
    ]);

    let result = m4([
        20.0, 22.0, 50.0, 48.0,
        44.0, 54.0, 114.0, 108.0,
        40.0, 58.0, 110.0, 102.0,
        16.0, 26.0, 46.0, 42.0,
    ]);

    assert_eq!(a * b, result);
}

#[test]
fn test_mat4_tuple_mul() {
    let a = m4([
        1.0, 2.0, 3.0, 4.0,
        2.0, 4.0, 4.0, 2.0,
        8.0, 6.0, 4.0, 1.0,
        0.0, 0.0, 0.0, 1.0,
    ]);

    let b = Tuple::new(s(1.0), s(2.0), s(3.0), s(1.0));

    let result = Tuple::new(s(18.0), s(24.0), s(33.0), s(1.0));

    assert_eq!(a * b, result);
}

#[test]
fn test_mat4_identity_mul() {
    let a = m4([
        1.0, 2.0, 3.0, 4.0,
        5.0, 6.0, 7.0, 8.0,
        9.0, 8.0, 7.0, 6.0,
        5.0, 4.0, 3.0, 2.0,
    ]);

    let b = Mat4::identity();

    assert_eq!(a * b, a);
}

#[test]
fn test_mat4_transpose() {
    let a = m4([
        0.0, 9.0, 3.0, 0.0,
        9.0, 8.0, 0.0, 8.0,
        1.0, 8.0, 5.0, 3.0,
        0.0, 0.0, 5.0, 8.0,
    ]);

    let result = m4([
        0.0, 9.0, 1.0, 0.0,
        9.0, 8.0, 8.0, 0.0,
        3.0, 0.0, 5.0, 5.0,
        0.0, 8.0, 3.0, 8.0,
    ]);

    assert_eq!(a.transpose(), result);
}

#[test]
fn test_mat4_identity_transpose() {
    assert_eq!(Mat4::identity().transpose(), Mat4::identity());
}

#[test]
fn test_mat2_determinant() {
    assert!(eq(m2([1.0, 5.0, -3.0, 2.0]).determinant(), s(17.0)));
}

#[test]
fn test_mat4_submatrix() {
    let a = m4([
        -6.0, 1.0, 1.0, 6.0,
        -8.0, 5.0, 8.0, 6.0,
        -1.0, 0.0, 8.0, 2.0,
        -7.0, 1.0, -1.0, 1.0,
    ]);

    let result = m3([
        -6.0, 1.0, 6.0,
        -8.0, 8.0, 6.0,
        -7.0, -1.0, 1.0,
    ]);

    assert_eq!(a.submatrix(2, 1), result);
}

#[test]
fn test_mat3_submatrix() {
    let a = m3([
        1.0, 5.0, 0.0,
        -3.0, 2.0, 7.0,
        0.0, 6.0, -3.0,
    ]);

    let result = m2([
        -3.0, 2.0,
        0.0, 6.0,
    ]);

    assert_eq!(a.submatrix(0, 2), result);
}

#[test]
fn test_mat3_minor() {
    let a = m3([
        3.0, 5.0, 0.0,
        2.0, -1.0, -7.0,
        6.0, -1.0, 5.0,
    ]);

    assert!(eq(a.minor(1, 0), s(25.0)));
}

#[test]
fn test_mat3_cofactor() {
    let a = m3([
        3.0, 5.0, 0.0,
        2.0, -1.0, -7.0,
        6.0, -1.0, 5.0,
    ]);

    assert!(eq(a.cofactor(1, 0), s(-25.0)));
}

#[test]
fn test_mat3_determinant() {
    let a = m3([
        1.0, 2.0, 6.0,
        -5.0, 8.0, -4.0,
        2.0, 6.0, 4.0,
    ]);

    assert!(eq(a.cofactor(0, 0), s(56.0)));
    assert!(eq(a.cofactor(0, 1), s(12.0)));
    assert!(eq(a.cofactor(0, 2), s(-46.0)));
    assert!(eq(a.determinant(), s(-196.0)));
}

#[test]
fn test_mat4_determinant() {
    let a = m4([
        -2.0, -8.0, 3.0, 5.0,
        -3.0, 1.0, 7.0, 3.0,
        1.0, 2.0, -9.0, 6.0,
        -6.0, 7.0, 7.0, -9.0,
    ]);

    assert!(eq(a.cofactor(0, 0), s(690.0)));
    assert!(eq(a.cofactor(0, 1), s(447.0)));
    assert!(eq(a.cofactor(0, 2), s(210.0)));
    assert!(eq(a.cofactor(0, 3), s(51.0)));
    assert!(eq(a.determinant(), s(-4071.0)));
}

#[test]
fn test_mat4_is_invertible() {
    let a = m4([
        6.0, 4.0, 4.0, 4.0,
        5.0, 5.0, 7.0, 6.0,
        4.0, -9.0, 3.0, -7.0,
        9.0, 1.0, 7.0, -6.0,
    ]);

    assert!(a.is_invertible())
}

#[test]
fn test_mat4_is_not_invertible() {
    let a = m4([
        -4.0, 2.0, -2.0, -3.0,
        9.0, 6.0, 2.0, 6.0,
        0.0, -5.0, 1.0, -5.0,
        0.0, 0.0, 0.0, 0.0,
    ]);

    assert!(!a.is_invertible())
}

#[test]
fn test_mat4_inverse() {
    let a = m4([
        -5.0, 2.0, 6.0, -8.0,
        1.0, -5.0, 1.0, 8.0,
        7.0, 7.0, -6.0, -7.0,
        1.0, -3.0, 7.0, 4.0,
    ]);

    let b = a.inverse();
    let b_result = m4([
        0.21805, 0.45113, 0.24060, -0.04511,
        -0.80827, -1.45677, -0.44361, 0.52068,
        -0.07895, -0.22368, -0.05263, 0.19737,
        -0.52256, -0.81391, -0.30075, 0.30639,
    ]);

    assert!(eq(a.determinant(), s(532.0)));
    assert!(eq(a.cofactor(2, 3), s(-160.0)));
    assert!(eq(b.at(3, 2), s(-160.0 / 532.0)));
    assert!(eq(a.cofactor(3, 2), s(105.0)));
    assert!(eq(b.at(2, 3), s(105.0 / 532.0)));

    assert_eq!(b, b_result);
}

#[test]
fn test_mat4_inverse_2() {
    let a = m4([
        8.0, -5.0, 9.0, 2.0,
        7.0, 5.0, 6.0, 1.0,
        -6.0, 0.0, 9.0, 6.0,
        -3.0, 0.0, -9.0, -4.0,
    ]);

    let b = a.inverse();
    let b_result = m4([
        -0.15385, -0.15385, -0.28205, -0.53846,
        -0.07692, 0.12308, 0.02564, 0.03077,
        0.35897, 0.35897, 0.43590, 0.92308,
        -0.69231, -0.69231, -0.76923, -1.92308,
    ]);

    assert_eq!(b, b_result);
}

#[test]
fn test_mat4_inverse_3() {
    let a = m4([
        9.0, 3.0, 0.0, 9.0,
        -5.0, -2.0, -6.0, -3.0,
        -4.0, 9.0, 6.0, 4.0,
        -7.0, 6.0, 6.0, 2.0,
    ]);

    let b = a.inverse();
    let b_result = m4([
        -0.04074, -0.07778, 0.14444, -0.22222,
        -0.07778, 0.03333, 0.36667, -0.33333,
        -0.02901, -0.14630, -0.10926, 0.12963,
        0.17778, 0.06667, -0.26667, 0.33333,
    ]);

    assert_eq!(b, b_result);
}

#[test]
fn test_mat4_product_inverse() {
    let a = m4([
        3.0, -9.0, 7.0, 3.0,
        3.0, -8.0, 2.0, -9.0,
        -4.0, 4.0, 4.0, 1.0,
        -6.0, 5.0, -1.0, 1.0,
    ]);

    let b = m4([
        8.0, 2.0, 2.0, 2.0,
        3.0, -1.0, 7.0, 0.0,
        7.0, 0.0, 5.0, 4.0,
        6.0, -2.0, 0.0, 5.0,
    ]);

    let c = a * b;

    assert_eq!(c * b.inverse(), a);
}

#[test]
fn test_mat4_translation() {
    let t = Mat4::translation(s(5.0), s(-3.0), s(2.0));
    let p = point(-3.0, 4.0, 5.0);
    let r = point(2.0, 1.0, 7.0);

    assert_eq!(t * p, r);
}

#[test]
fn test_mat4_translation_inverse() {
    let t = Mat4::translation(s(5.0), s(-3.0), s(2.0));
    let p = point(-3.0, 4.0, 5.0);
    let r = point(-8.0, 7.0, 3.0);

    assert_eq!(t.inverse() * p, r);
}

#[test]
fn test_mat4_translation_against_vector() {
    let t = Mat4::translation(s(5.0), s(-3.0), s(2.0));
    let v = vector(-3.0, 4.0, 5.0);

    assert_eq!(t * v, v);
}

#[test]
fn test_mat4_scaling() {
    let t = Mat4::scaling(s(2.0), s(3.0), s(4.0));
    let p = point(-4.0, 6.0, 8.0);
    let r = point(-8.0, 18.0, 32.0);

    assert_eq!(t * p, r);
}

#[test]
fn test_mat4_scaling_vector() {
    let t = Mat4::scaling(s(2.0), s(3.0), s(4.0));
    let p = vector(-4.0, 6.0, 8.0);
    let r = vector(-8.0, 18.0, 32.0);

    assert_eq!(t * p, r);
}

#[test]
fn test_mat4_scaling_vector_inverse() {
    let t = Mat4::scaling(s(2.0), s(3.0), s(4.0));
    let p = vector(-4.0, 6.0, 8.0);
    let r = vector(-2.0, 2.0, 2.0);

    assert_eq!(t.inverse() * p, r);
}

#[test]
fn test_mat4_scaling_reflection() {
    let t = Mat4::scaling(s(-1.0), s(1.0), s(1.0));
    let p = vector(2.0, 3.0, 4.0);
    let r = vector(-2.0, 3.0, 4.0);

    assert_eq!(t * p, r);
}

#[test]
fn test_mat4_rot_x() {
    let p = point(0.0, 1.0, 0.0);
    let half_quarter = rotation_x(std::f64::consts::PI / 4.0);
    let full_quarter = rotation_x(std::f64::consts::PI / 2.0);

    assert_eq!(half_quarter * p, point(0.0, 2.0_f64.sqrt() / 2.0, 2.0_f64.sqrt() / 2.0));
    assert_eq!(full_quarter * p, point(0.0, 0.0, 1.0));
}

#[test]
fn test_mat4_rot_x_inverse() {
    let p = point(0.0, 1.0, 0.0);
    let half_quarter = rotation_x(std::f64::consts::PI / 4.0);
    let full_quarter = rotation_x(std::f64::consts::PI / 2.0);

    assert_eq!(half_quarter * p, point(0.0, 2.0_f64.sqrt() / 2.0, 2.0_f64.sqrt() / 2.0));
    assert_eq!(full_quarter * p, point(0.0, 0.0, 1.0));
}

fn rotation_y(radians: f64) -> Mat4 {
    Mat4::rotation_y(s(radians.sin()), s(radians.cos()))
}

fn rotation_z(radians: f64) -> Mat4 {
    Mat4::rotation_z(s(radians.sin()), s(radians.cos()))
}

fn raws4(m: Mat4) -> [i64; 16] {
    let mut out = [0; 16];
    for row in 0..4 {
        for col in 0..4 {
            out[row * 4 + col] = m.at(row, col).raw();
        }
    }
    out
}

#[test]
fn identity_is_neutral_on_both_sides() {
    let a = m4([
        1.5, -2.0, 3.0, 4.0,
        5.0, 6.25, 7.0, 8.0,
        9.0, 8.0, -7.125, 6.0,
        5.0, 4.0, 3.0, 2.0,
    ]);
    assert_eq!(a * Mat4::identity(), a);
    assert_eq!(Mat4::identity() * a, a);
    assert_eq!(raws4(a * Mat4::identity()), raws4(a));
    assert_eq!(raws4(Mat4::identity() * a), raws4(a));
    let ends = Mat4::new([Scalar::from_raw(i64::MAX); 16]);
    assert_eq!(raws4(ends * Mat4::identity()), raws4(ends));
    let low = Mat4::new([Scalar::from_raw(i64::MIN); 16]);
    assert_eq!(raws4(Mat4::identity() * low), raws4(low));
}

#[test]
fn inverse_undoes_the_matrix() {
    let a = m4([
        -5.0, 2.0, 6.0, -8.0,
        1.0, -5.0, 1.0, 8.0,
        7.0, 7.0, -6.0, -7.0,
        1.0, -3.0, 7.0, 4.0,
    ]);
    assert!(a.is_invertible());
    assert_eq!(a * a.inverse(), Mat4::identity());
    assert_eq!(a.inverse() * a, Mat4::identity());
    let p = point(1.5, -2.0, 3.0);
    assert_eq!(a.inverse() * (a * p), p);
    let v = vector(-0.25, 4.0, 9.0);
    assert_eq!(a.inverse() * (a * v), v);
}

#[test]
fn inverse_loses_precision_on_large_scalings() {
    let a = Mat4::scaling(s(300000.0), s(1.0), s(1.0));
    assert!(a.is_invertible());
    assert_ne!(a * a.inverse(), Mat4::identity());
}

#[test]
fn inverse_is_exact_to_the_last_unit() {
    let a = m4([
        -5.0, 2.0, 6.0, -8.0,
        1.0, -5.0, 1.0, 8.0,
        7.0, 7.0, -6.0, -7.0,
        1.0, -3.0, 7.0, 4.0,
    ]);
    assert_eq!(a.determinant().raw(), 532_000_000_000);
    let b = a.inverse();
    assert_eq!(b.at(3, 2).raw(), -300_751_879);
    assert_eq!(b.at(2, 3).raw(), 197_368_421);
    assert_eq!(b.at(0, 0).raw(), 218_045_112);
}

#[test]
fn inverse_of_a_singular_matrix_divides_by_zero() {
    let a = m4([
        -4.0, 2.0, -2.0, -3.0,
        9.0, 6.0, 2.0, 6.0,
        0.0, -5.0, 1.0, -5.0,
        0.0, 0.0, 0.0, 0.0,
    ]);
    assert_eq!(a.determinant().raw(), 0);
    let b = a.inverse();
    for row in 0..4 {
        for col in 0..4 {
            let c = a.cofactor(col, row).raw();
            let expected = if c > 0 {
                i64::MAX
            } else if c < 0 {
                i64::MIN
            } else {
                0
            };
            assert_eq!(b.at(row, col).raw(), expected);
        }
    }
}

#[test]
fn translation_leaves_vectors_alone() {
    let t = Mat4::translation(s(1e9), s(-3.5), Scalar::from_raw(i64::MIN));
    let v = vector(-3.0, 4.25, 5.0);
    let moved = t * v;
    assert_eq!(moved, v);
    assert_eq!(moved.x().raw(), v.x().raw());
    assert_eq!(moved.y().raw(), v.y().raw());
    assert_eq!(moved.z().raw(), v.z().raw());
    assert_eq!(moved.w().raw(), 0);
}

#[test]
fn translation_moves_what_is_almost_a_vector() {
    let t = Mat4::translation(s(100000.0), s(0.0), s(0.0));
    let v = Tuple::new(s(1.0), s(0.0), s(0.0), Scalar::from_raw(1));
    assert!(v.is_vector());
    assert_ne!(t * v, v);
}

#[test]
fn named_transforms_have_the_named_cells() {
    let o = 0;
    let i = 1_000_000_000;
    assert_eq!(raws4(Mat4::identity()), [i, o, o, o, o, i, o, o, o, o, i, o, o, o, o, i]);
    assert_eq!(
        raws4(Mat4::translation(s(5.0), s(-3.0), s(2.0))),
        [i, o, o, 5 * i, o, i, o, -3 * i, o, o, i, 2 * i, o, o, o, i]
    );
    assert_eq!(
        raws4(Mat4::scaling(s(2.0), s(3.0), s(4.0))),
        [2 * i, o, o, o, o, 3 * i, o, o, o, o, 4 * i, o, o, o, o, i]
    );
    let sin = 600_000_000;
    let cos = 800_000_000;
    assert_eq!(
        raws4(Mat4::rotation_x(s(0.6), s(0.8))),
        [i, o, o, o, o, cos, -sin, o, o, sin, cos, o, o, o, o, i]
    );
    assert_eq!(
        raws4(Mat4::rotation_y(s(0.6), s(0.8))),
        [cos, o, sin, o, o, i, o, o, -sin, o, cos, o, o, o, o, i]
    );
    assert_eq!(
        raws4(Mat4::rotation_z(s(0.6), s(0.8))),
        [cos, -sin, o, o, sin, cos, o, o, o, o, i, o, o, o, o, i]
    );
}

#[test]
fn rotations_turn_the_axes() {
    let quarter = std::f64::consts::PI / 2.0;
    assert_eq!(rotation_x(quarter) * point(0.0, 1.0, 0.0), point(0.0, 0.0, 1.0));
    assert_eq!(rotation_y(quarter) * point(0.0, 0.0, 1.0), point(1.0, 0.0, 0.0));
    assert_eq!(rotation_z(quarter) * point(1.0, 0.0, 0.0), point(0.0, 1.0, 0.0));
    let half = std::f64::consts::PI / 4.0;
    let r = 2.0_f64.sqrt() / 2.0;
    assert_eq!(rotation_y(half) * point(0.0, 0.0, 1.0), point(r, 0.0, r));
    assert_eq!(rotation_z(half) * point(0.0, 1.0, 0.0), point(-r, r, 0.0));
}

#[test]
fn builders_apply_the_last_call_last() {
    let (sin, cos) = (s(1.0), s(0.0));
    let p = point(1.0, 0.0, 1.0);
    let chained = Mat4::identity()
        .rotate_x(sin, cos)
        .scale(s(5.0), s(5.0), s(5.0))
        .translate(s(10.0), s(5.0), s(7.0));
    assert_eq!(chained * p, point(15.0, 0.0, 7.0));
    let by_hand = Mat4::translation(s(10.0), s(5.0), s(7.0))
        * (Mat4::scaling(s(5.0), s(5.0), s(5.0)) * Mat4::rotation_x(sin, cos));
    assert_eq!(raws4(chained), raws4(by_hand));
    let other_order = Mat4::identity()
        .translate(s(10.0), s(5.0), s(7.0))
        .scale(s(5.0), s(5.0), s(5.0))
        .rotate_x(sin, cos);
    assert_ne!(other_order * p, chained * p);
}

#[test]
fn builders_match_their_transforms() {
    let m = m4([
        1.0, 2.0, 3.0, 4.0,
        5.0, 6.0, 7.0, 8.0,
        9.0, 8.0, 7.0, 6.0,
        0.0, 0.0, 0.0, 1.0,
    ]);
    let (sin, cos) = (s(0.6), s(0.8));
    assert_eq!(raws4(m.rotate_x(sin, cos)), raws4(Mat4::rotation_x(sin, cos) * m));
    assert_eq!(raws4(m.rotate_y(sin, cos)), raws4(Mat4::rotation_y(sin, cos) * m));
    assert_eq!(raws4(m.rotate_z(sin, cos)), raws4(Mat4::rotation_z(sin, cos) * m));
    assert_eq!(
        raws4(m.translate(s(1.0), s(2.0), s(3.0))),
        raws4(Mat4::translation(s(1.0), s(2.0), s(3.0)) * m)
    );
    assert_eq!(
        raws4(m.scale(s(1.0), s(2.0), s(3.0))),
        raws4(Mat4::scaling(s(1.0), s(2.0), s(3.0)) * m)
    );
}

#[test]
fn clock_face_marks_land_on_the_circle() {
    let sixth = std::f64::consts::PI / 6.0;
    let p = point(0.0, 0.0, 1.0);
    let transform = |i: f64| {
        Mat4::identity()
            .rotate_y(s((i * sixth).sin()), s((i * sixth).cos()))
            .translate(s(1.0), s(0.0), s(1.0))
            .scale(s(200.0), s(0.0), s(200.0))
            .translate(s(20.0), s(0.0), s(20.0))
    };
    assert_eq!(transform(0.0) * p, point(220.0, 0.0, 420.0));
    assert_eq!(transform(3.0) * p, point(420.0, 0.0, 220.0));
    assert_eq!(transform(6.0) * p, point(220.0, 0.0, 20.0));
    assert_eq!(transform(9.0) * p, point(20.0, 0.0, 220.0));
}

#[test]
fn submatrix_drops_one_row_and_one_column() {
    let a = m3([
        1.0, 2.0, 3.0,
        4.0, 5.0, 6.0,
        7.0, 8.0, 9.0,
    ]);
    assert_eq!(a.submatrix(0, 0), m2([5.0, 6.0, 8.0, 9.0]));
    assert_eq!(a.submatrix(1, 1), m2([1.0, 3.0, 7.0, 9.0]));
    assert_eq!(a.submatrix(2, 2), m2([1.0, 2.0, 4.0, 5.0]));
    assert_eq!(a.submatrix(2, 0), m2([2.0, 3.0, 5.0, 6.0]));
    let b = m4([
        1.0, 2.0, 3.0, 4.0,
        5.0, 6.0, 7.0, 8.0,
        9.0, 10.0, 11.0, 12.0,
        13.0, 14.0, 15.0, 16.0,
    ]);
    assert_eq!(b.submatrix(0, 0), m3([6.0, 7.0, 8.0, 10.0, 11.0, 12.0, 14.0, 15.0, 16.0]));
    assert_eq!(b.submatrix(3, 3), m3([1.0, 2.0, 3.0, 5.0, 6.0, 7.0, 9.0, 10.0, 11.0]));
    assert_eq!(b.submatrix(1, 2), m3([1.0, 2.0, 4.0, 9.0, 10.0, 12.0, 13.0, 14.0, 16.0]));
}

#[test]
fn cofactors_alternate_in_sign() {
    let a = m4([
        -2.0, -8.0, 3.0, 5.0,
        -3.0, 1.0, 7.0, 3.0,
        1.0, 2.0, -9.0, 6.0,
        -6.0, 7.0, 7.0, -9.0,
    ]);
    for row in 0..4 {
        for col in 0..4 {
            let minor = a.minor(row, col).raw();
            let expected = if (row + col) % 2 == 0 { minor } else { -minor };
            assert_eq!(a.cofactor(row, col).raw(), expected);
        }
    }
    assert_eq!(a.minor(0, 1).raw(), -447_000_000_000);
    assert_eq!(a.cofactor(0, 1).raw(), 447_000_000_000);
}

#[test]
fn determinants_are_exact_on_wholes() {
    assert_eq!(m2([1.0, 5.0, -3.0, 2.0]).determinant().raw(), 17_000_000_000);
    let a = m3([
        1.0, 2.0, 6.0,
        -5.0, 8.0, -4.0,
        2.0, 6.0, 4.0,
    ]);
    assert_eq!(a.determinant().raw(), -196_000_000_000);
    let b = m4([
        -2.0, -8.0, 3.0, 5.0,
        -3.0, 1.0, 7.0, 3.0,
        1.0, 2.0, -9.0, 6.0,
        -6.0, 7.0, 7.0, -9.0,
    ]);
    assert_eq!(b.determinant().raw(), -4_071_000_000_000);
}

#[test]
fn matrices_compare_with_tolerance() {
    let a = m2([1.0, 2.0, 3.0, 4.0]);
    assert_eq!(a, m2([1.000009, 2.0, 3.0, 3.999991]));
    assert_ne!(a, m2([1.0, 2.0, 3.0, 4.00001]));
    let b = Mat4::identity();
    let mut cells = [0.0; 16];
    for i in 0..4 {
        cells[i * 5] = 1.0;
    }
    cells[15] = 1.00001;
    assert_ne!(b, m4(cells));
    cells[15] = 1.000009;
    assert_eq!(b, m4(cells));
}

#[test]
fn is_invertible_goes_by_the_tolerance() {
    assert!(Mat4::scaling(s(0.00001), s(1.0), s(1.0)).is_invertible());
    assert!(!Mat4::scaling(s(0.000009), s(1.0), s(1.0)).is_invertible());
    assert!(Mat4::scaling(s(-0.00001), s(1.0), s(1.0)).is_invertible());
}

#[test]
fn matrix_text_has_two_places() {
    let a = m4([
        1.0, 2.0, 3.0, 4.0,
        5.5, 6.5, 7.5, 8.5,
        9.0, 10.0, 11.0, 12.0,
        13.5, 14.5, -15.555, 0.004,
    ]);
    assert_eq!(
        a.to_text(),
        "[1.00, 2.00, 3.00, 4.00,\n 5.50, 6.50, 7.50, 8.50,\n 9.00, 10.00, 11.00, 12.00,\n 13.50, 14.50, -15.56, 0.00]"
    );
}

#[test]
fn transpose_twice_is_the_matrix() {
    let a = m4([
        0.0, 9.0, 3.0, 0.0,
        9.0, 8.0, 0.0, 8.0,
        1.0, 8.0, 5.0, 3.0,
        0.0, 0.0, 5.0, 8.0,
    ]);
    assert_eq!(raws4(a.transpose().transpose()), raws4(a));
    assert_eq!(a.transpose().at(0, 2).raw(), 1_000_000_000);
    assert_eq!(a.transpose().at(2, 0).raw(), 3_000_000_000);
}

struct Lcg(u64);

impl Lcg {
    fn next(&mut self) -> u64 {
        self.0 = self.0.wrapping_mul(6364136223846793005).wrapping_add(1442695040888963407);
        self.0 >> 33
    }

    fn whole(&mut self, bound: i64) -> i64 {
        (self.next() % (2 * bound as u64 + 1)) as i64 - bound
    }

    fn matrix(&mut self, bound: i64) -> Mat4 {
        let mut cells = [Scalar::zero(); 16];
        for cell in cells.iter_mut() {
            *cell = Scalar::from_int(self.whole(bound) as i32);
        }
        Mat4::new(cells)
    }
}

#[test]
fn whole_matrices_times_their_inverses_are_the_identity() {
    let mut rng = Lcg(2024);
    let mut inverted = 0;
    for _ in 0..400 {
        let m = rng.matrix(100);
        if m.is_invertible() {
            inverted += 1;
            assert_eq!(m * m.inverse(), Mat4::identity());
            assert_eq!(m.inverse() * m, Mat4::identity());
        }
    }
    assert!(inverted > 300);
}

#[test]
fn tuples_come_back_through_small_whole_matrices() {
    let mut rng = Lcg(7);
    let mut inverted = 0;
    for _ in 0..400 {
        let m = rng.matrix(10);
        let p = Tuple::new(
            Scalar::from_raw(rng.whole(60_000_000_000)),
            Scalar::from_raw(rng.whole(60_000_000_000)),
            Scalar::from_raw(rng.whole(60_000_000_000)),
            Scalar::from_raw(rng.whole(60_000_000_000)),
        );
        if m.is_invertible() {
            inverted += 1;
            assert_eq!(m.inverse() * (m * p), p);
        }
    }
    assert!(inverted > 300);
}

#[test]
fn singular_whole_matrices_are_not_invertible() {
    let mut rng = Lcg(99);
    for _ in 0..50 {
        let m = rng.matrix(100);
        let mut cells = [Scalar::zero(); 16];
        for row in 0..4 {
            for col in 0..4 {
                // The last row repeats the first.
                cells[row * 4 + col] = m.at(if row == 3 { 0 } else { row }, col);
            }
        }
        let singular = Mat4::new(cells);
        assert_eq!(singular.determinant().raw(), 0);
        assert!(!singular.is_invertible());
    }
}

#[test]
fn determinant_does_not_change_under_transposition_of_wholes() {
    let mut rng = Lcg(5);
    for _ in 0..100 {
        let m = rng.matrix(100);
        assert_eq!(m.transpose().determinant().raw(), m.determinant().raw());
    }
}
