use ray_kernel::canvas::Canvas;
use ray_kernel::color::Color;
use ray_kernel::scalar::Scalar;

fn s(v: f64) -> Scalar {
    Scalar::from_raw((v * 1e9).round() as i64)
}

fn color(r: f64, g: f64, b: f64) -> Color {
    Color::new(s(r), s(g), s(b))
}

#[test]
fn canvas_test_new() {
    let canvas = Canvas::new(10, 10);
    for x in 0..10 {
        for y in 0..10 {
            assert_eq!(canvas.get(x, y), color(0.0, 0.0, 0.0));
        }
    }
}

#[test]
fn test_set() {
    let mut canvas = Canvas::new(10, 10);
    canvas.set(0, 0, color(1.0, 0.0, 0.0));
    canvas.set(0, 1, color(0.0, 1.0, 0.0));
    canvas.set(1, 0, color(0.0, 0.0, 1.0));

    assert_eq!(canvas.get(0, 0), color(1.0, 0.0, 0.0));
    assert_eq!(canvas.get(0, 1), color(0.0, 1.0, 0.0));
    assert_eq!(canvas.get(1, 0), color(0.0, 0.0, 1.0));
}

#[test]
fn test_to_ppm() {
    let mut canvas = Canvas::new(5, 3);
    canvas.set(0, 0, color(1.5, 0.0, 0.0));
    canvas.set(2, 1, color(0.0, 0.5, 0.0));
    canvas.set(4, 2, color(-0.5, 0.0, 1.0));

    let ppm = canvas.to_ppm();
    let lines: Vec<&str> = ppm.lines().collect();

    assert_eq!(lines[0], "P3");
    assert_eq!(lines[1], "5 3");
    assert_eq!(lines[2], "255");

    assert_eq!(lines[3], "255 0 0 0 0 0 0 0 0 0 0 0 0 0 0");
    assert_eq!(lines[4], "0 0 0 0 0 0 0 128 0 0 0 0 0 0 0");
    assert_eq!(lines[5], "0 0 0 0 0 0 0 0 0 0 0 0 0 0 255");

    let last_char = ppm.chars().last().unwrap();
    assert_eq!(last_char, '\n');
}

#[test]
fn to_ppm_is_the_whole_text() {
    let mut canvas = Canvas::new(2, 2);
    canvas.set(1, 0, color(1.0, 0.8, 0.6));
    canvas.set(0, 1, color(0.1, 0.2, 0.3));
    assert_eq!(canvas.to_ppm(), "P3\n2 2\n255\n0 0 0 255 204 153\n26 51 76 0 0 0\n");
}

#[test]
fn to_ppm_twice_gives_the_same_text() {
    let mut canvas = Canvas::new(7, 4);
    canvas.set(3, 2, color(0.3, 0.6, 0.9));
    canvas.set(6, 3, color(2.0, -1.0, 0.5));
    let first = canvas.to_ppm();
    let second = canvas.to_ppm();
    assert_eq!(first, second);
    assert_eq!(first.as_bytes(), second.as_bytes());
}

#[test]
fn to_ppm_does_not_wrap_long_rows() {
    let mut canvas = Canvas::new(10, 2);
    for x in 0..10 {
        for y in 0..2 {
            canvas.set(x, y, color(1.0, 0.8, 0.6));
        }
    }
    let ppm = canvas.to_ppm();
    let lines: Vec<&str> = ppm.lines().collect();
    assert_eq!(lines.len(), 5);
    let row = "255 204 153 255 204 153 255 204 153 255 204 153 255 204 153 \
               255 204 153 255 204 153 255 204 153 255 204 153 255 204 153";
    assert_eq!(lines[3], row);
    assert_eq!(lines[4], row);
}

#[test]
fn to_ppm_of_empty_canvases() {
    assert_eq!(Canvas::new(0, 0).to_ppm(), "P3\n0 0\n255\n");
    assert_eq!(Canvas::new(3, 0).to_ppm(), "P3\n3 0\n255\n");
    assert_eq!(Canvas::new(0, 2).to_ppm(), "P3\n0 2\n255\n\n\n");
}

#[test]
fn to_ppm_writes_sizes_of_several_digits() {
    let ppm = Canvas::new(120, 1).to_ppm();
    let lines: Vec<&str> = ppm.lines().collect();
    assert_eq!(lines[1], "120 1");
    assert_eq!(lines[3].split(' ').count(), 360);
}

#[test]
fn rows_and_columns_do_not_mix() {
    let mut canvas = Canvas::new(5, 3);
    canvas.set(4, 0, color(1.0, 0.0, 0.0));
    canvas.set(0, 1, color(0.0, 1.0, 0.0));
    canvas.set(3, 1, color(0.0, 0.0, 1.0));
    canvas.set(1, 2, color(1.0, 1.0, 1.0));
    assert_eq!(canvas.get(4, 0), color(1.0, 0.0, 0.0));
    assert_eq!(canvas.get(0, 1), color(0.0, 1.0, 0.0));
    assert_eq!(canvas.get(3, 1), color(0.0, 0.0, 1.0));
    assert_eq!(canvas.get(1, 2), color(1.0, 1.0, 1.0));
    assert_eq!(canvas.get(3, 0), color(0.0, 0.0, 0.0));
    assert_eq!(canvas.get(4, 2), color(0.0, 0.0, 0.0));
    let ppm = canvas.to_ppm();
    let lines: Vec<&str> = ppm.lines().collect();
    assert_eq!(lines[3], "0 0 0 0 0 0 0 0 0 0 0 0 255 0 0");
    assert_eq!(lines[4], "0 255 0 0 0 0 0 0 0 0 0 255 0 0 0");
    assert_eq!(lines[5], "0 0 0 255 255 255 0 0 0 0 0 0 0 0 0");
}

#[test]
fn is_in_bounds_checks_both_coordinates() {
    let canvas = Canvas::new(5, 3);
    assert!(canvas.is_in_bounds(0, 0));
    assert!(canvas.is_in_bounds(4, 2));
    assert!(!canvas.is_in_bounds(5, 2));
    assert!(!canvas.is_in_bounds(4, 3));
    assert!(!canvas.is_in_bounds(5, 3));
    assert!(!Canvas::new(0, 0).is_in_bounds(0, 0));
}

#[test]
fn size_is_kept() {
    let canvas = Canvas::new(5, 3);
    assert_eq!(canvas.width(), 5);
    assert_eq!(canvas.height(), 3);
}

#[test]
fn to_ppm_wrapped_breaks_long_rows() {
    let mut canvas = Canvas::new(10, 2);
    for x in 0..10 {
        for y in 0..2 {
            canvas.set(x, y, color(1.0, 0.8, 0.6));
        }
    }

    let ppm = canvas.to_ppm_wrapped(70);
    let lines: Vec<&str> = ppm.lines().collect();

    assert_eq!(lines[0], "P3");
    assert_eq!(lines[1], "10 2");
    assert_eq!(lines[2], "255");
    assert_eq!(lines[3], "255 204 153 255 204 153 255 204 153 255 204 153 255 204 153 255 204");
    assert_eq!(lines[4], "153 255 204 153 255 204 153 255 204 153 255 204 153");
    assert_eq!(lines[5], "255 204 153 255 204 153 255 204 153 255 204 153 255 204 153 255 204");
    assert_eq!(lines[6], "153 255 204 153 255 204 153 255 204 153 255 204 153");
    assert_eq!(lines.len(), 7);
    assert_eq!(ppm.chars().last().unwrap(), '\n');
}

#[test]
fn to_ppm_wrapped_fills_lines_to_the_limit() {
    let mut canvas = Canvas::new(2, 1);
    canvas.set(0, 0, color(1.0, 0.0, 0.04));
    canvas.set(1, 0, color(0.0, 1.0, 0.0));
    // The numbers are 255 0 10 0 255 0.
    assert_eq!(canvas.to_ppm_wrapped(8), "P3\n2 1\n255\n255 0 10\n0 255 0\n");
    assert_eq!(canvas.to_ppm_wrapped(7), "P3\n2 1\n255\n255 0\n10 0\n255 0\n");
    assert_eq!(canvas.to_ppm_wrapped(5), "P3\n2 1\n255\n255 0\n10 0\n255 0\n");
    assert_eq!(canvas.to_ppm_wrapped(4), "P3\n2 1\n255\n255\n0 10\n0\n255\n0\n");
    assert_eq!(canvas.to_ppm_wrapped(3), "P3\n2 1\n255\n255\n0\n10\n0\n255\n0\n");
    assert_eq!(canvas.to_ppm_wrapped(0), "P3\n2 1\n255\n255\n0\n10\n0\n255\n0\n");
    assert_eq!(canvas.to_ppm_wrapped(14), "P3\n2 1\n255\n255 0 10 0 255\n0\n");
    assert_eq!(canvas.to_ppm_wrapped(15), "P3\n2 1\n255\n255 0 10 0 255\n0\n");
    assert_eq!(canvas.to_ppm_wrapped(16), "P3\n2 1\n255\n255 0 10 0 255 0\n");
}

#[test]
fn to_ppm_wrapped_with_room_is_to_ppm() {
    let mut canvas = Canvas::new(6, 3);
    canvas.set(0, 0, color(1.0, 1.0, 1.0));
    canvas.set(5, 2, color(0.5, 0.25, 0.125));
    canvas.set(3, 1, color(0.01, 0.02, 0.03));
    assert_eq!(canvas.to_ppm_wrapped(71), canvas.to_ppm());
    assert_eq!(canvas.to_ppm_wrapped(usize::MAX), canvas.to_ppm());
    assert_eq!(Canvas::new(0, 2).to_ppm_wrapped(0), Canvas::new(0, 2).to_ppm());
}
