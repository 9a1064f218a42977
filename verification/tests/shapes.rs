use siggen::shape::{adjust_volume, gen_saw, gen_sine, gen_square, gen_triangle, modulate_amps,
    Shape};

#[test]
fn square_levels() {
    // 1 on [0, 0.5), -1 on [0.5, 1)
    assert_eq!(gen_square(0, 4), 1_000_000);
    assert_eq!(gen_square(1, 4), 1_000_000);
    assert_eq!(gen_square(2, 4), -1_000_000);
    assert_eq!(gen_square(3, 4), -1_000_000);
    assert_eq!(gen_square(499, 1000), 1_000_000);
    assert_eq!(gen_square(500, 1000), -1_000_000);
}

#[test]
fn saw_starts_at_minus_one() {
    assert_eq!(gen_saw(0, 4), -1_000_000);
    assert_eq!(gen_saw(0, 1000), -1_000_000);
}

#[test]
fn saw_is_linear() {
    // 2x - 1 at x = 1/4, 1/2, 3/4
    assert_eq!(gen_saw(1, 4), -500_000);
    assert_eq!(gen_saw(2, 4), 0);
    assert_eq!(gen_saw(3, 4), 500_000);
}

#[test]
fn saw_increases_toward_one() {
    let mut prev = gen_saw(0, 1000);
    for n in 1..1000u64 {
        let v = gen_saw(n, 1000);
        assert!(v >= prev);
        prev = v;
    }
    // the last representable phase of the cycle comes close to 1
    assert_eq!(gen_saw(999, 1000), 998_000);
    assert_eq!(gen_saw(999_999, 1_000_000), 999_998);
}

#[test]
fn triangle_quarter_points() {
    // 1 at 0, 0 at 1/4, -1 at 1/2, 0 at 3/4
    assert_eq!(gen_triangle(0, 4), 1_000_000);
    assert_eq!(gen_triangle(1, 4), 0);
    assert_eq!(gen_triangle(2, 4), -1_000_000);
    assert_eq!(gen_triangle(3, 4), 0);
}

#[test]
fn triangle_is_piecewise_linear() {
    // 1 - 4x on the way down, 4x - 3 on the way up
    assert_eq!(gen_triangle(1, 8), 500_000);
    assert_eq!(gen_triangle(3, 8), -500_000);
    assert_eq!(gen_triangle(5, 8), -500_000);
    assert_eq!(gen_triangle(7, 8), 500_000);
    // continuity across the midpoint: neighbouring samples stay close
    let d = 1_000_000u64;
    for n in [d / 2 - 1, d / 2, d / 2 + 1] {
        let a = gen_triangle(n, d);
        let b = gen_triangle(n + 1, d);
        assert!((a - b).abs() <= 4);
    }
}

#[test]
fn sine_quarter_points() {
    // 0 at 0, 1 at 1/4, 0 at 1/2, -1 at 3/4
    assert_eq!(gen_sine(0, 4), 0);
    assert_eq!(gen_sine(1, 4), 1_000_000);
    assert_eq!(gen_sine(2, 4), 0);
    assert_eq!(gen_sine(3, 4), -1_000_000);
    assert_eq!(gen_sine(0, 44_100 * 360_000), 0);
    assert_eq!(gen_sine(11_025 * 360_000, 44_100 * 360_000), 1_000_000);
}

#[test]
fn sine_approximates_the_true_curve() {
    // sin(2 pi / 8) = 0.70710...; the rational half-wave form gives
    // 192 / 272 = 0.70588...
    assert_eq!(gen_sine(1, 8), 705_882);
    assert_eq!(gen_sine(3, 8), 705_882);
    assert_eq!(gen_sine(5, 8), -705_882);
    assert_eq!(gen_sine(7, 8), -705_882);
}

#[test]
fn every_shape_stays_within_unit_amplitude() {
    let shapes = [Shape::Saw, Shape::Sine, Shape::Square, Shape::Triangle, Shape::Silence];
    for shape in shapes {
        for n in 0..97u64 {
            let v = shape.apply(n, 97);
            assert!(-1_000_000 <= v && v <= 1_000_000);
        }
    }
}

#[test]
fn silence_is_always_zero() {
    for n in 0..50u64 {
        assert_eq!(Shape::Silence.apply(n, 50), 0);
    }
}

#[test]
fn quantizer_scales_and_truncates() {
    assert_eq!(adjust_volume(1_000_000), 32_767);
    assert_eq!(adjust_volume(-1_000_000), -32_767);
    assert_eq!(adjust_volume(0), 0);
    // 0.5 * 32767 = 16383.5, truncated toward zero on both sides
    assert_eq!(adjust_volume(500_000), 16_383);
    assert_eq!(adjust_volume(-500_000), -16_383);
    assert_eq!(adjust_volume(1), 0);
    assert_eq!(adjust_volume(-1), 0);
}

#[test]
fn amplitude_product_multiplies_fractions() {
    assert_eq!(modulate_amps(1_000_000, 1_000_000), 1_000_000);
    assert_eq!(modulate_amps(1_000_000, -1_000_000), -1_000_000);
    assert_eq!(modulate_amps(-1_000_000, -1_000_000), 1_000_000);
    assert_eq!(modulate_amps(500_000, 500_000), 250_000);
    assert_eq!(modulate_amps(-500_000, 250_000), -125_000);
    assert_eq!(modulate_amps(1_000_000, 0), 0);
    assert_eq!(modulate_amps(0, -700_000), 0);
}
