//! Waveform shape functions.
//!
//! A shape maps a normalized phase in `[0, 1)` to a unitless amplitude in
//! `[-1, 1]`. Phases are exact rationals `num / den`; amplitudes are
//! fixed-point integers scaled by `AMP_UNIT`, so an amplitude of `AMP_UNIT`
//! stands for 1.0 and `-AMP_UNIT` for -1.0.

use vstd::prelude::*;

verus! {

use vstd::arithmetic::div_mod::{
    lemma_div_is_ordered,
    lemma_div_multiples_vanish,
    lemma_div_pos_is_pos,
};
use vstd::arithmetic::mul::{
    lemma_mul_is_distributive_sub,
    lemma_mul_unary_negation,
    lemma_mul_upper_bound,
};

/// Fixed-point amplitude scale: this value stands for an amplitude of 1.0.
/// (The spec functions below spell the scale out as `1_000_000`.)
pub const AMP_UNIT: i32 = 1_000_000;

/// Largest phase denominator any caller may use. Tick sources produce
/// phases whose denominator is `sample_rate * 360_000`, so this is the
/// denominator at the largest representable sample rate; the bound keeps
/// all intermediate products inside `u128`.
pub const MAX_PHASE_DEN: u64 = 360_000 * 0xFFFF_FFFF;

/// The waveform families. Each selects one pure shape function.
#[derive(Clone, Copy, PartialEq, Eq, Structural, Debug)]
pub enum Shape {
    Saw,
    Sine,
    Square,
    Triangle,
    Silence,
}

/// Amplitude of the square wave at phase `n / d`: 1.0 on the first half
/// cycle, -1.0 on the second.
pub open spec fn square_amp(n: int, d: int) -> int {
    if 2 * n < d {
        1_000_000
    } else {
        -1_000_000
    }
}

/// Amplitude of the saw wave at phase `n / d`: the line `2x - 1`,
/// truncated toward zero at the fixed-point scale.
pub open spec fn saw_amp(n: int, d: int) -> int {
    if 2 * n >= d {
        ((2 * n - d) * 1_000_000) / d
    } else {
        -(((d - 2 * n) * 1_000_000) / d)
    }
}

/// Amplitude of the triangle wave at phase `n / d`: `1 - 4x` on the first
/// half cycle, `4x - 3` on the second, truncated toward zero.
pub open spec fn triangle_amp(n: int, d: int) -> int {
    if 2 * n < d {
        if 4 * n <= d {
            ((d - 4 * n) * 1_000_000) / d
        } else {
            -(((4 * n - d) * 1_000_000) / d)
        }
    } else {
        if 4 * n >= 3 * d {
            ((4 * n - 3 * d) * 1_000_000) / d
        } else {
            -(((3 * d - 4 * n) * 1_000_000) / d)
        }
    }
}

/// One half wave of the sine approximation, as a nonnegative fixed-point
/// fraction. For a phase `x` in the half cycle, `a` and `c` are chosen so
/// that `x * (1/2 - x) == a * c / (2 d^2)`; the rational approximation
/// `64u / (5 - 16u)` of the sine of `x` (with `u = x * (1/2 - x)`) then
/// becomes this integer formula. It is exact at `u = 0` (value 0) and at
/// `u = 1/16` (value 1), and stays within `[0, 1]` whenever
/// `8 a c <= d^2`.
pub open spec fn sine_half_amp(a: int, c: int, d: int) -> int {
    (32 * a * c * 1_000_000) / (5 * d * d - 8 * a * c)
}

/// Amplitude of the sine wave at phase `n / d`: the half-wave
/// approximation on the first half cycle, its negation on the second.
pub open spec fn sine_amp(n: int, d: int) -> int {
    if 2 * n < d {
        sine_half_amp(n, d - 2 * n, d)
    } else {
        -sine_half_amp(2 * n - d, d - n, d)
    }
}

/// Amplitude of the chosen shape at phase `n / d`. Silence is always zero.
pub open spec fn shape_amp(shape: Shape, n: int, d: int) -> int {
    match shape {
        Shape::Saw => saw_amp(n, d),
        Shape::Sine => sine_amp(n, d),
        Shape::Square => square_amp(n, d),
        Shape::Triangle => triangle_amp(n, d),
        Shape::Silence => 0,
    }
}

/// Truncating a nonnegative fraction `x / d` stays within `[0, c]` as long
/// as `x <= d * c`.
proof fn lemma_div_le(x: int, d: int, c: int)
    requires
        d > 0,
        c >= 0,
        0 <= x <= d * c,
    ensures
        0 <= x / d <= c,
{
    lemma_div_pos_is_pos(x, d);
    lemma_div_is_ordered(x, d * c, d);
    lemma_div_multiples_vanish(c, d);
}

/// Every shape keeps its amplitude within `[-1, 1]` on the whole phase
/// domain `[0, 1)`: the magnitude of `shape_amp` never exceeds `AMP_UNIT`.
pub proof fn lemma_shape_amp_bounded(shape: Shape, n: int, d: int)
    requires
        0 <= n < d,
    ensures
        -(AMP_UNIT as int) <= shape_amp(shape, n, d) <= AMP_UNIT as int,
{
    match shape {
        Shape::Saw => {
            if 2 * n >= d {
                lemma_div_le((2 * n - d) * 1_000_000, d, 1_000_000);
            } else {
                lemma_div_le((d - 2 * n) * 1_000_000, d, 1_000_000);
            }
        },
        Shape::Sine => {
            lemma_sine_amp_bounded(n, d);
        },
        Shape::Square => {},
        Shape::Triangle => {
            if 2 * n < d {
                if 4 * n <= d {
                    lemma_div_le((d - 4 * n) * 1_000_000, d, 1_000_000);
                } else {
                    lemma_div_le((4 * n - d) * 1_000_000, d, 1_000_000);
                }
            } else {
                if 4 * n >= 3 * d {
                    lemma_div_le((4 * n - 3 * d) * 1_000_000, d, 1_000_000);
                } else {
                    lemma_div_le((3 * d - 4 * n) * 1_000_000, d, 1_000_000);
                }
            }
        },
        Shape::Silence => {},
    }
}

/// The product `a * c` of the half-wave decomposition never exceeds
/// `d^2 / 8`, on either half of the cycle.
proof fn lemma_sine_product_bound(n: int, d: int)
    requires
        0 <= n < d,
    ensures
        2 * n < d ==> 0 <= 8 * n * (d - 2 * n) <= d * d,
        2 * n >= d ==> 0 <= 8 * (2 * n - d) * (d - n) <= d * d,
{
    if 2 * n < d {
        assert(0 <= 8 * n * (d - 2 * n) <= d * d) by (nonlinear_arith)
            requires
                0 <= n,
                2 * n < d,
        ;
    } else {
        assert(0 <= 8 * (2 * n - d) * (d - n) <= d * d) by (nonlinear_arith)
            requires
                0 <= n < d,
                2 * n >= d,
        ;
    }
}

/// The half-wave approximation stays within `[0, 1]` whenever the product
/// bound `8 a c <= d^2` holds.
proof fn lemma_sine_half_amp_bounded(a: int, c: int, d: int)
    requires
        d > 0,
        a >= 0,
        c >= 0,
        8 * a * c <= d * d,
    ensures
        0 <= sine_half_amp(a, c, d) <= 1_000_000,
{
    assert(0 <= 32 * a * c * 1_000_000 <= (5 * d * d - 8 * a * c) * 1_000_000 && 5 * d * d - 8 * a
        * c > 0) by (nonlinear_arith)
        requires
            d > 0,
            a >= 0,
            c >= 0,
            8 * a * c <= d * d,
    ;
    lemma_div_le(32 * a * c * 1_000_000, 5 * d * d - 8 * a * c, 1_000_000);
}

/// The sine approximation keeps its amplitude within `[-1, 1]`.
proof fn lemma_sine_amp_bounded(n: int, d: int)
    requires
        0 <= n < d,
    ensures
        -1_000_000 <= sine_amp(n, d) <= 1_000_000,
{
    lemma_sine_product_bound(n, d);
    if 2 * n < d {
        lemma_sine_half_amp_bounded(n, d - 2 * n, d);
    } else {
        lemma_sine_half_amp_bounded(2 * n - d, d - n, d);
    }
}

/// The square wave is exactly 1 on the first half of the cycle and
/// exactly -1 on the second half.
pub proof fn lemma_square_levels(n: int, d: int)
    requires
        0 <= n < d,
    ensures
        2 * n < d ==> square_amp(n, d) == 1_000_000,
        2 * n >= d ==> square_amp(n, d) == -1_000_000,
{
}

/// The saw wave starts at exactly -1, increases monotonically with the
/// phase, and comes within two fixed-point steps of 1 at the last
/// representable phase of the cycle.
pub proof fn lemma_saw_monotonic(d: int, n1: int, n2: int)
    requires
        0 <= n1 <= n2 < d,
    ensures
        saw_amp(0, d) == -1_000_000,
        saw_amp(n1, d) <= saw_amp(n2, d),
        d >= 1_000_000 ==> saw_amp(d - 1, d) >= 1_000_000 - 2,
{
    lemma_div_multiples_vanish(1_000_000, d);
    assert((d - 2 * 0) * 1_000_000 == d * 1_000_000);
    if 2 * n1 >= d {
        lemma_div_is_ordered((2 * n1 - d) * 1_000_000, (2 * n2 - d) * 1_000_000, d);
    } else if 2 * n2 < d {
        lemma_div_is_ordered((d - 2 * n2) * 1_000_000, (d - 2 * n1) * 1_000_000, d);
    } else {
        lemma_div_pos_is_pos((d - 2 * n1) * 1_000_000, d);
        lemma_div_pos_is_pos((2 * n2 - d) * 1_000_000, d);
    }
    if d >= 1_000_000 {
        lemma_div_is_ordered(d * 999_998, (2 * (d - 1) - d) * 1_000_000, d);
        lemma_div_multiples_vanish(999_998, d);
    }
}

/// The triangle wave hits its characteristic points exactly, for every
/// cycle length divisible by four: 1 at phase 0, 0 at a quarter cycle,
/// -1 at the half cycle, and 0 again at three quarters.
pub proof fn lemma_triangle_quarter_points(d: int)
    requires
        d > 0,
        d % 4 == 0,
    ensures
        triangle_amp(0, d) == 1_000_000,
        triangle_amp(d / 4, d) == 0,
        triangle_amp(d / 2, d) == -1_000_000,
        triangle_amp(3 * (d / 4), d) == 0,
{
    let q = d / 4;
    vstd::arithmetic::div_mod::lemma_fundamental_div_mod(d, 4);
    assert(d == 4 * q);
    lemma_div_multiples_vanish(2 * q, 2);
    assert(d / 2 == 2 * q);
    lemma_div_multiples_vanish(1_000_000, d);
    lemma_div_multiples_vanish(0, d);
    assert((d - 4 * 0) * 1_000_000 == d * 1_000_000);
    assert((d - 4 * (d / 4)) * 1_000_000 == d * 0);
    assert((3 * d - 4 * (d / 2)) * 1_000_000 == d * 1_000_000);
    assert((4 * (3 * (d / 4)) - 3 * d) * 1_000_000 == d * 0);
}

/// Scaled by a positive denominator, a truncated nonnegative fraction
/// lies within one denominator below its numerator.
proof fn lemma_scaled_div_pos(x: int, d: int)
    requires
        d > 0,
        0 <= x,
    ensures
        x - d < d * (x / d) <= x,
{
    vstd::arithmetic::div_mod::lemma_fundamental_div_mod(x, d);
    vstd::arithmetic::div_mod::lemma_mod_bound(x, d);
}

/// The negated counterpart: scaled by the denominator, the negation of a
/// truncated nonnegative fraction lies within one denominator above the
/// negated numerator.
proof fn lemma_scaled_div_neg(x: int, d: int)
    requires
        d > 0,
        0 <= x,
    ensures
        -x <= d * (-(x / d)) < -x + d,
{
    lemma_scaled_div_pos(x, d);
    lemma_mul_unary_negation(d, x / d);
}

/// Scaled by the denominator, a triangle sample lies within one
/// denominator of its branch's exact numerator.
proof fn lemma_triangle_scaled(n: int, d: int)
    requires
        0 <= n < d,
    ensures
        2 * n < d && 4 * n <= d ==> (d - 4 * n) * 1_000_000 - d < d * triangle_amp(n, d) <= (d - 4
            * n) * 1_000_000,
        2 * n < d && 4 * n > d ==> -((4 * n - d) * 1_000_000) <= d * triangle_amp(n, d) < -((4 * n
            - d) * 1_000_000) + d,
        2 * n >= d && 4 * n >= 3 * d ==> (4 * n - 3 * d) * 1_000_000 - d < d * triangle_amp(n, d)
            <= (4 * n - 3 * d) * 1_000_000,
        2 * n >= d && 4 * n < 3 * d ==> -((3 * d - 4 * n) * 1_000_000) <= d * triangle_amp(n, d)
            < -((3 * d - 4 * n) * 1_000_000) + d,
{
    if 2 * n < d {
        if 4 * n <= d {
            lemma_scaled_div_pos((d - 4 * n) * 1_000_000, d);
        } else {
            lemma_scaled_div_neg((4 * n - d) * 1_000_000, d);
        }
    } else {
        if 4 * n >= 3 * d {
            lemma_scaled_div_pos((4 * n - 3 * d) * 1_000_000, d);
        } else {
            lemma_scaled_div_neg((3 * d - 4 * n) * 1_000_000, d);
        }
    }
}

/// The triangle wave is continuous: scaled by the cycle length, two
/// adjacent samples differ by no more than the exact line's slope plus
/// the truncation error, so the jump between neighbouring phases vanishes
/// as the denominator grows.
pub proof fn lemma_triangle_continuous(n: int, d: int)
    requires
        0 <= n,
        n + 1 < d,
    ensures
        -(4_000_000 + 2 * d) <= d * (triangle_amp(n + 1, d) - triangle_amp(n, d)) <= 4_000_000 + 2
            * d,
{
    lemma_mul_is_distributive_sub(d, triangle_amp(n + 1, d), triangle_amp(n, d));
    lemma_triangle_scaled(n, d);
    lemma_triangle_scaled(n + 1, d);
}

/// The sine wave hits its characteristic points exactly, for every cycle
/// length divisible by four: 0 at phase 0, 1 at a quarter cycle, 0 at the
/// half cycle, and -1 at three quarters.
pub proof fn lemma_sine_quarter_points(d: int)
    requires
        d > 0,
        d % 4 == 0,
    ensures
        sine_amp(0, d) == 0,
        sine_amp(d / 4, d) == 1_000_000,
        sine_amp(d / 2, d) == 0,
        sine_amp(3 * (d / 4), d) == -1_000_000,
{
    let q = d / 4;
    let h = d / 2;
    vstd::arithmetic::div_mod::lemma_fundamental_div_mod(d, 4);
    assert(d == 4 * q);
    lemma_div_multiples_vanish(2 * q, 2);
    assert(h == 2 * q);

    // phase 0: the numerator of the half-wave fraction vanishes
    assert(5 * d * d - 8 * 0 * (d - 2 * 0) > 0 && 32 * 0 * (d - 2 * 0) * 1_000_000 == (5 * d * d
        - 8 * 0 * (d - 2 * 0)) * 0) by (nonlinear_arith)
        requires
            d > 0,
    ;
    lemma_div_multiples_vanish(0, 5 * d * d - 8 * 0 * (d - 2 * 0));

    // phase 1/4: numerator and denominator agree, so the fraction is one
    assert(32 * q * (d - 2 * q) * 1_000_000 == (5 * d * d - 8 * q * (d - 2 * q)) * 1_000_000 && 5
        * d * d - 8 * q * (d - 2 * q) > 0) by (nonlinear_arith)
        requires
            d == 4 * q,
            q >= 1,
    ;
    lemma_div_multiples_vanish(1_000_000, 5 * d * d - 8 * q * (d - 2 * q));

    // phase 1/2: the mirrored numerator vanishes
    assert(32 * (2 * h - d) * (d - h) * 1_000_000 == (5 * d * d - 8 * (2 * h - d) * (d - h)) * 0
        && 5 * d * d - 8 * (2 * h - d) * (d - h) > 0) by (nonlinear_arith)
        requires
            d == 2 * h,
            d > 0,
    ;
    lemma_div_multiples_vanish(0, 5 * d * d - 8 * (2 * h - d) * (d - h));

    // phase 3/4: numerator and denominator agree again, negated outside
    assert(32 * (2 * (3 * q) - d) * (d - 3 * q) * 1_000_000 == (5 * d * d - 8 * (2 * (3 * q) - d)
        * (d - 3 * q)) * 1_000_000 && 5 * d * d - 8 * (2 * (3 * q) - d) * (d - 3 * q) > 0)
        by (nonlinear_arith)
        requires
            d == 4 * q,
            q >= 1,
    ;
    lemma_div_multiples_vanish(1_000_000, 5 * d * d - 8 * (2 * (3 * q) - d) * (d - 3 * q));
}

/// Square wave: 1.0 while the phase is in the first half of the cycle,
/// -1.0 in the second half.
pub fn gen_square(num: u64, den: u64) -> (r: i32)
    requires
        num < den,
        den <= MAX_PHASE_DEN,
    ensures
        r as int == square_amp(num as int, den as int),
{
    if 2 * num < den {
        AMP_UNIT
    } else {
        -AMP_UNIT
    }
}

/// Saw wave: rises linearly from -1.0 at phase 0 toward 1.0 at the end of
/// the cycle.
pub fn gen_saw(num: u64, den: u64) -> (r: i32)
    requires
        num < den,
        den <= MAX_PHASE_DEN,
    ensures
        r as int == saw_amp(num as int, den as int),
{
    if 2 * num >= den {
        let q: u128 = ((2 * num - den) as u128) * 1_000_000 / (den as u128);
        proof {
            lemma_div_le((2 * num - den) * 1_000_000, den as int, 1_000_000);
        }
        q as i32
    } else {
        let q: u128 = ((den - 2 * num) as u128) * 1_000_000 / (den as u128);
        proof {
            lemma_div_le((den - 2 * num) * 1_000_000, den as int, 1_000_000);
        }
        -(q as i32)
    }
}

/// Triangle wave: falls linearly from 1.0 at phase 0 to -1.0 at the half
/// cycle, then rises back.
pub fn gen_triangle(num: u64, den: u64) -> (r: i32)
    requires
        num < den,
        den <= MAX_PHASE_DEN,
    ensures
        r as int == triangle_amp(num as int, den as int),
{
    if 2 * num < den {
        if 4 * num <= den {
            let q: u128 = ((den - 4 * num) as u128) * 1_000_000 / (den as u128);
            proof {
                lemma_div_le((den - 4 * num) * 1_000_000, den as int, 1_000_000);
            }
            q as i32
        } else {
            let q: u128 = ((4 * num - den) as u128) * 1_000_000 / (den as u128);
            proof {
                lemma_div_le((4 * num - den) * 1_000_000, den as int, 1_000_000);
            }
            -(q as i32)
        }
    } else {
        if 4 * num >= 3 * den {
            let q: u128 = ((4 * num - 3 * den) as u128) * 1_000_000 / (den as u128);
            proof {
                lemma_div_le((4 * num - 3 * den) * 1_000_000, den as int, 1_000_000);
            }
            q as i32
        } else {
            let q: u128 = ((3 * den - 4 * num) as u128) * 1_000_000 / (den as u128);
            proof {
                lemma_div_le((3 * den - 4 * num) * 1_000_000, den as int, 1_000_000);
            }
            -(q as i32)
        }
    }
}

/// One nonnegative half wave of the sine approximation; see
/// `sine_half_amp` for the decomposition of the half phase into `a`, `c`.
fn sine_half(a: u64, c: u64, d: u64) -> (r: i32)
    requires
        0 < d <= MAX_PHASE_DEN,
        a <= d,
        c <= d,
        8 * a * c <= d * d,
    ensures
        r as int == sine_half_amp(a as int, c as int, d as int),
        0 <= r <= AMP_UNIT,
{
    proof {
        assert(32 * (a as int) * (c as int) >= 0 && 32 * (a as int) * (c as int) * 1_000_000 <= (5
            * (d as int) * (d as int) - 8 * (a as int) * (c as int)) * 1_000_000 && 8 * (a as int)
            * (c as int) < 5 * (d as int) * (d as int) && 5 * (d as int) * (d as int) <= 5
            * 1546188226200000 * 1546188226200000) by (nonlinear_arith)
            requires
                0 < d <= 1546188226200000,
                0 <= a,
                0 <= c,
                8 * a * c <= d * d,
        ;
        lemma_div_le(
            32 * (a as int) * (c as int) * 1_000_000,
            5 * (d as int) * (d as int) - 8 * (a as int) * (c as int),
            1_000_000,
        );
    }
    let numer: u128 = 32 * (a as u128) * (c as u128) * 1_000_000;
    let denom: u128 = 5 * (d as u128) * (d as u128) - 8 * (a as u128) * (c as u128);
    (numer / denom) as i32
}

/// Sine wave: the half-wave approximation on the first half of the cycle,
/// mirrored and negated on the second half. Exact at the quarter points.
pub fn gen_sine(num: u64, den: u64) -> (r: i32)
    requires
        num < den,
        den <= MAX_PHASE_DEN,
    ensures
        r as int == sine_amp(num as int, den as int),
{
    proof {
        lemma_sine_product_bound(num as int, den as int);
    }
    if 2 * num < den {
        sine_half(num, den - 2 * num, den)
    } else {
        -sine_half(2 * num - den, den - num, den)
    }
}

impl Shape {
    /// Amplitude of this shape at phase `num / den`, as a fixed-point
    /// fraction of `AMP_UNIT`; always within `[-AMP_UNIT, AMP_UNIT]`.
    pub fn apply(&self, num: u64, den: u64) -> (r: i32)
        requires
            num < den,
            den <= MAX_PHASE_DEN,
        ensures
            r as int == shape_amp(*self, num as int, den as int),
            -(AMP_UNIT as int) <= r as int <= AMP_UNIT as int,
    {
        proof {
            lemma_shape_amp_bounded(*self, num as int, den as int);
        }
        match self {
            Shape::Saw => gen_saw(num, den),
            Shape::Sine => gen_sine(num, den),
            Shape::Square => gen_square(num, den),
            Shape::Triangle => gen_triangle(num, den),
            Shape::Silence => 0,
        }
    }
}

/// The signed 16-bit peak a full-scale amplitude is mapped to.
pub const MAX_AMPL: i16 = 32_767;

/// The 16-bit sample for the fixed-point amplitude `amp`: the amplitude
/// scaled to the signed 16-bit peak, truncated toward zero.
pub open spec fn quantized(amp: int) -> int {
    if amp >= 0 {
        (amp * 32_767) / 1_000_000
    } else {
        -(((-amp) * 32_767) / 1_000_000)
    }
}

/// The quantized sample of an in-range amplitude stays within the signed
/// 16-bit peak.
pub proof fn lemma_quantized_bounded(amp: int)
    requires
        -1_000_000 <= amp <= 1_000_000,
    ensures
        -(MAX_AMPL as int) <= quantized(amp) <= MAX_AMPL as int,
{
    if amp >= 0 {
        lemma_div_le(amp * 32_767, 1_000_000, 32_767);
    } else {
        lemma_div_le((-amp) * 32_767, 1_000_000, 32_767);
    }
}

/// Scale an amplitude in `[-AMP_UNIT, AMP_UNIT]` to a signed 16-bit
/// sample, truncating toward zero; full scale maps exactly to the peak.
pub fn adjust_volume(amp: i32) -> (r: i16)
    requires
        -(AMP_UNIT as int) <= amp as int <= AMP_UNIT as int,
    ensures
        r as int == quantized(amp as int),
{
    proof {
        lemma_quantized_bounded(amp as int);
    }
    if amp >= 0 {
        let q: u64 = (amp as u64) * 32_767 / 1_000_000;
        q as i16
    } else {
        let q: u64 = ((-amp) as u64) * 32_767 / 1_000_000;
        -(q as i16)
    }
}

/// The magnitude of an amplitude.
pub open spec fn amp_mag(a: int) -> int {
    if a >= 0 {
        a
    } else {
        -a
    }
}

/// The fixed-point product of two amplitudes: `a` times `b`, scaled back
/// down by `AMP_UNIT` and truncated toward zero.
pub open spec fn product_amp(a: int, b: int) -> int {
    let mag = (amp_mag(a) * amp_mag(b)) / 1_000_000;
    if (a >= 0) == (b >= 0) {
        mag
    } else {
        -mag
    }
}

/// The product of two in-range amplitudes is itself an in-range amplitude.
pub proof fn lemma_product_amp_bounded(a: int, b: int)
    requires
        -1_000_000 <= a <= 1_000_000,
        -1_000_000 <= b <= 1_000_000,
    ensures
        -1_000_000 <= product_amp(a, b) <= 1_000_000,
{
    lemma_mul_upper_bound(amp_mag(a), 1_000_000, amp_mag(b), 1_000_000);
    lemma_div_le(amp_mag(a) * amp_mag(b), 1_000_000, 1_000_000);
}

/// Multiply two amplitudes, as modulation does: the result stands for the
/// product of the two fractions both arguments stand for.
pub fn modulate_amps(a: i32, b: i32) -> (r: i32)
    requires
        -(AMP_UNIT as int) <= a as int <= AMP_UNIT as int,
        -(AMP_UNIT as int) <= b as int <= AMP_UNIT as int,
    ensures
        r as int == product_amp(a as int, b as int),
        -(AMP_UNIT as int) <= r as int <= AMP_UNIT as int,
{
    proof {
        lemma_product_amp_bounded(a as int, b as int);
    }
    let ma: u64 = if a >= 0 {
        a as u64
    } else {
        (-a) as u64
    };
    let mb: u64 = if b >= 0 {
        b as u64
    } else {
        (-b) as u64
    };
    proof {
        lemma_mul_upper_bound(ma as int, 1_000_000, mb as int, 1_000_000);
    }
    let mag: u64 = ma * mb / 1_000_000;
    if (a >= 0) == (b >= 0) {
        mag as i32
    } else {
        -(mag as i32)
    }
}

} // verus!
