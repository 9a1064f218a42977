use siggen::compose::{combo, modulate, plain, ConfigError};
use siggen::shape::Shape;

#[test]
fn plain_with_zero_phase_has_identical_channels() {
    let v = plain(8000, 440_000, 10, 0, Shape::Square).unwrap();
    assert_eq!(v.len(), 2 * 80);
    for i in 0..80 {
        assert_eq!(v[2 * i], v[2 * i + 1]);
    }
}

#[test]
fn plain_end_to_end_sine() {
    // 440 Hz for one millisecond at 44100 Hz: exactly 44 stereo frames,
    // and the first sample quantizes to zero since the sine starts at 0
    let v = plain(44_100, 440_000, 1, 0, Shape::Sine).unwrap();
    assert_eq!(v.len(), 2 * 44);
    assert_eq!(v[0], 0);
    assert_eq!(v[1], 0);
}

#[test]
fn plain_phase_shift_moves_only_the_right_channel() {
    // 100 Hz at 1000 Hz with a 90 degree shift: at the first tick the
    // left channel sits at phase 0 and the right at a quarter cycle
    let v = plain(1000, 100_000, 10, 90_000, Shape::Sine).unwrap();
    assert_eq!(v[0], 0);
    assert_eq!(v[1], 32_767);
}

#[test]
fn plain_square_fills_both_half_cycles() {
    // 100 Hz at 1000 Hz: five samples high, five samples low per cycle
    let v = plain(1000, 100_000, 10, 0, Shape::Square).unwrap();
    assert_eq!(v.len(), 2 * 10);
    for i in 0..5 {
        assert_eq!(v[2 * i], 32_767);
    }
    for i in 5..10 {
        assert_eq!(v[2 * i], -32_767);
    }
}

#[test]
fn plain_rejects_bad_configurations() {
    assert_eq!(plain(0, 440_000, 10, 0, Shape::Sine), Err(ConfigError::InvalidRate));
    assert_eq!(plain(8000, 0, 10, 0, Shape::Sine), Err(ConfigError::InvalidFrequency));
    // the frequency must stay strictly below the sample rate
    assert_eq!(plain(8000, 8_000_000, 10, 0, Shape::Sine), Err(ConfigError::InvalidFrequency));
    assert_eq!(plain(8000, 440_000, 10, 360_000, Shape::Sine), Err(ConfigError::InvalidPhase));
}

#[test]
fn combo_frame_count() {
    // 90 degree steps: 4 repetitions of 0.1 s tone + 0.05 s silence at
    // 8000 Hz gives 4 * (800 + 400) = 4800 frames
    let v = combo(8000, 100, 50, 440_000, 90_000, Shape::Sine).unwrap();
    assert_eq!(v.len(), 2 * 4800);
}

#[test]
fn combo_alternates_tone_and_silence() {
    let v = combo(1000, 10, 5, 100_000, 120_000, Shape::Square).unwrap();
    // 3 repetitions of 10 tone frames + 5 silent frames
    assert_eq!(v.len(), 2 * 3 * 15);
    for n in 0..3 {
        let base = n * 15;
        for j in 0..10 {
            assert_ne!(v[2 * (base + j)], 0);
        }
        for j in 10..15 {
            assert_eq!(v[2 * (base + j)], 0);
            assert_eq!(v[2 * (base + j) + 1], 0);
        }
    }
}

#[test]
fn combo_sweeps_the_phase_of_the_right_channel() {
    // 90 degree steps on a sine at a quarter of the sample rate: in the
    // n-th repetition the right channel starts n quarter-cycles in
    let v = combo(1000, 4, 0, 250_000, 90_000, Shape::Sine).unwrap();
    assert_eq!(v.len(), 2 * 4 * 4);
    let first_right: Vec<i16> = (0..4).map(|n| v[2 * (n * 4) + 1]).collect();
    assert_eq!(first_right, vec![0, 32_767, 0, -32_767]);
    // while the left channel always starts at phase zero
    for n in 0..4 {
        assert_eq!(v[2 * (n * 4)], 0);
    }
}

#[test]
fn combo_with_step_beyond_a_turn_is_empty() {
    let v = combo(8000, 100, 50, 440_000, 360_001, Shape::Sine).unwrap();
    assert!(v.is_empty());
}

#[test]
fn combo_rejects_bad_configurations() {
    assert_eq!(combo(0, 100, 50, 440_000, 90_000, Shape::Sine), Err(ConfigError::InvalidRate));
    assert_eq!(
        combo(8000, 100, 50, 0, 90_000, Shape::Sine),
        Err(ConfigError::InvalidFrequency)
    );
    assert_eq!(
        combo(8000, 100, 50, 440_000, 0, Shape::Sine),
        Err(ConfigError::InvalidPhaseStep)
    );
}

#[test]
fn modulate_by_silence_is_silent() {
    let v = modulate(8000, 10, 440_000, Shape::Sine, 300_000, Shape::Silence).unwrap();
    assert_eq!(v.len(), 2 * 80);
    assert!(v.iter().all(|&s| s == 0));
    let w = modulate(8000, 10, 123_000, Shape::Saw, 300_000, Shape::Silence).unwrap();
    assert!(w.iter().all(|&s| s == 0));
}

#[test]
fn modulate_carries_the_product_on_both_channels() {
    // two squares both start their cycles high: the first frame carries
    // the full-scale product on left and right alike
    let v = modulate(1000, 10, 100_000, Shape::Square, 250_000, Shape::Square).unwrap();
    assert_eq!(v.len(), 2 * 10);
    assert_eq!(v[0], 32_767);
    assert_eq!(v[1], 32_767);
    for i in 0..10 {
        assert_eq!(v[2 * i], v[2 * i + 1]);
    }
}

#[test]
fn modulate_squares_flip_sign_together() {
    // square(100 Hz) * square(250 Hz) at 1000 Hz: the product of the two
    // half-cycle signs, sample by sample
    let v = modulate(1000, 10, 100_000, Shape::Square, 250_000, Shape::Square).unwrap();
    let signs: Vec<i16> = (0..10).map(|i| v[2 * i]).collect();
    let expect: Vec<i16> = (0..10)
        .map(|i| {
            let s1: i16 = if (i * 100) % 1000 < 500 { 1 } else { -1 };
            let s2: i16 = if (i * 250) % 1000 < 500 { 1 } else { -1 };
            32_767 * s1 * s2
        })
        .collect();
    assert_eq!(signs, expect);
}

#[test]
fn modulate_rejects_bad_configurations() {
    assert_eq!(
        modulate(0, 10, 440_000, Shape::Sine, 300_000, Shape::Sine),
        Err(ConfigError::InvalidRate)
    );
    assert_eq!(
        modulate(8000, 10, 0, Shape::Sine, 300_000, Shape::Sine),
        Err(ConfigError::InvalidFrequency)
    );
    assert_eq!(
        modulate(8000, 10, 440_000, Shape::Sine, 9_000_000, Shape::Sine),
        Err(ConfigError::InvalidFrequency)
    );
}
