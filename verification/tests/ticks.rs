use siggen::signal::{Signal, Silence};

#[test]
fn tick_source_emits_exactly_duration_times_rate_values() {
    // one second at 1000 Hz: exactly 1000 values, then exhausted
    let mut s = Signal::new(1000, 100_000, 1000, 0);
    let mut count = 0u32;
    while let Some(_) = s.next() {
        count += 1;
    }
    assert_eq!(count, 1000);
    assert_eq!(s.next(), None);
    assert_eq!(s.next(), None);
}

#[test]
fn tick_source_phases_stay_normalized() {
    let mut s = Signal::new(1000, 100_000, 100, 0);
    let den = 1000u64 * 360_000;
    while let Some(num) = s.next() {
        assert!(num < den);
    }
}

#[test]
fn phase_sequence_is_periodic() {
    // 100 Hz at 1000 Hz: the normalized phase repeats every 10 samples
    let mut s = Signal::new(1000, 100_000, 40, 0);
    let mut phases = Vec::new();
    while let Some(num) = s.next() {
        phases.push(num);
    }
    assert_eq!(phases.len(), 40);
    assert_eq!(phases[0], 0);
    for i in 0..30 {
        assert_eq!(phases[i], phases[i + 10]);
    }
    // within one period the phase strictly increases (no wrap mid-cycle)
    for i in 0..9 {
        assert!(phases[i] < phases[i + 1]);
    }
}

#[test]
fn phase_offset_shifts_the_start() {
    // a 90 degree offset starts a quarter of the way into the cycle
    let mut s = Signal::new(1000, 100_000, 10, 90_000);
    let num = s.next().unwrap();
    assert_eq!(num, 90_000 * 1000);
    // 90_000_000 over 360_000_000 is a normalized phase of 0.25
    assert_eq!(4 * num, 1000 * 360_000);
}

#[test]
fn fractional_duration_floors_the_tick_count() {
    // 1 ms at 44100 Hz: floor(0.001 * 44100) = 44 ticks
    let mut s = Signal::new(44_100, 440_000, 1, 0);
    let mut count = 0u32;
    while let Some(_) = s.next() {
        count += 1;
    }
    assert_eq!(count, 44);
}

#[test]
fn silence_source_counts_ticks() {
    let mut q = Silence::new(1000, 500);
    let mut count = 0u32;
    while let Some(v) = q.next() {
        assert_eq!(v, 0);
        count += 1;
    }
    assert_eq!(count, 500);
    assert_eq!(q.next(), None);
}

#[test]
fn zero_duration_sources_are_born_exhausted() {
    let mut s = Signal::new(1000, 100_000, 0, 0);
    assert_eq!(s.next(), None);
    let mut q = Silence::new(1000, 0);
    assert_eq!(q.next(), None);
}
