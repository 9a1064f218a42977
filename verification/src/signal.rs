//! Tick sources.
//!
//! A `Signal` is a phase accumulator: for a frequency, sample rate and
//! initial phase offset it produces one normalized phase value per sample
//! tick, for a fixed number of ticks, wrapping the running accumulator
//! modulo the sample rate so it never drifts. A `Silence` source is the
//! degenerate counterpart that emits a zero sample per tick.
//!
//! To keep every quantity an exact integer, the accumulator is scaled by
//! 360 000: frequencies arrive in milli-hertz, phase offsets in
//! milli-degrees, and the accumulator wraps at `sample_rate * 360_000`.
//! The normalized phase emitted at a tick is the exact rational
//! `accumulator / (sample_rate * 360_000)`, a value in `[0, 1)`.

use vstd::prelude::*;

verus! {

use crate::shape::MAX_PHASE_DEN;
use vstd::arithmetic::div_mod::{
    lemma_add_mod_noop,
    lemma_div_is_ordered,
    lemma_fundamental_div_mod_converse,
    lemma_mod_bound,
    lemma_mod_twice,
    lemma_small_mod,
};
use vstd::arithmetic::mul::{
    lemma_mul_by_zero_is_zero,
    lemma_mul_is_distributive_add_other_way,
    lemma_mul_strict_inequality,
};

/// The scaled numerator of the normalized phase emitted at tick `i` by an
/// accumulator that starts at `init` and advances by `step`, wrapping
/// modulo `modulus`.
pub open spec fn phase_num(init: int, step: int, modulus: int, i: int) -> int {
    (init + i * step) % modulus
}

/// Number of ticks a source spanning `duration_ms` milliseconds emits at
/// `rate` samples per second: the floor of duration times rate.
pub open spec fn ticks_of(duration_ms: int, rate: int) -> int {
    duration_ms * rate / 1000
}

/// A bounded, non-restartable source of normalized phase values: one per
/// sample tick, exactly `last_tick` of them.
pub struct Signal {
    /// Ticks emitted so far.
    pub curr_tick: u32,
    /// Total ticks to emit: the floor of duration times sample rate.
    pub last_tick: u32,
    /// The running phase accumulator, scaled by 360 000.
    pub acc: u64,
    /// Accumulator increment per tick: the frequency, scaled.
    pub step: u64,
    /// Wrap point of the accumulator: the sample rate, scaled.
    pub modulus: u64,
    /// The accumulator's starting value (the converted phase offset).
    pub init: Ghost<u64>,
}

impl Signal {
    /// A well-formed tick source: the step is a positive fraction of the
    /// modulus (the frequency respects the Nyquist-style bound), and the
    /// accumulator carries exactly the phase of the tick about to be
    /// emitted, already advanced but not yet wrapped.
    pub open spec fn wf(self) -> bool {
        &&& 0 < self.step < self.modulus
        &&& self.modulus <= MAX_PHASE_DEN
        &&& (self.init@ as int) < self.modulus as int
        &&& self.curr_tick <= self.last_tick
        &&& if self.curr_tick == 0 {
            self.acc == self.init@
        } else {
            self.acc as int == phase_num(
                self.init@ as int,
                self.step as int,
                self.modulus as int,
                self.curr_tick - 1,
            ) + self.step as int
        }
    }

    /// Build a tick source for `duration_ms` milliseconds of samples at
    /// `sample_rate` hertz, oscillating at `freq_mhz` milli-hertz with an
    /// initial phase offset of `phase_mdeg` milli-degrees.
    ///
    /// The frequency must lie strictly between zero and the sample rate,
    /// the phase offset below one full turn, and the tick count must fit
    /// in 32 bits; all violations are caller defects.
    pub fn new(sample_rate: u32, freq_mhz: u64, duration_ms: u64, phase_mdeg: u32) -> (s: Signal)
        requires
            sample_rate > 0,
            0 < freq_mhz < sample_rate * 1000,
            phase_mdeg < 360_000,
            duration_ms * sample_rate <= 1000int * 0xFFFF_FFFF,
        ensures
            s.wf(),
            s.curr_tick == 0,
            s.last_tick == ticks_of(duration_ms as int, sample_rate as int),
            s.init@ as int == phase_mdeg as int * sample_rate as int,
            s.step == freq_mhz * 360,
            s.modulus == 360_000 * sample_rate,
    {
        let rate64: u64 = sample_rate as u64;
        proof {
            lemma_div_is_ordered(
                duration_ms * sample_rate as int,
                1000int * 0xFFFF_FFFF,
                1000,
            );
            if phase_mdeg > 0 {
                lemma_mul_strict_inequality(phase_mdeg as int, 360_000, sample_rate as int);
            } else {
                lemma_mul_by_zero_is_zero(sample_rate as int);
            }
        }
        let last: u64 = duration_ms * rate64 / 1000;
        let start: u64 = (phase_mdeg as u64) * rate64;
        Signal {
            curr_tick: 0,
            last_tick: last as u32,
            acc: start,
            step: freq_mhz * 360,
            modulus: 360_000 * rate64,
            init: Ghost(start),
        }
    }

    /// Emit the next normalized phase as the numerator of a fraction over
    /// `self.modulus`, or `None` once the tick budget is exhausted. The
    /// value emitted at tick `i` is exactly
    /// `phase_num(init, step, modulus, i)`, always below the modulus.
    pub fn next(&mut self) -> (r: Option<u64>)
        requires
            old(self).wf(),
        ensures
            final(self).wf(),
            final(self).step == old(self).step,
            final(self).modulus == old(self).modulus,
            final(self).last_tick == old(self).last_tick,
            final(self).init == old(self).init,
            old(self).curr_tick < old(self).last_tick ==> {
                &&& final(self).curr_tick == old(self).curr_tick + 1
                &&& r == Some(
                    phase_num(
                        old(self).init@ as int,
                        old(self).step as int,
                        old(self).modulus as int,
                        old(self).curr_tick as int,
                    ) as u64,
                )
                &&& phase_num(
                    old(self).init@ as int,
                    old(self).step as int,
                    old(self).modulus as int,
                    old(self).curr_tick as int,
                ) < old(self).modulus as int
            },
            old(self).curr_tick >= old(self).last_tick ==> r is None && *final(self) == *old(self),
    {
        if self.curr_tick >= self.last_tick {
            return None;
        }
        let ghost ini = self.init@ as int;
        let ghost stp = self.step as int;
        let ghost m = self.modulus as int;
        let ghost i = self.curr_tick as int;
        self.curr_tick = self.curr_tick + 1;
        proof {
            if i == 0 {
                lemma_mul_by_zero_is_zero(stp);
                lemma_fundamental_div_mod_converse(ini + i * stp, m, 0, ini);
            } else {
                let x0 = ini + (i - 1) * stp;
                lemma_mod_bound(x0, m);
                lemma_mul_is_distributive_add_other_way(stp, i - 1, 1);
                lemma_add_mod_noop(x0, stp, m);
                lemma_small_mod(stp as nat, m as nat);
                if x0 % m + stp >= m {
                    lemma_fundamental_div_mod_converse(x0 % m + stp, m, 1, x0 % m + stp - m);
                } else {
                    lemma_fundamental_div_mod_converse(x0 % m + stp, m, 0, x0 % m + stp);
                }
            }
        }
        if self.acc >= self.modulus {
            self.acc = self.acc - self.modulus;
        }
        let t = self.acc;
        self.acc = self.acc + self.step;
        Some(t)
    }
}

/// A bounded source of silent samples: one zero per tick, exactly
/// `last_tick` of them.
pub struct Silence {
    /// Ticks emitted so far.
    pub curr_tick: u32,
    /// Total ticks to emit: the floor of duration times sample rate.
    pub last_tick: u32,
}

impl Silence {
    /// Build a silence source spanning `duration_ms` milliseconds of
    /// samples at `sample_rate` hertz.
    pub fn new(sample_rate: u32, duration_ms: u64) -> (s: Silence)
        requires
            sample_rate > 0,
            duration_ms * sample_rate <= 1000int * 0xFFFF_FFFF,
        ensures
            s.curr_tick == 0,
            s.last_tick == ticks_of(duration_ms as int, sample_rate as int),
    {
        proof {
            lemma_div_is_ordered(
                duration_ms * sample_rate as int,
                1000int * 0xFFFF_FFFF,
                1000,
            );
        }
        let rate64: u64 = sample_rate as u64;
        let last: u64 = duration_ms * rate64 / 1000;
        Silence { curr_tick: 0, last_tick: last as u32 }
    }

    /// Emit the next silent sample, or `None` once the tick budget is
    /// exhausted.
    pub fn next(&mut self) -> (r: Option<i16>)
        ensures
            final(self).last_tick == old(self).last_tick,
            old(self).curr_tick < old(self).last_tick ==> r == Some(0i16) && final(self).curr_tick == old(self).curr_tick + 1,
            old(self).curr_tick >= old(self).last_tick ==> r is None && *final(self) == *old(self),
    {
        if self.curr_tick >= self.last_tick {
            return None;
        }
        self.curr_tick = self.curr_tick + 1;
        Some(0)
    }
}

/// A tick source's phase sequence is periodic: whenever `period` steps
/// advance the accumulator by an exact multiple of the modulus, the
/// normalized phase at tick `i + period` equals the phase at tick `i`.
pub proof fn lemma_phase_periodic(init: int, step: int, modulus: int, period: int, i: int)
    requires
        modulus > 0,
        (period * step) % modulus == 0,
    ensures
        phase_num(init, step, modulus, i + period) == phase_num(init, step, modulus, i),
{
    lemma_mul_is_distributive_add_other_way(step, i, period);
    lemma_add_mod_noop(init + i * step, period * step, modulus);
    lemma_mod_twice(init + i * step, modulus);
}

} // verus!
