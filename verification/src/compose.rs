//! Composition modes.
//!
//! The three generation modes combine tick sources and shape functions
//! into one interleaved stereo stream of signed 16-bit samples, in strict
//! left-right order: a plain tone with a stereo phase shift, a repeating
//! tone-then-silence pattern whose phase shift sweeps across repetitions,
//! and the amplitude product of two independent tones.
//!
//! Each mode validates its configuration before producing anything and
//! returns the finished sample stream; writing the stream to a container
//! file is the caller's business.

use vstd::prelude::*;

verus! {

use crate::shape::{Shape, shape_amp, quantized, product_amp, adjust_volume, modulate_amps};
use crate::signal::{Signal, Silence, phase_num, ticks_of};
use vstd::arithmetic::div_mod::lemma_fundamental_div_mod_converse;
use vstd::arithmetic::mul::lemma_mul_by_zero_is_zero;

/// Configuration defects, each detected before any sample is produced.
#[derive(Clone, Copy, PartialEq, Eq, Structural, Debug)]
pub enum ConfigError {
    /// The sample rate is zero.
    InvalidRate,
    /// A frequency lies outside the open interval from zero to the
    /// sample rate.
    InvalidFrequency,
    /// A phase offset lies outside a full turn.
    InvalidPhase,
    /// The combo phase step is zero.
    InvalidPhaseStep,
}

/// A frequency in milli-hertz is usable at a sample rate: strictly
/// positive and strictly below the rate.
pub open spec fn freq_ok(rate: int, freq_mhz: int) -> bool {
    0 < freq_mhz < rate * 1000
}

/// The interleaved sample at flat index `k` of a plain stereo tone whose
/// right channel starts at accumulator offset `init_r`: even indices
/// carry the left channel, odd indices the right.
pub open spec fn plain_val(shape: Shape, init_r: int, step: int, m: int, k: int) -> int {
    if k % 2 == 0 {
        quantized(shape_amp(shape, phase_num(0, step, m, k / 2), m))
    } else {
        quantized(shape_amp(shape, phase_num(init_r, step, m, k / 2), m))
    }
}

/// Generate a plain stereo tone: one waveform at one frequency for
/// `duration_ms` milliseconds, the right channel shifted by `phase_mdeg`
/// milli-degrees. Frames are emitted interleaved, left sample first.
///
/// Succeeds exactly on valid configurations: positive sample rate, a
/// frequency strictly between zero and the sample rate, and a phase
/// offset below a full turn. The stream then holds exactly
/// `floor(duration * rate)` frames whose samples are pinned down by
/// `plain_val`.
pub fn plain(
    sample_rate: u32,
    freq_mhz: u64,
    duration_ms: u64,
    phase_mdeg: u32,
    shape: Shape,
) -> (r: Result<Vec<i16>, ConfigError>)
    requires
        duration_ms * sample_rate <= 1000int * 0xFFFF_FFFF,
    ensures
        r is Ok <==> (sample_rate > 0 && freq_ok(sample_rate as int, freq_mhz as int)
            && phase_mdeg < 360_000),
        sample_rate == 0 ==> r == Err::<Vec<i16>, ConfigError>(ConfigError::InvalidRate),
        sample_rate > 0 && !freq_ok(sample_rate as int, freq_mhz as int) ==> r == Err::<
            Vec<i16>,
            ConfigError,
        >(ConfigError::InvalidFrequency),
        sample_rate > 0 && freq_ok(sample_rate as int, freq_mhz as int) && phase_mdeg >= 360_000
            ==> r == Err::<Vec<i16>, ConfigError>(ConfigError::InvalidPhase),
        r matches Ok(v) ==> {
            &&& v@.len() == 2 * ticks_of(duration_ms as int, sample_rate as int)
            &&& forall|k: int|
                0 <= k < v@.len() ==> (#[trigger] v@[k]) as int == plain_val(
                    shape,
                    phase_mdeg as int * sample_rate as int,
                    freq_mhz as int * 360,
                    360_000 * sample_rate as int,
                    k,
                )
        },
{
    if sample_rate == 0 {
        return Err(ConfigError::InvalidRate);
    }
    if freq_mhz == 0 || freq_mhz >= (sample_rate as u64) * 1000 {
        return Err(ConfigError::InvalidFrequency);
    }
    if phase_mdeg >= 360_000 {
        return Err(ConfigError::InvalidPhase);
    }
    let mut left = Signal::new(sample_rate, freq_mhz, duration_ms, 0);
    let mut right = Signal::new(sample_rate, freq_mhz, duration_ms, phase_mdeg);
    let ghost ticks = ticks_of(duration_ms as int, sample_rate as int);
    let ghost init_r = phase_mdeg as int * sample_rate as int;
    let mut out: Vec<i16> = Vec::new();
    while left.curr_tick < left.last_tick
        invariant
            left.wf(),
            right.wf(),
            left.init@ == 0,
            right.init@ as int == init_r,
            left.step == freq_mhz * 360,
            right.step == left.step,
            left.modulus == 360_000 * sample_rate,
            right.modulus == left.modulus,
            left.last_tick == ticks,
            right.last_tick == ticks,
            right.curr_tick == left.curr_tick,
            out@.len() == 2 * (left.curr_tick as int),
            forall|k: int|
                0 <= k < out@.len() ==> (#[trigger] out@[k]) as int == plain_val(
                    shape,
                    init_r,
                    left.step as int,
                    left.modulus as int,
                    k,
                ),
        decreases left.last_tick - left.curr_tick,
    {
        let m = left.modulus;
        let ghost i = left.curr_tick as int;
        let ln = left.next();
        let rn = right.next();
        if let (Some(lp), Some(rp)) = (ln, rn) {
            let ls = adjust_volume(shape.apply(lp, m));
            let rs = adjust_volume(shape.apply(rp, m));
            out.push(ls);
            out.push(rs);
            proof {
                lemma_fundamental_div_mod_converse(2 * i, 2, i, 0);
                lemma_fundamental_div_mod_converse(2 * i + 1, 2, i, 1);
            }
        }
    }
    Ok(out)
}

/// With no stereo phase shift, the two channels of a plain tone are
/// sample-for-sample identical: every frame's left and right samples
/// agree.
pub proof fn lemma_plain_in_phase(shape: Shape, step: int, m: int, i: int)
    ensures
        plain_val(shape, 0, step, m, 2 * i) == plain_val(shape, 0, step, m, 2 * i + 1),
{
    lemma_fundamental_div_mod_converse(2 * i, 2, i, 0);
    lemma_fundamental_div_mod_converse(2 * i + 1, 2, i, 1);
}

/// Number of repetitions of the combo pattern: one per phase step that
/// fits in a full turn.
pub open spec fn combo_repeats(shift_mdeg: int) -> int {
    360_000int / shift_mdeg
}

/// The interleaved sample at flat index `k` of the combo stream. Within
/// repetition `n`, the first `tone_ticks` frames are a plain tone whose
/// right channel is offset by `n` phase steps; the remaining
/// `silence_ticks` frames are silent on both channels.
pub open spec fn combo_val(
    shape: Shape,
    rate: int,
    shift_mdeg: int,
    step: int,
    m: int,
    tone_ticks: int,
    silence_ticks: int,
    k: int,
) -> int {
    let frame = k / 2;
    let n = frame / (tone_ticks + silence_ticks);
    let j = frame % (tone_ticks + silence_ticks);
    if j < tone_ticks {
        if k % 2 == 0 {
            quantized(shape_amp(shape, phase_num(0, step, m, j), m))
        } else {
            quantized(shape_amp(shape, phase_num(shift_mdeg * n * rate, step, m, j), m))
        }
    } else {
        0
    }
}

/// Generate the combo pattern: `floor(360° / shift)` repetitions of a
/// plain tone block of `tone_ms` milliseconds followed by a silent block
/// of `silence_ms` milliseconds, the tone's stereo phase shift growing by
/// `shift_mdeg` milli-degrees with each repetition (starting at zero).
///
/// Succeeds exactly on valid configurations: positive sample rate, a
/// frequency strictly between zero and the sample rate, and a strictly
/// positive phase step. A phase step above a full turn yields zero
/// repetitions and an empty stream. The stream holds exactly
/// `repeats * (tone frames + silence frames)` frames, pinned down by
/// `combo_val`.
pub fn combo(
    sample_rate: u32,
    tone_ms: u64,
    silence_ms: u64,
    freq_mhz: u64,
    shift_mdeg: u32,
    shape: Shape,
) -> (r: Result<Vec<i16>, ConfigError>)
    requires
        tone_ms * sample_rate <= 1000int * 0xFFFF_FFFF,
        silence_ms * sample_rate <= 1000int * 0xFFFF_FFFF,
    ensures
        r is Ok <==> (sample_rate > 0 && freq_ok(sample_rate as int, freq_mhz as int)
            && shift_mdeg > 0),
        sample_rate == 0 ==> r == Err::<Vec<i16>, ConfigError>(ConfigError::InvalidRate),
        sample_rate > 0 && !freq_ok(sample_rate as int, freq_mhz as int) ==> r == Err::<
            Vec<i16>,
            ConfigError,
        >(ConfigError::InvalidFrequency),
        sample_rate > 0 && freq_ok(sample_rate as int, freq_mhz as int) && shift_mdeg == 0 ==> r
            == Err::<Vec<i16>, ConfigError>(ConfigError::InvalidPhaseStep),
        r matches Ok(v) ==> {
            &&& v@.len() == 2 * (combo_repeats(shift_mdeg as int) * (ticks_of(
                tone_ms as int,
                sample_rate as int,
            ) + ticks_of(silence_ms as int, sample_rate as int)))
            &&& forall|k: int|
                0 <= k < v@.len() ==> (#[trigger] v@[k]) as int == combo_val(
                    shape,
                    sample_rate as int,
                    shift_mdeg as int,
                    freq_mhz as int * 360,
                    360_000 * sample_rate as int,
                    ticks_of(tone_ms as int, sample_rate as int),
                    ticks_of(silence_ms as int, sample_rate as int),
                    k,
                )
        },
{
    if sample_rate == 0 {
        return Err(ConfigError::InvalidRate);
    }
    if freq_mhz == 0 || freq_mhz >= (sample_rate as u64) * 1000 {
        return Err(ConfigError::InvalidFrequency);
    }
    if shift_mdeg == 0 {
        return Err(ConfigError::InvalidPhaseStep);
    }
    let reps: u32 = 360_000 / shift_mdeg;
    let ghost tt = ticks_of(tone_ms as int, sample_rate as int);
    let ghost st = ticks_of(silence_ms as int, sample_rate as int);
    let ghost per = tt + st;
    let ghost stepg = freq_mhz as int * 360;
    let ghost mg = 360_000 * sample_rate as int;
    let mut out: Vec<i16> = Vec::new();
    let mut rep: u32 = 0;
    while rep < reps
        invariant
            sample_rate > 0,
            0 < freq_mhz < sample_rate * 1000,
            shift_mdeg > 0,
            tone_ms * sample_rate <= 1000int * 0xFFFF_FFFF,
            silence_ms * sample_rate <= 1000int * 0xFFFF_FFFF,
            reps == combo_repeats(shift_mdeg as int),
            tt == ticks_of(tone_ms as int, sample_rate as int),
            st == ticks_of(silence_ms as int, sample_rate as int),
            per == tt + st,
            stepg == freq_mhz as int * 360,
            mg == 360_000 * sample_rate as int,
            rep <= reps,
            out@.len() == 2 * ((rep as int) * per),
            forall|k: int|
                0 <= k < out@.len() ==> (#[trigger] out@[k]) as int == combo_val(
                    shape,
                    sample_rate as int,
                    shift_mdeg as int,
                    stepg,
                    mg,
                    tt,
                    st,
                    k,
                ),
        decreases reps - rep,
    {
        proof {
            vstd::arithmetic::div_mod::lemma_fundamental_div_mod(360_000, shift_mdeg as int);
            vstd::arithmetic::div_mod::lemma_mod_bound(360_000, shift_mdeg as int);
            vstd::arithmetic::mul::lemma_mul_nonnegative(shift_mdeg as int, rep as int);
            vstd::arithmetic::mul::lemma_mul_left_inequality(
                shift_mdeg as int,
                rep as int,
                reps as int - 1,
            );
            vstd::arithmetic::mul::lemma_mul_is_distributive_sub(
                shift_mdeg as int,
                reps as int,
                1,
            );
        }
        let offset: u32 = shift_mdeg * rep;
        let mut left = Signal::new(sample_rate, freq_mhz, tone_ms, 0);
        let mut right = Signal::new(sample_rate, freq_mhz, tone_ms, offset);
        let ghost init_r = offset as int * sample_rate as int;
        while left.curr_tick < left.last_tick
            invariant
                left.wf(),
                right.wf(),
                left.init@ == 0,
                right.init@ as int == init_r,
                init_r == shift_mdeg as int * (rep as int) * sample_rate as int,
                left.step as int == stepg,
                right.step == left.step,
                left.modulus as int == mg,
                right.modulus == left.modulus,
                left.last_tick as int == tt,
                right.last_tick == left.last_tick,
                right.curr_tick == left.curr_tick,
                rep < reps,
                per == tt + st,
                0 <= st,
                out@.len() == 2 * ((rep as int) * per) + 2 * (left.curr_tick as int),
                forall|k: int|
                    0 <= k < out@.len() ==> (#[trigger] out@[k]) as int == combo_val(
                        shape,
                        sample_rate as int,
                        shift_mdeg as int,
                        stepg,
                        mg,
                        tt,
                        st,
                        k,
                    ),
            decreases left.last_tick - left.curr_tick,
        {
            let m = left.modulus;
            let ghost j = left.curr_tick as int;
            let ln = left.next();
            let rn = right.next();
            if let (Some(lp), Some(rp)) = (ln, rn) {
                let ls = adjust_volume(shape.apply(lp, m));
                let rs = adjust_volume(shape.apply(rp, m));
                out.push(ls);
                out.push(rs);
                proof {
                    let frame = (rep as int) * per + j;
                    lemma_fundamental_div_mod_converse(2 * frame, 2, frame, 0);
                    lemma_fundamental_div_mod_converse(2 * frame + 1, 2, frame, 1);
                    lemma_fundamental_div_mod_converse(frame, per, rep as int, j);
                }
            }
        }
        let mut quiet = Silence::new(sample_rate, silence_ms);
        while quiet.curr_tick < quiet.last_tick
            invariant
                quiet.curr_tick <= quiet.last_tick,
                quiet.last_tick as int == st,
                rep < reps,
                per == tt + st,
                0 <= tt,
                out@.len() == 2 * ((rep as int) * per) + 2 * tt + 2 * (quiet.curr_tick as int),
                forall|k: int|
                    0 <= k < out@.len() ==> (#[trigger] out@[k]) as int == combo_val(
                        shape,
                        sample_rate as int,
                        shift_mdeg as int,
                        stepg,
                        mg,
                        tt,
                        st,
                        k,
                    ),
            decreases quiet.last_tick - quiet.curr_tick,
        {
            let ghost jj = quiet.curr_tick as int;
            if let Some(s) = quiet.next() {
                out.push(s);
                out.push(s);
                proof {
                    let frame = (rep as int) * per + tt + jj;
                    lemma_fundamental_div_mod_converse(2 * frame, 2, frame, 0);
                    lemma_fundamental_div_mod_converse(2 * frame + 1, 2, frame, 1);
                    lemma_fundamental_div_mod_converse(frame, per, rep as int, tt + jj);
                }
            }
        }
        rep = rep + 1;
        proof {
            vstd::arithmetic::mul::lemma_mul_is_distributive_add_other_way(
                per,
                rep as int - 1,
                1,
            );
        }
    }
    Ok(out)
}

/// The sample at flat index `k` of the modulate stream: the amplitudes of
/// the two tones at frame `k / 2` are multiplied, quantized once, and the
/// result carried identically on both channels.
pub open spec fn modulate_val(
    shape_1: Shape,
    shape_2: Shape,
    step_1: int,
    step_2: int,
    m: int,
    k: int,
) -> int {
    quantized(
        product_amp(
            shape_amp(shape_1, phase_num(0, step_1, m, k / 2), m),
            shape_amp(shape_2, phase_num(0, step_2, m, k / 2), m),
        ),
    )
}

/// Generate an amplitude-modulated tone: the sample-wise product of two
/// independent tones over the same duration, carried identically on both
/// channels.
///
/// Succeeds exactly on valid configurations: positive sample rate and
/// both frequencies strictly between zero and the sample rate. The stream
/// then holds exactly `floor(duration * rate)` frames whose samples are
/// pinned down by `modulate_val`.
pub fn modulate(
    sample_rate: u32,
    duration_ms: u64,
    freq_1_mhz: u64,
    shape_1: Shape,
    freq_2_mhz: u64,
    shape_2: Shape,
) -> (r: Result<Vec<i16>, ConfigError>)
    requires
        duration_ms * sample_rate <= 1000int * 0xFFFF_FFFF,
    ensures
        r is Ok <==> (sample_rate > 0 && freq_ok(sample_rate as int, freq_1_mhz as int) && freq_ok(
            sample_rate as int,
            freq_2_mhz as int,
        )),
        sample_rate == 0 ==> r == Err::<Vec<i16>, ConfigError>(ConfigError::InvalidRate),
        sample_rate > 0 && !(freq_ok(sample_rate as int, freq_1_mhz as int) && freq_ok(
            sample_rate as int,
            freq_2_mhz as int,
        )) ==> r == Err::<Vec<i16>, ConfigError>(ConfigError::InvalidFrequency),
        r matches Ok(v) ==> {
            &&& v@.len() == 2 * ticks_of(duration_ms as int, sample_rate as int)
            &&& forall|k: int|
                0 <= k < v@.len() ==> (#[trigger] v@[k]) as int == modulate_val(
                    shape_1,
                    shape_2,
                    freq_1_mhz as int * 360,
                    freq_2_mhz as int * 360,
                    360_000 * sample_rate as int,
                    k,
                )
        },
{
    if sample_rate == 0 {
        return Err(ConfigError::InvalidRate);
    }
    if freq_1_mhz == 0 || freq_1_mhz >= (sample_rate as u64) * 1000 {
        return Err(ConfigError::InvalidFrequency);
    }
    if freq_2_mhz == 0 || freq_2_mhz >= (sample_rate as u64) * 1000 {
        return Err(ConfigError::InvalidFrequency);
    }
    let mut src_1 = Signal::new(sample_rate, freq_1_mhz, duration_ms, 0);
    let mut src_2 = Signal::new(sample_rate, freq_2_mhz, duration_ms, 0);
    let ghost ticks = ticks_of(duration_ms as int, sample_rate as int);
    let mut out: Vec<i16> = Vec::new();
    while src_1.curr_tick < src_1.last_tick
        invariant
            src_1.wf(),
            src_2.wf(),
            src_1.init@ == 0,
            src_2.init@ == 0,
            src_1.step == freq_1_mhz * 360,
            src_2.step == freq_2_mhz * 360,
            src_1.modulus == 360_000 * sample_rate,
            src_2.modulus == src_1.modulus,
            src_1.last_tick == ticks,
            src_2.last_tick == ticks,
            src_2.curr_tick == src_1.curr_tick,
            out@.len() == 2 * (src_1.curr_tick as int),
            forall|k: int|
                0 <= k < out@.len() ==> (#[trigger] out@[k]) as int == modulate_val(
                    shape_1,
                    shape_2,
                    src_1.step as int,
                    src_2.step as int,
                    src_1.modulus as int,
                    k,
                ),
        decreases src_1.last_tick - src_1.curr_tick,
    {
        let m = src_1.modulus;
        let ghost i = src_1.curr_tick as int;
        let p1 = src_1.next();
        let p2 = src_2.next();
        if let (Some(n1), Some(n2)) = (p1, p2) {
            let a1 = shape_1.apply(n1, m);
            let a2 = shape_2.apply(n2, m);
            let s = adjust_volume(modulate_amps(a1, a2));
            out.push(s);
            out.push(s);
            proof {
                lemma_fundamental_div_mod_converse(2 * i, 2, i, 0);
                lemma_fundamental_div_mod_converse(2 * i + 1, 2, i, 1);
            }
        }
    }
    Ok(out)
}

/// Modulating any tone with silence yields silence: whatever the first
/// shape and frequency, every sample of the modulate stream is zero when
/// the second shape is `Silence`.
pub proof fn lemma_modulate_silence(shape_1: Shape, step_1: int, step_2: int, m: int, k: int)
    ensures
        modulate_val(shape_1, Shape::Silence, step_1, step_2, m, k) == 0,
{
    let a = shape_amp(shape_1, phase_num(0, step_1, m, k / 2), m);
    lemma_mul_by_zero_is_zero(crate::shape::amp_mag(a));
}

} // verus!
