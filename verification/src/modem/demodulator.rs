//! Demodulation: from the phase of every sample back to bits.
//!
//! The frequency held at a sample is the step of the phase from the sample
//! before it. For each symbol the steps of its samples are averaged, and the
//! tone nearest to that average names the symbol; of two tones equally near,
//! the lower one is taken.

use vstd::prelude::*;
use crate::error::CouplerError;
use crate::modem::modulator::{
    bits_per_symbol, lemma_whole_sample, modulate_spec, phase_spec, sum_to, top_symbol, turned,
    ModulationConfig,
};
use crate::utils::repeat_spec;
use crate::{Bit, ModulationMethod};

verus! {

/// The frequency of tone `k`, the carrier being tone zero.
pub open spec fn tone_of(carrier: int, deviation: int, k: int) -> int {
    if k <= 0 {
        carrier
    } else if k == 1 {
        carrier + deviation
    } else if k == 2 {
        carrier + 2 * deviation
    } else {
        carrier + 3 * deviation
    }
}

/// How far `freq` lies from tone `k`.
pub open spec fn distance(freq: int, carrier: int, deviation: int, k: int) -> int {
    let t = tone_of(carrier, deviation, k);
    if freq >= t {
        freq - t
    } else {
        t - freq
    }
}

/// The tone among tones `0..=k` that lies nearest to `freq`, the lower one of
/// two equally near.
pub open spec fn nearest(freq: int, carrier: int, deviation: int, k: int) -> int
    decreases k,
{
    if k <= 0 {
        0
    } else {
        let best = nearest(freq, carrier, deviation, k - 1);
        if distance(freq, carrier, deviation, k) < distance(freq, carrier, deviation, best) {
            k
        } else {
            best
        }
    }
}

/// The step of the phase at sample `i`: the frequency held there. The phase
/// before the first sample is zero.
pub open spec fn step_at(phases: Seq<u32>, samplerate: int, i: int) -> int {
    let before = if i <= 0 {
        0
    } else {
        phases[i - 1] as int
    };
    (phases[i] - before) % samplerate
}

/// The sum of the steps at the `n` samples from sample `from` on.
pub open spec fn step_sum(phases: Seq<u32>, samplerate: int, from: int, n: int) -> int
    decreases n,
{
    if n <= 0 {
        0
    } else {
        step_sum(phases, samplerate, from, n - 1) + step_at(phases, samplerate, from + n - 1)
    }
}

/// The number of the tone of symbol `s`.
pub open spec fn symbol_at(phases: Seq<u32>, config: ModulationConfig, s: int) -> int {
    let sps = config.spec_samples_per_symbol();
    nearest(
        step_sum(phases, config.sample_rate as int, s * sps, sps) / sps,
        config.carrier as int,
        config.deviation as int,
        top_symbol(config.scheme),
    )
}

/// The bits that the symbols of a signal carry.
pub open spec fn symbol_bits(phases: Seq<u32>, config: ModulationConfig) -> Seq<bool> {
    let symbols = phases.len() as int / config.spec_samples_per_symbol();
    match config.scheme {
        ModulationMethod::BFSK => Seq::new(
            symbols as nat,
            |s: int| symbol_at(phases, config, s) == 1,
        ),
        ModulationMethod::QFSK => Seq::new(
            (2 * symbols) as nat,
            |i: int|
                if i % 2 == 0 {
                    symbol_at(phases, config, i / 2) >= 2
                } else {
                    symbol_at(phases, config, i / 2) % 2 == 1
                },
        ),
    }
}

/// What `demodulate` yields.
pub open spec fn demodulate_spec(phases: Seq<u32>, config: ModulationConfig) -> Result<
    Seq<bool>,
    CouplerError,
> {
    if !config.valid() {
        Err(CouplerError::InvalidConfig)
    } else if phases.len() as int % config.spec_samples_per_symbol() != 0 {
        Err(CouplerError::InvalidLength)
    } else {
        Ok(symbol_bits(phases, config))
    }
}

/// The number of the tone, among tones `0..=top`, that lies nearest to
/// `freq`. A frequency that is off its tone by less than half a deviation is
/// still given that tone.
pub fn nearest_symbol(freq: u32, carrier: u32, deviation: u32, top: u8) -> (r: u8)
    requires
        top <= 3,
        tone_of(carrier as int, deviation as int, top as int) <= u32::MAX,
    ensures
        r == nearest(freq as int, carrier as int, deviation as int, top as int),
        r <= top,
        forall|k: int|
            0 <= k <= top && 2 * distance(freq as int, carrier as int, deviation as int, k)
                < deviation ==> r == k,
{
    let mut best: u8 = 0;
    let mut best_distance: u32 = if freq >= carrier { freq - carrier } else { carrier - freq };
    let mut tone: u32 = carrier;
    let mut k: u8 = 0;
    while k < top
        invariant
            top <= 3,
            tone_of(carrier as int, deviation as int, top as int) <= u32::MAX,
            k <= top,
            best <= k,
            tone == tone_of(carrier as int, deviation as int, k as int),
            best == nearest(freq as int, carrier as int, deviation as int, k as int),
            best_distance == distance(freq as int, carrier as int, deviation as int, best as int),
        decreases top - k,
    {
        k += 1;
        tone += deviation;
        let d: u32 = if freq >= tone { freq - tone } else { tone - freq };
        if d < best_distance {
            best = k;
            best_distance = d;
        }
    }
    proof {
        lemma_nearest_tolerates(freq as int, carrier as int, deviation as int, top as int);
    }
    best
}

/// Takes a signal apart into bits. The number of samples must be a whole
/// number of symbols, and the configuration valid.
pub fn demodulate(phases: &Vec<u32>, config: &ModulationConfig) -> (r: Result<
    Vec<Bit>,
    CouplerError,
>)
    ensures
        match demodulate_spec(phases@, *config) {
            Ok(bits) => r matches Ok(v) && v@ == bits,
            Err(e) => r == Err::<Vec<Bit>, CouplerError>(e),
        },
{
    if !config.is_valid() {
        return Err(CouplerError::InvalidConfig);
    }
    let sps: usize = config.samples_per_symbol() as usize;
    if phases.len() % sps != 0 {
        return Err(CouplerError::InvalidLength);
    }
    let symbols: usize = phases.len() / sps;
    let rate: u64 = config.sample_rate as u64;
    let mut out: Vec<Bit> = Vec::new();
    let mut s: usize = 0;
    while s < symbols
        invariant
            config.valid(),
            sps == config.spec_samples_per_symbol(),
            sps >= 1,
            rate == config.sample_rate,
            symbols == phases.len() / sps,
            phases.len() % sps == 0,
            s <= symbols,
            out.len() == (if config.scheme == ModulationMethod::BFSK { s as int } else { 2 * s }),
            forall|i: int| 0 <= i < out.len() ==> out@[i] == symbol_bits(phases@, *config)[i],
        decreases symbols - s,
    {
        proof {
            vstd::arithmetic::div_mod::lemma_fundamental_div_mod(
                phases.len() as int,
                sps as int,
            );
        }
        assert(s * sps + sps <= phases.len()) by (nonlinear_arith)
            requires
                s < symbols,
                symbols == phases.len() / sps,
                phases.len() % sps == 0,
                sps >= 1,
                phases.len() == sps * (phases.len() / sps) + phases.len() % sps,
        ;
        let from: usize = s * sps;
        let mut total: u64 = 0;
        let mut j: usize = 0;
        while j < sps
            invariant
                from + sps <= phases.len(),
                0 < rate <= u32::MAX,
                j <= sps,
                sps <= u32::MAX,
                total == step_sum(phases@, rate as int, from as int, j as int),
                total <= j * rate,
            decreases sps - j,
        {
            let i: usize = from + j;
            let before: u64 = if i == 0 { 0 } else { phases[i - 1] as u64 };
            let here: u64 = phases[i] as u64;
            let step: u64 = if here >= before {
                (here - before) % rate
            } else {
                proof {
                    lemma_step_wraps(here as int, before as int, rate as int);
                }
                (rate - (before - here) % rate) % rate
            };
            assert(step == step_at(phases@, rate as int, i as int));
            assert((j + 1) * rate == j * rate + rate) by (nonlinear_arith);
            assert((j + 1) * rate <= u64::MAX) by (nonlinear_arith)
                requires
                    j + 1 <= u32::MAX,
                    rate <= u32::MAX,
            ;
            total += step;
            j += 1;
        }
        let mean: u64 = total / (sps as u64);
        assert(mean <= u32::MAX) by (nonlinear_arith)
            requires
                mean == total / (sps as u64),
                total <= sps * rate,
                rate <= u32::MAX,
                sps >= 1,
        ;
        let top: u8 = match config.scheme {
            ModulationMethod::BFSK => 1,
            ModulationMethod::QFSK => 3,
        };
        let k = nearest_symbol(mean as u32, config.carrier, config.deviation, top);
        assert(k == symbol_at(phases@, *config, s as int));
        match config.scheme {
            ModulationMethod::BFSK => {
                out.push(k == 1);
            },
            ModulationMethod::QFSK => {
                out.push(k >= 2);
                out.push(k % 2 == 1);
            },
        }
        s += 1;
    }
    assert(out@ =~= symbol_bits(phases@, *config));
    Ok(out)
}

proof fn lemma_step_wraps(here: int, before: int, rate: int)
    requires
        0 < rate,
        0 <= here < before,
    ensures
        (rate - (before - here) % rate) % rate == (here - before) % rate,
{
    let d = before - here;
    let q = d / rate;
    let r = d % rate;
    vstd::arithmetic::div_mod::lemma_fundamental_div_mod(d, rate);
    assert(rate * 1 + (-r) == rate - r) by (nonlinear_arith);
    assert(rate * (-q) + (-r) == here - before) by (nonlinear_arith)
        requires
            d == rate * q + r,
            d == before - here,
    ;
    vstd::arithmetic::div_mod::lemma_mod_multiples_vanish(1, -r, rate);
    vstd::arithmetic::div_mod::lemma_mod_multiples_vanish(-q, -r, rate);
}

/// A frequency that is off a tone by less than half a deviation is nearest to
/// that tone.
pub proof fn lemma_nearest_tolerates(freq: int, carrier: int, deviation: int, top: int)
    requires
        0 <= top <= 3,
    ensures
        0 <= nearest(freq, carrier, deviation, top) <= top,
        forall|k: int|
            0 <= k <= top && 2 * distance(freq, carrier, deviation, k) < deviation ==> nearest(
                freq,
                carrier,
                deviation,
                top,
            ) == k,
{
    reveal_with_fuel(nearest, 5);
}

/// No tone lies nearer to the frequency than the one that `nearest` names,
/// and every lower tone lies farther from it.
pub proof fn lemma_nearest_is_nearest(freq: int, carrier: int, deviation: int, top: int, j: int)
    requires
        0 <= top <= 3,
        0 <= j <= top,
    ensures
        distance(freq, carrier, deviation, nearest(freq, carrier, deviation, top)) <= distance(
            freq,
            carrier,
            deviation,
            j,
        ),
        j < nearest(freq, carrier, deviation, top) ==> distance(
            freq,
            carrier,
            deviation,
            nearest(freq, carrier, deviation, top),
        ) < distance(freq, carrier, deviation, j),
{
    reveal_with_fuel(nearest, 5);
}

proof fn lemma_steps_are_frequencies(freqs: Seq<u32>, samplerate: int, i: int)
    requires
        0 < samplerate <= u32::MAX,
        0 <= i < freqs.len(),
        freqs[i] < samplerate,
    ensures
        step_at(phase_spec(freqs, samplerate), samplerate, i) == freqs[i],
{
    let phases = phase_spec(freqs, samplerate);
    let here = turned(freqs, i);
    let before = if i == 0 { 0 } else { turned(freqs, i - 1) };
    assert(here == before + freqs[i]) by {
        reveal_with_fuel(sum_to, 2);
    }
    vstd::arithmetic::div_mod::lemma_mod_bound(here, samplerate);
    vstd::arithmetic::div_mod::lemma_mod_bound(before, samplerate);
    vstd::arithmetic::div_mod::lemma_sub_mod_noop(here, before, samplerate);
    vstd::arithmetic::div_mod::lemma_small_mod(freqs[i] as nat, samplerate as nat);
    if i == 0 {
        vstd::arithmetic::div_mod::lemma_small_mod(0, samplerate as nat);
        vstd::arithmetic::div_mod::lemma_mod_twice(here, samplerate);
    }
}

proof fn lemma_steps_of_a_symbol(
    freqs: Seq<u32>,
    samplerate: int,
    from: int,
    n: int,
    tone: int,
)
    requires
        0 < samplerate <= u32::MAX,
        0 <= from,
        0 <= n,
        from + n <= freqs.len(),
        0 <= tone < samplerate,
        forall|i: int| from <= i < from + n ==> freqs[i] == tone,
    ensures
        step_sum(phase_spec(freqs, samplerate), samplerate, from, n) == n * tone,
    decreases n,
{
    if n > 0 {
        lemma_steps_of_a_symbol(freqs, samplerate, from, n - 1, tone);
        lemma_steps_are_frequencies(freqs, samplerate, from + n - 1);
        assert((n - 1) * tone + tone == n * tone) by (nonlinear_arith);
    } else {
        assert(n * tone == 0) by (nonlinear_arith)
            requires
                n == 0,
        ;
    }
}

/// In the signal of a bit sequence each symbol is recognised as the tone that
/// was keyed for it.
pub proof fn lemma_symbol_is_recognised(tones: Seq<u32>, config: ModulationConfig, s: int, k: int)
    requires
        config.valid(),
        0 <= s < tones.len(),
        0 <= k <= top_symbol(config.scheme),
        tones[s] == tone_of(config.carrier as int, config.deviation as int, k),
    ensures
        symbol_at(
            phase_spec(
                repeat_spec(tones, config.spec_samples_per_symbol() as nat),
                config.sample_rate as int,
            ),
            config,
            s,
        ) == k,
{
    let sps = config.spec_samples_per_symbol();
    let rate = config.sample_rate as int;
    let held = repeat_spec(tones, sps as nat);
    let tone = tones[s] as int;
    lemma_whole_sample(rate, config.baud_rate as int);
    match config.scheme {
        ModulationMethod::BFSK => {
            assert(2 * (config.carrier + 1 * config.deviation) < rate);
        },
        ModulationMethod::QFSK => {
            assert(2 * (config.carrier + 3 * config.deviation) < rate);
        },
    }
    assert(0 <= tone < rate);
    assert(held.len() == tones.len() * sps);
    assert(s * sps + sps <= tones.len() * sps) by (nonlinear_arith)
        requires
            0 <= s < tones.len(),
            sps >= 1,
    ;
    assert(0 <= s * sps) by (nonlinear_arith)
        requires
            0 <= s,
            sps >= 1,
    ;
    assert forall|i: int| s * sps <= i < s * sps + sps implies held[i] == tone by {
        vstd::arithmetic::div_mod::lemma_fundamental_div_mod_converse(i, sps, s, i - s * sps);
    }
    lemma_steps_of_a_symbol(held, rate, s * sps, sps, tone);
    vstd::arithmetic::div_mod::lemma_div_multiples_vanish(tone, sps);
    let phases = phase_spec(held, rate);
    assert(step_sum(phases, rate, s * sps, sps) / sps == tone);
    lemma_nearest_tolerates(
        tone,
        config.carrier as int,
        config.deviation as int,
        top_symbol(config.scheme),
    );
    assert(distance(tone, config.carrier as int, config.deviation as int, k) == 0);
}

/// Demodulating the signal of a bit sequence gives the bits back, with two
/// tones as with four.
pub proof fn lemma_demodulate_inverts_modulate(bits: Seq<bool>, config: ModulationConfig)
    requires
        config.valid(),
        bits.len() % (bits_per_symbol(config.scheme) as nat) == 0,
    ensures
        modulate_spec(bits, config) matches Ok(phases) && demodulate_spec(phases, config) == Ok::<
            Seq<bool>,
            CouplerError,
        >(bits),
{
    let sps = config.spec_samples_per_symbol();
    let tones = config.tones(bits);
    let phases = phase_spec(repeat_spec(tones, sps as nat), config.sample_rate as int);
    let c = config.carrier as int;
    let d = config.deviation as int;
    lemma_whole_sample(config.sample_rate as int, config.baud_rate as int);
    assert(phases.len() == tones.len() * sps);
    vstd::arithmetic::div_mod::lemma_div_multiples_vanish(tones.len() as int, sps);
    vstd::arithmetic::div_mod::lemma_mod_multiples_basic(tones.len() as int, sps);
    assert(tones.len() * sps == sps * tones.len()) by (nonlinear_arith);
    let got = symbol_bits(phases, config);
    match config.scheme {
        ModulationMethod::BFSK => {
            assert(tones.len() == bits.len());
            assert forall|s: int| 0 <= s < bits.len() implies got[s] == bits[s] by {
                let k: int = if bits[s] { 1 } else { 0 };
                lemma_symbol_is_recognised(tones, config, s, k);
            }
        },
        ModulationMethod::QFSK => {
            assert(tones.len() == bits.len() / 2);
            assert forall|i: int| 0 <= i < bits.len() implies got[i] == bits[i] by {
                let s = i / 2;
                let k: int = (if bits[2 * s] { 2int } else { 0int }) + (if bits[2 * s + 1] {
                    1int
                } else {
                    0int
                });
                lemma_symbol_is_recognised(tones, config, s, k);
            }
        },
    }
    assert(got =~= bits);
}

} // verus!
