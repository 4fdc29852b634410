//! Continuous-phase frequency-shift keying on whole numbers.
//!
//! A frequency is a whole number of Hz. A phase is counted in steps of which
//! `samplerate` make one full turn: holding the frequency `f` for one sample
//! advances the phase by `f` steps. The phase of a sample is the sum of the
//! frequencies held up to and including it, reduced to less than one turn;
//! the sample itself is the amplitude times the sine of that phase.
//!
//! With two tones a zero bit is sent at the carrier and a one bit one
//! deviation above it. With four tones a pair of bits, read as a binary number
//! with the earlier bit worth two, is sent that many deviations above the
//! carrier; neighbouring tones may thus differ in both bits.

use vstd::prelude::*;
use itertools_num::ItertoolsNum;
use crate::error::CouplerError;
use crate::utils::{repeat, repeat_spec};
use crate::{Bit, ModulationMethod};

verus! {

/// The modulations that the coupler knows by name.
#[derive(Debug, Clone, Copy)]
pub enum ModulationFormat {
    BFSK,
    QFSK,
    BPSK,
}

/// The sum of the first `n` items of `v`.
pub open spec fn sum_to(v: Seq<int>, n: int) -> int
    decreases n,
{
    if n <= 0 {
        0
    } else {
        sum_to(v, n - 1) + v[n - 1]
    }
}

/// The items of `v` as mathematical integers.
pub open spec fn widen(v: Seq<u64>) -> Seq<int> {
    Seq::new(v.len(), |k: int| v[k] as int)
}

/// The frequencies `v` as mathematical integers.
pub open spec fn hertz(v: Seq<u32>) -> Seq<int> {
    Seq::new(v.len(), |k: int| v[k] as int)
}

/// The phase of sample `i`, in steps and before reduction, when sample `k`
/// holds the frequency `freqs[k]`.
pub open spec fn turned(freqs: Seq<u32>, i: int) -> int {
    sum_to(hertz(freqs), i + 1)
}

/// The phase of each sample, reduced to less than one turn.
pub open spec fn phase_spec(freqs: Seq<u32>, samplerate: int) -> Seq<u32> {
    Seq::new(freqs.len(), |i: int| (turned(freqs, i) % samplerate) as u32)
}

/// The tone of one bit.
pub open spec fn bfsk_tone(b: bool, carrier: u32, deviation: u32) -> u32 {
    if b {
        (carrier + deviation) as u32
    } else {
        carrier
    }
}

/// The tone of a pair of bits.
pub open spec fn qfsk_tone(b: bool, c: bool, carrier: u32, deviation: u32) -> u32 {
    if !b && !c {
        carrier
    } else if !b && c {
        (carrier + deviation) as u32
    } else if b && !c {
        (carrier + 2 * deviation) as u32
    } else {
        (carrier + 3 * deviation) as u32
    }
}

/// The tones of a bit sequence sent one bit per symbol.
pub open spec fn bfsk_tones(bits: Seq<bool>, carrier: u32, deviation: u32) -> Seq<u32> {
    Seq::new(bits.len(), |i: int| bfsk_tone(bits[i], carrier, deviation))
}

/// The tones of a bit sequence sent two bits per symbol.
pub open spec fn qfsk_tones(bits: Seq<bool>, carrier: u32, deviation: u32) -> Seq<u32> {
    Seq::new(bits.len() / 2, |i: int| qfsk_tone(bits[2 * i], bits[2 * i + 1], carrier, deviation))
}

/// `cumsum` of itertools_num, on `u64` items: item `i` of the result is the
/// sum of the items of `v` up to and including item `i`. The sums are formed
/// with `+`, so the caller keeps the last of them within `u64`.
#[verifier::external_body]
fn running_sums(v: &Vec<u64>) -> (r: Vec<u64>)
    requires
        sum_to(widen(v@), v.len() as int) <= u64::MAX,
    ensures
        r.len() == v.len(),
        forall|i: int| 0 <= i < v.len() ==> r@[i] == sum_to(widen(v@), i + 1),
{
    v.iter().copied().cumsum::<u64>().collect()
}

/// A symbol lasts at least one whole sample when the baud rate does not exceed
/// the sample rate.
pub proof fn lemma_whole_sample(rate: int, baud: int)
    ensures
        0 < baud <= rate ==> rate / baud >= 1,
{
    if 0 < baud <= rate {
        vstd::arithmetic::div_mod::lemma_div_is_ordered(baud, rate, baud);
        vstd::arithmetic::div_mod::lemma_div_basics(baud);
    }
}

proof fn lemma_sum_bound(v: Seq<int>, n: int, top: int)
    requires
        0 <= n <= v.len(),
        forall|k: int| 0 <= k < v.len() ==> 0 <= #[trigger] v[k] <= top,
    ensures
        0 <= sum_to(v, n) <= n * top,
    decreases n,
{
    if n > 0 {
        lemma_sum_bound(v, n - 1, top);
        assert(0 <= v[n - 1] <= top);
        assert((n - 1) * top + top == n * top) by (nonlinear_arith);
    } else {
        assert(n * top == 0) by (nonlinear_arith)
            requires
                n == 0,
        ;
    }
}

/// Continuous-phase frequency-shift keying: each frequency of `data` is held
/// for `latency` samples, and the phase of each sample comes back.
pub fn cpfsk(data: Vec<u32>, samplerate: u32, latency: usize) -> (r: Vec<u32>)
    requires
        samplerate > 0,
        data.len() * latency <= u32::MAX,
    ensures
        r@ == phase_spec(repeat_spec(data@, latency as nat), samplerate as int),
{
    let ghost freqs = repeat_spec(data@, latency as nat);
    let held = repeat(data, latency);
    let n: usize = held.len();
    let mut wide: Vec<u64> = Vec::new();
    let mut i: usize = 0;
    while i < n
        invariant
            n == held.len(),
            i <= n,
            wide.len() == i,
            forall|k: int| 0 <= k < i ==> wide@[k] == held@[k],
        decreases n - i,
    {
        wide.push(held[i] as u64);
        i += 1;
    }
    proof {
        assert(widen(wide@) =~= hertz(freqs));
        lemma_sum_bound(widen(wide@), n as int, u32::MAX as int);
        assert(n * (u32::MAX as int) <= u64::MAX) by (nonlinear_arith)
            requires
                0 <= n <= u32::MAX,
        ;
    }
    let sums = running_sums(&wide);
    let mut out: Vec<u32> = Vec::new();
    let mut j: usize = 0;
    while j < n
        invariant
            n == held.len(),
            n == sums.len(),
            freqs.len() == n,
            samplerate > 0,
            j <= n,
            out.len() == j,
            widen(wide@) == hertz(freqs),
            forall|k: int| 0 <= k < n ==> sums@[k] == sum_to(widen(wide@), k + 1),
            forall|k: int| 0 <= k < j ==> out@[k] == phase_spec(freqs, samplerate as int)[k],
        decreases n - j,
    {
        let reduced: u64 = sums[j] % (samplerate as u64);
        out.push(reduced as u32);
        j += 1;
    }
    assert(out@ =~= phase_spec(freqs, samplerate as int));
    out
}

/// The phases of a bit sequence sent one bit per symbol: a zero bit at the
/// carrier, a one bit one deviation above it.
pub fn bfsk(bin: &Vec<Bit>, carrier: u32, deviation: u32, samplerate: u32, latency: usize) -> (r:
    Vec<u32>)
    requires
        samplerate > 0,
        carrier + deviation <= u32::MAX,
        bin.len() * latency <= u32::MAX,
    ensures
        r@ == phase_spec(
            repeat_spec(bfsk_tones(bin@, carrier, deviation), latency as nat),
            samplerate as int,
        ),
{
    let mut buf: Vec<u32> = Vec::new();
    let mut i: usize = 0;
    while i < bin.len()
        invariant
            carrier + deviation <= u32::MAX,
            i <= bin.len(),
            buf.len() == i,
            forall|k: int| 0 <= k < i ==> buf@[k] == bfsk_tone(bin@[k], carrier, deviation),
        decreases bin.len() - i,
    {
        if bin[i] {
            buf.push(carrier + deviation);
        } else {
            buf.push(carrier);
        }
        i += 1;
    }
    assert(buf@ =~= bfsk_tones(bin@, carrier, deviation));
    cpfsk(buf, samplerate, latency)
}

/// The phases of a bit sequence sent two bits per symbol: the pair `00` at the
/// carrier, `01`, `10` and `11` one, two and three deviations above it.
pub fn qfsk(bin: &[Bit], carrier: u32, deviation: u32, samplerate: u32, latency: usize) -> (r: Vec<
    u32,
>)
    requires
        samplerate > 0,
        bin.len() % 2 == 0,
        carrier + 3 * deviation <= u32::MAX,
        (bin.len() / 2) * latency <= u32::MAX,
    ensures
        r@ == phase_spec(
            repeat_spec(qfsk_tones(bin@, carrier, deviation), latency as nat),
            samplerate as int,
        ),
{
    let n: usize = bin.len() / 2;
    let mut buf: Vec<u32> = Vec::new();
    let mut i: usize = 0;
    while i < n
        invariant
            carrier + 3 * deviation <= u32::MAX,
            n == bin.len() / 2,
            bin.len() % 2 == 0,
            i <= n,
            buf.len() == i,
            forall|k: int|
                0 <= k < i ==> buf@[k] == qfsk_tone(
                    bin@[2 * k],
                    bin@[2 * k + 1],
                    carrier,
                    deviation,
                ),
        decreases n - i,
    {
        let b = bin[2 * i];
        let c = bin[2 * i + 1];
        if !b && !c {
            buf.push(carrier);
        } else if !b && c {
            buf.push(carrier + deviation);
        } else if b && !c {
            buf.push(carrier + deviation * 2);
        } else {
            buf.push(carrier + deviation * 3);
        }
        i += 1;
    }
    assert(buf@ =~= qfsk_tones(bin@, carrier, deviation));
    cpfsk(buf, samplerate, latency)
}

/// The parameters of a modulation.
#[derive(Debug, Clone, Copy)]
pub struct ModulationConfig {
    /// Samples per second.
    pub sample_rate: u32,
    /// Symbols per second.
    pub baud_rate: u32,
    /// Frequency of the lowest tone, in Hz.
    pub carrier: u32,
    /// Distance between neighbouring tones, in Hz.
    pub deviation: u32,
    /// Peak value of a sample.
    pub amplitude: i16,
    /// How many tones are used.
    pub scheme: ModulationMethod,
}

/// The number of the highest tone of a scheme, the carrier being tone zero.
pub open spec fn top_symbol(scheme: ModulationMethod) -> int {
    match scheme {
        ModulationMethod::BFSK => 1,
        ModulationMethod::QFSK => 3,
    }
}

/// How many bits one symbol of a scheme carries.
pub open spec fn bits_per_symbol(scheme: ModulationMethod) -> int {
    match scheme {
        ModulationMethod::BFSK => 1,
        ModulationMethod::QFSK => 2,
    }
}

impl ModulationConfig {
    /// The rates and the amplitude are positive, a symbol lasts at least one
    /// sample, and the highest tone lies below half the sample rate.
    pub open spec fn valid(&self) -> bool {
        &&& self.sample_rate > 0
        &&& self.baud_rate > 0
        &&& self.baud_rate <= self.sample_rate
        &&& self.amplitude > 0
        &&& self.deviation > 0
        &&& 2 * (self.carrier + top_symbol(self.scheme) * self.deviation) < self.sample_rate
    }

    /// Whole samples per symbol.
    pub open spec fn spec_samples_per_symbol(&self) -> int {
        self.sample_rate as int / self.baud_rate as int
    }

    /// The tones of a bit sequence under this configuration.
    pub open spec fn tones(&self, bits: Seq<bool>) -> Seq<u32> {
        match self.scheme {
            ModulationMethod::BFSK => bfsk_tones(bits, self.carrier, self.deviation),
            ModulationMethod::QFSK => qfsk_tones(bits, self.carrier, self.deviation),
        }
    }

    /// Checks the parameters and makes a configuration of them. Parameters
    /// that are not `valid` are refused.
    pub fn new(
        sample_rate: u32,
        baud_rate: u32,
        carrier: u32,
        deviation: u32,
        amplitude: i16,
        scheme: ModulationMethod,
    ) -> (r: Result<ModulationConfig, CouplerError>)
        ensures
            match r {
                Ok(c) => c.valid() && c == (ModulationConfig {
                    sample_rate,
                    baud_rate,
                    carrier,
                    deviation,
                    amplitude,
                    scheme,
                }),
                Err(e) => e == CouplerError::InvalidConfig && !(ModulationConfig {
                    sample_rate,
                    baud_rate,
                    carrier,
                    deviation,
                    amplitude,
                    scheme,
                }).valid(),
            },
    {
        let c = ModulationConfig { sample_rate, baud_rate, carrier, deviation, amplitude, scheme };
        if c.is_valid() {
            Ok(c)
        } else {
            Err(CouplerError::InvalidConfig)
        }
    }

    /// Whether the parameters are `valid`.
    pub fn is_valid(&self) -> (r: bool)
        ensures
            r == self.valid(),
    {
        let top: u64 = match self.scheme {
            ModulationMethod::BFSK => 1,
            ModulationMethod::QFSK => 3,
        };
        self.sample_rate > 0 && self.baud_rate > 0 && self.baud_rate <= self.sample_rate
            && self.amplitude > 0 && self.deviation > 0 && 2 * (self.carrier as u64 + top * (
        self.deviation as u64)) < self.sample_rate as u64
    }

    /// Whole samples per symbol.
    pub fn samples_per_symbol(&self) -> (r: u32)
        requires
            self.baud_rate > 0,
        ensures
            r == self.spec_samples_per_symbol(),
            self.valid() ==> r >= 1,
    {
        proof {
            lemma_whole_sample(self.sample_rate as int, self.baud_rate as int);
        }
        self.sample_rate / self.baud_rate
    }

    /// What is left of a second's samples when each symbol has been given its
    /// whole samples: zero when the symbols fill the second exactly.
    pub fn samples_left_over(&self) -> (r: u32)
        requires
            self.baud_rate > 0,
        ensures
            r == self.sample_rate as int % self.baud_rate as int,
            self.spec_samples_per_symbol() * self.baud_rate + r == self.sample_rate,
    {
        proof {
            vstd::arithmetic::div_mod::lemma_fundamental_div_mod(
                self.sample_rate as int,
                self.baud_rate as int,
            );
            assert(self.baud_rate * (self.sample_rate as int / self.baud_rate as int) == (
            self.sample_rate as int / self.baud_rate as int) * self.baud_rate)
                by (nonlinear_arith);
        }
        self.sample_rate % self.baud_rate
    }
}

/// What `modulate` yields.
pub open spec fn modulate_spec(bits: Seq<bool>, config: ModulationConfig) -> Result<
    Seq<u32>,
    CouplerError,
> {
    if !config.valid() {
        Err(CouplerError::InvalidConfig)
    } else if bits.len() % (bits_per_symbol(config.scheme) as nat) != 0 {
        Err(CouplerError::InvalidLength)
    } else {
        Ok(
            phase_spec(
                repeat_spec(config.tones(bits), config.spec_samples_per_symbol() as nat),
                config.sample_rate as int,
            ),
        )
    }
}

/// Modulates a bit sequence: the phase of every sample of the signal, each
/// symbol lasting `samples_per_symbol` samples. A configuration that is not
/// valid is refused, and so is an odd number of bits with four tones.
pub fn modulate(bits: &Vec<Bit>, config: &ModulationConfig) -> (r: Result<Vec<u32>, CouplerError>)
    requires
        bits.len() * config.spec_samples_per_symbol() <= u32::MAX,
    ensures
        match modulate_spec(bits@, *config) {
            Ok(phases) => r matches Ok(v) && v@ == phases,
            Err(e) => r == Err::<Vec<u32>, CouplerError>(e),
        },
{
    if !config.is_valid() {
        return Err(CouplerError::InvalidConfig);
    }
    let latency: usize = config.samples_per_symbol() as usize;
    match config.scheme {
        ModulationMethod::BFSK => Ok(
            bfsk(bits, config.carrier, config.deviation, config.sample_rate, latency),
        ),
        ModulationMethod::QFSK => {
            if bits.len() % 2 != 0 {
                return Err(CouplerError::InvalidLength);
            }
            assert((bits.len() / 2) * latency <= bits.len() * latency) by (nonlinear_arith)
                requires
                    bits.len() / 2 <= bits.len(),
                    latency >= 0,
            ;
            Ok(
                qfsk(
                    bits.as_slice(),
                    config.carrier,
                    config.deviation,
                    config.sample_rate,
                    latency,
                ),
            )
        },
    }
}

/// The phase is continuous: from one sample to the next it advances by the
/// frequency held at that next sample and by nothing else, at a symbol
/// boundary as within a symbol, so no step exceeds the highest frequency.
pub proof fn lemma_phase_is_continuous(freqs: Seq<u32>, samplerate: int, i: int, top: int)
    requires
        0 < samplerate <= u32::MAX,
        0 <= i,
        i + 1 < freqs.len(),
        forall|k: int| 0 <= k < freqs.len() ==> freqs[k] <= top,
    ensures
        turned(freqs, i + 1) - turned(freqs, i) == freqs[i + 1],
        0 <= turned(freqs, i + 1) - turned(freqs, i) <= top,
        phase_spec(freqs, samplerate)[i + 1] == (phase_spec(freqs, samplerate)[i] + freqs[i + 1])
            % samplerate,
{
    let a = turned(freqs, i);
    let f = freqs[i + 1] as int;
    assert(turned(freqs, i + 1) == a + f);
    lemma_sum_bound(hertz(freqs), i + 1, u32::MAX as int);
    vstd::arithmetic::div_mod::lemma_add_mod_noop_right(f, a, samplerate);
    vstd::arithmetic::div_mod::lemma_mod_bound(a, samplerate);
    vstd::arithmetic::div_mod::lemma_mod_bound(a + f, samplerate);
}

/// With either scheme no tone lies above the highest one, and each symbol
/// lasts exactly the configured number of samples.
pub proof fn lemma_modulated_tones(bits: Seq<bool>, config: ModulationConfig, i: int)
    requires
        config.valid(),
        bits.len() % (bits_per_symbol(config.scheme) as nat) == 0,
        0 <= i < bits.len() / (bits_per_symbol(config.scheme) as nat)
            * config.spec_samples_per_symbol(),
    ensures
        ({
            let held = repeat_spec(config.tones(bits), config.spec_samples_per_symbol() as nat);
            &&& held.len() == bits.len() / (bits_per_symbol(config.scheme) as nat)
                * config.spec_samples_per_symbol()
            &&& held[i] == config.tones(bits)[i / config.spec_samples_per_symbol()]
            &&& config.carrier <= held[i] <= config.carrier + top_symbol(config.scheme)
                * config.deviation
        }),
{
    let sps = config.spec_samples_per_symbol();
    let tones = config.tones(bits);
    lemma_whole_sample(config.sample_rate as int, config.baud_rate as int);
    assert(sps >= 1);
    match config.scheme {
        ModulationMethod::BFSK => {
            assert(tones.len() == bits.len() / 1);
        },
        ModulationMethod::QFSK => {
            assert(tones.len() == bits.len() / 2);
        },
    }
    let j = i / sps;
    vstd::arithmetic::div_mod::lemma_fundamental_div_mod(i, sps);
    assert(0 <= j < tones.len()) by (nonlinear_arith)
        requires
            0 <= i < tones.len() * sps,
            sps >= 1,
            j == i / sps,
            i == sps * (i / sps) + i % sps,
            0 <= i % sps < sps,
    ;
}

/// The signal of a bit sequence has a continuous phase, with two tones as
/// with four: from each sample to the next the phase advances by the tone
/// held at that next sample, which is the tone of the symbol that the sample
/// belongs to and never lies above the highest tone.
pub proof fn lemma_modulated_phase_is_continuous(
    bits: Seq<bool>,
    config: ModulationConfig,
    i: int,
)
    requires
        config.valid(),
        bits.len() % (bits_per_symbol(config.scheme) as nat) == 0,
        0 <= i,
        i + 1 < bits.len() / (bits_per_symbol(config.scheme) as nat)
            * config.spec_samples_per_symbol(),
    ensures
        modulate_spec(bits, config) matches Ok(phases) && ({
            let tone = config.tones(bits)[(i + 1) / config.spec_samples_per_symbol()];
            &&& phases.len() == bits.len() / (bits_per_symbol(config.scheme) as nat)
                * config.spec_samples_per_symbol()
            &&& phases[i + 1] == (phases[i] + tone) % (config.sample_rate as int)
            &&& config.carrier <= tone <= config.carrier + top_symbol(config.scheme)
                * config.deviation
        }),
{
    let held = repeat_spec(config.tones(bits), config.spec_samples_per_symbol() as nat);
    lemma_modulated_tones(bits, config, i + 1);
    assert forall|k: int| 0 <= k < held.len() implies held[k] <= u32::MAX by {}
    lemma_phase_is_continuous(held, config.sample_rate as int, i, u32::MAX as int);
}

} // verus!
