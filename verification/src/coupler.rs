//! The transmitting coupler: a text becomes the phase of a two-tone signal.
//!
//! The text is expanded into bits, coded, framed, and sent one bit per symbol:
//! a zero bit at one frequency, a one bit at another.

use vstd::prelude::*;
use vstd::string::StringSliceAdditionalSpecFns;
use crate::bytes::{bits_of_spec, encode_u8};
use crate::datalink::{frame, frame_spec};
use crate::error::CouplerError;
use crate::hamming::{encode, encode_spec};
use crate::modem::modulator::{cpfsk, phase_spec};
use crate::utils::repeat_spec;
use crate::Bit;

verus! {

/// The parameters of a coupler.
#[derive(Clone, Copy, Debug)]
pub struct AcousticCouplerConfig {
    /// Samples per second.
    pub sample_rate: u32,
    /// Symbols per second.
    pub baud_rate: u16,
    /// Whole samples per symbol; `build` derives it from the two rates.
    pub period: u32,
    /// Frequency of a zero bit, in Hz.
    pub zero_freq: u32,
    /// Frequency of a one bit, in Hz.
    pub one_freq: u32,
    /// Peak value of a sample.
    pub amplitude: i16,
}

impl AcousticCouplerConfig {
    /// The rates and the amplitude are positive, a symbol lasts at least one
    /// sample, the two frequencies differ, and both lie below half the sample
    /// rate.
    pub open spec fn valid(&self) -> bool {
        &&& self.sample_rate > 0
        &&& self.baud_rate > 0
        &&& self.baud_rate <= self.sample_rate
        &&& self.amplitude > 0
        &&& self.zero_freq != self.one_freq
        &&& 2 * self.zero_freq < self.sample_rate
        &&& 2 * self.one_freq < self.sample_rate
    }

    /// Whether the parameters are `valid`.
    pub fn is_valid(&self) -> (r: bool)
        ensures
            r == self.valid(),
    {
        self.sample_rate > 0 && self.baud_rate > 0 && self.baud_rate as u32 <= self.sample_rate
            && self.amplitude > 0 && self.zero_freq != self.one_freq && self.zero_freq
            < self.sample_rate - self.sample_rate / 2 && self.one_freq < self.sample_rate
            - self.sample_rate / 2
    }
}

impl Default for AcousticCouplerConfig {
    fn default() -> (r: Self)
        ensures
            r == (AcousticCouplerConfig {
                sample_rate: 44100,
                baud_rate: 100,
                period: 441,
                zero_freq: 220,
                one_freq: 440,
                amplitude: i16::MAX,
            }),
    {
        AcousticCouplerConfig {
            sample_rate: 44100,
            baud_rate: 100,
            period: 441,
            zero_freq: 220,
            one_freq: 440,
            amplitude: i16::MAX,
        }
    }
}

/// Collects the parameters of a coupler one by one.
#[derive(Clone, Copy, Debug)]
pub struct ACCBuilder {
    pub config: AcousticCouplerConfig,
}

impl ACCBuilder {
    /// A builder that holds the default parameters.
    pub fn new() -> (r: Self)
        ensures
            r.config == (AcousticCouplerConfig {
                sample_rate: 44100,
                baud_rate: 100,
                period: 441,
                zero_freq: 220,
                one_freq: 440,
                amplitude: i16::MAX,
            }),
    {
        ACCBuilder { config: AcousticCouplerConfig::default() }
    }

    /// Sets the samples per second.
    pub fn sample_rate(self, rate: u32) -> (r: ACCBuilder)
        ensures
            r.config == (AcousticCouplerConfig { sample_rate: rate, ..self.config }),
    {
        let mut b = self;
        b.config.sample_rate = rate;
        b
    }

    /// Sets the symbols per second.
    pub fn baud_rate(self, rate: u16) -> (r: ACCBuilder)
        ensures
            r.config == (AcousticCouplerConfig { baud_rate: rate, ..self.config }),
    {
        let mut b = self;
        b.config.baud_rate = rate;
        b
    }

    /// Sets the frequencies of a zero bit and of a one bit.
    pub fn freqs(self, zero: u32, one: u32) -> (r: ACCBuilder)
        ensures
            r.config == (AcousticCouplerConfig { zero_freq: zero, one_freq: one, ..self.config }),
    {
        let mut b = self;
        b.config.zero_freq = zero;
        b.config.one_freq = one;
        b
    }

    /// Sets the peak value of a sample.
    pub fn amplitude(self, amp: i16) -> (r: ACCBuilder)
        ensures
            r.config == (AcousticCouplerConfig { amplitude: amp, ..self.config }),
    {
        let mut b = self;
        b.config.amplitude = amp;
        b
    }

    /// Makes the coupler. The samples per symbol are derived from the two
    /// rates; parameters that are not `valid` are refused.
    pub fn build(self) -> (r: Result<AcousticCoupler, CouplerError>)
        ensures
            self.config.valid() ==> (r matches Ok(c) && c.config == (AcousticCouplerConfig {
                period: (self.config.sample_rate / self.config.baud_rate as u32) as u32,
                ..self.config
            })),
            !self.config.valid() ==> r == Err::<AcousticCoupler, CouplerError>(
                CouplerError::InvalidConfig,
            ),
    {
        if !self.config.is_valid() {
            return Err(CouplerError::InvalidConfig);
        }
        let mut config = self.config;
        config.period = config.sample_rate / (config.baud_rate as u32);
        Ok(AcousticCoupler { config })
    }
}

/// A coupler with its parameters.
#[derive(Clone, Copy, Debug)]
pub struct AcousticCoupler {
    pub config: AcousticCouplerConfig,
}

/// The bits that go on the line for a byte sequence: its bits, coded and
/// framed.
pub open spec fn line_spec(bytes: Seq<u8>) -> Seq<bool> {
    frame_spec(encode_spec(bits_of_spec(bytes)))
}

/// The frequency of each bit of `line`.
pub open spec fn keyed(line: Seq<bool>, zero_freq: u32, one_freq: u32) -> Seq<u32> {
    Seq::new(line.len(), |i: int| if line[i] { one_freq } else { zero_freq })
}

impl AcousticCoupler {
    /// A builder that holds the default parameters.
    pub fn builder() -> (r: ACCBuilder)
        ensures
            r.config == (AcousticCouplerConfig {
                sample_rate: 44100,
                baud_rate: 100,
                period: 441,
                zero_freq: 220,
                one_freq: 440,
                amplitude: i16::MAX,
            }),
    {
        ACCBuilder::new()
    }

    /// The frequency at which a bit is sent.
    pub fn one_or_zero(&self, data: Bit) -> (r: u32)
        ensures
            r == if data { self.config.one_freq } else { self.config.zero_freq },
    {
        if data {
            self.config.one_freq
        } else {
            self.config.zero_freq
        }
    }

    /// The bits that go on the line for a text: the bits of its bytes, coded
    /// and framed.
    pub fn line_bits(data: &str) -> (r: Vec<Bit>)
        ensures
            r@ == line_spec(data.spec_bytes()),
            r.len() == 32 + 16 * data.spec_bytes().len(),
    {
        let bin = encode_u8(data);
        let coded = match encode(&bin) {
            Ok(coded) => coded,
            Err(_) => Vec::new(),
        };
        frame(&coded)
    }

    /// The signal of a text: the phase of every sample, each bit on the line
    /// lasting `period` samples.
    pub fn signal(&self, data: &str) -> (r: Vec<u32>)
        requires
            self.config.sample_rate > 0,
            (32 + 16 * data.spec_bytes().len()) * self.config.period <= u32::MAX,
        ensures
            r@ == phase_spec(
                repeat_spec(
                    keyed(
                        line_spec(data.spec_bytes()),
                        self.config.zero_freq,
                        self.config.one_freq,
                    ),
                    self.config.period as nat,
                ),
                self.config.sample_rate as int,
            ),
            r.len() == (32 + 16 * data.spec_bytes().len()) * self.config.period,
    {
        let line = AcousticCoupler::line_bits(data);
        let mut buf: Vec<u32> = Vec::new();
        let mut i: usize = 0;
        while i < line.len()
            invariant
                i <= line.len(),
                buf.len() == i,
                forall|k: int|
                    0 <= k < i ==> buf@[k] == (if line@[k] {
                        self.config.one_freq
                    } else {
                        self.config.zero_freq
                    }),
            decreases line.len() - i,
        {
            buf.push(self.one_or_zero(line[i]));
            i += 1;
        }
        assert(buf@ =~= keyed(line@, self.config.zero_freq, self.config.one_freq));
        cpfsk(buf, self.config.sample_rate, self.config.period as usize)
    }
}

} // verus!
