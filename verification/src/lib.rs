//! Signal coding for an acoustic coupler: text is turned into bits, protected
//! by an extended Hamming code, wrapped into a frame and mapped onto the phase
//! of a continuous-phase frequency-shift-keyed tone. A small state machine
//! governs the receiving side of a call.
//!
//! A bit is a `bool`: `true` is one, `false` is zero. Bytes are expanded most
//! significant bit first.

use vstd::prelude::*;

pub mod bytes;
pub mod capture;
pub mod coupler;
pub mod datalink;
pub mod error;
pub mod hamming;
pub mod modem;
pub mod session;
pub mod utils;

verus! {

/// A single binary value.
pub type Bit = bool;

/// Frequency of the tone by which the calling side announces itself, in Hz.
pub const DIAL_TONE: u32 = 800;

/// Frequency of the tone by which the called side answers, in Hz.
pub const ANSWER_TONE: u32 = 200;

/// The eight alternating bits that announce a frame.
pub const PREAMBLE: [Bit; 8] = [true, false, true, false, true, false, true, false];

/// The eight-bit marker that stands before and after a frame's payload.
pub const USFD: [Bit; 8] = [false, false, false, true, false, true, true, false];

/// The states of a channel session.
#[derive(PartialEq, Eq, Structural, Clone, Copy, Debug)]
pub enum Status {
    LISTENING,
    RECEIVING,
    RESET,
    ANSWER,
}

/// How many tones carry the data: two (one bit per symbol) or four (two bits
/// per symbol).
#[derive(PartialEq, Eq, Structural, Debug, Clone, Copy)]
pub enum ModulationMethod {
    BFSK,
    QFSK,
}

} // verus!
