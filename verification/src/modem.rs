//! The modem: bits to the phase of a signal, and back.

pub mod demodulator;
pub mod modulator;
