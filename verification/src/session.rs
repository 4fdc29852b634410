//! The receiving side of a call as a state machine.
//!
//! A session listens until the tones of a call are exchanged, waits for a
//! preamble, collects the bits of a frame and decodes them, and listens again.
//! A failure leads through a reset, in which what was collected is discarded.

use vstd::prelude::*;
use crate::bytes::{bits_of_spec, bytes_of, bytes_of_spec, lemma_bytes_of_inverts_bits_of};
use crate::datalink::{
    append_bits, find_first, first_match, frame_spec, lemma_unframe_inverts_frame, preamble,
    preamble_bits, unframe, unframe_spec, FRAME_HEADER_LEN,
};
use crate::modem::demodulator::{demodulate_spec, lemma_demodulate_inverts_modulate};
use crate::error::CouplerError;
use crate::hamming::{decode, decode_spec, encode_spec, lemma_decode_inverts_encode};
use crate::modem::modulator::{modulate_spec, ModulationConfig};
use crate::{Bit, Status, ANSWER_TONE, DIAL_TONE};

verus! {

/// What can happen to a session.
#[derive(PartialEq, Eq, Structural, Clone, Copy, Debug)]
pub enum SessionEvent {
    /// The dial tone and the answer tone were exchanged.
    TonesExchanged,
    /// A preamble was heard on the channel.
    PreambleDetected,
    /// A frame was taken apart and decoded.
    FrameDecoded,
    /// A frame could not be found, was cut short or was damaged beyond repair.
    FrameFailed,
    /// Nothing arrived in time.
    TimedOut,
    /// The application asked to stop.
    Stop,
    /// What was collected has been discarded.
    Discarded,
}

/// The state that follows `state` on `event`, where the event is accepted.
pub open spec fn next_status(state: Status, event: SessionEvent) -> Option<Status> {
    match (state, event) {
        (_, SessionEvent::Stop) => Some(Status::RESET),
        (Status::LISTENING, SessionEvent::TonesExchanged) => Some(Status::ANSWER),
        (Status::ANSWER, SessionEvent::PreambleDetected) => Some(Status::RECEIVING),
        (Status::RECEIVING, SessionEvent::FrameDecoded) => Some(Status::LISTENING),
        (Status::RECEIVING, SessionEvent::FrameFailed) => Some(Status::RESET),
        (Status::RECEIVING, SessionEvent::TimedOut) => Some(Status::RESET),
        (Status::RESET, SessionEvent::Discarded) => Some(Status::LISTENING),
        _ => None,
    }
}

/// The state that follows `state` on `event`. An event that the state does not
/// accept is refused.
pub fn transition(state: Status, event: SessionEvent) -> (r: Result<Status, CouplerError>)
    ensures
        match next_status(state, event) {
            Some(s) => r == Ok::<Status, CouplerError>(s),
            None => r == Err::<Status, CouplerError>(CouplerError::InvalidTransition),
        },
{
    match (state, event) {
        (_, SessionEvent::Stop) => Ok(Status::RESET),
        (Status::LISTENING, SessionEvent::TonesExchanged) => Ok(Status::ANSWER),
        (Status::ANSWER, SessionEvent::PreambleDetected) => Ok(Status::RECEIVING),
        (Status::RECEIVING, SessionEvent::FrameDecoded) => Ok(Status::LISTENING),
        (Status::RECEIVING, SessionEvent::FrameFailed) => Ok(Status::RESET),
        (Status::RECEIVING, SessionEvent::TimedOut) => Ok(Status::RESET),
        (Status::RESET, SessionEvent::Discarded) => Ok(Status::LISTENING),
        _ => Err(CouplerError::InvalidTransition),
    }
}

/// The part that a side plays in a call.
#[derive(PartialEq, Eq, Structural, Clone, Copy, Debug)]
pub enum Role {
    /// This side dialled and sends first.
    Originator,
    /// This side was called and receives first.
    Answerer,
}

/// The part that falls to the side that hears a tone of `freq` Hz: who hears
/// the dial tone is being called, who hears the answer tone has dialled. Any
/// other tone belongs to no call.
pub open spec fn role_of(freq: u32) -> Option<Role> {
    if freq == DIAL_TONE {
        Some(Role::Answerer)
    } else if freq == ANSWER_TONE {
        Some(Role::Originator)
    } else {
        None
    }
}

/// The part that falls to the side that hears a tone of `freq` Hz.
pub fn call_role(freq: u32) -> (r: Option<Role>)
    ensures
        r == role_of(freq),
{
    if freq == DIAL_TONE {
        Some(Role::Answerer)
    } else if freq == ANSWER_TONE {
        Some(Role::Originator)
    } else {
        None
    }
}

/// What a received stream holds: the bytes of its frame's payload and the
/// number of repaired code words, or the reason why it holds none.
pub open spec fn payload_of(stream: Seq<bool>, window: int) -> Result<(Seq<u8>, nat), CouplerError> {
    match unframe_spec(stream, window) {
        Err(e) => Err(e),
        Ok(code) => match decode_spec(code) {
            Err(e) => Err(e),
            Ok((bits, fixed)) => if bits.len() % 8 != 0 {
                Err(CouplerError::Framing)
            } else {
                Ok((bytes_of_spec(bits), fixed))
            },
        },
    }
}

/// Takes a received stream apart down to the bytes that were sent.
pub fn read_frame(stream: &Vec<Bit>, window: usize) -> (r: Result<(Vec<u8>, usize), CouplerError>)
    ensures
        match payload_of(stream@, window as int) {
            Ok((bytes, fixed)) => r matches Ok((v, k)) && v@ == bytes && k == fixed,
            Err(e) => r == Err::<(Vec<u8>, usize), CouplerError>(e),
        },
{
    let code = match unframe(stream, window) {
        Ok(code) => code,
        Err(e) => { return Err(e); },
    };
    let (bits, fixed) = match decode(&code) {
        Ok(pair) => pair,
        Err(e) => { return Err(e); },
    };
    match bytes_of(&bits) {
        Ok(bytes) => Ok((bytes, fixed)),
        Err(e) => Err(e),
    }
}

/// A session: its state, this side's part in the call under way, and the
/// bits collected for the frame under way.
#[derive(Debug)]
pub struct ChannelSession {
    state: Status,
    role: Option<Role>,
    buffer: Vec<Bit>,
}

impl ChannelSession {
    /// The state of the session.
    pub closed spec fn spec_status(&self) -> Status {
        self.state
    }

    /// The bits collected so far.
    pub closed spec fn pending(&self) -> Seq<bool> {
        self.buffer@
    }

    /// This side's part in the call under way, if there is one.
    pub closed spec fn spec_role(&self) -> Option<Role> {
        self.role
    }

    /// This side's part in the call under way, if there is one.
    pub fn role(&self) -> (r: Option<Role>)
        ensures
            r == self.spec_role(),
    {
        self.role
    }

    /// A session that listens and has collected nothing.
    pub fn new() -> (r: ChannelSession)
        ensures
            r.spec_status() == Status::LISTENING,
            r.pending() == Seq::<bool>::empty(),
            r.spec_role() is None,
    {
        ChannelSession { state: Status::LISTENING, role: None, buffer: Vec::new() }
    }

    /// The state of the session.
    pub fn status(&self) -> (r: Status)
        ensures
            r == self.spec_status(),
    {
        self.state
    }

    /// How many bits have been collected.
    pub fn pending_len(&self) -> (r: usize)
        ensures
            r == self.pending().len(),
    {
        self.buffer.len()
    }

    /// Applies an event. An accepted event moves the session to the state that
    /// `next_status` names; entering a reset or listening anew ends the call
    /// and empties what was collected. A refused event changes nothing.
    pub fn handle(&mut self, event: SessionEvent) -> (r: Result<Status, CouplerError>)
        ensures
            match next_status(old(self).spec_status(), event) {
                Some(s) => r == Ok::<Status, CouplerError>(s) && final(self).spec_status() == s
                    && final(self).pending() == (if s == Status::RESET || s == Status::LISTENING {
                    Seq::<bool>::empty()
                } else {
                    old(self).pending()
                }) && final(self).spec_role() == (if s == Status::RESET || s == Status::LISTENING {
                    None
                } else {
                    old(self).spec_role()
                }),
                None => r == Err::<Status, CouplerError>(CouplerError::InvalidTransition)
                    && *final(self) == *old(self),
            },
    {
        match transition(self.state, event) {
            Ok(s) => {
                self.state = s;
                if s == Status::RESET || s == Status::LISTENING {
                    self.buffer = Vec::new();
                    self.role = None;
                }
                Ok(s)
            },
            Err(e) => Err(e),
        }
    }

    /// Reports a tone heard on the channel. While listening, the dial tone or
    /// the answer tone opens the call and settles this side's part in it; any
    /// other tone, and any tone in another state, changes nothing and is
    /// answered with `false`.
    pub fn hear_tone(&mut self, freq: u32) -> (r: bool)
        ensures
            r == (old(self).spec_status() == Status::LISTENING && role_of(freq) is Some),
            r ==> final(self).spec_status() == Status::ANSWER && final(self).spec_role()
                == role_of(freq) && final(self).pending() == old(self).pending(),
            !r ==> *final(self) == *old(self),
    {
        if self.state != Status::LISTENING {
            return false;
        }
        match call_role(freq) {
            Some(role) => {
                self.state = Status::ANSWER;
                self.role = Some(role);
                true
            },
            None => false,
        }
    }

    /// Looks for a preamble in what the channel delivered. After the tones,
    /// a stream that holds one starts the reception; otherwise nothing changes
    /// and the answer is `false`.
    pub fn detect_preamble(&mut self, stream: &Vec<Bit>) -> (r: bool)
        ensures
            r == (old(self).spec_status() == Status::ANSWER && first_match(
                stream@,
                preamble(),
                0,
                stream.len() as int,
            ) >= 0),
            r ==> final(self).spec_status() == Status::RECEIVING && final(self).spec_role() == old(self).spec_role() && final(self).pending() == old(self).pending(),
            !r ==> *final(self) == *old(self),
    {
        if self.state != Status::ANSWER {
            return false;
        }
        let pre = preamble_bits();
        match find_first(stream, &pre, 0, stream.len()) {
            Some(_) => {
                self.state = Status::RECEIVING;
                true
            },
            None => false,
        }
    }

    /// Collects bits of the frame under way. Outside a reception the bits are
    /// refused and nothing changes.
    pub fn feed(&mut self, bits: &Vec<Bit>) -> (r: Result<(), CouplerError>)
        ensures
            final(self).spec_status() == old(self).spec_status(),
            final(self).spec_role() == old(self).spec_role(),
            old(self).spec_status() == Status::RECEIVING ==> r is Ok && final(self).pending() == old(self).pending() + bits@,
            old(self).spec_status() != Status::RECEIVING ==> r == Err::<(), CouplerError>(
                CouplerError::InvalidTransition,
            ) && final(self).pending() == old(self).pending(),
    {
        if self.state != Status::RECEIVING {
            return Err(CouplerError::InvalidTransition);
        }
        append_bits(&mut self.buffer, bits);
        Ok(())
    }

    /// Ends a reception: what was collected is taken apart and decoded. On
    /// success the session listens again and the bytes come back with the
    /// number of repaired code words; on failure the session is in reset and
    /// the reason comes back. Either way the call is over and nothing stays
    /// collected. Outside a reception nothing changes.
    pub fn finish(&mut self, window: usize) -> (r: Result<(Vec<u8>, usize), CouplerError>)
        ensures
            old(self).spec_status() != Status::RECEIVING ==> r == Err::<
                (Vec<u8>, usize),
                CouplerError,
            >(CouplerError::InvalidTransition) && *final(self) == *old(self),
            old(self).spec_status() == Status::RECEIVING ==> final(self).pending() == Seq::<
                bool,
            >::empty() && final(self).spec_role() is None && match payload_of(old(self).pending(), window as int) {
                Ok((bytes, fixed)) => r matches Ok((v, k)) && v@ == bytes && k == fixed && final(self).spec_status() == Status::LISTENING,
                Err(e) => r == Err::<(Vec<u8>, usize), CouplerError>(e) && final(self).spec_status() == Status::RESET,
            },
    {
        if self.state != Status::RECEIVING {
            return Err(CouplerError::InvalidTransition);
        }
        let r = read_frame(&self.buffer, window);
        self.buffer = Vec::new();
        self.role = None;
        match r {
            Ok(pair) => {
                self.state = Status::LISTENING;
                Ok(pair)
            },
            Err(e) => {
                self.state = Status::RESET;
                Err(e)
            },
        }
    }

    /// Leaves a reset: the session listens again, with nothing collected. In
    /// another state nothing changes.
    pub fn recover(&mut self)
        ensures
            old(self).spec_status() == Status::RESET ==> final(self).spec_status()
                == Status::LISTENING && final(self).pending() == Seq::<bool>::empty() && final(self).spec_role() is None,
            old(self).spec_status() != Status::RESET ==> *final(self) == *old(self),
    {
        if self.state == Status::RESET {
            self.state = Status::LISTENING;
            self.role = None;
            self.buffer = Vec::new();
        }
    }
}

/// What was sent arrives: the frame around the coded bits of a byte sequence
/// holds those bytes, with nothing to repair, for every search window that
/// covers the frame's header.
pub proof fn lemma_reception_recovers_payload(bytes: Seq<u8>, window: int)
    requires
        window >= FRAME_HEADER_LEN,
    ensures
        payload_of(frame_spec(encode_spec(bits_of_spec(bytes))), window) == Ok::<
            (Seq<u8>, nat),
            CouplerError,
        >((bytes, 0nat)),
{
    let bits = bits_of_spec(bytes);
    lemma_unframe_inverts_frame(encode_spec(bits), window);
    lemma_decode_inverts_encode(bits);
    lemma_bytes_of_inverts_bits_of(bytes);
}

/// A text survives the whole way: when the bytes are coded, framed and
/// modulated under a valid configuration, demodulating the signal gives the
/// bits on the line back, and they hold the bytes with nothing to repair.
pub proof fn lemma_signal_carries_payload(bytes: Seq<u8>, config: ModulationConfig, window: int)
    requires
        config.valid(),
        window >= FRAME_HEADER_LEN,
    ensures
        ({
            let line = frame_spec(encode_spec(bits_of_spec(bytes)));
            &&& modulate_spec(line, config) matches Ok(phases) && demodulate_spec(phases, config)
                == Ok::<Seq<bool>, CouplerError>(line)
            &&& payload_of(line, window) == Ok::<(Seq<u8>, nat), CouplerError>((bytes, 0nat))
        }),
{
    let line = frame_spec(encode_spec(bits_of_spec(bytes)));
    assert(line.len() == 32 + 16 * bytes.len());
    lemma_demodulate_inverts_modulate(line, config);
    lemma_reception_recovers_payload(bytes, window);
}

} // verus!
