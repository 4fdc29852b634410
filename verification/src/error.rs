//! The failures that the coding stages and the session report.

use vstd::prelude::*;

verus! {

/// Why a stage refused its input.
#[derive(PartialEq, Eq, Structural, Clone, Copy, Debug)]
pub enum CouplerError {
    /// The bit sequence cannot be cut into the groups that the stage works on.
    InvalidLength,
    /// The bit sequence does not hold a whole number of bytes.
    Framing,
    /// A code group holds more errors than the code can repair.
    Uncorrectable { group: usize },
    /// No start marker follows a preamble inside the search window.
    SyncNotFound,
    /// No closing marker follows the start marker.
    TruncatedFrame,
    /// The event is not accepted in the session's present state.
    InvalidTransition,
    /// The modulation parameters contradict each other.
    InvalidConfig,
}

} // verus!
