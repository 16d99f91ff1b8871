//! Failures of a battle session. None of them is recoverable: a peer that
//! lost byte alignment cannot find it again, so every one ends the session.

use vstd::prelude::*;

verus! {

/// Why a battle session was terminated.
#[derive(Clone, Copy, Debug, PartialEq, Eq, Structural)]
pub enum BattleError {
    /// The payload ended before the value being read was complete.
    Truncated,
    /// The first byte of a packet is not the tag of the expected packet kind.
    BadDiscriminant,
    /// A field holds a value outside its domain.
    Malformed,
    /// Bytes were left over after the last expected field.
    TrailingBytes,
    /// A packet arrived in a phase that expects none.
    UnexpectedPacket,
    /// The channel to the peer failed during a blocking receive.
    ConnectionLost,
    /// The roster announces no ship at all.
    EmptyRoster,
    /// The roster announces more ships than it names distinct participants.
    ShipCountMismatch,
}

} // verus!
