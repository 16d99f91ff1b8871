//! What a client is doing between battles.

use vstd::prelude::*;

verus! {

/// The states of a client outside a battle.
#[derive(Clone, Copy, Debug, PartialEq, Eq, Structural)]
pub enum ClientState {
    /// The client is entering a sector and will receive its battle.
    JoinSector,
    /// The client lost its ship and waits for a new one.
    Respawn,
}

} // verus!
