//! Combat-resolution core of a turn-based multiplayer space-ship game.
//!
//! A battle alternates between a planning interval, in which players set
//! orders for their ship modules, and a simulation interval, in which those
//! orders are replayed tick by tick. Every peer mirrors the same phase and
//! tick progression, so everything here is deterministic and positional.

pub mod battle_state_packets;
pub mod client_battle_state;
pub mod client_state;
pub mod error;
pub mod module;
pub mod packet;
pub mod roster;
pub mod ship;
pub mod sim_element;
pub mod sprite_sheet;
pub mod tick_clock;
