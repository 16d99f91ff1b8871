//! The solar panel. What it puts on the wire is its activation flag: in a
//! plan the flag as the player set it, in results the flag as the
//! authoritative simulation left it. No step of the lifecycle changes it.

use vstd::prelude::*;
use crate::battle_state_packets::PacketId;
use crate::error::BattleError;
use crate::module::{LifecycleOp, Module, ModuleBase};
use crate::packet::{bool_to_byte, read_bool_spec, InPacket, OutPacket};

verus! {

/// A solar panel.
#[derive(Clone, Copy, Debug, PartialEq, Eq, Structural)]
pub struct SolarModule {
    pub base: ModuleBase,
}

impl SolarModule {
    /// A solar panel of one cell that draws no power, with two hit points
    /// at the least and three at the most, at the grid origin and switched
    /// off.
    pub fn new() -> (m: Module)
        ensures
            m == Module::Solar(
                SolarModule {
                    base: ModuleBase {
                        x: 0,
                        y: 0,
                        width: 1,
                        height: 1,
                        power: 0,
                        min_hp: 2,
                        max_hp: 3,
                        active: false,
                    },
                },
            ),
    {
        Module::Solar(SolarModule { base: ModuleBase::new(1, 1, 0, 2, 3) })
    }

    /// The panel after one lifecycle step: as it was.
    pub open spec fn after(self, op: LifecycleOp) -> SolarModule {
        self
    }

    /// The payload of a panel, in a plan and in results: its activation
    /// flag, one byte.
    pub open spec fn payload(self, id: PacketId) -> Seq<u8> {
        seq![bool_to_byte(self.base.active)]
    }

    /// The panel with the field that a packet carries, the activation flag,
    /// taken from `src`.
    pub open spec fn absorb(self, src: SolarModule, id: PacketId) -> SolarModule {
        SolarModule { base: ModuleBase { active: src.base.active, ..self.base } }
    }

    /// What reading a payload of kind `id` from the front of `input` gives.
    pub open spec fn read_payload(self, id: PacketId, input: Seq<u8>) -> Result<
        (SolarModule, Seq<u8>),
        BattleError,
    > {
        match read_bool_spec(input) {
            Ok((active, rest)) => Ok(
                (SolarModule { base: ModuleBase { active, ..self.base } }, rest),
            ),
            Err(e) => Err(e),
        }
    }

    /// Entry into the simulating phase leaves a panel as it is.
    pub fn before_simulation(&mut self)
        ensures
            *final(self) == old(self).after(LifecycleOp::BeforeSimulation),
            *final(self) == *old(self),
    {
    }

    /// A tick leaves a panel as it is.
    pub fn on_simulation_time(&mut self, tick: u64)
        ensures
            *final(self) == old(self).after(LifecycleOp::SimulationTime(tick)),
            *final(self) == *old(self),
    {
    }

    /// Exit from the simulating phase leaves a panel as it is.
    pub fn after_simulation(&mut self)
        ensures
            *final(self) == old(self).after(LifecycleOp::AfterSimulation),
            *final(self) == *old(self),
    {
    }

    /// Appends the plan payload to `packet`.
    pub fn write_plans(&self, packet: &mut OutPacket)
        ensures
            final(packet)@ == old(packet)@ + self.payload(PacketId::Plan),
    {
        packet.write_bool(self.base.active);
        assert(packet@ =~= old(packet)@ + self.payload(PacketId::Plan));
    }

    /// Reads the plan payload from `packet`. On failure the panel is left
    /// as it was.
    pub fn read_plans(&mut self, packet: &mut InPacket) -> (r: Result<(), BattleError>)
        requires
            old(packet).wf(),
        ensures
            final(packet).wf(),
            old(self).read_payload(PacketId::Plan, old(packet)@) == (match r {
                Ok(()) => Ok::<(SolarModule, Seq<u8>), BattleError>(
                    (*final(self), final(packet)@),
                ),
                Err(e) => Err(e),
            }),
            r is Err ==> *final(self) == *old(self),
    {
        match packet.read_bool() {
            Ok(active) => {
                self.base.active = active;
                Ok(())
            },
            Err(e) => Err(e),
        }
    }

    /// Appends the results payload to `packet`.
    pub fn write_results(&self, packet: &mut OutPacket)
        ensures
            final(packet)@ == old(packet)@ + self.payload(PacketId::Results),
    {
        packet.write_bool(self.base.active);
        assert(packet@ =~= old(packet)@ + self.payload(PacketId::Results));
    }

    /// Reads the results payload from `packet`. On failure the panel is
    /// left as it was.
    pub fn read_results(&mut self, packet: &mut InPacket) -> (r: Result<(), BattleError>)
        requires
            old(packet).wf(),
        ensures
            final(packet).wf(),
            old(self).read_payload(PacketId::Results, old(packet)@) == (match r {
                Ok(()) => Ok::<(SolarModule, Seq<u8>), BattleError>(
                    (*final(self), final(packet)@),
                ),
                Err(e) => Err(e),
            }),
            r is Err ==> *final(self) == *old(self),
    {
        match packet.read_bool() {
            Ok(active) => {
                self.base.active = active;
                Ok(())
            },
            Err(e) => Err(e),
        }
    }
}

} // verus!
