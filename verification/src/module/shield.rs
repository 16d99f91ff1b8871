//! The shield. It takes no orders and reports no results: its payloads are
//! empty, and no step of the lifecycle changes it.

use vstd::prelude::*;
use crate::battle_state_packets::PacketId;
use crate::error::BattleError;
use crate::module::{LifecycleOp, Module, ModuleBase};
use crate::packet::{InPacket, OutPacket};

verus! {

/// A shield generator.
#[derive(Clone, Copy, Debug, PartialEq, Eq, Structural)]
pub struct ShieldModule {
    pub base: ModuleBase,
}

impl ShieldModule {
    /// A shield with the given shared state.
    pub fn new(base: ModuleBase) -> (m: Module)
        ensures
            m == Module::Shield(ShieldModule { base }),
    {
        Module::Shield(ShieldModule { base })
    }

    /// The shield after one lifecycle step: as it was.
    pub open spec fn after(self, op: LifecycleOp) -> ShieldModule {
        self
    }

    /// A shield puts nothing on the wire, in a plan or in results.
    pub open spec fn payload(self, id: PacketId) -> Seq<u8> {
        Seq::empty()
    }

    /// The shield with the fields that a packet of kind `id` carries taken
    /// from `src`: there are none.
    pub open spec fn absorb(self, src: ShieldModule, id: PacketId) -> ShieldModule {
        self
    }

    /// What reading a payload of kind `id` from the front of `input` gives:
    /// the shield as it was, and all of the input still unread.
    pub open spec fn read_payload(self, id: PacketId, input: Seq<u8>) -> Result<
        (ShieldModule, Seq<u8>),
        BattleError,
    > {
        Ok((self, input))
    }

    /// Entry into the simulating phase leaves a shield as it is.
    pub fn before_simulation(&mut self)
        ensures
            *final(self) == old(self).after(LifecycleOp::BeforeSimulation),
            *final(self) == *old(self),
    {
    }

    /// A tick leaves a shield as it is.
    pub fn on_simulation_time(&mut self, tick: u64)
        ensures
            *final(self) == old(self).after(LifecycleOp::SimulationTime(tick)),
            *final(self) == *old(self),
    {
    }

    /// Exit from the simulating phase leaves a shield as it is.
    pub fn after_simulation(&mut self)
        ensures
            *final(self) == old(self).after(LifecycleOp::AfterSimulation),
            *final(self) == *old(self),
    {
    }

    /// Appends the plan payload to `packet`: nothing.
    pub fn write_plans(&self, packet: &mut OutPacket)
        ensures
            final(packet)@ == old(packet)@ + self.payload(PacketId::Plan),
            final(packet)@ == old(packet)@,
    {
        assert(packet@ + self.payload(PacketId::Plan) =~= packet@);
    }

    /// Reads the plan payload from `packet`: no byte is consumed, the
    /// shield stays as it is, and the read never fails.
    pub fn read_plans(&mut self, packet: &mut InPacket) -> (r: Result<(), BattleError>)
        requires
            old(packet).wf(),
        ensures
            final(packet).wf(),
            old(self).read_payload(PacketId::Plan, old(packet)@) == (match r {
                Ok(()) => Ok::<(ShieldModule, Seq<u8>), BattleError>(
                    (*final(self), final(packet)@),
                ),
                Err(e) => Err(e),
            }),
            r == Ok::<(), BattleError>(()),
            *final(self) == *old(self),
            final(packet)@ == old(packet)@,
    {
        Ok(())
    }

    /// Appends the results payload to `packet`: nothing.
    pub fn write_results(&self, packet: &mut OutPacket)
        ensures
            final(packet)@ == old(packet)@ + self.payload(PacketId::Results),
            final(packet)@ == old(packet)@,
    {
        assert(packet@ + self.payload(PacketId::Results) =~= packet@);
    }

    /// Reads the results payload from `packet`: no byte is consumed, the
    /// shield stays as it is, and the read never fails.
    pub fn read_results(&mut self, packet: &mut InPacket) -> (r: Result<(), BattleError>)
        requires
            old(packet).wf(),
        ensures
            final(packet).wf(),
            old(self).read_payload(PacketId::Results, old(packet)@) == (match r {
                Ok(()) => Ok::<(ShieldModule, Seq<u8>), BattleError>(
                    (*final(self), final(packet)@),
                ),
                Err(e) => Err(e),
            }),
            r == Ok::<(), BattleError>(()),
            *final(self) == *old(self),
            final(packet)@ == old(packet)@,
    {
        Ok(())
    }
}

} // verus!
