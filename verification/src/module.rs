//! Ship modules: the state every module shares, the closed set of module
//! kinds, and the lifecycle every kind goes through.
//!
//! A module is identified within its ship by its index in the ship's module
//! sequence. Its wire payloads carry no tag and no length: a reader knows
//! what to expect only from the kind of the module it is reading into.

use vstd::prelude::*;
use crate::battle_state_packets::PacketId;
use crate::error::BattleError;
use crate::packet::{InPacket, OutPacket};
use crate::ship::ShipRegistry;
use crate::module::shield::ShieldModule;
use crate::module::solar::SolarModule;

pub mod shield;
pub mod solar;

verus! {

/// Wire tag of a shield in a roster.
pub const SHIELD_KIND_TAG: u8 = 0;

/// Wire tag of a solar panel in a roster.
pub const SOLAR_KIND_TAG: u8 = 1;

/// The kinds of module a ship can carry.
#[derive(Clone, Copy, Debug, PartialEq, Eq, Structural)]
pub enum ModuleKind {
    Shield,
    Solar,
}

/// State shared by every kind of module.
#[derive(Clone, Copy, Debug, PartialEq, Eq, Structural)]
pub struct ModuleBase {
    /// Column of the module on the ship's grid.
    pub x: u8,
    /// Row of the module on the ship's grid.
    pub y: u8,
    /// Columns the module takes up.
    pub width: u8,
    /// Rows the module takes up.
    pub height: u8,
    /// Power the module draws while active.
    pub power: u8,
    /// Hit points below which the module stops working.
    pub min_hp: u8,
    /// Hit points of the undamaged module.
    pub max_hp: u8,
    /// Whether the module is switched on.
    pub active: bool,
}

impl ModuleBase {
    /// A module of the given size, power draw and hit points, placed at the
    /// grid origin and switched off.
    pub fn new(width: u8, height: u8, power: u8, min_hp: u8, max_hp: u8) -> (base: ModuleBase)
        ensures
            base == (ModuleBase {
                x: 0,
                y: 0,
                width,
                height,
                power,
                min_hp,
                max_hp,
                active: false,
            }),
    {
        ModuleBase { x: 0, y: 0, width, height, power, min_hp, max_hp, active: false }
    }

    /// Whether the module is switched on.
    pub fn is_active(&self) -> (a: bool)
        ensures
            a == self.active,
    {
        self.active
    }
}

/// One step of the lifecycle that is dispatched to every module.
#[derive(Clone, Copy, Debug, PartialEq, Eq, Structural)]
pub enum LifecycleOp {
    /// Entry into the simulating phase, before tick 0.
    BeforeSimulation,
    /// One simulation tick, by index.
    SimulationTime(u64),
    /// Exit from the simulating phase.
    AfterSimulation,
}

/// A ship module of any kind.
#[derive(Clone, Copy, Debug, PartialEq, Eq, Structural)]
pub enum Module {
    Shield(ShieldModule),
    Solar(SolarModule),
}

impl Module {
    /// The shared state of the module.
    pub open spec fn base_spec(&self) -> ModuleBase {
        match self {
            Module::Shield(s) => s.base,
            Module::Solar(s) => s.base,
        }
    }

    /// The kind of the module.
    pub open spec fn kind_spec(&self) -> ModuleKind {
        match self {
            Module::Shield(_) => ModuleKind::Shield,
            Module::Solar(_) => ModuleKind::Solar,
        }
    }

    /// The module with its activation flag replaced.
    pub open spec fn with_active(self, active: bool) -> Module {
        match self {
            Module::Shield(s) => Module::Shield(
                ShieldModule { base: ModuleBase { active, ..s.base } },
            ),
            Module::Solar(s) => Module::Solar(SolarModule { base: ModuleBase { active, ..s.base } }),
        }
    }

    /// The module after one lifecycle step.
    pub open spec fn after(self, op: LifecycleOp) -> Module {
        match self {
            Module::Shield(s) => Module::Shield(s.after(op)),
            Module::Solar(s) => Module::Solar(s.after(op)),
        }
    }

    /// The module's payload in a packet of kind `id`.
    pub open spec fn payload(self, id: PacketId) -> Seq<u8> {
        match self {
            Module::Shield(s) => s.payload(id),
            Module::Solar(s) => s.payload(id),
        }
    }

    /// The module with the fields that a packet of kind `id` carries taken
    /// from `src`, a module of the same kind.
    pub open spec fn absorb(self, src: Module, id: PacketId) -> Module {
        match (self, src) {
            (Module::Shield(s), Module::Shield(o)) => Module::Shield(s.absorb(o, id)),
            (Module::Solar(s), Module::Solar(o)) => Module::Solar(s.absorb(o, id)),
            _ => self,
        }
    }

    /// What reading this module's payload of kind `id` from the front of
    /// `input` gives: the updated module and the unread rest, or the first
    /// failure met.
    pub open spec fn read_payload(self, id: PacketId, input: Seq<u8>) -> Result<
        (Module, Seq<u8>),
        BattleError,
    > {
        match self {
            Module::Shield(s) => match s.read_payload(id, input) {
                Ok((m, rest)) => Ok((Module::Shield(m), rest)),
                Err(e) => Err(e),
            },
            Module::Solar(s) => match s.read_payload(id, input) {
                Ok((m, rest)) => Ok((Module::Solar(m), rest)),
                Err(e) => Err(e),
            },
        }
    }

    /// The shared state of the module.
    #[verifier::when_used_as_spec(base_spec)]
    pub fn base(&self) -> (b: ModuleBase)
        ensures
            b == self.base_spec(),
    {
        match self {
            Module::Shield(s) => s.base,
            Module::Solar(s) => s.base,
        }
    }

    /// The kind of the module.
    #[verifier::when_used_as_spec(kind_spec)]
    pub fn kind(&self) -> (k: ModuleKind)
        ensures
            k == self.kind_spec(),
    {
        match self {
            Module::Shield(_) => ModuleKind::Shield,
            Module::Solar(_) => ModuleKind::Solar,
        }
    }

    /// Switches the module on or off.
    pub fn set_active(&mut self, active: bool)
        ensures
            *final(self) == old(self).with_active(active),
    {
        match self {
            Module::Shield(s) => {
                s.base.active = active;
            },
            Module::Solar(s) => {
                s.base.active = active;
            },
        }
    }

    /// Entry into the simulating phase. The module is given the whole
    /// fleet to read and the position of its own ship in it.
    pub fn before_simulation(&mut self, ships: &ShipRegistry, owner: usize)
        requires
            owner < ships@.len(),
        ensures
            *final(self) == old(self).after(LifecycleOp::BeforeSimulation),
    {
        match self {
            Module::Shield(s) => s.before_simulation(),
            Module::Solar(s) => s.before_simulation(),
        }
    }

    /// One simulation tick. The module is given the whole fleet to read
    /// and the position of its own ship in it.
    pub fn on_simulation_time(&mut self, ships: &ShipRegistry, owner: usize, tick: u64)
        requires
            owner < ships@.len(),
        ensures
            *final(self) == old(self).after(LifecycleOp::SimulationTime(tick)),
    {
        match self {
            Module::Shield(s) => s.on_simulation_time(tick),
            Module::Solar(s) => s.on_simulation_time(tick),
        }
    }

    /// Exit from the simulating phase. The module is given the whole fleet
    /// to read and the position of its own ship in it.
    pub fn after_simulation(&mut self, ships: &ShipRegistry, owner: usize)
        requires
            owner < ships@.len(),
        ensures
            *final(self) == old(self).after(LifecycleOp::AfterSimulation),
    {
        match self {
            Module::Shield(s) => s.after_simulation(),
            Module::Solar(s) => s.after_simulation(),
        }
    }

    /// Performs the lifecycle step `op` on the module.
    pub fn apply(&mut self, op: LifecycleOp, ships: &ShipRegistry, owner: usize)
        requires
            owner < ships@.len(),
        ensures
            *final(self) == old(self).after(op),
    {
        match op {
            LifecycleOp::BeforeSimulation => self.before_simulation(ships, owner),
            LifecycleOp::SimulationTime(tick) => self.on_simulation_time(ships, owner, tick),
            LifecycleOp::AfterSimulation => self.after_simulation(ships, owner),
        }
    }

    /// Appends the module's payload of kind `id` to `packet`.
    pub fn write(&self, id: PacketId, packet: &mut OutPacket)
        ensures
            final(packet)@ == old(packet)@ + self.payload(id),
    {
        match self {
            Module::Shield(s) => match id {
                PacketId::Plan => s.write_plans(packet),
                PacketId::Results => s.write_results(packet),
            },
            Module::Solar(s) => match id {
                PacketId::Plan => s.write_plans(packet),
                PacketId::Results => s.write_results(packet),
            },
        }
    }

    /// Reads the module's payload of kind `id` from `packet` into the
    /// module. On failure the module is left as it was.
    pub fn read(&mut self, id: PacketId, packet: &mut InPacket) -> (r: Result<(), BattleError>)
        requires
            old(packet).wf(),
        ensures
            final(packet).wf(),
            old(self).read_payload(id, old(packet)@) == (match r {
                Ok(()) => Ok::<(Module, Seq<u8>), BattleError>((*final(self), final(packet)@)),
                Err(e) => Err(e),
            }),
            r is Err ==> *final(self) == *old(self),
    {
        match self {
            Module::Shield(s) => match id {
                PacketId::Plan => s.read_plans(packet),
                PacketId::Results => s.read_results(packet),
            },
            Module::Solar(s) => match id {
                PacketId::Plan => s.read_plans(packet),
                PacketId::Results => s.read_results(packet),
            },
        }
    }
}

} // verus!
