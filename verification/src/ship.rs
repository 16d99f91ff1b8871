//! Ships and the registry that owns them for the length of a battle.
//!
//! The registry keeps its ships in ascending order of participant
//! identifier. That order, and within a ship the order of its modules, is
//! the traversal order of every per-module operation, so it depends on which
//! ships the registry holds and on nothing else.

use vstd::prelude::*;
use crate::module::Module;

verus! {

/// Identifier of a participant, unique within a battle.
pub type ClientId = u32;

/// A ship: its participant and its modules in creation order.
#[derive(Clone, Debug, PartialEq, Eq)]
pub struct Ship {
    pub id: ClientId,
    pub modules: Vec<Module>,
}

/// The mathematical content of a ship.
pub struct ShipView {
    pub id: ClientId,
    pub modules: Seq<Module>,
}

/// The mathematical content of a registry: its ships in traversal order.
pub type Fleet = Seq<ShipView>;

impl View for Ship {
    type V = ShipView;

    open spec fn view(&self) -> ShipView {
        ShipView { id: self.id, modules: self.modules@ }
    }
}

/// Position of a module in a battle: its ship and its index on that ship.
#[derive(Clone, Copy, Debug, PartialEq, Eq, Structural)]
pub struct ModuleRef {
    pub ship: ClientId,
    pub index: usize,
}

/// Identifiers ascend strictly along the fleet.
pub open spec fn fleet_wf(fleet: Fleet) -> bool {
    forall|i: int, j: int| 0 <= i < j < fleet.len() ==> fleet[i].id < fleet[j].id
}

/// Whether some ship of the fleet belongs to participant `id`.
pub open spec fn has_id(fleet: Fleet, id: ClientId) -> bool {
    exists|i: int| 0 <= i < fleet.len() && (#[trigger] fleet[i]).id == id
}

/// Two fleets with the same participants in the same order, each ship with
/// the same kinds of module in the same order.
pub open spec fn same_shape(a: Fleet, b: Fleet) -> bool {
    &&& a.len() == b.len()
    &&& forall|i: int|
        0 <= i < a.len() ==> {
            &&& (#[trigger] a[i]).id == b[i].id
            &&& a[i].modules.len() == b[i].modules.len()
        }
    &&& forall|i: int, j: int|
        0 <= i < a.len() && 0 <= j < a[i].modules.len() ==> (#[trigger] a[i].modules[j]).kind()
            == b[i].modules[j].kind()
}

/// The visits that one ship contributes to a traversal.
pub open spec fn ship_visits(ship: ShipView) -> Seq<ModuleRef> {
    Seq::new(ship.modules.len(), |j: int| ModuleRef { ship: ship.id, index: j as usize })
}

/// The visits contributed by the first `n` ships of the fleet.
pub open spec fn traversal_prefix(fleet: Fleet, n: nat) -> Seq<ModuleRef>
    decreases n,
{
    if n == 0 {
        Seq::empty()
    } else {
        traversal_prefix(fleet, (n - 1) as nat) + ship_visits(fleet[n - 1])
    }
}

/// The order in which every per-module operation visits the modules of the
/// fleet: ship by ship, and module by module within a ship.
pub open spec fn traversal(fleet: Fleet) -> Seq<ModuleRef> {
    traversal_prefix(fleet, fleet.len())
}

/// A fleet in ascending order of identifier is determined by the set of
/// ships in it: two registries holding the same ships hold them in the same
/// order, however each was filled, and so traverse them identically.
pub proof fn lemma_traversal_determined(a: Fleet, b: Fleet)
    requires
        fleet_wf(a),
        fleet_wf(b),
        forall|s: ShipView| a.contains(s) <==> b.contains(s),
    ensures
        a == b,
        traversal(a) == traversal(b),
    decreases a.len(),
{
    if a.len() == 0 {
        if b.len() > 0 {
            assert(b.contains(b[0]));
            assert(a.contains(b[0]));
        }
        assert(a =~= b);
    } else {
        let top = a.last();
        assert(a.contains(top));
        assert(b.contains(top));
        let k = choose|k: int| 0 <= k < b.len() && b[k] == top;
        assert(b.contains(b.last()));
        assert(a.contains(b.last()));
        let m = choose|m: int| 0 <= m < a.len() && a[m] == b.last();
        assert(b.last().id <= top.id);
        assert(top.id <= b.last().id);
        assert(k == b.len() - 1);
        let a1 = a.drop_last();
        let b1 = b.drop_last();
        assert forall|s: ShipView| a1.contains(s) <==> b1.contains(s) by {
            if a1.contains(s) {
                let i = choose|i: int| 0 <= i < a1.len() && a1[i] == s;
                assert(a[i] == s);
                assert(a.contains(s));
                let j = choose|j: int| 0 <= j < b.len() && b[j] == s;
                assert(j < b.len() - 1);
                assert(b1[j] == s);
            }
            if b1.contains(s) {
                let i = choose|i: int| 0 <= i < b1.len() && b1[i] == s;
                assert(b[i] == s);
                assert(b.contains(s));
                let j = choose|j: int| 0 <= j < a.len() && a[j] == s;
                assert(j < a.len() - 1);
                assert(a1[j] == s);
            }
        }
        lemma_traversal_determined(a1, b1);
        assert(a =~= a1.push(top));
        assert(b =~= b1.push(top));
    }
}

/// The ships of one battle, keyed by participant.
#[derive(Clone, Debug, PartialEq, Eq)]
pub struct ShipRegistry {
    ships: Vec<Ship>,
}

impl View for ShipRegistry {
    type V = Fleet;

    closed spec fn view(&self) -> Fleet {
        Seq::new(self.ships@.len(), |i: int| self.ships@[i]@)
    }
}

impl ShipRegistry {
    /// The registry invariant: identifiers ascend strictly.
    pub open spec fn wf(&self) -> bool {
        fleet_wf(self@)
    }

    /// A registry without ships.
    pub fn new() -> (r: ShipRegistry)
        ensures
            r.wf(),
            r@.len() == 0,
    {
        ShipRegistry { ships: Vec::new() }
    }

    /// Number of ships.
    pub fn len(&self) -> (n: usize)
        ensures
            n == self@.len(),
    {
        self.ships.len()
    }

    /// Whether the registry holds no ship.
    pub fn is_empty(&self) -> (e: bool)
        ensures
            e == (self@.len() == 0),
    {
        self.ships.len() == 0
    }

    /// Adds a ship, replacing the ship of the same participant if there is
    /// one. Returns whether a ship was replaced.
    pub fn insert(&mut self, ship: Ship) -> (replaced: bool)
        requires
            old(self).wf(),
        ensures
            final(self).wf(),
            replaced == has_id(old(self)@, ship.id),
            final(self)@.len() == old(self)@.len() + (if replaced {
                0int
            } else {
                1int
            }),
            forall|s: ShipView|
                #![trigger final(self)@.contains(s)]
                #![trigger old(self)@.contains(s)]
                final(self)@.contains(s) <==> (s == ship@ || (old(self)@.contains(s) && s.id
                    != ship.id)),
    {
        let ghost before = self@;
        let ghost added = ship@;
        let mut pos: usize = 0;
        while pos < self.ships.len() && self.ships[pos].id < ship.id
            invariant
                pos <= self.ships.len(),
                self@ == before,
                forall|k: int| 0 <= k < pos ==> (#[trigger] before[k]).id < ship.id,
            decreases self.ships.len() - pos,
        {
            pos = pos + 1;
        }
        if pos < self.ships.len() && self.ships[pos].id == ship.id {
            self.ships[pos] = ship;
            assert(self@ =~= before.update(pos as int, added));
            assert(before[pos as int].id == added.id);
            assert forall|s: ShipView|
                #![trigger self@.contains(s)]
                #![trigger before.contains(s)]
                self@.contains(s) <==> (s == added || (before.contains(s) && s.id
                    != added.id)) by {
                if self@.contains(s) {
                    let i = choose|i: int| 0 <= i < self@.len() && self@[i] == s;
                    if i != pos {
                        assert(before[i] == s);
                    }
                }
                if before.contains(s) && s.id != added.id {
                    let i = choose|i: int| 0 <= i < before.len() && before[i] == s;
                    assert(self@[i] == s);
                }
                if s == added {
                    assert(self@[pos as int] == s);
                }
            }
            true
        } else {
            self.ships.insert(pos, ship);
            assert(self@ =~= before.insert(pos as int, added));
            assert forall|k: int| pos <= k < before.len() implies added.id < (#[trigger] before[k]).id by {
                assert(before[pos as int].id > added.id);
            }
            assert(!has_id(before, added.id));
            assert forall|s: ShipView|
                #![trigger self@.contains(s)]
                #![trigger before.contains(s)]
                self@.contains(s) <==> (s == added || (before.contains(s) && s.id
                    != added.id)) by {
                if self@.contains(s) {
                    let i = choose|i: int| 0 <= i < self@.len() && self@[i] == s;
                    if i < pos {
                        assert(before[i] == s);
                    } else if i > pos {
                        assert(before[i - 1] == s);
                    }
                }
                if before.contains(s) && s.id != added.id {
                    let i = choose|i: int| 0 <= i < before.len() && before[i] == s;
                    if i < pos {
                        assert(self@[i] == s);
                    } else {
                        assert(self@[i + 1] == s);
                    }
                }
                if s == added {
                    assert(self@[pos as int] == s);
                }
            }
            false
        }
    }

    /// Position in traversal order of the ship of participant `id`.
    pub fn index_of(&self, id: ClientId) -> (r: Option<usize>)
        ensures
            match r {
                Some(i) => i < self@.len() && self@[i as int].id == id,
                None => !has_id(self@, id),
            },
    {
        let mut i: usize = 0;
        while i < self.ships.len()
            invariant
                i <= self.ships.len(),
                forall|k: int| 0 <= k < i ==> (#[trigger] self@[k]).id != id,
            decreases self.ships.len() - i,
        {
            if self.ships[i].id == id {
                return Some(i);
            }
            i = i + 1;
        }
        None
    }

    /// The ship at position `i` of the traversal order.
    pub fn ship(&self, i: usize) -> (s: &Ship)
        requires
            i < self@.len(),
        ensures
            s@ == self@[i as int],
    {
        &self.ships[i]
    }

    /// The ship of participant `id`, if the registry holds one.
    pub fn get(&self, id: ClientId) -> (r: Option<&Ship>)
        ensures
            match r {
                Some(s) => self@.contains(s@) && s.id == id,
                None => !has_id(self@, id),
            },
    {
        match self.index_of(id) {
            Some(i) => {
                assert(self@[i as int] == self.ships@[i as int]@);
                Some(&self.ships[i])
            },
            None => None,
        }
    }

    /// Number of modules on the ship at position `i`.
    pub fn module_count(&self, i: usize) -> (n: usize)
        requires
            i < self@.len(),
        ensures
            n == self@[i as int].modules.len(),
    {
        self.ships[i].modules.len()
    }

    /// The module at index `j` of the ship at position `i`.
    pub fn module_at(&self, i: usize, j: usize) -> (m: Module)
        requires
            i < self@.len(),
            j < self@[i as int].modules.len(),
        ensures
            m == self@[i as int].modules[j as int],
    {
        self.ships[i].modules[j]
    }

    /// Replaces the module at index `j` of the ship at position `i`.
    pub fn set_module(&mut self, i: usize, j: usize, m: Module)
        requires
            i < old(self)@.len(),
            j < old(self)@[i as int].modules.len(),
        ensures
            final(self)@ == old(self)@.update(
                i as int,
                ShipView {
                    id: old(self)@[i as int].id,
                    modules: old(self)@[i as int].modules.update(j as int, m),
                },
            ),
            old(self).wf() ==> final(self).wf(),
    {
        let ghost before = self@;
        let ship = &mut self.ships[i];
        ship.modules[j] = m;
        assert(forall|k: int| 0 <= k < before.len() ==> (#[trigger] self@[k]).id == before[k].id);
    }

    /// A registry with the same content.
    pub fn duplicate(&self) -> (r: ShipRegistry)
        ensures
            r@ == self@,
    {
        let mut ships: Vec<Ship> = Vec::new();
        let mut i: usize = 0;
        while i < self.ships.len()
            invariant
                i <= self.ships.len(),
                ships@.len() == i,
                forall|k: int| 0 <= k < i ==> (#[trigger] ships@[k])@ == self.ships@[k]@,
            decreases self.ships.len() - i,
        {
            let src = &self.ships[i];
            let mut modules: Vec<Module> = Vec::new();
            let mut j: usize = 0;
            while j < src.modules.len()
                invariant
                    j <= src.modules.len(),
                    modules@ == src.modules@.subrange(0, j as int),
                decreases src.modules.len() - j,
            {
                modules.push(src.modules[j]);
                assert(modules@ =~= src.modules@.subrange(0, j + 1));
                j = j + 1;
            }
            assert(modules@ =~= src.modules@);
            ships.push(Ship { id: src.id, modules });
            i = i + 1;
        }
        let r = ShipRegistry { ships };
        assert(r@ =~= self@);
        r
    }

    /// Every module position of the battle, in traversal order.
    pub fn traversal_order(&self) -> (order: Vec<ModuleRef>)
        ensures
            order@ == traversal(self@),
    {
        let mut order: Vec<ModuleRef> = Vec::new();
        let mut i: usize = 0;
        while i < self.ships.len()
            invariant
                i <= self.ships.len(),
                order@ == traversal_prefix(self@, i as nat),
            decreases self.ships.len() - i,
        {
            let ship = &self.ships[i];
            let ghost done = order@;
            let mut j: usize = 0;
            while j < ship.modules.len()
                invariant
                    j <= ship.modules.len(),
                    order@ == done + ship_visits(ship@).subrange(0, j as int),
                decreases ship.modules.len() - j,
            {
                order.push(ModuleRef { ship: ship.id, index: j });
                assert(order@ =~= done + ship_visits(ship@).subrange(0, j + 1));
                j = j + 1;
            }
            assert(ship_visits(ship@).subrange(0, j as int) =~= ship_visits(ship@));
            assert(self@[i as int] == ship@);
            i = i + 1;
        }
        order
    }
}

} // verus!
