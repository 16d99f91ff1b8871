//! The dispatcher: every lifecycle step and every payload is carried to all
//! modules of all ships in the registry's traversal order.
//!
//! A lifecycle step is handed to a module together with the fleet as the
//! modules visited before it have left it. None of the module kinds has a
//! rule for any step yet, so a dispatch visits every module and leaves the
//! fleet as it found it.

use vstd::prelude::*;
use crate::battle_state_packets::PacketId;
use crate::error::BattleError;
use crate::module::{LifecycleOp, Module};
use crate::packet::{InPacket, OutPacket};
use crate::ship::{fleet_wf, same_shape, Fleet, ShipRegistry, ShipView};

verus! {

/// The fleet after module `j` of ship `i` has taken the step `op`.
pub open spec fn visit(fleet: Fleet, op: LifecycleOp, i: int, j: int) -> Fleet {
    let ship = fleet[i];
    let m = ship.modules[j].after(op);
    fleet.update(i, ShipView { id: ship.id, modules: ship.modules.update(j, m) })
}

/// The fleet after the first `n` modules of ship `i` have taken the step.
pub open spec fn visit_ship(fleet: Fleet, op: LifecycleOp, i: int, n: nat) -> Fleet
    decreases n,
{
    if n == 0 {
        fleet
    } else {
        visit(visit_ship(fleet, op, i, (n - 1) as nat), op, i, n - 1)
    }
}

/// The fleet after all modules of the first `n` ships have taken the step.
pub open spec fn visit_fleet(fleet: Fleet, op: LifecycleOp, n: nat) -> Fleet
    decreases n,
{
    if n == 0 {
        fleet
    } else {
        let before = visit_fleet(fleet, op, (n - 1) as nat);
        visit_ship(before, op, n - 1, before[n - 1].modules.len())
    }
}

/// The fleet after every module of every ship has taken the step `op`
/// once, in traversal order.
pub open spec fn dispatch(fleet: Fleet, op: LifecycleOp) -> Fleet {
    visit_fleet(fleet, op, fleet.len())
}

/// The payloads of the first `n` of these modules, concatenated.
pub open spec fn ship_payload(modules: Seq<Module>, id: PacketId, n: nat) -> Seq<u8>
    decreases n,
{
    if n == 0 {
        Seq::empty()
    } else {
        ship_payload(modules, id, (n - 1) as nat) + modules[n - 1].payload(id)
    }
}

/// The payloads of all modules of the first `n` ships, concatenated.
pub open spec fn fleet_payload(fleet: Fleet, id: PacketId, n: nat) -> Seq<u8>
    decreases n,
{
    if n == 0 {
        Seq::empty()
    } else {
        fleet_payload(fleet, id, (n - 1) as nat) + ship_payload(
            fleet[n - 1].modules,
            id,
            fleet[n - 1].modules.len(),
        )
    }
}

/// What reading the payloads of the first `n` of these modules from the
/// front of `input` gives: the modules, the first `n` updated, and the
/// unread rest; or the first failure met.
pub open spec fn read_ship(modules: Seq<Module>, id: PacketId, input: Seq<u8>, n: nat) -> Result<
    (Seq<Module>, Seq<u8>),
    BattleError,
>
    decreases n,
{
    if n == 0 {
        Ok((modules, input))
    } else {
        match read_ship(modules, id, input, (n - 1) as nat) {
            Ok((done, rest)) => match done[n - 1].read_payload(id, rest) {
                Ok((m, rest2)) => Ok((done.update(n - 1, m), rest2)),
                Err(e) => Err(e),
            },
            Err(e) => Err(e),
        }
    }
}

/// What reading the payloads of all modules of the first `n` ships from
/// the front of `input` gives: the fleet, those ships updated, and the
/// unread rest; or the first failure met.
pub open spec fn read_fleet(fleet: Fleet, id: PacketId, input: Seq<u8>, n: nat) -> Result<
    (Fleet, Seq<u8>),
    BattleError,
>
    decreases n,
{
    if n == 0 {
        Ok((fleet, input))
    } else {
        match read_fleet(fleet, id, input, (n - 1) as nat) {
            Ok((done, rest)) => match read_ship(
                done[n - 1].modules,
                id,
                rest,
                done[n - 1].modules.len(),
            ) {
                Ok((modules, rest2)) => Ok(
                    (done.update(n - 1, ShipView { id: done[n - 1].id, modules }), rest2),
                ),
                Err(e) => Err(e),
            },
            Err(e) => Err(e),
        }
    }
}

/// Having the same shape is transitive.
pub proof fn lemma_same_shape_trans(a: Fleet, b: Fleet, c: Fleet)
    requires
        same_shape(a, b),
        same_shape(b, c),
    ensures
        same_shape(a, c),
{
    assert forall|i: int| 0 <= i < a.len() implies (#[trigger] a[i]).id == c[i].id
        && a[i].modules.len() == c[i].modules.len() by {
        assert(a[i].id == b[i].id);
        assert(b[i].id == c[i].id);
    }
    assert forall|i: int, j: int|
        0 <= i < a.len() && 0 <= j < a[i].modules.len() implies (#[trigger] a[i].modules[j]).kind()
        == c[i].modules[j].kind() by {
        assert(a[i].id == b[i].id);
        assert(a[i].modules[j].kind() == b[i].modules[j].kind());
        assert(b[i].modules[j].kind() == c[i].modules[j].kind());
    }
}

/// Replacing a module by one of its kind changes neither the shape of the
/// fleet nor the order of its ships.
pub proof fn lemma_replace_keeps_shape(fleet: Fleet, i: int, j: int, m: Module)
    requires
        0 <= i < fleet.len(),
        0 <= j < fleet[i].modules.len(),
        m.kind() == fleet[i].modules[j].kind(),
    ensures
        same_shape(
            fleet,
            fleet.update(i, ShipView { id: fleet[i].id, modules: fleet[i].modules.update(j, m) }),
        ),
        fleet_wf(fleet) ==> fleet_wf(
            fleet.update(i, ShipView { id: fleet[i].id, modules: fleet[i].modules.update(j, m) }),
        ),
{
    let next = fleet.update(
        i,
        ShipView { id: fleet[i].id, modules: fleet[i].modules.update(j, m) },
    );
    assert forall|k: int| 0 <= k < fleet.len() implies (#[trigger] fleet[k]).id == next[k].id
        && fleet[k].modules.len() == next[k].modules.len() by {}
    assert forall|k: int, l: int|
        0 <= k < fleet.len() && 0 <= l < fleet[k].modules.len() implies (
    #[trigger] fleet[k].modules[l]).kind() == next[k].modules[l].kind() by {}
    if fleet_wf(fleet) {
        assert forall|a: int, b: int| 0 <= a < b < next.len() implies next[a].id < next[b].id by {
            assert(fleet[a].id < fleet[b].id);
        }
    }
}

/// Dispatching a step to some modules of one ship changes neither the
/// shape of the fleet nor the order of its ships.
pub proof fn lemma_visit_ship_shape(fleet: Fleet, op: LifecycleOp, i: int, n: nat)
    requires
        0 <= i < fleet.len(),
        n <= fleet[i].modules.len(),
    ensures
        same_shape(fleet, visit_ship(fleet, op, i, n)),
        fleet_wf(fleet) ==> fleet_wf(visit_ship(fleet, op, i, n)),
    decreases n,
{
    if n > 0 {
        let prev = visit_ship(fleet, op, i, (n - 1) as nat);
        lemma_visit_ship_shape(fleet, op, i, (n - 1) as nat);
        assert(prev[i].id == fleet[i].id);
        let m = prev[i].modules[n - 1].after(op);
        assert(fleet[i].modules[n - 1].kind() == prev[i].modules[n - 1].kind());
        lemma_replace_keeps_shape(prev, i, n - 1, m);
        lemma_same_shape_trans(fleet, prev, visit_ship(fleet, op, i, n));
    } else {
        assert(same_shape(fleet, fleet));
    }
}

/// Dispatching a step to some ships changes neither the shape of the fleet
/// nor the order of its ships.
pub proof fn lemma_visit_fleet_shape(fleet: Fleet, op: LifecycleOp, n: nat)
    requires
        n <= fleet.len(),
    ensures
        same_shape(fleet, visit_fleet(fleet, op, n)),
        fleet_wf(fleet) ==> fleet_wf(visit_fleet(fleet, op, n)),
    decreases n,
{
    if n > 0 {
        let prev = visit_fleet(fleet, op, (n - 1) as nat);
        lemma_visit_fleet_shape(fleet, op, (n - 1) as nat);
        assert(prev[n - 1].id == fleet[n - 1].id);
        lemma_visit_ship_shape(prev, op, n - 1, prev[n - 1].modules.len());
        lemma_same_shape_trans(fleet, prev, visit_fleet(fleet, op, n));
    } else {
        assert(same_shape(fleet, fleet));
    }
}

/// No module kind has a rule for any lifecycle step: a dispatch to some
/// modules of one ship leaves the fleet as it is.
pub proof fn lemma_visit_ship_neutral(fleet: Fleet, op: LifecycleOp, i: int, n: nat)
    requires
        0 <= i < fleet.len(),
        n <= fleet[i].modules.len(),
    ensures
        visit_ship(fleet, op, i, n) == fleet,
    decreases n,
{
    if n > 0 {
        lemma_visit_ship_neutral(fleet, op, i, (n - 1) as nat);
        assert(fleet[i].modules.update(n - 1, fleet[i].modules[n - 1].after(op))
            =~= fleet[i].modules);
        assert(visit(fleet, op, i, n - 1) =~= fleet);
    }
}

/// No module kind has a rule for any lifecycle step: a dispatch leaves the
/// fleet as it is.
pub proof fn lemma_dispatch_neutral(fleet: Fleet, op: LifecycleOp, n: nat)
    requires
        n <= fleet.len(),
    ensures
        visit_fleet(fleet, op, n) == fleet,
        n == fleet.len() ==> dispatch(fleet, op) == fleet,
    decreases n,
{
    if n > 0 {
        lemma_dispatch_neutral(fleet, op, (n - 1) as nat);
        lemma_visit_ship_neutral(fleet, op, n - 1, fleet[n - 1].modules.len());
    }
}

/// A failure met while reading a ship's modules is the result of reading
/// any larger number of them.
pub proof fn lemma_read_ship_failure(
    modules: Seq<Module>,
    id: PacketId,
    input: Seq<u8>,
    k: nat,
    n: nat,
)
    requires
        k <= n,
        read_ship(modules, id, input, k) is Err,
    ensures
        read_ship(modules, id, input, n) == read_ship(modules, id, input, k),
    decreases n,
{
    if k < n {
        lemma_read_ship_failure(modules, id, input, k, (n - 1) as nat);
    }
}

/// A failure met while reading a fleet's ships is the result of reading
/// any larger number of them.
pub proof fn lemma_read_fleet_failure(fleet: Fleet, id: PacketId, input: Seq<u8>, k: nat, n: nat)
    requires
        k <= n,
        read_fleet(fleet, id, input, k) is Err,
    ensures
        read_fleet(fleet, id, input, n) == read_fleet(fleet, id, input, k),
    decreases n,
{
    if k < n {
        lemma_read_fleet_failure(fleet, id, input, k, (n - 1) as nat);
    }
}

impl ShipRegistry {
    /// Carries the lifecycle step `op` to every module of every ship, in
    /// traversal order. As no module kind has a rule for any step, the
    /// fleet is afterwards what it was.
    pub fn dispatch(&mut self, op: LifecycleOp)
        requires
            old(self).wf(),
        ensures
            final(self).wf(),
            final(self)@ == dispatch(old(self)@, op),
            final(self)@ == old(self)@,
            same_shape(old(self)@, final(self)@),
    {
        let ghost start = self@;
        proof {
            lemma_dispatch_neutral(start, op, start.len());
        }
        let n = self.len();
        let mut i: usize = 0;
        proof {
            lemma_visit_fleet_shape(start, op, 0);
        }
        while i < n
            invariant
                i <= n,
                n == start.len(),
                fleet_wf(start),
                self@ == visit_fleet(start, op, i as nat),
                same_shape(start, self@),
                self.wf(),
            decreases n - i,
        {
            let ghost row = self@;
            let count = self.module_count(i);
            let mut j: usize = 0;
            proof {
                lemma_visit_ship_shape(row, op, i as int, 0);
            }
            while j < count
                invariant
                    j <= count,
                    i < n,
                    n == row.len(),
                    count == row[i as int].modules.len(),
                    fleet_wf(row),
                    self@ == visit_ship(row, op, i as int, j as nat),
                    same_shape(row, self@),
                    self.wf(),
                decreases count - j,
            {
                let mut m = self.module_at(i, j);
                m.apply(op, &*self, i);
                self.set_module(i, j, m);
                proof {
                    lemma_visit_ship_shape(row, op, i as int, (j + 1) as nat);
                }
                j = j + 1;
            }
            proof {
                lemma_visit_fleet_shape(start, op, (i + 1) as nat);
            }
            i = i + 1;
        }
    }

    /// Appends the payload of kind `id` of every module to `packet`, in
    /// traversal order.
    pub fn write_payloads(&self, id: PacketId, packet: &mut OutPacket)
        ensures
            final(packet)@ == old(packet)@ + fleet_payload(self@, id, self@.len()),
    {
        let ghost head = packet@;
        let n = self.len();
        let mut i: usize = 0;
        assert(packet@ =~= head + fleet_payload(self@, id, 0));
        while i < n
            invariant
                i <= n,
                n == self@.len(),
                packet@ == head + fleet_payload(self@, id, i as nat),
            decreases n - i,
        {
            let ghost row = packet@;
            let count = self.module_count(i);
            let mut j: usize = 0;
            assert(packet@ =~= row + ship_payload(self@[i as int].modules, id, 0));
            while j < count
                invariant
                    j <= count,
                    i < n,
                    n == self@.len(),
                    count == self@[i as int].modules.len(),
                    packet@ == row + ship_payload(self@[i as int].modules, id, j as nat),
                decreases count - j,
            {
                let m = self.module_at(i, j);
                m.write(id, packet);
                assert(packet@ =~= row + ship_payload(self@[i as int].modules, id, (j + 1) as nat));
                j = j + 1;
            }
            assert(packet@ =~= head + fleet_payload(self@, id, (i + 1) as nat));
            i = i + 1;
        }
    }

    /// Reads the payload of kind `id` of every module from `packet`, in
    /// traversal order, into a copy of the registry. The registry itself
    /// is never touched: a failure leaves no partial state behind.
    pub fn read_payloads(&self, id: PacketId, packet: &mut InPacket) -> (r: Result<
        ShipRegistry,
        BattleError,
    >)
        requires
            self.wf(),
            old(packet).wf(),
        ensures
            final(packet).wf(),
            read_fleet(self@, id, old(packet)@, self@.len()) == (match r {
                Ok(updated) => Ok::<(Fleet, Seq<u8>), BattleError>((updated@, final(packet)@)),
                Err(e) => Err(e),
            }),
            r matches Ok(updated) ==> updated.wf() && same_shape(self@, updated@),
    {
        let ghost input = packet@;
        let mut work = self.duplicate();
        let n = work.len();
        let mut i: usize = 0;
        assert(same_shape(self@, work@));
        while i < n
            invariant
                i <= n,
                n == self@.len(),
                packet.wf(),
                input == old(packet)@,
                read_fleet(self@, id, input, i as nat) == Ok::<(Fleet, Seq<u8>), BattleError>(
                    (work@, packet@),
                ),
                same_shape(self@, work@),
                work.wf(),
            decreases n - i,
        {
            let ghost row = work@;
            let ghost row_input = packet@;
            let count = work.module_count(i);
            let mut j: usize = 0;
            assert(work@ =~= row.update(
                i as int,
                ShipView { id: row[i as int].id, modules: work@[i as int].modules },
            ));
            assert(same_shape(row, work@));
            while j < count
                invariant
                    j <= count,
                    i < n,
                    n == row.len(),
                    count == row[i as int].modules.len(),
                    fleet_wf(row),
                    packet.wf(),
                    n == self@.len(),
                    input == old(packet)@,
                    read_fleet(self@, id, input, i as nat) == Ok::<(Fleet, Seq<u8>), BattleError>(
                        (row, row_input),
                    ),
                    read_ship(row[i as int].modules, id, row_input, j as nat) == Ok::<
                        (Seq<Module>, Seq<u8>),
                        BattleError,
                    >((work@[i as int].modules, packet@)),
                    work@ == row.update(
                        i as int,
                        ShipView { id: row[i as int].id, modules: work@[i as int].modules },
                    ),
                    same_shape(row, work@),
                    work.wf(),
                decreases count - j,
            {
                let ghost prev = work@;
                let mut m = work.module_at(i, j);
                match m.read(id, packet) {
                    Ok(()) => {},
                    Err(e) => {
                        proof {
                            let mods = row[i as int].modules;
                            assert(read_ship(mods, id, row_input, (j + 1) as nat) == Err::<
                                (Seq<Module>, Seq<u8>),
                                BattleError,
                            >(e));
                            lemma_read_ship_failure(
                                mods,
                                id,
                                row_input,
                                (j + 1) as nat,
                                count as nat,
                            );
                            assert(read_fleet(self@, id, input, (i + 1) as nat) == Err::<
                                (Fleet, Seq<u8>),
                                BattleError,
                            >(e));
                            lemma_read_fleet_failure(self@, id, input, (i + 1) as nat, n as nat);
                        }
                        return Err(e);
                    },
                }
                work.set_module(i, j, m);
                proof {
                    assert(prev[i as int].modules[j as int].kind() == m.kind());
                    lemma_replace_keeps_shape(prev, i as int, j as int, m);
                    lemma_same_shape_trans(row, prev, work@);
                    assert(work@ =~= row.update(
                        i as int,
                        ShipView { id: row[i as int].id, modules: work@[i as int].modules },
                    ));
                }
                j = j + 1;
            }
            proof {
                lemma_same_shape_trans(self@, row, work@);
            }
            i = i + 1;
        }
        Ok(work)
    }
}

} // verus!
