//! The packets exchanged at phase boundaries: a one-byte tag, then the
//! payload of every module in traversal order, with no lengths and no
//! positions on the wire. Reader and writer stay aligned only because both
//! walk registries of the same shape in the same order.

use vstd::prelude::*;
use crate::error::BattleError;
use crate::module::Module;
use crate::packet::{read_u8_spec, InPacket, OutPacket};
use crate::ship::{same_shape, Fleet, ShipRegistry, ShipView};
use crate::sim_element::{fleet_payload, read_fleet, read_ship, ship_payload};

verus! {

/// Wire tag of a plan packet.
pub const PLAN_TAG: u8 = 0x00;

/// Wire tag of a results packet.
pub const RESULTS_TAG: u8 = 0x01;

/// The two per-phase payloads. Each packet is its tag followed by the
/// payload of every module in traversal order.
#[derive(Clone, Copy, Debug, PartialEq, Eq, Structural)]
pub enum PacketId {
    /// Orders authored during planning.
    Plan,
    /// Authoritative outcome of a finished simulation.
    Results,
}

impl PacketId {
    /// The first byte of a packet of this kind.
    pub open spec fn tag_spec(self) -> u8 {
        match self {
            PacketId::Plan => PLAN_TAG,
            PacketId::Results => RESULTS_TAG,
        }
    }

    /// The first byte of a packet of this kind.
    #[verifier::when_used_as_spec(tag_spec)]
    pub fn tag(self) -> (t: u8)
        ensures
            t == self.tag_spec(),
    {
        match self {
            PacketId::Plan => PLAN_TAG,
            PacketId::Results => RESULTS_TAG,
        }
    }
}

/// The packet of kind `id` that a peer holding `fleet` sends.
pub open spec fn packet_bytes(fleet: Fleet, id: PacketId) -> Seq<u8> {
    seq![id.tag()] + fleet_payload(fleet, id, fleet.len())
}

/// What a peer holding `fleet` makes of `bytes` received as a packet of
/// kind `id`: the updated fleet, or the first failure met. The packet must
/// start with the tag, hold every module's payload and end there.
pub open spec fn decode_packet_spec(fleet: Fleet, id: PacketId, bytes: Seq<u8>) -> Result<
    Fleet,
    BattleError,
> {
    match read_u8_spec(bytes) {
        Ok((tag, body)) => if tag != id.tag() {
            Err(BattleError::BadDiscriminant)
        } else {
            match read_fleet(fleet, id, body, fleet.len()) {
                Ok((updated, rest)) => if rest.len() != 0 {
                    Err(BattleError::TrailingBytes)
                } else {
                    Ok(updated)
                },
                Err(e) => Err(e),
            }
        },
        Err(e) => Err(e),
    }
}

/// `dst` with the fields that a packet of kind `id` carries taken, for the
/// first `n` modules, from the modules of `src` at the same index.
pub open spec fn absorb_ship(dst: Seq<Module>, src: Seq<Module>, id: PacketId, n: nat) -> Seq<
    Module,
> {
    Seq::new(
        dst.len(),
        |k: int|
            if k < n {
                dst[k].absorb(src[k], id)
            } else {
                dst[k]
            },
    )
}

/// `dst` with the fields that a packet of kind `id` carries taken, for
/// every module of the first `n` ships, from the module of `src` at the
/// same position.
pub open spec fn absorb_fleet(dst: Fleet, src: Fleet, id: PacketId, n: nat) -> Fleet {
    Seq::new(
        dst.len(),
        |k: int|
            if k < n {
                ShipView {
                    id: dst[k].id,
                    modules: absorb_ship(
                        dst[k].modules,
                        src[k].modules,
                        id,
                        dst[k].modules.len(),
                    ),
                }
            } else {
                dst[k]
            },
    )
}

/// A module reads back what a module of its kind wrote, and stops exactly
/// where that payload ends.
pub proof fn lemma_module_round_trip(dst: Module, src: Module, id: PacketId, rest: Seq<u8>)
    requires
        dst.kind() == src.kind(),
    ensures
        dst.read_payload(id, src.payload(id) + rest) == Ok::<(Module, Seq<u8>), BattleError>(
            (dst.absorb(src, id), rest),
        ),
{
    let input = src.payload(id) + rest;
    match src {
        Module::Shield(_) => {
            assert(input =~= rest);
        },
        Module::Solar(_) => {
            assert(input[0] == src.payload(id)[0]);
            assert(input.skip(1) =~= rest);
        },
    }
}

/// A ship reads back what a ship with modules of the same kinds wrote.
pub proof fn lemma_ship_round_trip(
    dst: Seq<Module>,
    src: Seq<Module>,
    id: PacketId,
    rest: Seq<u8>,
    n: nat,
)
    requires
        dst.len() == src.len(),
        n <= dst.len(),
        forall|j: int| 0 <= j < dst.len() ==> (#[trigger] dst[j]).kind() == src[j].kind(),
    ensures
        read_ship(dst, id, ship_payload(src, id, n) + rest, n) == Ok::<
            (Seq<Module>, Seq<u8>),
            BattleError,
        >((absorb_ship(dst, src, id, n), rest)),
    decreases n,
{
    if n == 0 {
        assert(ship_payload(src, id, 0) + rest =~= rest);
        assert(absorb_ship(dst, src, id, 0) =~= dst);
    } else {
        let last = src[n - 1].payload(id);
        let input = ship_payload(src, id, n) + rest;
        lemma_ship_round_trip(dst, src, id, last + rest, (n - 1) as nat);
        assert(input =~= ship_payload(src, id, (n - 1) as nat) + (last + rest));
        let done = absorb_ship(dst, src, id, (n - 1) as nat);
        assert(done[n - 1] == dst[n - 1]);
        lemma_module_round_trip(dst[n - 1], src[n - 1], id, rest);
        assert(done.update(n - 1, dst[n - 1].absorb(src[n - 1], id)) =~= absorb_ship(
            dst,
            src,
            id,
            n,
        ));
    }
}

/// A fleet reads back what a fleet of the same shape wrote.
pub proof fn lemma_fleet_round_trip(dst: Fleet, src: Fleet, id: PacketId, rest: Seq<u8>, n: nat)
    requires
        same_shape(dst, src),
        n <= dst.len(),
    ensures
        read_fleet(dst, id, fleet_payload(src, id, n) + rest, n) == Ok::<
            (Fleet, Seq<u8>),
            BattleError,
        >((absorb_fleet(dst, src, id, n), rest)),
    decreases n,
{
    if n == 0 {
        assert(fleet_payload(src, id, 0) + rest =~= rest);
        assert(absorb_fleet(dst, src, id, 0) =~= dst);
    } else {
        let last = ship_payload(src[n - 1].modules, id, src[n - 1].modules.len());
        let input = fleet_payload(src, id, n) + rest;
        lemma_fleet_round_trip(dst, src, id, last + rest, (n - 1) as nat);
        assert(input =~= fleet_payload(src, id, (n - 1) as nat) + (last + rest));
        let done = absorb_fleet(dst, src, id, (n - 1) as nat);
        assert(done[n - 1] == dst[n - 1]);
        assert(dst[n - 1].id == src[n - 1].id);
        assert forall|j: int| 0 <= j < dst[n - 1].modules.len() implies (
        #[trigger] dst[n - 1].modules[j]).kind() == src[n - 1].modules[j].kind() by {}
        lemma_ship_round_trip(
            dst[n - 1].modules,
            src[n - 1].modules,
            id,
            rest,
            dst[n - 1].modules.len(),
        );
        assert(done.update(
            n - 1,
            ShipView {
                id: dst[n - 1].id,
                modules: absorb_ship(
                    dst[n - 1].modules,
                    src[n - 1].modules,
                    id,
                    dst[n - 1].modules.len(),
                ),
            },
        ) =~= absorb_fleet(dst, src, id, n));
    }
}

/// Round trip between peers: a packet encoded from `src` decodes on any
/// registry `dst` of the same shape, with no byte left over and none
/// missing, and every module of the result holds what the module of `src`
/// at the same position put on the wire.
pub proof fn lemma_packet_round_trip(dst: Fleet, src: Fleet, id: PacketId)
    requires
        same_shape(dst, src),
    ensures
        decode_packet_spec(dst, id, packet_bytes(src, id)) == Ok::<Fleet, BattleError>(
            absorb_fleet(dst, src, id, dst.len()),
        ),
        same_shape(dst, absorb_fleet(dst, src, id, dst.len())),
        forall|i: int, j: int|
            0 <= i < dst.len() && 0 <= j < dst[i].modules.len() ==> (#[trigger] absorb_fleet(
                dst,
                src,
                id,
                dst.len(),
            )[i].modules[j]) == dst[i].modules[j].absorb(src[i].modules[j], id),
{
    let bytes = packet_bytes(src, id);
    let body = fleet_payload(src, id, src.len());
    assert(bytes[0] == id.tag());
    assert(bytes.skip(1) =~= body);
    assert(body + Seq::<u8>::empty() =~= body);
    lemma_fleet_round_trip(dst, src, id, Seq::<u8>::empty(), dst.len());
    let out = absorb_fleet(dst, src, id, dst.len());
    assert forall|i: int, j: int|
        0 <= i < dst.len() && 0 <= j < dst[i].modules.len() implies (#[trigger] dst[i].modules[j]).kind()
        == out[i].modules[j].kind() by {
        assert(dst[i].id == src[i].id);
        assert(dst[i].modules[j].kind() == src[i].modules[j].kind());
    }
}

/// Round trip on one registry: decoding a packet against the registry it
/// was encoded from gives that registry back unchanged.
pub proof fn lemma_packet_round_trip_self(fleet: Fleet, id: PacketId)
    ensures
        decode_packet_spec(fleet, id, packet_bytes(fleet, id)) == Ok::<Fleet, BattleError>(fleet),
{
    assert(same_shape(fleet, fleet));
    lemma_packet_round_trip(fleet, fleet, id);
    let out = absorb_fleet(fleet, fleet, id, fleet.len());
    assert forall|i: int| 0 <= i < fleet.len() implies out[i] == fleet[i] by {
        assert forall|j: int| 0 <= j < fleet[i].modules.len() implies out[i].modules[j]
            == fleet[i].modules[j] by {
            assert(out[i].modules[j] == fleet[i].modules[j].absorb(fleet[i].modules[j], id));
        }
        assert(out[i].modules =~= fleet[i].modules);
    }
    assert(out =~= fleet);
}

/// Builds the packet of kind `id` from the registry.
pub fn encode_packet(ships: &ShipRegistry, id: PacketId) -> (bytes: Vec<u8>)
    ensures
        bytes@ == packet_bytes(ships@, id),
{
    let mut packet = OutPacket::new();
    packet.write_u8(id.tag());
    ships.write_payloads(id, &mut packet);
    assert(packet@ =~= packet_bytes(ships@, id));
    packet.into_bytes()
}

/// Decodes `bytes` as a packet of kind `id` against the registry and
/// returns the updated registry. Fails with `Truncated` when the packet
/// ends early, `BadDiscriminant` when it starts with another tag,
/// `Malformed` when a field holds an invalid value and `TrailingBytes` when
/// bytes are left over. The registry itself is never touched.
pub fn decode_packet(ships: &ShipRegistry, id: PacketId, bytes: Vec<u8>) -> (r: Result<
    ShipRegistry,
    BattleError,
>)
    requires
        ships.wf(),
    ensures
        decode_packet_spec(ships@, id, bytes@) == (match r {
            Ok(updated) => Ok::<Fleet, BattleError>(updated@),
            Err(e) => Err(e),
        }),
        r matches Ok(updated) ==> updated.wf() && same_shape(ships@, updated@),
{
    let mut packet = InPacket::new(bytes);
    let tag = match packet.read_u8() {
        Ok(t) => t,
        Err(e) => {
            return Err(e);
        },
    };
    if tag != id.tag() {
        return Err(BattleError::BadDiscriminant);
    }
    let updated = match ships.read_payloads(id, &mut packet) {
        Ok(u) => u,
        Err(e) => {
            return Err(e);
        },
    };
    if packet.remaining() != 0 {
        return Err(BattleError::TrailingBytes);
    }
    Ok(updated)
}

} // verus!
