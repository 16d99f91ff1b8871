//! The roster packet, sent once at the start of a battle: a ship count,
//! then for each ship its participant identifier and the ship itself. A
//! ship is a module count followed by its modules; a module is its kind
//! tag, its position, its size, its power draw, its least and greatest hit
//! points and its activation flag. Counts and identifiers are 32-bit,
//! everything else is one byte.

use vstd::prelude::*;
use crate::error::BattleError;
use crate::module::shield::ShieldModule;
use crate::module::solar::SolarModule;
use crate::module::{Module, ModuleBase, SHIELD_KIND_TAG, SOLAR_KIND_TAG};
use crate::packet::{read_bool_spec, read_u32_spec, read_u8_spec, InPacket};
use crate::ship::{Ship, ShipRegistry, ShipView};

verus! {

/// What reading the shared state of a module from the front of `input`
/// gives: position, then size, power draw and hit points, then the
/// activation flag.
pub open spec fn parse_base(input: Seq<u8>) -> Result<(ModuleBase, Seq<u8>), BattleError> {
    match read_u8_spec(input) {
        Ok((x, r1)) => match read_u8_spec(r1) {
            Ok((y, r2)) => match parse_stats(r2) {
                Ok((stats, r3)) => match read_bool_spec(r3) {
                    Ok((active, r4)) => Ok((ModuleBase { x, y, active, ..stats }, r4)),
                    Err(e) => Err(e),
                },
                Err(e) => Err(e),
            },
            Err(e) => Err(e),
        },
        Err(e) => Err(e),
    }
}

/// What reading the size, power draw and hit points of a module from the
/// front of `input` gives: a base with those and nothing else set.
pub open spec fn parse_stats(input: Seq<u8>) -> Result<(ModuleBase, Seq<u8>), BattleError> {
    match read_u8_spec(input) {
        Ok((width, r1)) => match read_u8_spec(r1) {
            Ok((height, r2)) => match read_u8_spec(r2) {
                Ok((power, r3)) => match read_u8_spec(r3) {
                    Ok((min_hp, r4)) => match read_u8_spec(r4) {
                        Ok((max_hp, r5)) => Ok(
                            (
                                ModuleBase {
                                    x: 0,
                                    y: 0,
                                    width,
                                    height,
                                    power,
                                    min_hp,
                                    max_hp,
                                    active: false,
                                },
                                r5,
                            ),
                        ),
                        Err(e) => Err(e),
                    },
                    Err(e) => Err(e),
                },
                Err(e) => Err(e),
            },
            Err(e) => Err(e),
        },
        Err(e) => Err(e),
    }
}

/// What reading one module from the front of `input` gives. A kind tag
/// that names no kind is `Malformed`.
pub open spec fn parse_module(input: Seq<u8>) -> Result<(Module, Seq<u8>), BattleError> {
    match read_u8_spec(input) {
        Ok((kind, r1)) => if kind == SHIELD_KIND_TAG {
            match parse_base(r1) {
                Ok((base, r2)) => Ok((Module::Shield(ShieldModule { base }), r2)),
                Err(e) => Err(e),
            }
        } else if kind == SOLAR_KIND_TAG {
            match parse_base(r1) {
                Ok((base, r2)) => Ok((Module::Solar(SolarModule { base }), r2)),
                Err(e) => Err(e),
            }
        } else {
            Err(BattleError::Malformed)
        },
        Err(e) => Err(e),
    }
}

/// What reading `n` modules from the front of `input` gives.
pub open spec fn parse_modules(input: Seq<u8>, n: nat) -> Result<
    (Seq<Module>, Seq<u8>),
    BattleError,
>
    decreases n,
{
    if n == 0 {
        Ok((Seq::empty(), input))
    } else {
        match parse_modules(input, (n - 1) as nat) {
            Ok((done, rest)) => match parse_module(rest) {
                Ok((m, rest2)) => Ok((done.push(m), rest2)),
                Err(e) => Err(e),
            },
            Err(e) => Err(e),
        }
    }
}

/// What reading one roster entry, an identifier and a ship, from the front
/// of `input` gives.
pub open spec fn parse_entry(input: Seq<u8>) -> Result<(ShipView, Seq<u8>), BattleError> {
    match read_u32_spec(input) {
        Ok((id, r1)) => match read_u32_spec(r1) {
            Ok((count, r2)) => match parse_modules(r2, count as nat) {
                Ok((modules, r3)) => Ok((ShipView { id, modules }, r3)),
                Err(e) => Err(e),
            },
            Err(e) => Err(e),
        },
        Err(e) => Err(e),
    }
}

/// What reading `n` roster entries from the front of `input` gives: the
/// ships in the order of their arrival.
pub open spec fn parse_entries(input: Seq<u8>, n: nat) -> Result<
    (Seq<ShipView>, Seq<u8>),
    BattleError,
>
    decreases n,
{
    if n == 0 {
        Ok((Seq::empty(), input))
    } else {
        match parse_entries(input, (n - 1) as nat) {
            Ok((done, rest)) => match parse_entry(rest) {
                Ok((ship, rest2)) => Ok((done.push(ship), rest2)),
                Err(e) => Err(e),
            },
            Err(e) => Err(e),
        }
    }
}

/// No two of the ships belong to the same participant.
pub open spec fn distinct_ids(ships: Seq<ShipView>) -> bool {
    forall|a: int, b: int| 0 <= a < b < ships.len() ==> ships[a].id != ships[b].id
}

/// What a roster packet holds: its ships in the order of their arrival, or
/// the first failure met. A roster must announce at least one ship, hold
/// that many entries and end there, and name every participant once.
pub open spec fn roster_spec(bytes: Seq<u8>) -> Result<Seq<ShipView>, BattleError> {
    match read_u32_spec(bytes) {
        Ok((count, body)) => if count == 0 {
            Err(BattleError::EmptyRoster)
        } else {
            match parse_entries(body, count as nat) {
                Ok((ships, rest)) => if rest.len() != 0 {
                    Err(BattleError::TrailingBytes)
                } else if !distinct_ids(ships) {
                    Err(BattleError::ShipCountMismatch)
                } else {
                    Ok(ships)
                },
                Err(e) => Err(e),
            }
        },
        Err(e) => Err(e),
    }
}

/// A failure met while reading modules is the result of reading any larger
/// number of them.
pub proof fn lemma_parse_modules_failure(input: Seq<u8>, k: nat, n: nat)
    requires
        k <= n,
        parse_modules(input, k) is Err,
    ensures
        parse_modules(input, n) == parse_modules(input, k),
    decreases n,
{
    if k < n {
        lemma_parse_modules_failure(input, k, (n - 1) as nat);
    }
}

/// A failure met while reading entries is the result of reading any larger
/// number of them.
pub proof fn lemma_parse_entries_failure(input: Seq<u8>, k: nat, n: nat)
    requires
        k <= n,
        parse_entries(input, k) is Err,
    ensures
        parse_entries(input, n) == parse_entries(input, k),
    decreases n,
{
    if k < n {
        lemma_parse_entries_failure(input, k, (n - 1) as nat);
    }
}

/// Reads the size, power draw and hit points of a module.
fn read_stats(packet: &mut InPacket) -> (r: Result<ModuleBase, BattleError>)
    requires
        old(packet).wf(),
    ensures
        final(packet).wf(),
        parse_stats(old(packet)@) == (match r {
            Ok(base) => Ok::<(ModuleBase, Seq<u8>), BattleError>((base, final(packet)@)),
            Err(e) => Err(e),
        }),
{
    let width = match packet.read_u8() {
        Ok(v) => v,
        Err(e) => {
            return Err(e);
        },
    };
    let height = match packet.read_u8() {
        Ok(v) => v,
        Err(e) => {
            return Err(e);
        },
    };
    let power = match packet.read_u8() {
        Ok(v) => v,
        Err(e) => {
            return Err(e);
        },
    };
    let min_hp = match packet.read_u8() {
        Ok(v) => v,
        Err(e) => {
            return Err(e);
        },
    };
    let max_hp = match packet.read_u8() {
        Ok(v) => v,
        Err(e) => {
            return Err(e);
        },
    };
    Ok(ModuleBase::new(width, height, power, min_hp, max_hp))
}

/// Reads the shared state of a module.
fn read_base(packet: &mut InPacket) -> (r: Result<ModuleBase, BattleError>)
    requires
        old(packet).wf(),
    ensures
        final(packet).wf(),
        parse_base(old(packet)@) == (match r {
            Ok(base) => Ok::<(ModuleBase, Seq<u8>), BattleError>((base, final(packet)@)),
            Err(e) => Err(e),
        }),
{
    let x = match packet.read_u8() {
        Ok(v) => v,
        Err(e) => {
            return Err(e);
        },
    };
    let y = match packet.read_u8() {
        Ok(v) => v,
        Err(e) => {
            return Err(e);
        },
    };
    let mut base = match read_stats(packet) {
        Ok(v) => v,
        Err(e) => {
            return Err(e);
        },
    };
    let active = match packet.read_bool() {
        Ok(v) => v,
        Err(e) => {
            return Err(e);
        },
    };
    base.x = x;
    base.y = y;
    base.active = active;
    Ok(base)
}

/// Reads one module with its full state.
pub fn read_module(packet: &mut InPacket) -> (r: Result<Module, BattleError>)
    requires
        old(packet).wf(),
    ensures
        final(packet).wf(),
        parse_module(old(packet)@) == (match r {
            Ok(m) => Ok::<(Module, Seq<u8>), BattleError>((m, final(packet)@)),
            Err(e) => Err(e),
        }),
{
    let kind = match packet.read_u8() {
        Ok(v) => v,
        Err(e) => {
            return Err(e);
        },
    };
    if kind == SHIELD_KIND_TAG {
        match read_base(packet) {
            Ok(base) => Ok(ShieldModule::new(base)),
            Err(e) => Err(e),
        }
    } else if kind == SOLAR_KIND_TAG {
        match read_base(packet) {
            Ok(base) => Ok(Module::Solar(SolarModule { base })),
            Err(e) => Err(e),
        }
    } else {
        Err(BattleError::Malformed)
    }
}

/// Reads one roster entry: an identifier and the ship that goes with it.
pub fn read_entry(packet: &mut InPacket) -> (r: Result<Ship, BattleError>)
    requires
        old(packet).wf(),
    ensures
        final(packet).wf(),
        parse_entry(old(packet)@) == (match r {
            Ok(ship) => Ok::<(ShipView, Seq<u8>), BattleError>((ship@, final(packet)@)),
            Err(e) => Err(e),
        }),
{
    let ghost input = packet@;
    let id = match packet.read_u32() {
        Ok(v) => v,
        Err(e) => {
            return Err(e);
        },
    };
    let ghost after_id = packet@;
    let count = match packet.read_u32() {
        Ok(v) => v,
        Err(e) => {
            return Err(e);
        },
    };
    let ghost body = packet@;
    let mut modules: Vec<Module> = Vec::new();
    let mut j: u32 = 0;
    while j < count
        invariant
            j <= count,
            packet.wf(),
            input == old(packet)@,
            read_u32_spec(input) == Ok::<(u32, Seq<u8>), BattleError>((id, after_id)),
            read_u32_spec(after_id) == Ok::<(u32, Seq<u8>), BattleError>((count, body)),
            parse_modules(body, j as nat) == Ok::<(Seq<Module>, Seq<u8>), BattleError>(
                (modules@, packet@),
            ),
        decreases count - j,
    {
        let m = match read_module(packet) {
            Ok(v) => v,
            Err(e) => {
                proof {
                    lemma_parse_modules_failure(body, (j + 1) as nat, count as nat);
                }
                return Err(e);
            },
        };
        modules.push(m);
        j = j + 1;
    }
    Ok(Ship { id, modules })
}

/// Builds the registry of a battle from its roster packet. Fails with
/// `Truncated` when the packet ends early, `EmptyRoster` when it announces
/// no ship, `Malformed` when a field holds an invalid value,
/// `TrailingBytes` when bytes are left over and `ShipCountMismatch` when
/// two entries name the same participant. On success the registry holds
/// exactly the ships of the roster.
pub fn decode_roster(bytes: Vec<u8>) -> (r: Result<ShipRegistry, BattleError>)
    ensures
        match r {
            Ok(registry) => {
                &&& roster_spec(bytes@) matches Ok(ships)
                &&& registry.wf()
                &&& registry@.len() == ships.len()
                &&& forall|s: ShipView|
                    #![trigger registry@.contains(s)]
                    #![trigger ships.contains(s)]
                    registry@.contains(s) <==> ships.contains(s)
            },
            Err(e) => roster_spec(bytes@) == Err::<Seq<ShipView>, BattleError>(e),
        },
{
    let ghost input = bytes@;
    let mut packet = InPacket::new(bytes);
    let count = match packet.read_u32() {
        Ok(v) => v,
        Err(e) => {
            return Err(e);
        },
    };
    if count == 0 {
        return Err(BattleError::EmptyRoster);
    }
    let ghost body = packet@;
    let ghost mut parsed: Seq<ShipView> = Seq::empty();
    let mut registry = ShipRegistry::new();
    let mut repeated = false;
    let mut i: u32 = 0;
    while i < count
        invariant
            i <= count,
            count != 0,
            packet.wf(),
            registry.wf(),
            input == bytes@,
            read_u32_spec(input) == Ok::<(u32, Seq<u8>), BattleError>((count, body)),
            parsed.len() == i,
            parse_entries(body, i as nat) == Ok::<(Seq<ShipView>, Seq<u8>), BattleError>(
                (parsed, packet@),
            ),
            repeated ==> !distinct_ids(parsed),
            !repeated ==> {
                &&& distinct_ids(parsed)
                &&& registry@.len() == i
                &&& forall|s: ShipView|
                    #![trigger registry@.contains(s)]
                    #![trigger parsed.contains(s)]
                    registry@.contains(s) <==> parsed.contains(s)
            },
        decreases count - i,
    {
        let ship = match read_entry(&mut packet) {
            Ok(v) => v,
            Err(e) => {
                proof {
                    lemma_parse_entries_failure(body, (i + 1) as nat, count as nat);
                }
                return Err(e);
            },
        };
        let ghost added = ship@;
        let ghost earlier = parsed;
        let ghost held = registry@;
        proof {
            parsed = parsed.push(added);
            assert forall|s: ShipView| parsed.contains(s) <==> (s == added || earlier.contains(s)) by {
                if parsed.contains(s) {
                    let k = choose|k: int| 0 <= k < parsed.len() && parsed[k] == s;
                    if k < earlier.len() {
                        assert(earlier[k] == s);
                    }
                }
                if earlier.contains(s) {
                    let k = choose|k: int| 0 <= k < earlier.len() && earlier[k] == s;
                    assert(parsed[k] == s);
                }
                if s == added {
                    assert(parsed[earlier.len() as int] == s);
                }
            }
        }
        if repeated {
            proof {
                let (a, b) = choose|a: int, b: int|
                    0 <= a < b < earlier.len() && earlier[a].id == earlier[b].id;
                assert(parsed[a].id == parsed[b].id);
            }
        } else {
            let replaced = registry.insert(ship);
            if replaced {
                repeated = true;
                proof {
                    let k = choose|k: int| 0 <= k < held.len() && (#[trigger] held[k]).id == added.id;
                    assert(held.contains(held[k]));
                    assert(earlier.contains(held[k]));
                    let a = choose|a: int| 0 <= a < earlier.len() && earlier[a] == held[k];
                    assert(parsed[a].id == parsed[earlier.len() as int].id);
                }
            } else {
                proof {
                    assert forall|a: int, b: int| 0 <= a < b < parsed.len() implies parsed[a].id
                        != parsed[b].id by {
                        if b == earlier.len() {
                            assert(earlier.contains(earlier[a]));
                            assert(held.contains(earlier[a]));
                            let k = choose|k: int| 0 <= k < held.len() && held[k] == earlier[a];
                            assert(held[k].id != added.id);
                        } else {
                            assert(earlier[a].id != earlier[b].id);
                        }
                    }
                    assert forall|s: ShipView|
                        #![trigger registry@.contains(s)]
                        #![trigger parsed.contains(s)]
                        registry@.contains(s) <==> parsed.contains(s) by {
                        if earlier.contains(s) && s.id == added.id {
                            assert(held.contains(s));
                            let k = choose|k: int| 0 <= k < held.len() && held[k] == s;
                            assert(held[k].id == added.id);
                        }
                    }
                }
            }
        }
        i = i + 1;
    }
    if packet.remaining() != 0 {
        return Err(BattleError::TrailingBytes);
    }
    if repeated {
        return Err(BattleError::ShipCountMismatch);
    }
    Ok(registry)
}

} // verus!
