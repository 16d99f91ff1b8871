use battle_engine::error::BattleError;
use battle_engine::module::shield::ShieldModule;
use battle_engine::module::solar::SolarModule;
use battle_engine::module::{Module, ModuleBase, SHIELD_KIND_TAG, SOLAR_KIND_TAG};
use battle_engine::packet::InPacket;
use battle_engine::roster::{decode_roster, read_entry, read_module};
use battle_engine::ship::{ModuleRef, Ship};

fn roster_of_two() -> Vec<u8> {
    vec![
        0, 0, 1, 0, // participant 256
        0, 0, 0, 2, // two modules
        0, 4, 5, 2, 2, 6, 1, 9, 1, // shield at (4, 5), 2 by 2, power 6, hp 1 to 9, active
        1, 7, 8, 1, 1, 0, 2, 3, 0, // solar at (7, 8), 1 by 1, power 0, hp 2 to 3, inactive
        0, 0, 0, 9, // participant 9
        0, 0, 0, 1, // one module
        1, 0, 0, 1, 1, 0, 2, 3, 0, // a new solar panel
    ]
}

fn with_count(count: u8, entries: Vec<u8>) -> Vec<u8> {
    let mut bytes = vec![0, 0, 0, count];
    bytes.extend(entries);
    bytes
}

#[test]
fn kind_tags() {
    assert_eq!(SHIELD_KIND_TAG, 0);
    assert_eq!(SOLAR_KIND_TAG, 1);
}

#[test]
fn a_roster_becomes_a_registry_in_identifier_order() {
    let registry = decode_roster(with_count(2, roster_of_two())).unwrap();
    assert_eq!(registry.len(), 2);
    assert_eq!(registry.ship(0), &Ship { id: 9, modules: vec![SolarModule::new()] });
    assert_eq!(
        registry.ship(1),
        &Ship {
            id: 256,
            modules: vec![
                Module::Shield(ShieldModule {
                    base: ModuleBase {
                        x: 4,
                        y: 5,
                        width: 2,
                        height: 2,
                        power: 6,
                        min_hp: 1,
                        max_hp: 9,
                        active: true,
                    },
                }),
                Module::Solar(SolarModule {
                    base: ModuleBase {
                        x: 7,
                        y: 8,
                        width: 1,
                        height: 1,
                        power: 0,
                        min_hp: 2,
                        max_hp: 3,
                        active: false,
                    },
                }),
            ],
        }
    );
    assert_eq!(
        registry.traversal_order(),
        vec![
            ModuleRef { ship: 9, index: 0 },
            ModuleRef { ship: 256, index: 0 },
            ModuleRef { ship: 256, index: 1 },
        ]
    );
}

#[test]
fn a_roster_without_ships_is_refused() {
    assert_eq!(decode_roster(vec![0, 0, 0, 0]), Err(BattleError::EmptyRoster));
    assert_eq!(decode_roster(vec![0, 0, 0, 0, 1]), Err(BattleError::EmptyRoster));
}

#[test]
fn a_participant_named_twice_is_a_count_mismatch() {
    let bytes = vec![
        0, 0, 0, 2, //
        0, 0, 0, 5, 0, 0, 0, 0, //
        0, 0, 0, 5, 0, 0, 0, 1, 1, 0, 0, 1, 1, 0, 2, 3, 0,
    ];
    assert_eq!(decode_roster(bytes), Err(BattleError::ShipCountMismatch));
}

#[test]
fn a_roster_that_ends_early_is_truncated() {
    assert_eq!(decode_roster(vec![]), Err(BattleError::Truncated));
    assert_eq!(decode_roster(vec![0, 0, 1]), Err(BattleError::Truncated));
    let mut bytes = with_count(2, roster_of_two());
    bytes.pop();
    assert_eq!(decode_roster(bytes), Err(BattleError::Truncated));
    assert_eq!(decode_roster(with_count(3, roster_of_two())), Err(BattleError::Truncated));
}

#[test]
fn a_roster_with_bytes_left_over_is_refused() {
    let mut bytes = with_count(2, roster_of_two());
    bytes.push(0);
    assert_eq!(decode_roster(bytes), Err(BattleError::TrailingBytes));
}

#[test]
fn an_unknown_kind_or_flag_is_malformed() {
    let unknown_kind = vec![0, 0, 0, 1, 0, 0, 0, 1, 0, 0, 0, 1, 2, 0, 0, 1, 1, 0, 2, 3, 0];
    assert_eq!(decode_roster(unknown_kind), Err(BattleError::Malformed));
    let bad_flag = vec![0, 0, 0, 1, 0, 0, 0, 1, 0, 0, 0, 1, 1, 0, 0, 1, 1, 0, 2, 3, 3];
    assert_eq!(decode_roster(bad_flag), Err(BattleError::Malformed));
}

#[test]
fn a_parse_failure_comes_before_a_count_mismatch() {
    let bytes = vec![
        0, 0, 0, 3, //
        0, 0, 0, 5, 0, 0, 0, 0, //
        0, 0, 0, 5, 0, 0, 0, 0, //
        0, 0, 0, 6, 0, 0,
    ];
    assert_eq!(decode_roster(bytes), Err(BattleError::Truncated));
}

#[test]
fn one_module_and_one_entry_are_read_from_the_front() {
    let mut input = InPacket::new(vec![0, 1, 2, 3, 4, 5, 6, 7, 1, 0xaa]);
    assert_eq!(
        read_module(&mut input),
        Ok(Module::Shield(ShieldModule {
            base: ModuleBase {
                x: 1,
                y: 2,
                width: 3,
                height: 4,
                power: 5,
                min_hp: 6,
                max_hp: 7,
                active: true,
            },
        }))
    );
    assert_eq!(input.remaining(), 1);
    let mut entry = InPacket::new(vec![0, 0, 0, 7, 0, 0, 0, 1, 1, 9, 9, 1, 1, 0, 2, 3, 1]);
    let mut panel = SolarModule::new();
    panel.set_active(true);
    let mut expected = panel.base();
    expected.x = 9;
    expected.y = 9;
    assert_eq!(
        read_entry(&mut entry),
        Ok(Ship { id: 7, modules: vec![Module::Solar(SolarModule { base: expected })] })
    );
    assert_eq!(entry.remaining(), 0);
}
