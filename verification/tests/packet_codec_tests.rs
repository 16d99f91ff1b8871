use battle_engine::battle_state_packets::{decode_packet, encode_packet, PacketId, PLAN_TAG, RESULTS_TAG};
use battle_engine::error::BattleError;
use battle_engine::module::shield::ShieldModule;
use battle_engine::module::solar::SolarModule;
use battle_engine::module::{LifecycleOp, Module, ModuleBase};
use battle_engine::ship::{Ship, ShipRegistry};

fn solar(active: bool) -> Module {
    let mut panel = SolarModule::new();
    panel.set_active(active);
    panel
}

fn shield(active: bool) -> Module {
    let mut m = ShieldModule::new(ModuleBase::new(2, 2, 3, 1, 4));
    m.set_active(active);
    m
}

fn two_ships(a: Module, b: Module) -> ShipRegistry {
    let mut r = ShipRegistry::new();
    r.insert(Ship { id: 20, modules: vec![b] });
    r.insert(Ship { id: 10, modules: vec![a] });
    r
}

#[test]
fn packet_tags() {
    assert_eq!(PLAN_TAG, 0x00);
    assert_eq!(RESULTS_TAG, 0x01);
    assert_eq!(PacketId::Plan.tag(), 0x00);
    assert_eq!(PacketId::Results.tag(), 0x01);
}

#[test]
fn plan_packet_of_a_solar_ship_and_a_shield_ship() {
    let registry = two_ships(solar(false), shield(true));
    let packet = encode_packet(&registry, PacketId::Plan);
    assert_eq!(packet, vec![0x00, 0x00]);
    let decoded = decode_packet(&registry, PacketId::Plan, packet);
    assert_eq!(decoded, Ok(registry));
}

#[test]
fn plan_packet_of_a_lone_shield_is_the_tag_alone() {
    let mut registry = ShipRegistry::new();
    registry.insert(Ship { id: 1, modules: vec![ShieldModule::new(ModuleBase::new(1, 1, 1, 1, 1))] });
    assert_eq!(encode_packet(&registry, PacketId::Plan), vec![0x00]);
    assert_eq!(encode_packet(&registry, PacketId::Results), vec![0x01]);
    assert_eq!(decode_packet(&registry, PacketId::Plan, vec![0x00]), Ok(registry.clone()));
    assert_eq!(decode_packet(&registry, PacketId::Results, vec![0x01]), Ok(registry.clone()));
    assert_eq!(
        decode_packet(&registry, PacketId::Plan, vec![0x00, 0x00]),
        Err(BattleError::TrailingBytes)
    );
}

#[test]
fn plans_cross_to_a_registry_of_the_same_shape() {
    let sender = two_ships(solar(true), shield(true));
    let receiver = two_ships(solar(false), shield(false));
    let packet = encode_packet(&sender, PacketId::Plan);
    assert_eq!(packet, vec![0x00, 0x01]);
    let updated = decode_packet(&receiver, PacketId::Plan, packet).unwrap();
    assert_eq!(updated, two_ships(solar(true), shield(false)));
    assert_eq!(encode_packet(&updated, PacketId::Plan), encode_packet(&sender, PacketId::Plan));
}

#[test]
fn results_cross_to_a_registry_of_the_same_shape() {
    let server = two_ships(shield(true), solar(true));
    let client = two_ships(shield(true), solar(false));
    let packet = encode_packet(&server, PacketId::Results);
    assert_eq!(packet, vec![0x01, 0x01]);
    assert_eq!(decode_packet(&client, PacketId::Results, packet), Ok(server));
}

#[test]
fn payloads_follow_traversal_order_across_ships_and_modules() {
    let mut r = ShipRegistry::new();
    r.insert(Ship { id: 9, modules: vec![shield(true), solar(false), solar(true)] });
    r.insert(Ship { id: 2, modules: vec![solar(true), shield(false), solar(true)] });
    r.insert(Ship { id: 5, modules: vec![] });
    assert_eq!(encode_packet(&r, PacketId::Plan), vec![0x00, 1, 1, 0, 1]);
    assert_eq!(encode_packet(&r, PacketId::Results), vec![0x01, 1, 1, 0, 1]);
}

#[test]
fn an_empty_registry_sends_the_tag_alone() {
    let r = ShipRegistry::new();
    assert_eq!(encode_packet(&r, PacketId::Plan), vec![0x00]);
    assert_eq!(decode_packet(&r, PacketId::Plan, vec![0x00]), Ok(ShipRegistry::new()));
}

#[test]
fn truncated_final_payload_fails_and_applies_nothing() {
    let mut registry = ShipRegistry::new();
    registry.insert(Ship { id: 1, modules: vec![solar(false), shield(false), solar(false)] });
    let before = registry.clone();
    let r = decode_packet(&registry, PacketId::Results, vec![0x01, 0x01]);
    assert_eq!(r, Err(BattleError::Truncated));
    assert_eq!(registry, before);
}

#[test]
fn an_empty_packet_is_truncated() {
    let registry = two_ships(solar(false), shield(false));
    assert_eq!(decode_packet(&registry, PacketId::Plan, vec![]), Err(BattleError::Truncated));
    assert_eq!(decode_packet(&registry, PacketId::Plan, vec![0x00]), Err(BattleError::Truncated));
}

#[test]
fn a_foreign_tag_is_a_bad_discriminant() {
    let registry = two_ships(solar(false), shield(false));
    assert_eq!(
        decode_packet(&registry, PacketId::Plan, vec![0x01, 0x00]),
        Err(BattleError::BadDiscriminant)
    );
    assert_eq!(
        decode_packet(&registry, PacketId::Results, vec![0x00, 0x00]),
        Err(BattleError::BadDiscriminant)
    );
    assert_eq!(decode_packet(&registry, PacketId::Plan, vec![0x07]), Err(BattleError::BadDiscriminant));
}

#[test]
fn an_invalid_flag_is_malformed() {
    let registry = two_ships(solar(false), solar(false));
    assert_eq!(
        decode_packet(&registry, PacketId::Plan, vec![0x00, 0x00, 0x02]),
        Err(BattleError::Malformed)
    );
    assert_eq!(decode_packet(&registry, PacketId::Plan, vec![0x00, 0xff]), Err(BattleError::Malformed));
}

#[test]
fn leftover_bytes_are_trailing() {
    let registry = two_ships(solar(false), shield(false));
    assert_eq!(
        decode_packet(&registry, PacketId::Plan, vec![0x00, 0x00, 0x01]),
        Err(BattleError::TrailingBytes)
    );
}

#[test]
fn a_packet_for_another_shape_does_not_align() {
    let mut sender = ShipRegistry::new();
    sender.insert(Ship { id: 1, modules: vec![solar(true), solar(true)] });
    let mut receiver = ShipRegistry::new();
    receiver.insert(Ship { id: 1, modules: vec![solar(true), shield(true)] });
    let packet = encode_packet(&sender, PacketId::Results);
    assert_eq!(packet, vec![0x01, 1, 1]);
    assert_eq!(decode_packet(&receiver, PacketId::Results, packet), Err(BattleError::TrailingBytes));
}

#[test]
fn a_dispatch_leaves_every_module_as_it_is() {
    let mut r = ShipRegistry::new();
    r.insert(Ship { id: 2, modules: vec![shield(true), solar(false)] });
    r.insert(Ship { id: 1, modules: vec![solar(true)] });
    let before = r.clone();
    r.dispatch(LifecycleOp::BeforeSimulation);
    r.dispatch(LifecycleOp::SimulationTime(0));
    r.dispatch(LifecycleOp::SimulationTime(1));
    r.dispatch(LifecycleOp::AfterSimulation);
    assert_eq!(r, before);
}
