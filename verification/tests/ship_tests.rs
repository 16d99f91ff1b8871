use battle_engine::module::shield::ShieldModule;
use battle_engine::module::solar::SolarModule;
use battle_engine::module::{Module, ModuleBase};
use battle_engine::ship::{ModuleRef, Ship, ShipRegistry};

fn ship(id: u32, modules: Vec<Module>) -> Ship {
    Ship { id, modules }
}

fn shield() -> Module {
    ShieldModule::new(ModuleBase::new(2, 3, 4, 1, 5))
}

#[test]
fn traversal_does_not_depend_on_insertion_order() {
    let mut a = ShipRegistry::new();
    assert!(!a.insert(ship(7, vec![shield()])));
    assert!(!a.insert(ship(3, vec![SolarModule::new(), shield()])));
    assert!(!a.insert(ship(5, vec![])));
    let mut b = ShipRegistry::new();
    assert!(!b.insert(ship(3, vec![SolarModule::new(), shield()])));
    assert!(!b.insert(ship(5, vec![])));
    assert!(!b.insert(ship(7, vec![shield()])));
    assert_eq!(a, b);
    assert_eq!(a.traversal_order(), b.traversal_order());
    assert_eq!(
        a.traversal_order(),
        vec![
            ModuleRef { ship: 3, index: 0 },
            ModuleRef { ship: 3, index: 1 },
            ModuleRef { ship: 7, index: 0 },
        ]
    );
}

#[test]
fn inserting_a_known_participant_replaces_its_ship() {
    let mut r = ShipRegistry::new();
    assert!(r.is_empty());
    assert!(!r.insert(ship(9, vec![shield()])));
    assert!(!r.insert(ship(4, vec![])));
    assert!(r.insert(ship(9, vec![SolarModule::new()])));
    assert_eq!(r.len(), 2);
    assert_eq!(r.get(9), Some(&ship(9, vec![SolarModule::new()])));
    assert_eq!(r.index_of(9), Some(1));
    assert_eq!(r.index_of(4), Some(0));
    assert_eq!(r.index_of(5), None);
    assert_eq!(r.get(5), None);
    assert_eq!(r.ship(0), &ship(4, vec![]));
}

#[test]
fn modules_are_found_and_replaced_by_position() {
    let mut r = ShipRegistry::new();
    r.insert(ship(2, vec![shield(), SolarModule::new()]));
    r.insert(ship(1, vec![SolarModule::new()]));
    assert_eq!(r.module_count(0), 1);
    assert_eq!(r.module_count(1), 2);
    assert_eq!(r.module_at(1, 0), shield());
    let mut m = r.module_at(1, 1);
    m.set_active(true);
    r.set_module(1, 1, m);
    assert_eq!(r.module_at(1, 1).base().active, true);
    assert_eq!(r.module_at(1, 0), shield());
    assert_eq!(r.module_at(0, 0), SolarModule::new());
}

#[test]
fn a_duplicate_holds_the_same_ships() {
    let mut r = ShipRegistry::new();
    r.insert(ship(8, vec![shield()]));
    r.insert(ship(6, vec![SolarModule::new()]));
    let copy = r.duplicate();
    assert_eq!(copy, r);
    r.set_module(0, 0, shield());
    assert_ne!(copy, r);
}
