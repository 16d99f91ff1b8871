use battle_engine::battle_state_packets::{decode_packet, PacketId};
use battle_engine::client_battle_state::{
    BattleConfig, ClientBattleState, FrameAction, Phase, Stage, DEFAULT_PLANNING_MS,
    DEFAULT_SIMULATING_MS,
};
use battle_engine::client_state::ClientState;
use battle_engine::error::BattleError;
use battle_engine::module::shield::ShieldModule;
use battle_engine::module::solar::SolarModule;
use battle_engine::module::{Module, ModuleBase};
use battle_engine::tick_clock::{TickSpan, Timestamp};

fn opening_roster() -> Vec<u8> {
    vec![
        0, 0, 0, 2, //
        0, 0, 0, 2, 0, 0, 0, 2, // participant 2: shield and solar
        0, 1, 2, 2, 2, 3, 1, 8, 0, //
        1, 4, 4, 1, 1, 0, 2, 3, 0, //
        0, 0, 0, 1, 0, 0, 0, 1, // participant 1: solar
        1, 0, 0, 1, 1, 0, 2, 3, 0,
    ]
}

fn at(ms: i64) -> Timestamp {
    Timestamp::new(1_700_000_000 + ms / 1_000, ((ms % 1_000) * 1_000_000) as i32).unwrap()
}

fn planning_session(now_ms: i64) -> ClientBattleState {
    let mut battle = ClientBattleState::new(BattleConfig::standard());
    assert_eq!(battle.receive_roster(opening_roster(), at(now_ms)), Ok(()));
    battle
}

fn simulating_session(planning_start: i64) -> ClientBattleState {
    let mut battle = planning_session(planning_start);
    assert!(battle.plan(2, 0, true));
    assert!(battle.plan(2, 1, true));
    let action = battle.on_frame(at(planning_start + 10_000));
    assert_eq!(action, FrameAction::SendPlans(vec![0x00, 0x00, 0x01]));
    battle
}

fn shield_that_is(active: bool) -> Module {
    Module::Shield(ShieldModule {
        base: ModuleBase { x: 1, y: 2, width: 2, height: 2, power: 3, min_hp: 1, max_hp: 8, active },
    })
}

fn second_solar_that_is(active: bool) -> Module {
    Module::Solar(SolarModule {
        base: ModuleBase { x: 4, y: 4, width: 1, height: 1, power: 0, min_hp: 2, max_hp: 3, active },
    })
}

#[test]
fn client_states_are_distinct() {
    assert_ne!(ClientState::JoinSector, ClientState::Respawn);
}

#[test]
fn standard_durations() {
    assert_eq!(DEFAULT_PLANNING_MS, 10_000);
    assert_eq!(DEFAULT_SIMULATING_MS, 5_000);
    assert_eq!(
        BattleConfig::standard(),
        BattleConfig { planning_ms: 10_000, simulating_ms: 5_000, tick_ms: 50 }
    );
    assert_eq!(BattleConfig::new(1, 2, 3), Some(BattleConfig { planning_ms: 1, simulating_ms: 2, tick_ms: 3 }));
    assert_eq!(BattleConfig::new(1, 2, 0), None);
}

#[test]
fn a_new_session_waits_for_its_roster() {
    let mut battle = ClientBattleState::new(BattleConfig::standard());
    assert_eq!(battle.stage(), Stage::AwaitingRoster);
    assert_eq!(battle.phase(), None);
    assert_eq!(battle.config(), BattleConfig::standard());
    assert!(battle.ships().is_empty());
    assert_eq!(battle.on_frame(at(123)), FrameAction::Wait);
    assert_eq!(battle.stage(), Stage::AwaitingRoster);
    assert!(!battle.end_simulation());
}

#[test]
fn the_roster_starts_planning() {
    let battle = planning_session(5_000);
    assert_eq!(battle.stage(), Stage::Planning);
    assert_eq!(battle.phase(), Some(Phase::Planning));
    assert_eq!(battle.ships().len(), 2);
    assert_eq!(battle.ships().ship(0).id, 1);
    assert_eq!(battle.ships().ship(1).id, 2);
    assert_eq!(battle.ships().module_at(0, 0), SolarModule::new());
    assert_eq!(battle.ships().module_at(1, 0), shield_that_is(false));
    assert_eq!(battle.ships().module_at(1, 1), second_solar_that_is(false));
    assert_eq!(battle.next_tick(), 0);
}

#[test]
fn a_bad_roster_aborts_the_session() {
    let mut battle = ClientBattleState::new(BattleConfig::standard());
    assert_eq!(battle.receive_roster(vec![0, 0, 0, 0], at(0)), Err(BattleError::EmptyRoster));
    assert_eq!(battle.stage(), Stage::Aborted(BattleError::EmptyRoster));
    assert_eq!(battle.phase(), None);
    assert_eq!(battle.on_frame(at(10)), FrameAction::Aborted(BattleError::EmptyRoster));
    assert_eq!(battle.receive_roster(opening_roster(), at(20)), Err(BattleError::EmptyRoster));
    assert_eq!(battle.receive_simulation_results(vec![1], at(20)), Err(BattleError::EmptyRoster));
    assert!(battle.ships().is_empty());
}

#[test]
fn planning_lasts_its_full_time() {
    let mut battle = planning_session(5_000);
    assert_eq!(battle.on_frame(at(5_000)), FrameAction::Plan);
    assert_eq!(battle.on_frame(at(14_999)), FrameAction::Plan);
    assert_eq!(battle.on_frame(at(4_000)), FrameAction::Plan);
    assert_eq!(battle.stage(), Stage::Planning);
    assert_eq!(battle.on_frame(at(15_000)), FrameAction::SendPlans(vec![0x00, 0x00, 0x00]));
    assert_eq!(battle.stage(), Stage::Simulating);
    assert_eq!(battle.phase(), Some(Phase::Simulating));
}

#[test]
fn plan_packet_after_planning_of_a_solar_ship_and_a_shield_ship() {
    let roster = vec![
        0, 0, 0, 2, //
        0, 0, 0, 11, 0, 0, 0, 1, 0, 2, 2, 1, 1, 4, 1, 5, 1, // participant 11: an active shield
        0, 0, 0, 10, 0, 0, 0, 1, 1, 0, 0, 1, 1, 0, 2, 3, 0, // participant 10: solar, inactive
    ];
    let mut author = ClientBattleState::new(BattleConfig::standard());
    assert_eq!(author.receive_roster(roster.clone(), at(0)), Ok(()));
    let before = author.ships().clone();
    let packet = author.build_plans_packet();
    assert_eq!(author.on_frame(at(10_000)), FrameAction::SendPlans(vec![0x00, 0x00]));
    assert_eq!(packet, vec![0x00, 0x00]);
    let mut peer = ClientBattleState::new(BattleConfig::standard());
    assert_eq!(peer.receive_roster(roster, at(3)), Ok(()));
    assert_eq!(decode_packet(peer.ships(), PacketId::Plan, packet), Ok(before));
}

#[test]
fn plan_packet_of_one_ship_with_one_shield_is_the_tag_alone() {
    let roster = vec![0, 0, 0, 1, 0, 0, 0, 4, 0, 0, 0, 1, 0, 0, 0, 1, 1, 2, 1, 3, 0];
    let mut battle = ClientBattleState::new(BattleConfig::standard());
    assert_eq!(battle.receive_roster(roster, at(0)), Ok(()));
    assert_eq!(battle.build_plans_packet(), vec![0x00]);
    assert!(battle.plan(4, 0, true));
    assert_eq!(battle.build_plans_packet(), vec![0x00]);
    assert_eq!(battle.on_frame(at(10_000)), FrameAction::SendPlans(vec![0x00]));
}

#[test]
fn orders_are_taken_during_planning_only() {
    let mut battle = planning_session(0);
    assert!(battle.plan(2, 1, true));
    assert!(!battle.plan(2, 2, true));
    assert!(!battle.plan(3, 0, true));
    assert_eq!(battle.ships().module_at(1, 1), second_solar_that_is(true));
    assert_eq!(battle.build_plans_packet(), vec![0x00, 0x00, 0x01]);
    assert!(battle.plan(2, 1, false));
    assert_eq!(battle.build_plans_packet(), vec![0x00, 0x00, 0x00]);
    assert!(battle.plan(2, 0, true));
    assert_eq!(battle.ships().module_at(1, 0), shield_that_is(true));
    assert_eq!(battle.build_plans_packet(), vec![0x00, 0x00, 0x00]);
    assert!(battle.plan(1, 0, true));
    assert_eq!(battle.on_frame(at(10_000)), FrameAction::SendPlans(vec![0x00, 0x01, 0x00]));
    let before = battle.clone();
    assert!(!battle.plan(1, 0, false));
    assert_eq!(battle, before);
}

#[test]
fn entering_the_simulation_starts_the_tick_clock_and_keeps_the_modules() {
    let mut planning = planning_session(1_000);
    assert!(planning.plan(2, 0, true));
    assert!(planning.plan(2, 1, true));
    let ships = planning.ships().clone();
    let battle = simulating_session(1_000);
    assert_eq!(battle.stage(), Stage::Simulating);
    assert_eq!(battle.next_tick(), 0);
    assert_eq!(battle.ships(), &ships);
}

#[test]
fn frames_at_120_ms_and_121_ms_dispatch_ticks_0_to_2_once() {
    let mut battle = simulating_session(0);
    assert_eq!(battle.on_frame(at(10_120)), FrameAction::Simulated(TickSpan { first: 0, count: 3 }));
    assert_eq!(battle.next_tick(), 3);
    assert_eq!(battle.on_frame(at(10_121)), FrameAction::Simulated(TickSpan { first: 3, count: 0 }));
    assert_eq!(battle.next_tick(), 3);
}

#[test]
fn a_slow_frame_catches_up_on_every_tick() {
    let mut slow = simulating_session(0);
    assert_eq!(slow.on_frame(at(10_000)), FrameAction::Simulated(TickSpan { first: 0, count: 1 }));
    assert_eq!(slow.on_frame(at(10_200)), FrameAction::Simulated(TickSpan { first: 1, count: 4 }));
    let mut fast = simulating_session(0);
    let mut handed_out = 0;
    let mut now = 10_000;
    while now <= 10_200 {
        match fast.on_frame(at(now)) {
            FrameAction::Simulated(span) => {
                assert_eq!(span.first, handed_out);
                handed_out += span.count;
            }
            other => panic!("unexpected action {:?}", other),
        }
        now += 10;
    }
    assert_eq!(handed_out, 5);
    assert_eq!(slow, fast);
}

#[test]
fn a_whole_simulation_runs_ticks_0_to_100_then_one_exit() {
    let mut battle = simulating_session(0);
    let ships = battle.ships().clone();
    assert_eq!(battle.on_frame(at(10_030)), FrameAction::Simulated(TickSpan { first: 0, count: 1 }));
    assert_eq!(battle.on_frame(at(14_999)), FrameAction::Simulated(TickSpan { first: 1, count: 99 }));
    assert_eq!(battle.on_frame(at(15_000)), FrameAction::SimulationEnded(TickSpan { first: 100, count: 1 }));
    assert_eq!(battle.stage(), Stage::AwaitingResults);
    assert_eq!(battle.phase(), Some(Phase::Simulating));
    assert_eq!(battle.next_tick(), 101);
    assert_eq!(battle.on_frame(at(15_050)), FrameAction::Wait);
    assert_eq!(battle.on_frame(at(99_000)), FrameAction::Wait);
    assert_eq!(battle.next_tick(), 101);
    assert_eq!(battle.ships(), &ships);
    assert!(!battle.end_simulation());
}

#[test]
fn a_simulation_of_a_single_late_frame_exits_once() {
    let mut battle = simulating_session(0);
    assert_eq!(
        battle.on_frame(at(15_010)),
        FrameAction::SimulationEnded(TickSpan { first: 0, count: 101 })
    );
    assert_eq!(battle.stage(), Stage::AwaitingResults);
}

#[test]
fn a_simulation_of_no_length_still_enters_and_exits_once() {
    let config = BattleConfig::new(10, 0, 50).unwrap();
    let mut battle = ClientBattleState::new(config);
    assert_eq!(battle.receive_roster(opening_roster(), at(0)), Ok(()));
    assert_eq!(battle.on_frame(at(10)), FrameAction::SendPlans(vec![0x00, 0x00, 0x00]));
    assert_eq!(battle.on_frame(at(10)), FrameAction::SimulationEnded(TickSpan { first: 0, count: 1 }));
    assert_eq!(battle.stage(), Stage::AwaitingResults);
}

#[test]
fn a_simulation_cut_short_exits_once() {
    let mut battle = simulating_session(0);
    battle.on_frame(at(10_120));
    let ships = battle.ships().clone();
    assert!(battle.end_simulation());
    assert_eq!(battle.stage(), Stage::AwaitingResults);
    assert_eq!(battle.next_tick(), 3);
    assert_eq!(battle.ships(), &ships);
    assert!(!battle.end_simulation());
    assert_eq!(battle.on_frame(at(10_500)), FrameAction::Wait);
    let mut planning = planning_session(0);
    assert!(!planning.end_simulation());
    assert_eq!(planning.stage(), Stage::Planning);
}

#[test]
fn results_close_the_cycle() {
    let mut battle = simulating_session(0);
    battle.on_frame(at(15_000));
    let results = vec![0x01, 0x01, 0x00];
    assert_eq!(battle.receive_simulation_results(results, at(15_700)), Ok(()));
    assert_eq!(battle.stage(), Stage::Planning);
    assert_eq!(battle.next_tick(), 0);
    let mut first_solar = SolarModule::new();
    first_solar.set_active(true);
    assert_eq!(battle.ships().module_at(0, 0), first_solar);
    assert_eq!(battle.ships().module_at(1, 0), shield_that_is(true));
    assert_eq!(battle.ships().module_at(1, 1), second_solar_that_is(false));
    assert_eq!(battle.on_frame(at(25_699)), FrameAction::Plan);
    assert_eq!(battle.on_frame(at(25_700)), FrameAction::SendPlans(vec![0x00, 0x01, 0x00]));
    assert_eq!(battle.on_frame(at(25_700)), FrameAction::Simulated(TickSpan { first: 0, count: 1 }));
    assert_eq!(battle.next_tick(), 1);
}

#[test]
fn truncated_results_abort_without_touching_the_modules() {
    let mut battle = simulating_session(0);
    battle.on_frame(at(15_000));
    let ships = battle.ships().clone();
    let results = vec![0x01, 0x01];
    assert_eq!(battle.receive_simulation_results(results, at(15_700)), Err(BattleError::Truncated));
    assert_eq!(battle.stage(), Stage::Aborted(BattleError::Truncated));
    assert_eq!(battle.ships(), &ships);
    assert_eq!(battle.on_frame(at(16_000)), FrameAction::Aborted(BattleError::Truncated));
    assert_eq!(battle.ships(), &ships);
}

#[test]
fn empty_results_are_truncated() {
    let mut battle = simulating_session(0);
    battle.on_frame(at(15_000));
    assert_eq!(battle.receive_simulation_results(vec![], at(15_700)), Err(BattleError::Truncated));
    assert_eq!(battle.stage(), Stage::Aborted(BattleError::Truncated));
}

#[test]
fn results_with_a_plan_tag_abort_the_session() {
    let mut battle = simulating_session(0);
    battle.on_frame(at(15_000));
    assert_eq!(
        battle.receive_simulation_results(vec![0x00, 0x00, 0x01], at(15_700)),
        Err(BattleError::BadDiscriminant)
    );
    assert_eq!(battle.stage(), Stage::Aborted(BattleError::BadDiscriminant));
}

#[test]
fn a_packet_in_the_wrong_stage_aborts_the_session() {
    let mut planning = planning_session(0);
    assert_eq!(
        planning.receive_simulation_results(vec![0x01, 0, 0], at(5)),
        Err(BattleError::UnexpectedPacket)
    );
    assert_eq!(planning.stage(), Stage::Aborted(BattleError::UnexpectedPacket));
    let mut simulating = simulating_session(0);
    assert_eq!(simulating.receive_roster(opening_roster(), at(10_001)), Err(BattleError::UnexpectedPacket));
    assert_eq!(simulating.stage(), Stage::Aborted(BattleError::UnexpectedPacket));
    let mut fresh = ClientBattleState::new(BattleConfig::standard());
    assert_eq!(fresh.receive_simulation_results(vec![0x01], at(0)), Err(BattleError::UnexpectedPacket));
}

#[test]
fn a_lost_connection_aborts_the_session() {
    let mut battle = simulating_session(0);
    battle.on_frame(at(15_000));
    assert_eq!(battle.connection_lost(), BattleError::ConnectionLost);
    assert_eq!(battle.stage(), Stage::Aborted(BattleError::ConnectionLost));
    assert_eq!(battle.on_frame(at(20_000)), FrameAction::Aborted(BattleError::ConnectionLost));
    let mut already = ClientBattleState::new(BattleConfig::standard());
    assert_eq!(already.receive_roster(vec![], at(0)), Err(BattleError::Truncated));
    assert_eq!(already.connection_lost(), BattleError::Truncated);
    assert_eq!(already.stage(), Stage::Aborted(BattleError::Truncated));
}
