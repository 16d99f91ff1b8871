//! The phase controller of one battle session, seen from a client.
//!
//! A session receives its roster, then alternates between planning and
//! simulating until it is aborted. The controller never waits, reads a
//! clock or touches the network itself: its caller reports each frame with
//! the current time and each received packet, and is told what to do next.
//!
//! One cycle: planning lasts a fixed time; when it is over the plan packet
//! is built, every module gets `before_simulation` and the tick clock starts
//! at zero. Each simulation frame dispatches every tick that has become due
//! since the last one, oldest first. The frame on which the simulation time
//! is over also gives every module `after_simulation`; the session then
//! waits for the results packet, applies it and goes back to planning.

use vstd::prelude::*;
use crate::battle_state_packets::{
    decode_packet,
    decode_packet_spec,
    encode_packet,
    packet_bytes,
    PacketId,
};
use crate::error::BattleError;
use crate::module::LifecycleOp;
use crate::roster::{decode_roster, roster_spec};
use crate::ship::{fleet_wf, same_shape, ClientId, Fleet, ShipRegistry, ShipView};
use crate::sim_element::{dispatch, lemma_dispatch_neutral};
use crate::tick_clock::{
    elapsed,
    elapsed_ms,
    lemma_poll_catch_up,
    lemma_tick_monotonic,
    tick_index,
    TickClock,
    TickSpan,
    Timestamp,
    DEFAULT_TICK_MS,
    MAX_ELAPSED_MS,
};

verus! {

/// Default length of the planning phase in milliseconds.
pub const DEFAULT_PLANNING_MS: u64 = 10_000;

/// Default length of the simulating phase in milliseconds.
pub const DEFAULT_SIMULATING_MS: u64 = 5_000;

/// The durations that shape a cycle.
#[derive(Clone, Copy, Debug, PartialEq, Eq, Structural)]
pub struct BattleConfig {
    /// Length of the planning phase, in milliseconds.
    pub planning_ms: u64,
    /// Length of the simulating phase, in milliseconds.
    pub simulating_ms: u64,
    /// Length of one tick, in milliseconds.
    pub tick_ms: u64,
}

impl BattleConfig {
    /// A tick has a positive length.
    pub open spec fn wf(self) -> bool {
        self.tick_ms > 0
    }

    /// The configuration with the given durations, or nothing when a tick
    /// would have no length.
    pub fn new(planning_ms: u64, simulating_ms: u64, tick_ms: u64) -> (r: Option<BattleConfig>)
        ensures
            r == if tick_ms > 0 {
                Some(BattleConfig { planning_ms, simulating_ms, tick_ms })
            } else {
                None
            },
    {
        if tick_ms > 0 {
            Some(BattleConfig { planning_ms, simulating_ms, tick_ms })
        } else {
            None
        }
    }

    /// Ten seconds of planning, five of simulation, twenty ticks a second.
    pub fn standard() -> (c: BattleConfig)
        ensures
            c.wf(),
            c == (BattleConfig {
                planning_ms: DEFAULT_PLANNING_MS,
                simulating_ms: DEFAULT_SIMULATING_MS,
                tick_ms: DEFAULT_TICK_MS,
            }),
    {
        BattleConfig {
            planning_ms: DEFAULT_PLANNING_MS,
            simulating_ms: DEFAULT_SIMULATING_MS,
            tick_ms: DEFAULT_TICK_MS,
        }
    }
}

/// The two alternating phases of a battle.
#[derive(Clone, Copy, Debug, PartialEq, Eq, Structural)]
pub enum Phase {
    Planning,
    Simulating,
}

/// Where a session stands.
#[derive(Clone, Copy, Debug, PartialEq, Eq, Structural)]
pub enum Stage {
    /// Waiting for the roster packet that opens the battle.
    AwaitingRoster,
    /// Players set their orders.
    Planning,
    /// Orders are replayed tick by tick.
    Simulating,
    /// The simulation has run its time; waiting for the results packet.
    AwaitingResults,
    /// The session was terminated for the given reason.
    Aborted(BattleError),
}

/// What the caller is to do after reporting a frame.
#[derive(Clone, Debug, PartialEq, Eq)]
pub enum FrameAction {
    /// Nothing to draw: receive the packet the session is waiting for.
    Wait,
    /// Planning goes on: poll input, take orders, draw the planning view.
    Plan,
    /// Planning is over and the simulation has begun: send this plan packet.
    SendPlans(Vec<u8>),
    /// These ticks were simulated: draw the simulation view.
    Simulated(TickSpan),
    /// These ticks were simulated and the simulation is over: draw the
    /// simulation view, then receive the results packet.
    SimulationEnded(TickSpan),
    /// The session is over.
    Aborted(BattleError),
}

/// The mathematical content of a `FrameAction`.
pub enum FrameActionView {
    Wait,
    Plan,
    SendPlans(Seq<u8>),
    Simulated(TickSpan),
    SimulationEnded(TickSpan),
    Aborted(BattleError),
}

impl View for FrameAction {
    type V = FrameActionView;

    open spec fn view(&self) -> FrameActionView {
        match self {
            FrameAction::Wait => FrameActionView::Wait,
            FrameAction::Plan => FrameActionView::Plan,
            FrameAction::SendPlans(bytes) => FrameActionView::SendPlans(bytes@),
            FrameAction::Simulated(span) => FrameActionView::Simulated(*span),
            FrameAction::SimulationEnded(span) => FrameActionView::SimulationEnded(*span),
            FrameAction::Aborted(e) => FrameActionView::Aborted(*e),
        }
    }
}

/// The mathematical content of a session.
pub struct BattleModel {
    /// The ships, in traversal order.
    pub fleet: Fleet,
    pub config: BattleConfig,
    pub stage: Stage,
    /// Start of the current phase, and the next tick of the simulation.
    pub clock: TickClock,
}

/// The ticks of a span as lifecycle steps, in ascending order.
pub open spec fn tick_steps(span: TickSpan) -> Seq<LifecycleOp> {
    Seq::new(span.count as nat, |k: int| LifecycleOp::SimulationTime((span.first + k) as u64))
}

/// The fleet after each of the steps has been dispatched once, one after
/// the other.
pub open spec fn run_steps(fleet: Fleet, steps: Seq<LifecycleOp>) -> Fleet
    decreases steps.len(),
{
    if steps.len() == 0 {
        fleet
    } else {
        dispatch(run_steps(fleet, steps.drop_last()), steps.last())
    }
}

/// The lifecycle steps that a frame at `now` dispatches, in order: one
/// `BeforeSimulation` on the frame that ends planning; during simulation
/// every tick that has become due, and one `AfterSimulation` behind them on
/// the frame that finds the simulation time over; nothing otherwise.
pub open spec fn frame_steps(s: BattleModel, now: Timestamp) -> Seq<LifecycleOp> {
    match s.stage {
        Stage::Planning => if elapsed_ms(s.clock.start, now) >= s.config.planning_ms {
            seq![LifecycleOp::BeforeSimulation]
        } else {
            Seq::empty()
        },
        Stage::Simulating => {
            let span = s.clock.poll_spec(now).1;
            if elapsed_ms(s.clock.start, now) >= s.config.simulating_ms {
                tick_steps(span).push(LifecycleOp::AfterSimulation)
            } else {
                tick_steps(span)
            }
        },
        _ => Seq::empty(),
    }
}

/// The session after a frame at `now`, and what the caller is told.
pub open spec fn frame_spec(s: BattleModel, now: Timestamp) -> (BattleModel, FrameActionView) {
    match s.stage {
        Stage::AwaitingRoster => (s, FrameActionView::Wait),
        Stage::AwaitingResults => (s, FrameActionView::Wait),
        Stage::Aborted(e) => (s, FrameActionView::Aborted(e)),
        Stage::Planning => if elapsed_ms(s.clock.start, now) >= s.config.planning_ms {
            (
                BattleModel {
                    fleet: run_steps(s.fleet, frame_steps(s, now)),
                    stage: Stage::Simulating,
                    clock: TickClock { start: now, tick_ms: s.config.tick_ms, next_tick: 0 },
                    ..s
                },
                FrameActionView::SendPlans(packet_bytes(s.fleet, PacketId::Plan)),
            )
        } else {
            (s, FrameActionView::Plan)
        },
        Stage::Simulating => {
            let (clock, span) = s.clock.poll_spec(now);
            let fleet = run_steps(s.fleet, frame_steps(s, now));
            if elapsed_ms(s.clock.start, now) >= s.config.simulating_ms {
                (
                    BattleModel { fleet, stage: Stage::AwaitingResults, clock, ..s },
                    FrameActionView::SimulationEnded(span),
                )
            } else {
                (BattleModel { fleet, clock, ..s }, FrameActionView::Simulated(span))
            }
        },
    }
}

/// The session after frames at the given times, one after the other.
pub open spec fn run_frames(s: BattleModel, times: Seq<Timestamp>) -> BattleModel
    decreases times.len(),
{
    if times.len() == 0 {
        s
    } else {
        run_frames(frame_spec(s, times[0]).0, times.skip(1))
    }
}

/// The lifecycle steps dispatched by frames at the given times, one after
/// the other.
pub open spec fn steps_over(s: BattleModel, times: Seq<Timestamp>) -> Seq<LifecycleOp>
    decreases times.len(),
{
    if times.len() == 0 {
        Seq::empty()
    } else {
        frame_steps(s, times[0]) + steps_over(frame_spec(s, times[0]).0, times.skip(1))
    }
}

/// Dispatching some steps and then some more is dispatching all of them in
/// a row.
pub proof fn lemma_run_steps_concat(fleet: Fleet, a: Seq<LifecycleOp>, b: Seq<LifecycleOp>)
    ensures
        run_steps(run_steps(fleet, a), b) == run_steps(fleet, a + b),
    decreases b.len(),
{
    if b.len() == 0 {
        assert(a + b =~= a);
    } else {
        lemma_run_steps_concat(fleet, a, b.drop_last());
        assert((a + b).drop_last() =~= a + b.drop_last());
        assert((a + b).last() == b.last());
    }
}

/// No module kind has a rule for any lifecycle step, so the steps of the
/// simulation leave the fleet as it is.
pub proof fn lemma_run_steps_neutral(fleet: Fleet, steps: Seq<LifecycleOp>)
    ensures
        run_steps(fleet, steps) == fleet,
    decreases steps.len(),
{
    if steps.len() > 0 {
        lemma_run_steps_neutral(fleet, steps.drop_last());
        lemma_dispatch_neutral(fleet, steps.last(), fleet.len());
    }
}

/// What the frames leave of the fleet is what their steps, dispatched one
/// after the other, make of it.
pub proof fn lemma_frames_run_their_steps(s: BattleModel, times: Seq<Timestamp>)
    ensures
        run_frames(s, times).fleet == run_steps(s.fleet, steps_over(s, times)),
    decreases times.len(),
{
    if times.len() > 0 {
        let next = frame_spec(s, times[0]).0;
        lemma_frames_run_their_steps(next, times.skip(1));
        assert(next.fleet == run_steps(s.fleet, frame_steps(s, times[0])));
        lemma_run_steps_concat(s.fleet, frame_steps(s, times[0]), steps_over(next, times.skip(1)));
    }
}

/// Catch-up at the level of the session: while the simulation lasts, two
/// frames in a row dispatch, one after the other, exactly the steps that
/// the later of them alone would, and leave the session as it would. Every
/// tick due by then has been dispatched once, in ascending order, however
/// the frames fell.
pub proof fn lemma_frame_catch_up(s: BattleModel, t1: Timestamp, t2: Timestamp)
    requires
        s.stage == Stage::Simulating,
        s.clock.wf(),
        t1.wf(),
        t2.wf(),
        t1.nanos() <= t2.nanos(),
        elapsed_ms(s.clock.start, t1) < s.config.simulating_ms,
    ensures
        frame_steps(s, t1) + frame_steps(frame_spec(s, t1).0, t2) == frame_steps(s, t2),
        frame_spec(frame_spec(s, t1).0, t2).0 == frame_spec(s, t2).0,
{
    lemma_poll_catch_up(s.clock, t1, t2);
    let (c1, s1) = s.clock.poll_spec(t1);
    let (c2, s2) = c1.poll_spec(t2);
    let span = s.clock.poll_spec(t2).1;
    let next = frame_spec(s, t1).0;
    assert(tick_steps(s1) + tick_steps(s2) =~= tick_steps(span));
    assert(frame_steps(s, t1) + frame_steps(next, t2) =~= frame_steps(s, t2));
    lemma_run_steps_concat(s.fleet, frame_steps(s, t1), frame_steps(next, t2));
}

/// The cycle invariant. Take a session in the simulation and any run of
/// frames at ascending times of which the last, and only the last, finds the
/// simulation time over. Together they dispatch every tick from the next
/// one to the last one due, each once and in ascending order, and then one
/// `AfterSimulation`; after them the session waits for results.
pub proof fn lemma_simulation_cycle(s: BattleModel, times: Seq<Timestamp>)
    requires
        s.stage == Stage::Simulating,
        s.clock.wf(),
        times.len() > 0,
        forall|a: int| 0 <= a < times.len() ==> (#[trigger] times[a]).wf(),
        forall|a: int, b: int|
            0 <= a <= b < times.len() ==> (#[trigger] times[a]).nanos() <= (
            #[trigger] times[b]).nanos(),
        s.clock.next_tick <= tick_index(s.clock.start, times[0], s.clock.tick_ms) + 1,
        forall|a: int|
            0 <= a < times.len() - 1 ==> elapsed_ms(s.clock.start, #[trigger] times[a])
                < s.config.simulating_ms,
        elapsed_ms(s.clock.start, times.last()) >= s.config.simulating_ms,
    ensures
        ({
            let end = run_frames(s, times);
            let due = tick_index(s.clock.start, times.last(), s.clock.tick_ms);
            let ticks = TickSpan {
                first: s.clock.next_tick,
                count: (due + 1 - s.clock.next_tick) as u64,
            };
            &&& end.stage == Stage::AwaitingResults
            &&& end.clock.next_tick == due + 1
            &&& steps_over(s, times) == tick_steps(ticks).push(LifecycleOp::AfterSimulation)
            &&& end.fleet == run_steps(s.fleet, steps_over(s, times))
        }),
    decreases times.len(),
{
    let due = tick_index(s.clock.start, times.last(), s.clock.tick_ms);
    let ticks = TickSpan { first: s.clock.next_tick, count: (due + 1 - s.clock.next_tick) as u64 };
    lemma_tick_monotonic(s.clock.start, times[0], times.last(), s.clock.tick_ms);
    lemma_frames_run_their_steps(s, times);
    let next = frame_spec(s, times[0]).0;
    let rest = times.skip(1);
    if times.len() == 1 {
        assert(rest.len() == 0);
        assert(run_frames(next, rest) == next);
        assert(steps_over(next, rest) =~= Seq::<LifecycleOp>::empty());
        assert(steps_over(s, times) =~= frame_steps(s, times[0]));
    } else {
        let due0 = tick_index(s.clock.start, times[0], s.clock.tick_ms);
        assert(rest.last() == times.last());
        assert(rest[0] == times[1]);
        lemma_tick_monotonic(s.clock.start, times[0], times[1], s.clock.tick_ms);
        assert forall|a: int| 0 <= a < rest.len() implies (#[trigger] rest[a]).wf() by {
            assert(rest[a] == times[a + 1]);
        }
        assert forall|a: int, b: int| 0 <= a <= b < rest.len() implies (#[trigger] rest[a]).nanos()
            <= (#[trigger] rest[b]).nanos() by {
            assert(rest[a] == times[a + 1]);
            assert(rest[b] == times[b + 1]);
        }
        assert forall|a: int| 0 <= a < rest.len() - 1 implies elapsed_ms(
            next.clock.start,
            #[trigger] rest[a],
        ) < next.config.simulating_ms by {
            assert(rest[a] == times[a + 1]);
        }
        lemma_simulation_cycle(next, rest);
        let later = TickSpan { first: (due0 + 1) as u64, count: (due - due0) as u64 };
        assert(frame_steps(s, times[0]) + tick_steps(later).push(LifecycleOp::AfterSimulation)
            =~= tick_steps(ticks).push(LifecycleOp::AfterSimulation));
    }
}

/// One whole simulating phase, from the frame that ends planning to the
/// frame that ends the simulation, whatever the number of frames and ticks
/// in between: the steps dispatched are one `BeforeSimulation`, then every
/// tick from 0 to the last one due, each once and in ascending order, then
/// one `AfterSimulation`, and nothing else.
pub proof fn lemma_phase_cycle(s: BattleModel, entry: Timestamp, times: Seq<Timestamp>)
    requires
        s.stage == Stage::Planning,
        s.config.wf(),
        entry.wf(),
        elapsed_ms(s.clock.start, entry) >= s.config.planning_ms,
        times.len() > 0,
        forall|a: int| 0 <= a < times.len() ==> (#[trigger] times[a]).wf(),
        forall|a: int, b: int|
            0 <= a <= b < times.len() ==> (#[trigger] times[a]).nanos() <= (
            #[trigger] times[b]).nanos(),
        forall|a: int|
            0 <= a < times.len() - 1 ==> elapsed_ms(entry, #[trigger] times[a])
                < s.config.simulating_ms,
        elapsed_ms(entry, times.last()) >= s.config.simulating_ms,
    ensures
        ({
            let frames = seq![entry] + times;
            let end = run_frames(s, frames);
            let due = tick_index(entry, times.last(), s.config.tick_ms);
            let ticks = TickSpan { first: 0, count: (due + 1) as u64 };
            &&& end.stage == Stage::AwaitingResults
            &&& steps_over(s, frames) == seq![LifecycleOp::BeforeSimulation] + tick_steps(
                ticks,
            ).push(LifecycleOp::AfterSimulation)
            &&& end.fleet == run_steps(s.fleet, steps_over(s, frames))
        }),
{
    let frames = seq![entry] + times;
    let entered = frame_spec(s, entry).0;
    assert(frames[0] == entry);
    assert(frames.skip(1) =~= times);
    lemma_simulation_cycle(entered, times);
    lemma_frames_run_their_steps(s, frames);
}

/// One battle session of a client.
#[derive(Clone, Debug, PartialEq, Eq)]
pub struct ClientBattleState {
    ships: ShipRegistry,
    config: BattleConfig,
    stage: Stage,
    clock: TickClock,
}

impl View for ClientBattleState {
    type V = BattleModel;

    closed spec fn view(&self) -> BattleModel {
        BattleModel {
            fleet: self.ships@,
            config: self.config,
            stage: self.stage,
            clock: self.clock,
        }
    }
}

impl ClientBattleState {
    /// The session invariant: the ships are in order, a tick has a length
    /// and the clock runs at the configured rate.
    pub open spec fn wf(&self) -> bool {
        &&& fleet_wf(self@.fleet)
        &&& self@.config.wf()
        &&& self@.clock.wf()
        &&& self@.clock.tick_ms == self@.config.tick_ms
    }

    /// A session that waits for its roster.
    pub fn new(config: BattleConfig) -> (s: ClientBattleState)
        requires
            config.wf(),
        ensures
            s.wf(),
            s@.fleet.len() == 0,
            s@.config == config,
            s@.stage == Stage::AwaitingRoster,
            s@.clock == (TickClock {
                start: Timestamp { sec: 0, nsec: 0 },
                tick_ms: config.tick_ms,
                next_tick: 0,
            }),
    {
        ClientBattleState {
            ships: ShipRegistry::new(),
            config,
            stage: Stage::AwaitingRoster,
            clock: TickClock::new(Timestamp::epoch(), config.tick_ms),
        }
    }

    /// Where the session stands.
    pub fn stage(&self) -> (st: Stage)
        ensures
            st == self@.stage,
    {
        self.stage
    }

    /// The phase the battle is in, if it is in one: results are awaited
    /// within the simulating phase.
    pub fn phase(&self) -> (p: Option<Phase>)
        ensures
            p == match self@.stage {
                Stage::Planning => Some(Phase::Planning),
                Stage::Simulating => Some(Phase::Simulating),
                Stage::AwaitingResults => Some(Phase::Simulating),
                Stage::AwaitingRoster => None,
                Stage::Aborted(_) => None,
            },
    {
        match self.stage {
            Stage::Planning => Some(Phase::Planning),
            Stage::Simulating => Some(Phase::Simulating),
            Stage::AwaitingResults => Some(Phase::Simulating),
            Stage::AwaitingRoster => None,
            Stage::Aborted(_) => None,
        }
    }

    /// The ships of the battle.
    pub fn ships(&self) -> (r: &ShipRegistry)
        ensures
            r@ == self@.fleet,
    {
        &self.ships
    }

    /// The configured durations.
    pub fn config(&self) -> (c: BattleConfig)
        ensures
            c == self@.config,
    {
        self.config
    }

    /// Index of the first tick of the current simulation that has not been
    /// dispatched yet.
    pub fn next_tick(&self) -> (t: u64)
        ensures
            t == self@.clock.next_tick,
    {
        self.clock.next_tick
    }

    /// Opens the battle with its roster packet, received at `now`, and
    /// starts the first planning phase. A session that is not waiting for
    /// its roster is aborted with `UnexpectedPacket`; a roster that does not
    /// decode aborts the session with the decoder's failure. A session that
    /// was aborted before reports its first failure again.
    pub fn receive_roster(&mut self, bytes: Vec<u8>, now: Timestamp) -> (r: Result<
        (),
        BattleError,
    >)
        requires
            old(self).wf(),
            now.wf(),
        ensures
            final(self).wf(),
            final(self)@.config == old(self)@.config,
            match old(self)@.stage {
                Stage::AwaitingRoster => match r {
                    Ok(()) => {
                        &&& roster_spec(bytes@) matches Ok(ships)
                        &&& final(self)@.stage == Stage::Planning
                        &&& final(self)@.clock == (TickClock {
                            start: now,
                            tick_ms: old(self)@.config.tick_ms,
                            next_tick: 0,
                        })
                        &&& final(self)@.fleet.len() == ships.len()
                        &&& forall|s: ShipView|
                            #![trigger final(self)@.fleet.contains(s)]
                            #![trigger ships.contains(s)]
                            final(self)@.fleet.contains(s) <==> ships.contains(s)
                    },
                    Err(e) => {
                        &&& roster_spec(bytes@) == Err::<Seq<ShipView>, BattleError>(e)
                        &&& final(self)@ == (BattleModel {
                            stage: Stage::Aborted(e),
                            ..old(self)@
                        })
                    },
                },
                Stage::Aborted(e) => r == Err::<(), BattleError>(e) && final(self)@ == old(self)@,
                _ => {
                    &&& r == Err::<(), BattleError>(BattleError::UnexpectedPacket)
                    &&& final(self)@ == (BattleModel {
                        stage: Stage::Aborted(BattleError::UnexpectedPacket),
                        ..old(self)@
                    })
                },
            },
    {
        match self.stage {
            Stage::AwaitingRoster => match decode_roster(bytes) {
                Ok(registry) => {
                    self.ships = registry;
                    self.stage = Stage::Planning;
                    self.clock = TickClock::new(now, self.config.tick_ms);
                    Ok(())
                },
                Err(e) => {
                    self.stage = Stage::Aborted(e);
                    Err(e)
                },
            },
            Stage::Aborted(e) => Err(e),
            _ => {
                self.stage = Stage::Aborted(BattleError::UnexpectedPacket);
                Err(BattleError::UnexpectedPacket)
            },
        }
    }

    /// Records a player's order during planning: module `module` of the
    /// ship of participant `ship` is switched on, or off. Returns whether the order was taken; it is not outside
    /// the planning phase or when there is no such module.
    pub fn plan(&mut self, ship: ClientId, module: usize, active: bool) -> (taken: bool)
        requires
            old(self).wf(),
        ensures
            final(self).wf(),
            taken == (old(self)@.stage == Stage::Planning && exists|i: int|
                0 <= i < old(self)@.fleet.len() && (#[trigger] old(self)@.fleet[i]).id == ship
                    && module < old(self)@.fleet[i].modules.len()),
            !taken ==> final(self)@ == old(self)@,
            taken ==> exists|i: int|
                {
                    &&& 0 <= i < old(self)@.fleet.len()
                    &&& (#[trigger] old(self)@.fleet[i]).id == ship
                    &&& final(self)@ == (BattleModel {
                        fleet: old(self)@.fleet.update(
                            i,
                            ShipView {
                                id: ship,
                                modules: old(self)@.fleet[i].modules.update(
                                    module as int,
                                    old(self)@.fleet[i].modules[module as int].with_active(active),
                                ),
                            },
                        ),
                        ..old(self)@
                    })
                },
    {
        match self.stage {
            Stage::Planning => {},
            _ => {
                return false;
            },
        }
        match self.ships.index_of(ship) {
            Some(i) => {
                if module < self.ships.module_count(i) {
                    let mut m = self.ships.module_at(i, module);
                    m.set_active(active);
                    self.ships.set_module(i, module, m);
                    true
                } else {
                    proof {
                        let fleet = self@.fleet;
                        assert forall|k: int|
                            0 <= k < fleet.len() && (#[trigger] fleet[k]).id == ship implies !(
                        module < fleet[k].modules.len()) by {
                            if k < i {
                                assert(fleet[k].id < fleet[i as int].id);
                            } else if k > i {
                                assert(fleet[i as int].id < fleet[k].id);
                            }
                        }
                    }
                    false
                }
            },
            None => false,
        }
    }

    /// The plan packet for the orders as they stand.
    pub fn build_plans_packet(&self) -> (bytes: Vec<u8>)
        ensures
            bytes@ == packet_bytes(self@.fleet, PacketId::Plan),
    {
        encode_packet(&self.ships, PacketId::Plan)
    }

    /// Carries one lifecycle step to every module of every ship.
    fn apply_to_sim_elements(&mut self, op: LifecycleOp)
        requires
            old(self).wf(),
        ensures
            final(self).wf(),
            final(self)@ == (BattleModel { fleet: dispatch(old(self)@.fleet, op), ..old(self)@ }),
            final(self)@ == old(self)@,
    {
        self.ships.dispatch(op);
    }

    /// Simulates one tick on every module of every ship.
    fn simulate(&mut self, time: u64)
        requires
            old(self).wf(),
        ensures
            final(self).wf(),
            final(self)@ == (BattleModel {
                fleet: dispatch(old(self)@.fleet, LifecycleOp::SimulationTime(time)),
                ..old(self)@
            }),
    {
        self.apply_to_sim_elements(LifecycleOp::SimulationTime(time));
    }

    /// Advances the session by one frame at `now` and says what the
    /// caller is to do. The frame dispatches the lifecycle steps of
    /// `frame_steps`; as no module kind has a rule for any of them, the
    /// fleet is afterwards what it was.
    pub fn on_frame(&mut self, now: Timestamp) -> (action: FrameAction)
        requires
            old(self).wf(),
            now.wf(),
        ensures
            final(self).wf(),
            final(self)@ == frame_spec(old(self)@, now).0,
            action@ == frame_spec(old(self)@, now).1,
            final(self)@.fleet == old(self)@.fleet,
    {
        proof {
            lemma_run_steps_neutral(self@.fleet, frame_steps(self@, now));
        }
        match self.stage {
            Stage::AwaitingRoster => FrameAction::Wait,
            Stage::AwaitingResults => FrameAction::Wait,
            Stage::Aborted(e) => FrameAction::Aborted(e),
            Stage::Planning => {
                if elapsed(self.clock.start, now) >= self.config.planning_ms {
                    let ghost before = self@;
                    let packet = self.build_plans_packet();
                    self.apply_to_sim_elements(LifecycleOp::BeforeSimulation);
                    self.stage = Stage::Simulating;
                    self.clock = TickClock::new(now, self.config.tick_ms);
                    proof {
                        let steps = frame_steps(before, now);
                        assert(steps.drop_last() =~= Seq::<LifecycleOp>::empty());
                        assert(run_steps(before.fleet, steps.drop_last()) == before.fleet);
                    }
                    FrameAction::SendPlans(packet)
                } else {
                    FrameAction::Plan
                }
            },
            Stage::Simulating => {
                let ghost before = self@;
                let over = elapsed(self.clock.start, now) >= self.config.simulating_ms;
                let span = self.clock.poll(now);
                let ghost polled = self@;
                let ghost ticks = tick_steps(span);
                let mut done: u64 = 0;
                while done < span.count
                    invariant
                        done <= span.count,
                        span.first + span.count <= MAX_ELAPSED_MS + 1,
                        ticks == tick_steps(span),
                        self.wf(),
                        self@ == (BattleModel {
                            fleet: run_steps(before.fleet, ticks.subrange(0, done as int)),
                            ..polled
                        }),
                    decreases span.count - done,
                {
                    self.simulate(span.first + done);
                    proof {
                        let upto = ticks.subrange(0, done + 1);
                        assert(upto.drop_last() =~= ticks.subrange(0, done as int));
                        assert(upto.last() == LifecycleOp::SimulationTime(
                            (span.first + done) as u64,
                        ));
                    }
                    done = done + 1;
                }
                assert(ticks.subrange(0, done as int) =~= ticks);
                if over {
                    self.apply_to_sim_elements(LifecycleOp::AfterSimulation);
                    self.stage = Stage::AwaitingResults;
                    proof {
                        let steps = ticks.push(LifecycleOp::AfterSimulation);
                        assert(steps.drop_last() =~= ticks);
                    }
                    FrameAction::SimulationEnded(span)
                } else {
                    FrameAction::Simulated(span)
                }
            },
        }
    }

    /// Ends a simulation before its time is over, as when the window is
    /// closed: every module gets `AfterSimulation` once and the session
    /// waits for results. Returns whether a simulation was under way;
    /// otherwise nothing changes.
    pub fn end_simulation(&mut self) -> (ended: bool)
        requires
            old(self).wf(),
        ensures
            final(self).wf(),
            ended == (old(self)@.stage == Stage::Simulating),
            ended ==> final(self)@ == (BattleModel {
                fleet: dispatch(old(self)@.fleet, LifecycleOp::AfterSimulation),
                stage: Stage::AwaitingResults,
                ..old(self)@
            }),
            !ended ==> final(self)@ == old(self)@,
            final(self)@.fleet == old(self)@.fleet,
    {
        match self.stage {
            Stage::Simulating => {
                self.apply_to_sim_elements(LifecycleOp::AfterSimulation);
                self.stage = Stage::AwaitingResults;
                true
            },
            _ => false,
        }
    }

    /// Applies the results packet, received at `now`, and starts the
    /// next planning phase. The ships and the kinds of their modules stay
    /// what they were. A session that is not waiting for results is
    /// aborted with `UnexpectedPacket`; a packet that does not decode aborts
    /// the session with the decoder's failure and leaves every module as it
    /// was. A session that was aborted before reports its first failure
    /// again.
    pub fn receive_simulation_results(&mut self, bytes: Vec<u8>, now: Timestamp) -> (r: Result<
        (),
        BattleError,
    >)
        requires
            old(self).wf(),
            now.wf(),
        ensures
            final(self).wf(),
            match old(self)@.stage {
                Stage::AwaitingResults => match r {
                    Ok(()) => {
                        &&& decode_packet_spec(old(self)@.fleet, PacketId::Results, bytes@) == Ok::<
                            Fleet,
                            BattleError,
                        >(final(self)@.fleet)
                        &&& same_shape(old(self)@.fleet, final(self)@.fleet)
                        &&& final(self)@ == (BattleModel {
                            fleet: final(self)@.fleet,
                            stage: Stage::Planning,
                            clock: TickClock {
                                start: now,
                                tick_ms: old(self)@.config.tick_ms,
                                next_tick: 0,
                            },
                            ..old(self)@
                        })
                    },
                    Err(e) => {
                        &&& decode_packet_spec(old(self)@.fleet, PacketId::Results, bytes@) == Err::<
                            Fleet,
                            BattleError,
                        >(e)
                        &&& final(self)@ == (BattleModel {
                            stage: Stage::Aborted(e),
                            ..old(self)@
                        })
                    },
                },
                Stage::Aborted(e) => r == Err::<(), BattleError>(e) && final(self)@ == old(self)@,
                _ => {
                    &&& r == Err::<(), BattleError>(BattleError::UnexpectedPacket)
                    &&& final(self)@ == (BattleModel {
                        stage: Stage::Aborted(BattleError::UnexpectedPacket),
                        ..old(self)@
                    })
                },
            },
    {
        match self.stage {
            Stage::AwaitingResults => match decode_packet(&self.ships, PacketId::Results, bytes) {
                Ok(updated) => {
                    self.ships = updated;
                    self.stage = Stage::Planning;
                    self.clock = TickClock::new(now, self.config.tick_ms);
                    Ok(())
                },
                Err(e) => {
                    self.stage = Stage::Aborted(e);
                    Err(e)
                },
            },
            Stage::Aborted(e) => Err(e),
            _ => {
                self.stage = Stage::Aborted(BattleError::UnexpectedPacket);
                Err(BattleError::UnexpectedPacket)
            },
        }
    }

    /// Reports that the channel to the peer failed. The session is aborted
    /// with `ConnectionLost` unless it was aborted before; the failure that
    /// ended the session is returned.
    pub fn connection_lost(&mut self) -> (e: BattleError)
        requires
            old(self).wf(),
        ensures
            final(self).wf(),
            e == match old(self)@.stage {
                Stage::Aborted(first) => first,
                _ => BattleError::ConnectionLost,
            },
            final(self)@ == (BattleModel { stage: Stage::Aborted(e), ..old(self)@ }),
    {
        match self.stage {
            Stage::Aborted(first) => first,
            _ => {
                self.stage = Stage::Aborted(BattleError::ConnectionLost);
                BattleError::ConnectionLost
            },
        }
    }
}

} // verus!
