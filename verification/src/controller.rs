//! The lifecycle controller: a state machine that sequences one boot —
//! resolve the search path, run the three pipeline steps, allocate a port,
//! spawn the server, await readiness — and accepts a shutdown request in any
//! state. Each step takes the observed outcome of the previous action as an
//! event and says which action the host must perform next; performing the
//! actions (subprocesses, probes, the display surface) is the host's job.
//!
//! The handle of the spawned server is recorded in the slot the moment the
//! spawn succeeds, before the readiness wait begins, so a shutdown that
//! arrives during the wait always finds the live process. A shutdown in any
//! state drains the slot and carries the resulting termination plan; a
//! second shutdown finds the slot empty and plans nothing.

use crate::pipeline::StepResult;
use crate::poller::PollResult;
use crate::supervisor::spec_drain_plan;
use crate::supervisor::HandleSlot;
use crate::supervisor::ServerHandle;
use crate::supervisor::ShutdownPlan;
use crate::supervisor::TERMINATE_GRACE_MS;
use vstd::prelude::*;

verus! {

/// The ordered progress marker of one boot, surfaced outward and never
/// revisited; `ShuttingDown` is reachable from every phase.
#[derive(Clone, Copy, PartialEq, Eq, Structural, Debug)]
pub enum Phase {
    Idle,
    ResolvingPath,
    Syncing,
    CheckingDeps,
    Building,
    AllocatingPort,
    Spawning,
    AwaitingReady,
    Ready,
    Degraded,
    ShuttingDown,
}

/// What the host observed: the completion of the action the controller
/// asked for, or an external shutdown request, which may arrive in any
/// phase.
#[derive(Debug)]
pub enum Event {
    Start,
    PathResolved,
    SyncFinished(StepResult),
    DepsFinished(StepResult),
    BuildFinished(StepResult),
    PortChosen(u16),
    SpawnSucceeded(ServerHandle),
    SpawnFailed,
    PollFinished(PollResult),
    ShutdownRequested,
}

/// What the host must do next.
#[derive(Clone, Copy, PartialEq, Eq, Structural, Debug)]
pub enum Action {
    ResolvePath,
    RunSync,
    RunDependencyStep,
    RunBuild,
    AllocatePort,
    SpawnServer(u16),
    AwaitServer(u16),
    Navigate(u16),
    ReportDegraded,
    Terminate(ShutdownPlan),
}

/// How far along the one-directional boot sequence a phase is. The two
/// terminal boot outcomes share a rank; `ShuttingDown` is orthogonal and
/// ranks above everything.
pub open spec fn phase_rank(p: Phase) -> int {
    match p {
        Phase::Idle => 0,
        Phase::ResolvingPath => 1,
        Phase::Syncing => 2,
        Phase::CheckingDeps => 3,
        Phase::Building => 4,
        Phase::AllocatingPort => 5,
        Phase::Spawning => 6,
        Phase::AwaitingReady => 7,
        Phase::Ready => 8,
        Phase::Degraded => 8,
        Phase::ShuttingDown => 9,
    }
}

/// The lifecycle controller: the current phase, the slot holding the handle
/// of the spawned server (if any), and the allocated port once one is
/// chosen.
pub struct Controller {
    pub phase: Phase,
    pub slot: HandleSlot,
    pub port: Option<u16>,
}

impl Controller {
    pub open spec fn spec_phase(self) -> Phase {
        self.phase
    }

    pub open spec fn spec_handle(self) -> Option<ServerHandle> {
        self.slot.spec_handle()
    }

    pub open spec fn spec_port(self) -> Option<u16> {
        self.port
    }

    /// The controller's invariant: no handle exists before a spawn
    /// succeeded, the phases from spawning onward know the allocated port,
    /// during the readiness wait the slot holds the handle of the server on
    /// that port, and a shutdown leaves the slot drained.
    pub open spec fn wf(self) -> bool {
        &&& (self.spec_handle() matches Some(h) ==> h.wf())
        &&& phase_rank(self.spec_phase()) < phase_rank(Phase::AwaitingReady) ==> self.spec_handle()
            is None
        &&& self.spec_phase() == Phase::ShuttingDown ==> self.spec_handle() is None
        &&& self.spec_phase() == Phase::Spawning ==> self.spec_port() is Some
        &&& self.spec_phase() == Phase::Ready ==> self.spec_port() is Some
        &&& self.spec_phase() == Phase::AwaitingReady ==> (self.spec_handle() matches Some(h)
            && self.spec_port() == Some(h.port))
    }

    /// The state a boot begins in.
    pub open spec fn spec_init() -> Controller {
        Controller { phase: Phase::Idle, slot: HandleSlot { handle: None }, port: None }
    }

    /// Which events the protocol admits in the current state: each action's
    /// completion only in the phase that asked for it, a shutdown request
    /// everywhere. A spawn success carries a real process id and the port
    /// the spawn was asked for.
    pub open spec fn event_enabled(self, ev: Event) -> bool {
        match ev {
            Event::Start => self.spec_phase() == Phase::Idle,
            Event::PathResolved => self.spec_phase() == Phase::ResolvingPath,
            Event::SyncFinished(_) => self.spec_phase() == Phase::Syncing,
            Event::DepsFinished(_) => self.spec_phase() == Phase::CheckingDeps,
            Event::BuildFinished(_) => self.spec_phase() == Phase::Building,
            Event::PortChosen(_) => self.spec_phase() == Phase::AllocatingPort,
            Event::SpawnSucceeded(h) => self.spec_phase() == Phase::Spawning && h.wf()
                && self.spec_port() == Some(h.port),
            Event::SpawnFailed => self.spec_phase() == Phase::Spawning,
            Event::PollFinished(_) => self.spec_phase() == Phase::AwaitingReady,
            Event::ShutdownRequested => true,
        }
    }

    /// The transition relation: the state after the event and the action the
    /// host must perform next. Pipeline step results are observed but never
    /// branch the sequence: a failed sync, install or build still moves to
    /// the next step, and a failed build still moves on to the spawn.
    pub open spec fn spec_step(self, ev: Event) -> (Controller, Action) {
        match ev {
            Event::ShutdownRequested => (
                Controller {
                    phase: Phase::ShuttingDown,
                    slot: HandleSlot { handle: None },
                    port: self.port,
                },
                Action::Terminate(spec_drain_plan(self.spec_handle())),
            ),
            Event::Start => (
                Controller { phase: Phase::ResolvingPath, ..self },
                Action::ResolvePath,
            ),
            Event::PathResolved => (Controller { phase: Phase::Syncing, ..self }, Action::RunSync),
            Event::SyncFinished(_) => (
                Controller { phase: Phase::CheckingDeps, ..self },
                Action::RunDependencyStep,
            ),
            Event::DepsFinished(_) => (Controller { phase: Phase::Building, ..self }, Action::RunBuild),
            Event::BuildFinished(_) => (
                Controller { phase: Phase::AllocatingPort, ..self },
                Action::AllocatePort,
            ),
            Event::PortChosen(p) => (
                Controller { phase: Phase::Spawning, port: Some(p), ..self },
                Action::SpawnServer(p),
            ),
            Event::SpawnSucceeded(h) => (
                Controller { phase: Phase::AwaitingReady, slot: HandleSlot { handle: Some(h) }, ..self },
                Action::AwaitServer(h.port),
            ),
            Event::SpawnFailed => (Controller { phase: Phase::Degraded, ..self }, Action::ReportDegraded),
            Event::PollFinished(r) => {
                if r == PollResult::Ready {
                    (Controller { phase: Phase::Ready, ..self }, Action::Navigate(self.port->0))
                } else {
                    // The process is intentionally left in the slot: a slow
                    // server may still become reachable, and shutdown will
                    // still find and terminate it.
                    (Controller { phase: Phase::Degraded, ..self }, Action::ReportDegraded)
                }
            },
        }
    }

    /// A fresh controller, ready to accept `Start`.
    pub fn new() -> (c: Controller)
        ensures
            c == Controller::spec_init(),
            c.wf(),
    {
        Controller { phase: Phase::Idle, slot: HandleSlot { handle: None }, port: None }
    }

    /// Feeds one observed event to the controller and returns the next
    /// action for the host to perform.
    pub fn step(&mut self, ev: Event) -> (a: Action)
        requires
            old(self).wf(),
            old(self).event_enabled(ev),
        ensures
            final(self).wf(),
            *final(self) == old(self).spec_step(ev).0,
            a == old(self).spec_step(ev).1,
    {
        match ev {
            Event::ShutdownRequested => {
                self.phase = Phase::ShuttingDown;
                let plan = self.slot.drain();
                Action::Terminate(plan)
            },
            Event::Start => {
                self.phase = Phase::ResolvingPath;
                Action::ResolvePath
            },
            Event::PathResolved => {
                self.phase = Phase::Syncing;
                Action::RunSync
            },
            Event::SyncFinished(_) => {
                self.phase = Phase::CheckingDeps;
                Action::RunDependencyStep
            },
            Event::DepsFinished(_) => {
                self.phase = Phase::Building;
                Action::RunBuild
            },
            Event::BuildFinished(_) => {
                self.phase = Phase::AllocatingPort;
                Action::AllocatePort
            },
            Event::PortChosen(p) => {
                self.phase = Phase::Spawning;
                self.port = Some(p);
                Action::SpawnServer(p)
            },
            Event::SpawnSucceeded(h) => {
                self.phase = Phase::AwaitingReady;
                let port = h.port;
                self.slot.record(h);
                Action::AwaitServer(port)
            },
            Event::SpawnFailed => {
                self.phase = Phase::Degraded;
                Action::ReportDegraded
            },
            Event::PollFinished(r) => {
                if r == PollResult::Ready {
                    self.phase = Phase::Ready;
                    let p = self.port.unwrap();
                    Action::Navigate(p)
                } else {
                    self.phase = Phase::Degraded;
                    Action::ReportDegraded
                }
            },
        }
    }
}

/// The status text a phase surfaces outward for display. Purely
/// observational: nothing branches on it.
pub fn phase_label(p: &Phase) -> (r: &'static str)
    ensures
        match *p {
            Phase::Idle => r@ == "starting"@,
            Phase::ResolvingPath => r@ == "resolving tools"@,
            Phase::Syncing => r@ == "checking updates"@,
            Phase::CheckingDeps => r@ == "checking dependencies"@,
            Phase::Building => r@ == "building"@,
            Phase::AllocatingPort => r@ == "starting server"@,
            Phase::Spawning => r@ == "starting server"@,
            Phase::AwaitingReady => r@ == "waiting for readiness"@,
            Phase::Ready => r@ == "ready"@,
            Phase::Degraded => r@ == "degraded"@,
            Phase::ShuttingDown => r@ == "shutting down"@,
        },
{
    match *p {
        Phase::Idle => "starting",
        Phase::ResolvingPath => "resolving tools",
        Phase::Syncing => "checking updates",
        Phase::CheckingDeps => "checking dependencies",
        Phase::Building => "building",
        Phase::AllocatingPort => "starting server",
        Phase::Spawning => "starting server",
        Phase::AwaitingReady => "waiting for readiness",
        Phase::Ready => "ready",
        Phase::Degraded => "degraded",
        Phase::ShuttingDown => "shutting down",
    }
}

/// The state a run of the protocol ends in.
pub open spec fn run_trace(c: Controller, evs: Seq<Event>) -> Controller
    decreases evs.len(),
{
    if evs.len() == 0 {
        c
    } else {
        run_trace(c.spec_step(evs[0]).0, evs.drop_first())
    }
}

/// Every event of the run is admitted in the state it arrives in.
pub open spec fn trace_enabled(c: Controller, evs: Seq<Event>) -> bool
    decreases evs.len(),
{
    evs.len() == 0 || (c.event_enabled(evs[0]) && trace_enabled(
        c.spec_step(evs[0]).0,
        evs.drop_first(),
    ))
}

/// The actions a run of the protocol asks the host to perform, in order.
pub open spec fn trace_actions(c: Controller, evs: Seq<Event>) -> Seq<Action>
    decreases evs.len(),
{
    if evs.len() == 0 {
        Seq::empty()
    } else {
        seq![c.spec_step(evs[0]).1] + trace_actions(c.spec_step(evs[0]).0, evs.drop_first())
    }
}

/// How many of the actions ask for the build step.
pub open spec fn build_count(actions: Seq<Action>) -> int
    decreases actions.len(),
{
    if actions.len() == 0 {
        0
    } else {
        (if actions[0] == Action::RunBuild {
            1int
        } else {
            0int
        }) + build_count(actions.drop_first())
    }
}

/// No external shutdown request occurs in the run.
pub open spec fn no_shutdown(evs: Seq<Event>) -> bool {
    forall|i: int| 0 <= i < evs.len() ==> !(#[trigger] evs[i] is ShutdownRequested)
}

/// Whether a phase lies at or past the build step.
pub open spec fn has_built(p: Phase) -> bool {
    phase_rank(p) >= phase_rank(Phase::Building)
}

/// Every enabled step preserves the controller's invariant.
pub proof fn lemma_step_preserves_wf(c: Controller, ev: Event)
    requires
        c.wf(),
        c.event_enabled(ev),
    ensures
        c.spec_step(ev).0.wf(),
{
}

/// The phase is a one-directional progress marker: every enabled step moves
/// it strictly forward, except that a shutdown request during the shutdown
/// itself changes nothing.
pub proof fn lemma_phase_one_directional(c: Controller, ev: Event)
    requires
        c.event_enabled(ev),
    ensures
        phase_rank(c.spec_step(ev).0.spec_phase()) >= phase_rank(c.spec_phase()),
        !(ev is ShutdownRequested) ==> phase_rank(c.spec_step(ev).0.spec_phase()) > phase_rank(
            c.spec_phase(),
        ),
{
}

/// One shutdown-free step emits `RunBuild` exactly when it crosses into the
/// build phase, which the one-directional phase order crosses at most once.
proof fn lemma_step_build_accounting(c: Controller, ev: Event)
    requires
        c.event_enabled(ev),
        !(ev is ShutdownRequested),
        c.spec_phase() != Phase::ShuttingDown,
    ensures
        ({
            let (c2, a) = c.spec_step(ev);
            &&& c2.spec_phase() != Phase::ShuttingDown
            &&& (if a == Action::RunBuild {
                1int
            } else {
                0int
            }) == (if has_built(c2.spec_phase()) {
                1int
            } else {
                0int
            }) - (if has_built(c.spec_phase()) {
                1int
            } else {
                0int
            })
        }),
{
}

/// Along any shutdown-free run, the number of `RunBuild` actions emitted is
/// exactly the difference between end and start in whether the build phase
/// has been passed — so it is never more than one.
pub proof fn lemma_build_count_trace(c: Controller, evs: Seq<Event>)
    requires
        trace_enabled(c, evs),
        no_shutdown(evs),
        c.spec_phase() != Phase::ShuttingDown,
    ensures
        build_count(trace_actions(c, evs)) == (if has_built(run_trace(c, evs).spec_phase()) {
            1int
        } else {
            0int
        }) - (if has_built(c.spec_phase()) {
            1int
        } else {
            0int
        }),
    decreases evs.len(),
{
    if evs.len() > 0 {
        let ev = evs[0];
        let (c2, a) = c.spec_step(ev);
        assert(!(ev is ShutdownRequested));
        lemma_step_build_accounting(c, ev);
        assert forall|i: int| 0 <= i < evs.drop_first().len() implies !(
        #[trigger] evs.drop_first()[i] is ShutdownRequested) by {
            assert(evs.drop_first()[i] == evs[i + 1]);
        }
        lemma_build_count_trace(c2, evs.drop_first());
        let rest = trace_actions(c2, evs.drop_first());
        assert((seq![a] + rest).drop_first() =~= rest);
        assert((seq![a] + rest)[0] == a);
    }
}

/// How many of the actions ask for a server spawn.
pub open spec fn spawn_count(actions: Seq<Action>) -> int
    decreases actions.len(),
{
    if actions.len() == 0 {
        0
    } else {
        (if actions[0] matches Action::SpawnServer(_) {
            1int
        } else {
            0int
        }) + spawn_count(actions.drop_first())
    }
}

/// Whether a phase lies at or past the spawn.
pub open spec fn has_spawned(p: Phase) -> bool {
    phase_rank(p) >= phase_rank(Phase::Spawning)
}

/// One shutdown-free step asks for a spawn exactly when it crosses into the
/// spawning phase.
proof fn lemma_step_spawn_accounting(c: Controller, ev: Event)
    requires
        c.event_enabled(ev),
        !(ev is ShutdownRequested),
        c.spec_phase() != Phase::ShuttingDown,
    ensures
        ({
            let (c2, a) = c.spec_step(ev);
            &&& c2.spec_phase() != Phase::ShuttingDown
            &&& (if a matches Action::SpawnServer(_) {
                1int
            } else {
                0int
            }) == (if has_spawned(c2.spec_phase()) {
                1int
            } else {
                0int
            }) - (if has_spawned(c.spec_phase()) {
                1int
            } else {
                0int
            })
        }),
{
}

/// Along any shutdown-free run, the number of spawns asked for is exactly
/// the difference between end and start in whether the spawn phase has been
/// passed — so one boot never spawns a second server.
pub proof fn lemma_spawn_count_trace(c: Controller, evs: Seq<Event>)
    requires
        trace_enabled(c, evs),
        no_shutdown(evs),
        c.spec_phase() != Phase::ShuttingDown,
    ensures
        spawn_count(trace_actions(c, evs)) == (if has_spawned(run_trace(c, evs).spec_phase()) {
            1int
        } else {
            0int
        }) - (if has_spawned(c.spec_phase()) {
            1int
        } else {
            0int
        }),
    decreases evs.len(),
{
    if evs.len() > 0 {
        let ev = evs[0];
        let (c2, a) = c.spec_step(ev);
        assert(!(ev is ShutdownRequested));
        lemma_step_spawn_accounting(c, ev);
        assert forall|i: int| 0 <= i < evs.drop_first().len() implies !(
        #[trigger] evs.drop_first()[i] is ShutdownRequested) by {
            assert(evs.drop_first()[i] == evs[i + 1]);
        }
        lemma_spawn_count_trace(c2, evs.drop_first());
        let rest = trace_actions(c2, evs.drop_first());
        assert((seq![a] + rest).drop_first() =~= rest);
        assert((seq![a] + rest)[0] == a);
    }
}

/// Exactly one server process is spawned per boot: any shutdown-free run of
/// the protocol from the initial state that reaches the spawn asks for it
/// exactly once.
pub proof fn theorem_spawn_runs_once(evs: Seq<Event>)
    requires
        trace_enabled(Controller::spec_init(), evs),
        no_shutdown(evs),
        has_spawned(run_trace(Controller::spec_init(), evs).spec_phase()),
    ensures
        spawn_count(trace_actions(Controller::spec_init(), evs)) == 1,
{
    lemma_spawn_count_trace(Controller::spec_init(), evs);
}

/// The build step runs exactly once per boot: any shutdown-free run of the
/// protocol from the initial state that reaches the build phase — whatever
/// the sync and dependency steps reported, `Skipped` included — asks for
/// the build exactly once.
pub proof fn theorem_build_runs_once(evs: Seq<Event>)
    requires
        trace_enabled(Controller::spec_init(), evs),
        no_shutdown(evs),
        has_built(run_trace(Controller::spec_init(), evs).spec_phase()),
    ensures
        build_count(trace_actions(Controller::spec_init(), evs)) == 1,
{
    lemma_build_count_trace(Controller::spec_init(), evs);
}

/// A shutdown that arrives right after the spawn succeeded and before
/// readiness was confirmed still terminates the spawned process: the handle
/// is recorded the moment the spawn succeeds, so the shutdown step's plan
/// names exactly that process's group and id, and afterwards no handle is
/// left behind.
pub proof fn lemma_shutdown_right_after_spawn(c: Controller, h: ServerHandle)
    requires
        c.wf(),
        c.event_enabled(Event::SpawnSucceeded(h)),
    ensures
        ({
            let (c1, _) = c.spec_step(Event::SpawnSucceeded(h));
            let (c2, a) = c1.spec_step(Event::ShutdownRequested);
            &&& c1.event_enabled(Event::ShutdownRequested)
            &&& a == Action::Terminate(
                ShutdownPlan::TwoPhase {
                    group: (-(h.pid as int)) as i32,
                    child_pid: h.pid,
                    grace_ms: TERMINATE_GRACE_MS,
                },
            )
            &&& c2.spec_handle() is None
        }),
{
}

/// A failed sync step never halts the pipeline: whatever the sync reported,
/// the controller moves on to the dependency step and asks for it.
pub proof fn lemma_sync_result_never_halts(c: Controller, r: StepResult)
    requires
        c.spec_phase() == Phase::Syncing,
    ensures
        c.spec_step(Event::SyncFinished(r)).0.spec_phase() == Phase::CheckingDeps,
        c.spec_step(Event::SyncFinished(r)).1 == Action::RunDependencyStep,
{
}

/// A failed build still boots: whatever the build reported, the controller
/// proceeds to port allocation and from there to the spawn, relying on
/// whatever artifact is on disk.
pub proof fn lemma_build_result_never_halts(c: Controller, r: StepResult)
    requires
        c.spec_phase() == Phase::Building,
    ensures
        c.spec_step(Event::BuildFinished(r)).0.spec_phase() == Phase::AllocatingPort,
        c.spec_step(Event::BuildFinished(r)).1 == Action::AllocatePort,
{
}

} // verus!
