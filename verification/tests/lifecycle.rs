use launchcore::controller::{phase_label, Action, Controller, Event, Phase};
use launchcore::pipeline::StepResult;
use launchcore::poller::PollResult;
use launchcore::supervisor::{ServerHandle, ShutdownPlan, TERMINATE_GRACE_MS};

fn drive(c: &mut Controller, events: Vec<Event>) -> Vec<Action> {
    events.into_iter().map(|ev| c.step(ev)).collect()
}

#[test]
fn full_boot_reaches_ready() {
    let mut c = Controller::new();
    let actions = drive(
        &mut c,
        vec![
            Event::Start,
            Event::PathResolved,
            Event::SyncFinished(StepResult::Applied),
            Event::DepsFinished(StepResult::Skipped),
            Event::BuildFinished(StepResult::Applied),
            Event::PortChosen(3005),
            Event::SpawnSucceeded(ServerHandle { pid: 99, port: 3005 }),
            Event::PollFinished(PollResult::Ready),
        ],
    );
    assert_eq!(
        actions,
        vec![
            Action::ResolvePath,
            Action::RunSync,
            Action::RunDependencyStep,
            Action::RunBuild,
            Action::AllocatePort,
            Action::SpawnServer(3005),
            Action::AwaitServer(3005),
            Action::Navigate(3005),
        ]
    );
}

#[test]
fn build_runs_exactly_once_when_sync_and_deps_skip() {
    let mut c = Controller::new();
    let actions = drive(
        &mut c,
        vec![
            Event::Start,
            Event::PathResolved,
            Event::SyncFinished(StepResult::Skipped),
            Event::DepsFinished(StepResult::Skipped),
            Event::BuildFinished(StepResult::Applied),
            Event::PortChosen(3000),
            Event::SpawnSucceeded(ServerHandle { pid: 5, port: 3000 }),
            Event::PollFinished(PollResult::Ready),
        ],
    );
    let builds = actions.iter().filter(|a| **a == Action::RunBuild).count();
    assert_eq!(builds, 1);
}

#[test]
fn sync_failure_still_proceeds_to_dependency_step() {
    let mut c = Controller::new();
    let _ = c.step(Event::Start);
    let _ = c.step(Event::PathResolved);
    let a = c.step(Event::SyncFinished(StepResult::Failed(b"fatal: diverged\n".to_vec())));
    assert_eq!(a, Action::RunDependencyStep);
}

#[test]
fn build_failure_still_boots() {
    let mut c = Controller::new();
    let _ = c.step(Event::Start);
    let _ = c.step(Event::PathResolved);
    let _ = c.step(Event::SyncFinished(StepResult::Skipped));
    let _ = c.step(Event::DepsFinished(StepResult::Skipped));
    let a = c.step(Event::BuildFinished(StepResult::Failed(b"Type error\n".to_vec())));
    assert_eq!(a, Action::AllocatePort);
}

#[test]
fn shutdown_right_after_spawn_terminates_the_process() {
    let mut c = Controller::new();
    let _ = c.step(Event::Start);
    let _ = c.step(Event::PathResolved);
    let _ = c.step(Event::SyncFinished(StepResult::Skipped));
    let _ = c.step(Event::DepsFinished(StepResult::Skipped));
    let _ = c.step(Event::BuildFinished(StepResult::Applied));
    let _ = c.step(Event::PortChosen(3000));
    let _ = c.step(Event::SpawnSucceeded(ServerHandle { pid: 1234, port: 3000 }));
    // Shutdown arrives before readiness was ever confirmed: the recorded
    // handle must still be found and terminated.
    let a = c.step(Event::ShutdownRequested);
    assert_eq!(
        a,
        Action::Terminate(ShutdownPlan::TwoPhase {
            group: -1234,
            child_pid: 1234,
            grace_ms: TERMINATE_GRACE_MS,
        })
    );
    // A second trigger finds nothing left to do.
    let a2 = c.step(Event::ShutdownRequested);
    assert_eq!(a2, Action::Terminate(ShutdownPlan::NothingToDo));
}

#[test]
fn spawn_failure_degrades_without_crashing() {
    let mut c = Controller::new();
    let _ = c.step(Event::Start);
    let _ = c.step(Event::PathResolved);
    let _ = c.step(Event::SyncFinished(StepResult::Skipped));
    let _ = c.step(Event::DepsFinished(StepResult::Skipped));
    let _ = c.step(Event::BuildFinished(StepResult::Failed(b"broken\n".to_vec())));
    let _ = c.step(Event::PortChosen(3000));
    let a = c.step(Event::SpawnFailed);
    assert_eq!(a, Action::ReportDegraded);
}

#[test]
fn timeout_degrades_but_the_process_is_still_terminated_on_exit() {
    let mut c = Controller::new();
    let _ = c.step(Event::Start);
    let _ = c.step(Event::PathResolved);
    let _ = c.step(Event::SyncFinished(StepResult::Applied));
    let _ = c.step(Event::DepsFinished(StepResult::Applied));
    let _ = c.step(Event::BuildFinished(StepResult::Applied));
    let _ = c.step(Event::PortChosen(3000));
    let _ = c.step(Event::SpawnSucceeded(ServerHandle { pid: 77, port: 3000 }));
    let a = c.step(Event::PollFinished(PollResult::TimedOut));
    assert_eq!(a, Action::ReportDegraded);
    // The slow server was intentionally left running, but an exit still
    // drains it.
    let a2 = c.step(Event::ShutdownRequested);
    assert_eq!(
        a2,
        Action::Terminate(ShutdownPlan::TwoPhase {
            group: -77,
            child_pid: 77,
            grace_ms: TERMINATE_GRACE_MS,
        })
    );
}

#[test]
fn shutdown_before_spawn_plans_nothing() {
    let mut c = Controller::new();
    let _ = c.step(Event::Start);
    let a = c.step(Event::ShutdownRequested);
    assert_eq!(a, Action::Terminate(ShutdownPlan::NothingToDo));
}

#[test]
fn phase_labels_follow_the_progress_order() {
    assert_eq!(phase_label(&Phase::Syncing), "checking updates");
    assert_eq!(phase_label(&Phase::CheckingDeps), "checking dependencies");
    assert_eq!(phase_label(&Phase::Building), "building");
    assert_eq!(phase_label(&Phase::AllocatingPort), "starting server");
    assert_eq!(phase_label(&Phase::AwaitingReady), "waiting for readiness");
    assert_eq!(phase_label(&Phase::Ready), "ready");
    assert_eq!(phase_label(&Phase::Degraded), "degraded");
}
