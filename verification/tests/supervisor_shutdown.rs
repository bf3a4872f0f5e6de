use launchcore::supervisor::{HandleSlot, ServerHandle, ShutdownPlan, TERMINATE_GRACE_MS};

#[test]
fn draining_a_live_handle_plans_two_phase_termination() {
    let mut slot = HandleSlot::empty();
    slot.record(ServerHandle { pid: 4242, port: 3000 });
    let plan = slot.drain();
    assert_eq!(
        plan,
        ShutdownPlan::TwoPhase { group: -4242, child_pid: 4242, grace_ms: TERMINATE_GRACE_MS }
    );
    assert_eq!(slot.peek(), None);
}

#[test]
fn terminate_is_idempotent_on_a_cleared_handle() {
    let mut slot = HandleSlot::empty();
    slot.record(ServerHandle { pid: 7, port: 3000 });
    let _ = slot.drain();
    // Two further shutdown triggers in a row: both find the slot cleared
    // and plan nothing.
    assert_eq!(slot.drain(), ShutdownPlan::NothingToDo);
    assert_eq!(slot.drain(), ShutdownPlan::NothingToDo);
    assert_eq!(slot.peek(), None);
}

#[test]
fn draining_an_untouched_slot_plans_nothing() {
    let mut slot = HandleSlot::empty();
    assert_eq!(slot.drain(), ShutdownPlan::NothingToDo);
}

#[test]
fn grace_period_is_one_second() {
    assert_eq!(TERMINATE_GRACE_MS, 1000);
}
