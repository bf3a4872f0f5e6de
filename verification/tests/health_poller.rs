use launchcore::poller::{
    await_ready_trace, is_ready_outcome, PollDecision, PollResult, ProbeOutcome, RetryBudget,
    DEFAULT_MAX_ATTEMPTS, POLL_DELAY_MS,
};

#[test]
fn ready_on_fifth_attempt_consumes_exactly_five() {
    let mut outcomes = vec![ProbeOutcome::NoResponse; DEFAULT_MAX_ATTEMPTS as usize];
    outcomes[4] = ProbeOutcome::Status(200);
    let (result, attempts) = await_ready_trace(&outcomes, DEFAULT_MAX_ATTEMPTS);
    assert_eq!(result, PollResult::Ready);
    assert_eq!(attempts, 5);
    // Four inter-attempt delays of 500ms lie before the fifth attempt.
    assert_eq!((attempts as u64 - 1) * POLL_DELAY_MS, 2000);
}

#[test]
fn never_ready_times_out_after_sixty_attempts() {
    let outcomes = vec![ProbeOutcome::NoResponse; DEFAULT_MAX_ATTEMPTS as usize];
    let (result, attempts) = await_ready_trace(&outcomes, DEFAULT_MAX_ATTEMPTS);
    assert_eq!(result, PollResult::TimedOut);
    assert_eq!(attempts, 60);
}

#[test]
fn later_ready_outcomes_do_not_shorten_the_wait() {
    let mut outcomes = vec![ProbeOutcome::Status(503); DEFAULT_MAX_ATTEMPTS as usize];
    outcomes[9] = ProbeOutcome::Status(301);
    outcomes[20] = ProbeOutcome::Status(200);
    let (result, attempts) = await_ready_trace(&outcomes, DEFAULT_MAX_ATTEMPTS);
    assert_eq!(result, PollResult::Ready);
    assert_eq!(attempts, 10);
}

#[test]
fn success_and_redirect_statuses_count_ready() {
    assert!(is_ready_outcome(&ProbeOutcome::Status(200)));
    assert!(is_ready_outcome(&ProbeOutcome::Status(204)));
    assert!(is_ready_outcome(&ProbeOutcome::Status(301)));
    assert!(is_ready_outcome(&ProbeOutcome::Status(399)));
}

#[test]
fn errors_and_no_response_do_not_count_ready() {
    assert!(!is_ready_outcome(&ProbeOutcome::Status(199)));
    assert!(!is_ready_outcome(&ProbeOutcome::Status(400)));
    assert!(!is_ready_outcome(&ProbeOutcome::Status(404)));
    assert!(!is_ready_outcome(&ProbeOutcome::Status(500)));
    assert!(!is_ready_outcome(&ProbeOutcome::NoResponse));
}

#[test]
fn budget_is_consumed_monotonically() {
    let mut budget = RetryBudget::new(3);
    assert!(!budget.exhausted());
    assert_eq!(
        budget.consume(&ProbeOutcome::NoResponse),
        PollDecision::RetryAfterDelay
    );
    assert_eq!(
        budget.consume(&ProbeOutcome::Status(500)),
        PollDecision::RetryAfterDelay
    );
    assert_eq!(
        budget.consume(&ProbeOutcome::NoResponse),
        PollDecision::TimedOut
    );
    assert!(budget.exhausted());
}

#[test]
fn budget_stops_at_first_ready_outcome() {
    let mut budget = RetryBudget::new(5);
    assert_eq!(
        budget.consume(&ProbeOutcome::NoResponse),
        PollDecision::RetryAfterDelay
    );
    assert_eq!(budget.consume(&ProbeOutcome::Status(302)), PollDecision::Ready);
}
