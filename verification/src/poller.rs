//! Health polling: classify each probe of the server's port and consume a
//! bounded retry budget with a fixed inter-attempt delay. Issuing the HTTP
//! request and sleeping between attempts is the caller's job; this module
//! decides, from each observed outcome, whether the server is ready, the
//! poll goes on, or the budget is exhausted.

use vstd::prelude::*;

verus! {

/// Default number of poll attempts before giving up.
pub const DEFAULT_MAX_ATTEMPTS: u32 = 60;

/// Fixed delay between attempts, in milliseconds.
pub const POLL_DELAY_MS: u64 = 500;

/// Per-attempt request timeout, in milliseconds.
pub const PROBE_TIMEOUT_MS: u64 = 2000;

/// What one probe of the port observed: a response with its status code, or
/// no response at all (connection failure or per-attempt timeout).
#[derive(Clone, Copy, PartialEq, Eq, Structural, Debug)]
pub enum ProbeOutcome {
    Status(u16),
    NoResponse,
}

/// How a completed poll ended.
#[derive(Clone, Copy, PartialEq, Eq, Structural, Debug)]
pub enum PollResult {
    Ready,
    TimedOut,
}

/// A probe counts as ready exactly when it answered with a successful or
/// redirect status.
pub open spec fn outcome_ready(o: ProbeOutcome) -> bool {
    o matches ProbeOutcome::Status(code) && 200 <= code < 400
}

/// Whether one probe outcome counts as the server being ready.
pub fn is_ready_outcome(o: &ProbeOutcome) -> (r: bool)
    ensures
        r == outcome_ready(*o),
{
    match o {
        ProbeOutcome::Status(code) => 200 <= *code && *code < 400,
        ProbeOutcome::NoResponse => false,
    }
}

/// Index of the first ready outcome, or `-1` when there is none.
pub open spec fn first_ready_index(outcomes: Seq<ProbeOutcome>) -> int
    decreases outcomes.len(),
{
    if outcomes.len() == 0 {
        -1
    } else if outcome_ready(outcomes[0]) {
        0
    } else {
        let rest = first_ready_index(outcomes.drop_first());
        if rest < 0 {
            -1
        } else {
            rest + 1
        }
    }
}

proof fn lemma_first_ready_index(outcomes: Seq<ProbeOutcome>)
    ensures
        first_ready_index(outcomes) >= 0 ==> {
            &&& first_ready_index(outcomes) < outcomes.len()
            &&& outcome_ready(outcomes[first_ready_index(outcomes)])
            &&& forall|j: int| 0 <= j < first_ready_index(outcomes) ==> !outcome_ready(outcomes[j])
        },
        first_ready_index(outcomes) < 0 ==> (forall|j: int|
            0 <= j < outcomes.len() ==> !outcome_ready(outcomes[j])),
    decreases outcomes.len(),
{
    if outcomes.len() > 0 && !outcome_ready(outcomes[0]) {
        lemma_first_ready_index(outcomes.drop_first());
        let rest = first_ready_index(outcomes.drop_first());
        if rest >= 0 {
            assert forall|j: int| 0 <= j < rest + 1 implies !outcome_ready(outcomes[j]) by {
                if j > 0 {
                    assert(outcomes[j] == outcomes.drop_first()[j - 1]);
                }
            }
        } else {
            assert forall|j: int| 0 <= j < outcomes.len() implies !outcome_ready(outcomes[j]) by {
                if j > 0 {
                    assert(outcomes[j] == outcomes.drop_first()[j - 1]);
                }
            }
        }
    }
}

/// If outcome `k` is the first ready one, the poll ends Ready after exactly
/// `k + 1` attempts.
pub proof fn lemma_ready_at(outcomes: Seq<ProbeOutcome>, k: int)
    requires
        0 <= k < outcomes.len(),
        outcome_ready(outcomes[k]),
        forall|j: int| 0 <= j < k ==> !outcome_ready(outcomes[j]),
    ensures
        first_ready_index(outcomes) == k,
    decreases k,
{
    if k > 0 {
        assert forall|j: int| 0 <= j < k - 1 implies !outcome_ready(outcomes.drop_first()[j]) by {
            assert(outcomes.drop_first()[j] == outcomes[j + 1]);
        }
        lemma_ready_at(outcomes.drop_first(), k - 1);
    }
}

/// A poll that never observes a ready outcome exhausts its whole budget.
pub proof fn lemma_never_ready_times_out(outcomes: Seq<ProbeOutcome>)
    requires
        forall|j: int| 0 <= j < outcomes.len() ==> !outcome_ready(outcomes[j]),
    ensures
        first_ready_index(outcomes) == -1,
    decreases outcomes.len(),
{
    if outcomes.len() > 0 {
        assert forall|j: int|
            0 <= j < outcomes.drop_first().len() implies !outcome_ready(
            outcomes.drop_first()[j],
        ) by {
            assert(outcomes.drop_first()[j] == outcomes[j + 1]);
        }
        lemma_never_ready_times_out(outcomes.drop_first());
    }
}

/// Runs a whole poll over the outcomes the probes would observe, attempt by
/// attempt: Ready at the first ready outcome, with the number of attempts
/// consumed; TimedOut with the full budget consumed when no outcome within
/// the budget is ready.
pub fn await_ready_trace(outcomes: &Vec<ProbeOutcome>, max_attempts: u32) -> (r: (
    PollResult,
    u32,
))
    requires
        outcomes.len() >= max_attempts,
    ensures
        ({
            let idx = first_ready_index(outcomes@.take(max_attempts as int));
            &&& idx >= 0 ==> r == (PollResult::Ready, (idx + 1) as u32)
            &&& idx < 0 ==> r == (PollResult::TimedOut, max_attempts)
        }),
{
    let ghost window = outcomes@.take(max_attempts as int);
    let mut attempt: u32 = 0;
    while attempt < max_attempts
        invariant
            outcomes.len() >= max_attempts,
            window == outcomes@.take(max_attempts as int),
            attempt <= max_attempts,
            forall|j: int| 0 <= j < attempt ==> !outcome_ready(window[j]),
        decreases max_attempts - attempt,
    {
        let outcome = outcomes[attempt as usize];
        if is_ready_outcome(&outcome) {
            proof {
                assert(window[attempt as int] == outcomes@[attempt as int]);
                lemma_ready_at(window, attempt as int);
            }
            return (PollResult::Ready, attempt + 1);
        }
        proof {
            assert(window[attempt as int] == outcomes@[attempt as int]);
        }
        attempt += 1;
    }
    proof {
        lemma_never_ready_times_out(window);
    }
    (PollResult::TimedOut, max_attempts)
}

/// The retry budget of a poll in progress: attempts consumed so far and the
/// fixed maximum. Consumed monotonically, never reset.
pub struct RetryBudget {
    used: u32,
    max: u32,
}

/// What the poller does after one more attempt: stop because the server
/// answered, retry after the fixed delay, or stop because the budget is
/// exhausted.
#[derive(Clone, Copy, PartialEq, Eq, Structural, Debug)]
pub enum PollDecision {
    Ready,
    RetryAfterDelay,
    TimedOut,
}

impl RetryBudget {
    pub closed spec fn spec_used(self) -> u32 {
        self.used
    }

    pub closed spec fn spec_max(self) -> u32 {
        self.max
    }

    pub open spec fn wf(self) -> bool {
        self.spec_used() <= self.spec_max()
    }

    pub fn new(max_attempts: u32) -> (b: Self)
        ensures
            b.wf(),
            b.spec_used() == 0,
            b.spec_max() == max_attempts,
    {
        RetryBudget { used: 0, max: max_attempts }
    }

    /// Whether another attempt may still be made.
    pub fn exhausted(&self) -> (r: bool)
        ensures
            r == (self.spec_used() == self.spec_max()),
    {
        self.used == self.max
    }

    /// Consumes one attempt and decides how the poll goes on: Ready on a
    /// ready outcome, TimedOut when a non-ready outcome used up the last
    /// attempt, and a retry after the fixed delay otherwise.
    pub fn consume(&mut self, outcome: &ProbeOutcome) -> (d: PollDecision)
        requires
            old(self).wf(),
            old(self).spec_used() < old(self).spec_max(),
        ensures
            final(self).wf(),
            final(self).spec_max() == old(self).spec_max(),
            final(self).spec_used() == old(self).spec_used() + 1,
            outcome_ready(*outcome) ==> d == PollDecision::Ready,
            !outcome_ready(*outcome) && old(self).spec_used() + 1 < old(self).spec_max() ==> d
                == PollDecision::RetryAfterDelay,
            !outcome_ready(*outcome) && old(self).spec_used() + 1 == old(self).spec_max() ==> d
                == PollDecision::TimedOut,
    {
        self.used += 1;
        if is_ready_outcome(outcome) {
            PollDecision::Ready
        } else if self.used < self.max {
            PollDecision::RetryAfterDelay
        } else {
            PollDecision::TimedOut
        }
    }
}

} // verus!
