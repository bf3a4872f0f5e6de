//! The server supervisor's state: the single handle to the spawned server
//! process, held in a slot that the boot path fills and the shutdown path
//! drains. Draining produces a two-phase termination plan — signal the whole
//! process group, allow a grace period, then force-kill and reap the direct
//! child — and clears the slot, so that a second shutdown finds nothing to
//! do. Delivering the signals is the caller's job.

use vstd::prelude::*;

verus! {

/// Grace period between the group signal and the forced kill, in
/// milliseconds.
pub const TERMINATE_GRACE_MS: u64 = 1000;

/// The spawned server process: its process id and the port it was started
/// on.
#[derive(Clone, Copy, PartialEq, Eq, Structural, Debug)]
pub struct ServerHandle {
    pub pid: u32,
    pub port: u16,
}

impl ServerHandle {
    /// A real process id: nonzero, and small enough that the process-group
    /// signal (addressed by the id's negation) can be expressed.
    pub open spec fn wf(self) -> bool {
        0 < self.pid <= i32::MAX
    }
}

/// How a shutdown request is carried out: nothing, when the slot was
/// already empty; otherwise the two-phase termination of the recorded
/// process — signal the group `group`, wait `grace_ms`, force-kill and reap
/// the direct child `child_pid`.
#[derive(Clone, Copy, PartialEq, Eq, Structural, Debug)]
pub enum ShutdownPlan {
    NothingToDo,
    TwoPhase { group: i32, child_pid: u32, grace_ms: u64 },
}

/// The plan that draining a slot in state `h` produces.
pub open spec fn spec_drain_plan(h: Option<ServerHandle>) -> ShutdownPlan {
    match h {
        None => ShutdownPlan::NothingToDo,
        Some(handle) => ShutdownPlan::TwoPhase {
            group: (-(handle.pid as int)) as i32,
            child_pid: handle.pid,
            grace_ms: TERMINATE_GRACE_MS,
        },
    }
}

/// What draining does to the slot's state and what it plans: the slot is
/// left empty, and the plan is determined by what it held.
pub open spec fn spec_drain(h: Option<ServerHandle>) -> (Option<ServerHandle>, ShutdownPlan) {
    (None, spec_drain_plan(h))
}

/// Termination is idempotent: whatever the slot held, a second drain right
/// after the first finds the slot already cleared, leaves it unchanged, and
/// plans no operation.
pub proof fn lemma_drain_idempotent(h: Option<ServerHandle>)
    ensures
        spec_drain(h).0 is None,
        spec_drain(spec_drain(h).0) == (None::<ServerHandle>, ShutdownPlan::NothingToDo),
{
}

/// The lock-protected slot holding the handle of the one spawned server
/// process, or nothing.
pub struct HandleSlot {
    pub handle: Option<ServerHandle>,
}

impl HandleSlot {
    pub open spec fn spec_handle(self) -> Option<ServerHandle> {
        self.handle
    }

    pub open spec fn wf(self) -> bool {
        self.spec_handle() matches Some(h) ==> h.wf()
    }

    /// An empty slot: no server has been spawned, or the last one was
    /// already terminated.
    pub fn empty() -> (s: Self)
        ensures
            s.wf(),
            s.spec_handle() is None,
    {
        HandleSlot { handle: None }
    }

    /// Records the handle of a freshly spawned server. The slot must be
    /// empty: only one server process exists at a time.
    pub fn record(&mut self, h: ServerHandle)
        requires
            old(self).spec_handle() is None,
            h.wf(),
        ensures
            final(self).wf(),
            final(self).spec_handle() == Some(h),
    {
        self.handle = Some(h);
    }

    /// Reads the recorded handle without taking it.
    pub fn peek(&self) -> (r: Option<ServerHandle>)
        ensures
            r == self.spec_handle(),
    {
        self.handle
    }

    /// Drains the slot for shutdown: clears it and returns the termination
    /// plan for whatever it held. On an already-empty slot this is a no-op
    /// that plans nothing, so a second shutdown trigger is harmless.
    pub fn drain(&mut self) -> (p: ShutdownPlan)
        requires
            old(self).wf(),
        ensures
            final(self).wf(),
            final(self).spec_handle() is None,
            p == spec_drain_plan(old(self).spec_handle()),
            old(self).spec_handle() is None ==> *final(self) == *old(self)
                && p == ShutdownPlan::NothingToDo,
    {
        match self.handle {
            None => ShutdownPlan::NothingToDo,
            Some(h) => {
                self.handle = None;
                ShutdownPlan::TwoPhase {
                    group: -(h.pid as i32),
                    child_pid: h.pid,
                    grace_ms: TERMINATE_GRACE_MS,
                }
            },
        }
    }
}

} // verus!
