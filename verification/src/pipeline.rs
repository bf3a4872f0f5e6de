//! Decision logic of the update/build pipeline: whether a dependency
//! install is needed, and how each step's subprocess outcome is classified.
//! Running the subprocesses themselves is the caller's job; this module is
//! handed the observed exit status, captured output and file metadata as
//! plain values.

use crate::bytes::contains_bytes;
use crate::bytes::contains_seq;
use vstd::prelude::*;
use vstd::string::StringSliceAdditionalSpecFns;

verus! {

/// Outcome of one pipeline step. A `Failed` step carries the captured
/// diagnostic output of the subprocess; it never halts the pipeline.
#[derive(Debug)]
pub enum StepResult {
    Skipped,
    Applied,
    Failed(Vec<u8>),
}

/// When a dependency install is owed: the install directory is absent, or a
/// lock file exists whose modification time is strictly newer than the
/// install directory's.
pub open spec fn spec_needs_install(
    install_dir_exists: bool,
    install_dir_mtime: u64,
    lock_mtime: Option<u64>,
) -> bool {
    if !install_dir_exists {
        true
    } else {
        match lock_mtime {
            Some(t) => t > install_dir_mtime,
            None => false,
        }
    }
}

/// Decides whether the dependency-install step must run, from the observed
/// state of the install directory and the lock file. `lock_mtime` is `None`
/// when no lock file exists; modification times are seconds since the epoch.
pub fn needs_install(
    install_dir_exists: bool,
    install_dir_mtime: u64,
    lock_mtime: Option<u64>,
) -> (r: bool)
    ensures
        r == spec_needs_install(install_dir_exists, install_dir_mtime, lock_mtime),
{
    if !install_dir_exists {
        true
    } else {
        match lock_mtime {
            Some(t) => t > install_dir_mtime,
            None => false,
        }
    }
}

/// The phrase in the sync subprocess's output that marks a run which
/// changed nothing.
pub open spec fn noop_phrase_spec() -> Seq<u8> {
    "Already up to date".spec_bytes()
}

/// The no-change phrase as bytes, for matching against captured output.
pub fn noop_phrase() -> (r: Vec<u8>)
    ensures
        r@ == noop_phrase_spec(),
{
    let s = "Already up to date";
    vstd::slice::slice_to_vec(s.as_bytes())
}

/// Classifies the source-sync step from the subprocess's exit status and
/// captured output: a failed exit is `Failed` (carrying the diagnostic
/// output), a successful run whose output contains the no-change phrase is
/// `Skipped`, and any other successful run is `Applied`.
pub fn interpret_sync(exit_ok: bool, stdout: &Vec<u8>, stderr: Vec<u8>) -> (r: StepResult)
    ensures
        !exit_ok ==> (r matches StepResult::Failed(d) && d@ == stderr@),
        exit_ok && contains_seq(stdout@, noop_phrase_spec()) ==> r is Skipped,
        exit_ok && !contains_seq(stdout@, noop_phrase_spec()) ==> r is Applied,
{
    if !exit_ok {
        StepResult::Failed(stderr)
    } else {
        let phrase = noop_phrase();
        if contains_bytes(stdout, &phrase) {
            StepResult::Skipped
        } else {
            StepResult::Applied
        }
    }
}

/// Classifies the dependency-install step: `Skipped` when no install was
/// owed, `Applied` on a successful install, `Failed` (with the diagnostic
/// output) otherwise.
pub fn interpret_install(needed: bool, exit_ok: bool, stderr: Vec<u8>) -> (r: StepResult)
    ensures
        !needed ==> r is Skipped,
        needed && exit_ok ==> r is Applied,
        needed && !exit_ok ==> (r matches StepResult::Failed(d) && d@ == stderr@),
{
    if !needed {
        StepResult::Skipped
    } else if exit_ok {
        StepResult::Applied
    } else {
        StepResult::Failed(stderr)
    }
}

/// Classifies the build step. The build is never skipped: every boot
/// rebuilds from a clean slate, so the result is `Applied` on success and
/// `Failed` (with the diagnostic output) otherwise.
pub fn interpret_build(exit_ok: bool, stderr: Vec<u8>) -> (r: StepResult)
    ensures
        exit_ok ==> r is Applied,
        !exit_ok ==> (r matches StepResult::Failed(d) && d@ == stderr@),
        !(r is Skipped),
{
    if exit_ok {
        StepResult::Applied
    } else {
        StepResult::Failed(stderr)
    }
}

} // verus!
