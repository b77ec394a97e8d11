//! Termination tracking for the execution engine.
//!
//! A sandbox that is aborted leaves behind only an opaque "execution aborted"
//! signal. The engine records *why* in a shared classification cell that the
//! interrupt and out-of-memory hooks write - possibly from another thread
//! than the one running the sandbox - and the abort path reads the cell to
//! convert the signal into a typed error, so a caller can tell a runaway
//! worker from a buggy one.

use vstd::prelude::*;

use crate::types::EngineError;
use std::sync::Arc;
use std::sync::Mutex;

verus! {

/// Declares `std::sync::Mutex`, the mutual-exclusion cell that guards the
/// recorded termination reason across threads.
#[verifier::external_type_specification]
#[verifier::external_body]
#[verifier::reject_recursive_types(T)]
pub struct ExMutex<T: ?Sized>(Mutex<T>);

/// Reason of execution termination.
#[derive(Debug, Clone, Copy, Eq, PartialEq, Structural)]
pub enum TerminationReason {
    /// Terminated for unknown reason.
    Unknown,
    /// Time limit exceeded.
    TimeLimit,
    /// Memory limit exceeded.
    MemoryLimit,
}

/// Shared container for a `TerminationReason`.
///
/// The cell is cloned into the sandbox's interrupt and out-of-memory hooks at
/// construction time; writes may come from a different thread than reads, so
/// the cell is mutex-guarded and nothing is promised about which recorded
/// value a read observes.
#[derive(Clone)]
pub struct TerminationReasonBox(pub Arc<Mutex<TerminationReason>>);

/// Relies on `std::sync::Mutex::new`: constructs the guarded cell that holds
/// the initial reason.
#[verifier::external_body]
fn reason_cell_new(initial: TerminationReason) -> (r: Mutex<TerminationReason>)
{
    Mutex::new(initial)
}

/// Relies on `std::sync::Mutex::lock`: reads the currently recorded reason.
/// Another thread may write the cell at any time, so no relation between two
/// reads is promised. Aborts with the lock poisoned, which only a panic in
/// another holder of this cell can cause.
#[verifier::external_body]
fn reason_cell_load(b: &TerminationReasonBox) -> (r: TerminationReason)
{
    *b.0.lock().unwrap()
}

/// Relies on `std::sync::Mutex::lock`: records a reason in the cell, for the
/// abort path to read. Aborts with the lock poisoned, which only a panic in
/// another holder of this cell can cause.
#[verifier::external_body]
fn reason_cell_store(b: &TerminationReasonBox, reason: TerminationReason)
{
    *b.0.lock().unwrap() = reason;
}

impl TerminationReasonBox {
    /// A fresh cell recording no particular cause yet.
    pub fn new() -> (r: TerminationReasonBox) {
        TerminationReasonBox(Arc::new(reason_cell_new(TerminationReason::Unknown)))
    }

    /// Records why the sandbox is being stopped; called from the interrupt
    /// and out-of-memory hooks.
    pub fn record(&self, reason: TerminationReason) {
        reason_cell_store(self, reason);
    }

    /// Converts the otherwise-opaque "execution aborted" signal into a typed
    /// error, by reading whichever reason the hooks recorded: the result is
    /// the classification of some recorded reason, always one of the three
    /// instance-fatal abort errors.
    pub fn abort_error(&self) -> (r: EngineError)
        ensures
            exists|reason: TerminationReason| r == spec_termination_error(reason),
            r == EngineError::ScriptThrowsException || r == EngineError::TimeLimitExceeded
                || r == EngineError::MemoryLimitExceeded,
    {
        let reason = reason_cell_load(self);
        termination_error(reason)
    }
}

/// The typed error reported for each recorded termination reason: an abort
/// with no recorded cause is an ordinary uncaught script error.
pub open spec fn spec_termination_error(reason: TerminationReason) -> EngineError {
    match reason {
        TerminationReason::Unknown => EngineError::ScriptThrowsException,
        TerminationReason::TimeLimit => EngineError::TimeLimitExceeded,
        TerminationReason::MemoryLimit => EngineError::MemoryLimitExceeded,
    }
}

/// Maps the recorded termination reason to the error surfaced to callers.
pub fn termination_error(reason: TerminationReason) -> (r: EngineError)
    ensures
        r == spec_termination_error(reason),
{
    match reason {
        TerminationReason::Unknown => EngineError::ScriptThrowsException,
        TerminationReason::TimeLimit => EngineError::TimeLimitExceeded,
        TerminationReason::MemoryLimit => EngineError::MemoryLimitExceeded,
    }
}

/// A worker stopped for exceeding its time ceiling, one stopped for
/// exceeding its memory ceiling, and one that raised an uncaught exception
/// report three distinct errors: the classification of recorded reasons is
/// injective, so the caller can always tell the three apart.
pub proof fn lemma_termination_reasons_distinguishable(a: TerminationReason, b: TerminationReason)
    ensures
        a != b ==> spec_termination_error(a) != spec_termination_error(b),
{
}

} // verus!
