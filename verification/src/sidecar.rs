//! Supervision of the external search-engine process. The supervisor owns
//! at most one process handle; starting is idempotent, stopping a stopped
//! server is an error, and a kill failure still clears the handle so a
//! dead process can never look permanently running. Spawning and killing
//! are the driver's job; every decision is made — and proved — here.

use vstd::prelude::*;
use crate::search::TypesenseError;

verus! {

/// What a start request must do: nothing, because a process handle is
/// already held, or spawn the one process.
#[derive(PartialEq, Eq, Structural, Clone, Copy, Debug)]
pub enum StartStep {
    AlreadyRunning,
    SpawnNeeded,
}

/// The supervisor's one decision rule for starting: spawn only when no
/// handle is held.
pub open spec fn spec_start_decision(s: TypesenseState) -> StartStep {
    if s.child is Some {
        StartStep::AlreadyRunning
    } else {
        StartStep::SpawnNeeded
    }
}

/// Supervisor state: the handle of the one live external process, if the
/// supervisor believes it started one and was not told to stop it. This
/// is a liveness proxy, not an OS-level check; the health-poll loop is
/// the actual liveness signal.
#[derive(PartialEq, Eq, Structural, Clone, Copy, Debug)]
pub struct TypesenseState {
    pub child: Option<u32>,
}

impl TypesenseState {
    /// A supervisor holding no process.
    pub fn new() -> (s: Self)
        ensures
            s.child is None,
    {
        TypesenseState { child: None }
    }

    /// Whether a process handle is currently held.
    pub fn is_server_running(&self) -> (r: bool)
        ensures
            r == (self.child is Some),
    {
        self.child.is_some()
    }

    /// Decides a start request: a held handle means success with no
    /// second spawn; otherwise the driver must spawn and register the
    /// process. A spawn failure surfaces as `ProcessSpawn` and changes
    /// nothing here, so the state stays stopped.
    pub fn start_server(&self) -> (d: StartStep)
        ensures
            d == spec_start_decision(*self),
    {
        if self.child.is_some() {
            StartStep::AlreadyRunning
        } else {
            StartStep::SpawnNeeded
        }
    }

    /// Registers the handle of a process the driver spawned after a
    /// `SpawnNeeded` decision.
    pub fn register_spawned(&mut self, handle: u32)
        requires
            old(self).child is None,
        ensures
            final(self).child == Some(handle),
    {
        self.child = Some(handle);
    }

    /// Decides a stop request: with no handle held it fails with
    /// `NoProcessRunning`; otherwise it hands the held handle to the
    /// driver for killing and clears it. The handle is cleared even if
    /// the kill then fails, so a dead process never leaves the
    /// supervisor stuck in a running state.
    pub fn stop_server(&mut self) -> (r: Result<u32, TypesenseError>)
        ensures
            final(self).child is None,
            match r {
                Ok(h) => old(self).child == Some(h),
                Err(e) => old(self).child is None && e == TypesenseError::NoProcessRunning,
            },
    {
        match self.child {
            Some(h) => {
                self.child = None;
                Ok(h)
            },
            None => Err(TypesenseError::NoProcessRunning),
        }
    }
}

/// The outcome a kill attempt maps to: a failure surfaces as
/// `ProcessKill`, but the handle was already cleared by `stop_server`.
pub fn interpret_kill(killed: bool) -> (r: Result<(), TypesenseError>)
    ensures
        r is Ok <==> killed,
        r matches Err(e) ==> e == TypesenseError::ProcessKill,
{
    if killed {
        Ok(())
    } else {
        Err(TypesenseError::ProcessKill)
    }
}

/// Starting is idempotent: once a start has registered a process, the
/// supervisor holds exactly that handle and a second start decides
/// `AlreadyRunning`, so both calls succeed and only one process is ever
/// spawned.
pub proof fn lemma_start_idempotent(s0: TypesenseState, s1: TypesenseState, handle: u32)
    requires
        spec_start_decision(s0) == StartStep::SpawnNeeded,
        s1.child == Some(handle),
    ensures
        spec_start_decision(s1) == StartStep::AlreadyRunning,
{
}

} // verus!
