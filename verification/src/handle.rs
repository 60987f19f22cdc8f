//! The record the supervisor keeps of one spawned process.

use vstd::prelude::*;

verus! {

/// One process that the supervisor spawned and still tracks.
#[derive(Clone, Copy, Debug, PartialEq, Eq, Structural)]
pub struct ProcessHandle {
    /// Identifier that the operating system gave the process.
    pub pid: u32,
    /// When the process was spawned, on the caller's clock.
    pub spawned_at: u64,
    /// False once the process is known to have exited.
    pub running: bool,
}

impl ProcessHandle {
    /// The handle of a process that has just been spawned: it is running.
    pub fn spawned(pid: u32, spawned_at: u64) -> (handle: ProcessHandle)
        ensures
            handle == (ProcessHandle { pid, spawned_at, running: true }),
    {
        ProcessHandle { pid, spawned_at, running: true }
    }

    /// The same handle with the running flag lowered.
    pub open spec fn exited(self) -> ProcessHandle {
        ProcessHandle { pid: self.pid, spawned_at: self.spawned_at, running: false }
    }
}

} // verus!
