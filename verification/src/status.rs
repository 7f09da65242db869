//! Stop statuses of the traced process, and the errors of the tracing
//! primitives.

use vstd::prelude::*;

verus! {

/// The signal number that the kernel delivers for a breakpoint trap.
pub const SIGTRAP_SIGNO: i32 = 5;

/// The result of waiting on the traced process. Terminal statuses (`Exited`,
/// `Signaled`) mean the process is no longer controllable and must be
/// discarded by the session. Signals are carried as their OS signal numbers.
#[derive(Clone, Copy, Debug, PartialEq, Eq, Structural)]
pub enum Status {
    /// The process stopped on a signal; carries the signal number and the
    /// instruction pointer it is stopped at.
    Stopped(i32, usize),
    /// The process exited normally; carries the exit code.
    Exited(i32),
    /// The process was terminated by a signal; carries the signal number.
    Signaled(i32),
}

impl Status {
    /// A terminal status: the process behind it is gone.
    pub open spec fn is_terminal(self) -> bool {
        self is Exited || self is Signaled
    }
}

/// An error from a tracing primitive.
#[derive(Clone, Copy, Debug, PartialEq, Eq, Structural)]
pub enum TraceError {
    /// The kernel call failed; carries the OS errno value.
    Os(i32),
    /// Waiting on the process reported a state outside the known taxonomy;
    /// the session must be aborted rather than continue on undefined state.
    UnexpectedWait,
}

} // verus!
