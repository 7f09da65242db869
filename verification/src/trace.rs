//! Trusted boundary to the OS tracing facility.
//!
//! Each function here wraps one tracing call of the `nix` crate on a process
//! identified by its raw pid. What a traced process's memory, registers or
//! next state change hold depends on that process alone, so these contracts
//! promise nothing about the values that come back; the verified callers
//! state what holds of every outcome.

use vstd::prelude::*;

verus! {

/// What one wait on the child reported, reduced to plain values.
pub enum WaitEvent {
    /// Exited normally with the given exit code.
    Exited(i32),
    /// Terminated by the given signal number.
    Signaled(i32),
    /// Stopped by the given signal number.
    Stopped(i32),
    /// A state outside the taxonomy this debugger handles.
    Unknown,
}

/// Relies on nix::sys::ptrace::read: PTRACE_PEEKDATA, reads one machine word
/// of the tracee's memory at the given address. Err carries the errno value.
#[verifier::external_body]
pub(crate) fn ptrace_read_word(pid: i32, addr: usize) -> (r: Result<u64, i32>) {
    match nix::sys::ptrace::read(nix::unistd::Pid::from_raw(pid), addr as _) {
        Ok(w) => Ok(w as u64),
        Err(e) => Err(e as i32),
    }
}

/// Relies on nix::sys::ptrace::write: PTRACE_POKEDATA, writes one machine
/// word into the tracee's memory at the given address.
#[verifier::external_body]
pub(crate) fn ptrace_write_word(pid: i32, addr: usize, word: u64) -> (r: Result<(), i32>) {
    match nix::sys::ptrace::write(nix::unistd::Pid::from_raw(pid), addr as _, word as i64) {
        Ok(()) => Ok(()),
        Err(e) => Err(e as i32),
    }
}

/// Relies on nix::sys::ptrace::getregs: PTRACE_GETREGS; hands back the
/// tracee's instruction pointer and frame pointer registers.
#[verifier::external_body]
pub(crate) fn ptrace_get_rip_rbp(pid: i32) -> (r: Result<(u64, u64), i32>) {
    match nix::sys::ptrace::getregs(nix::unistd::Pid::from_raw(pid)) {
        Ok(regs) => Ok((regs.rip, regs.rbp)),
        Err(e) => Err(e as i32),
    }
}

/// Relies on nix::sys::ptrace::getregs and nix::sys::ptrace::setregs: reads
/// the tracee's register set, replaces the instruction pointer with `rip`,
/// and writes the set back; all other registers are handed back unchanged.
#[verifier::external_body]
pub(crate) fn ptrace_set_rip(pid: i32, rip: u64) -> (r: Result<(), i32>) {
    let p = nix::unistd::Pid::from_raw(pid);
    match nix::sys::ptrace::getregs(p) {
        Ok(mut regs) => {
            regs.rip = rip;
            match nix::sys::ptrace::setregs(p, regs) {
                Ok(()) => Ok(()),
                Err(e) => Err(e as i32),
            }
        },
        Err(e) => Err(e as i32),
    }
}

/// Relies on nix::sys::ptrace::step: PTRACE_SINGLESTEP with no signal,
/// lets the tracee execute exactly one machine instruction.
#[verifier::external_body]
pub(crate) fn ptrace_step(pid: i32) -> (r: Result<(), i32>) {
    match nix::sys::ptrace::step(nix::unistd::Pid::from_raw(pid), None) {
        Ok(()) => Ok(()),
        Err(e) => Err(e as i32),
    }
}

/// Relies on nix::sys::ptrace::cont: PTRACE_CONT with no signal, resumes the
/// tracee until its next stop.
#[verifier::external_body]
pub(crate) fn ptrace_cont(pid: i32) -> (r: Result<(), i32>) {
    match nix::sys::ptrace::cont(nix::unistd::Pid::from_raw(pid), None) {
        Ok(()) => Ok(()),
        Err(e) => Err(e as i32),
    }
}

/// Relies on nix::sys::ptrace::kill: PTRACE_KILL, forcibly terminates the
/// tracee.
#[verifier::external_body]
pub(crate) fn ptrace_kill(pid: i32) -> (r: Result<(), i32>) {
    match nix::sys::ptrace::kill(nix::unistd::Pid::from_raw(pid)) {
        Ok(()) => Ok(()),
        Err(e) => Err(e as i32),
    }
}

/// Relies on nix::sys::wait::waitpid with no options: blocks until the child
/// changes state and reports how. Statuses outside this debugger's taxonomy
/// (ptrace events, syscall stops, continues) come back as `Unknown`. A stop
/// or kill by a signal number outside nix's signal enum makes nix's status
/// decoder fail, so it comes back as the decoder's errno error, not as
/// `Unknown`.
#[verifier::external_body]
pub(crate) fn wait_child(pid: i32) -> (r: Result<WaitEvent, i32>) {
    match nix::sys::wait::waitpid(nix::unistd::Pid::from_raw(pid), None) {
        Ok(nix::sys::wait::WaitStatus::Exited(_, code)) => Ok(WaitEvent::Exited(code)),
        Ok(nix::sys::wait::WaitStatus::Signaled(_, sig, _)) => Ok(WaitEvent::Signaled(sig as i32)),
        Ok(nix::sys::wait::WaitStatus::Stopped(_, sig)) => Ok(WaitEvent::Stopped(sig as i32)),
        Ok(_) => Ok(WaitEvent::Unknown),
        Err(e) => Err(e as i32),
    }
}

} // verus!
