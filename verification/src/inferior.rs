//! The traced child process ("inferior") and its primitive operations:
//! byte-level memory patching, waiting for state changes, and the
//! breakpoint-aware resume protocol.
//!
//! A breakpoint is one byte of the target's code overwritten with the trap
//! opcode. The original byte must be restored before the CPU executes that
//! instruction for real, and the trap reinstalled right after, so the
//! breakpoint fires on every future pass while the program behaves as if
//! unmodified.

use vstd::prelude::*;

use crate::backtrace::{frames_wellformed, is_mid_frame, Frame};
use crate::breakpoint::BreakpointTable;
use crate::status::{Status, TraceError, SIGTRAP_SIGNO};
use crate::symbols::SymbolTable;
use crate::text::str_eq;
use crate::trace::{
    ptrace_cont, ptrace_get_rip_rbp, ptrace_kill, ptrace_read_word, ptrace_set_rip, ptrace_step,
    ptrace_write_word, wait_child, WaitEvent,
};
use crate::word::{splice_word, TRAP_OPCODE};

verus! {

/// The most frames one backtrace walks before falling back to the raw
/// registers, so a cyclic frame chain cannot hang the session.
pub const MAX_BACKTRACE_FRAMES: usize = 256;

/// Rounds an address down to the start of the machine word that contains it.
pub fn align_addr_to_word(addr: usize) -> (r: usize)
    ensures
        r == addr - addr % 8,
{
    let r = addr & !7usize;
    proof {
        assert(addr & !7usize == addr - addr % 8) by (bit_vector);
    }
    r
}

/// Where the resume protocol must step over a breakpoint: the process is
/// stopped one byte past a tracked address, because executing the trap byte
/// advances the instruction pointer by one.
pub open spec fn step_over_target(table: BreakpointTable, rip: usize) -> Option<usize> {
    if rip >= 1 && table.contains_addr((rip - 1) as usize) {
        Some((rip - 1) as usize)
    } else {
        None
    }
}

/// Whether the trap byte is reinstalled after the single step: only when the
/// post-step status says the process is still alive and stopped. A terminal
/// status is propagated untouched, since the process no longer exists.
pub open spec fn reinstall_trap_after(status: Status) -> bool {
    status is Stopped
}

/// Decides, from the post-step status, whether the resume protocol
/// reinstalls the trap byte: exactly when the process is still alive and
/// stopped.
pub fn trap_reinstall_needed(post: Status) -> (r: bool)
    ensures
        r == reinstall_trap_after(post),
{
    match post {
        Status::Stopped(_, _) => true,
        Status::Exited(_) => false,
        Status::Signaled(_) => false,
    }
}

/// The expected first stop of a freshly launched, trace-enabled child: a
/// stop on the trap signal.
pub open spec fn is_entry_trap(st: Status) -> bool {
    st matches Status::Stopped(sig, _) && sig == SIGTRAP_SIGNO
}

/// Decides whether a first stop is the expected entry trap.
pub fn entry_trap_reached(st: Status) -> (r: bool)
    ensures
        r == is_entry_trap(st),
{
    match st {
        Status::Stopped(sig, _) => sig == SIGTRAP_SIGNO,
        _ => false,
    }
}

/// The closed three-way taxonomy of one wait event: a normal exit and a
/// kill-by-signal pass through, a stop carries the instruction pointer read
/// from the registers, and an event outside the taxonomy is the invariant
/// violation on which the session must abort rather than continue on
/// undefined state.
pub open spec fn status_of_event(ev: WaitEvent, rip: usize) -> Result<Status, TraceError> {
    match ev {
        WaitEvent::Exited(code) => Ok(Status::Exited(code)),
        WaitEvent::Signaled(sig) => Ok(Status::Signaled(sig)),
        WaitEvent::Stopped(sig) => Ok(Status::Stopped(sig, rip)),
        WaitEvent::Unknown => Err(TraceError::UnexpectedWait),
    }
}

/// Translates one wait event — with the instruction pointer that was read
/// in the stopped case — into the stop taxonomy, exactly as
/// `status_of_event` says.
pub fn classify_wait(ev: WaitEvent, rip: usize) -> (r: Result<Status, TraceError>)
    ensures
        r == status_of_event(ev, rip),
{
    match ev {
        WaitEvent::Exited(code) => Ok(Status::Exited(code)),
        WaitEvent::Signaled(sig) => Ok(Status::Signaled(sig)),
        WaitEvent::Stopped(sig) => Ok(Status::Stopped(sig, rip)),
        WaitEvent::Unknown => Err(TraceError::UnexpectedWait),
    }
}

/// Looks up whether a stop at instruction pointer `rip` is a breakpoint hit,
/// i.e. whether `rip - 1` is a tracked address; hands back that address and
/// its recorded original byte.
pub fn breakpoint_hit(table: &BreakpointTable, rip: usize) -> (r: Option<(usize, u8)>)
    requires
        table.wf(),
    ensures
        r is Some <==> step_over_target(*table, rip) is Some,
        r is Some ==> r == Some(
            (((rip - 1) as usize), table.orig_byte_of((rip - 1) as usize)),
        ),
{
    if rip >= 1 {
        let a = rip - 1;
        match table.get_orig(a) {
            Some(orig) => Some((a, orig)),
            None => None,
        }
    } else {
        None
    }
}

/// Law of the step-over protocol: when a process stops exactly at `a + 1`
/// for a tracked address `a`, the protocol rewinds to `a` itself — so the
/// original instruction is the next one executed, exactly once — and the
/// trap byte is reinstalled afterwards if and only if the process did not
/// exit or die on the step, so future passes still trap.
pub proof fn lemma_step_over_protocol(table: BreakpointTable, rip: usize, post: Status)
    requires
        table.wf(),
        1 <= rip,
        table.contains_addr((rip - 1) as usize),
    ensures
        step_over_target(table, rip) == Some((rip - 1) as usize),
        reinstall_trap_after(post) <==> !post.is_terminal(),
{
}

/// One live, traced OS child process.
pub struct Inferior {
    pid: i32,
}

impl Inferior {
    /// The OS process identifier of this inferior.
    pub closed spec fn pid_spec(self) -> i32 {
        self.pid
    }

    /// The OS process identifier of this inferior.
    pub fn pid(&self) -> (r: i32)
        ensures
            r == self.pid_spec(),
    {
        self.pid
    }

    /// Adopts a freshly spawned, trace-enabled child. The first observed
    /// stop is the child signalling readiness: only the expected entry trap
    /// yields a live handle; any other first event (an early exit, a kill,
    /// a stop on another signal, a failed wait) yields no handle and leaves
    /// the table untouched. After the entry trap, installs the trap byte at
    /// every address in the table, recording each original byte; an address
    /// that cannot be patched is skipped — not fatal — and reported in the
    /// second component, which therefore lists tracked addresses only.
    pub fn new(pid: i32, breakpoints: &mut BreakpointTable) -> (r: (Option<Inferior>, Vec<usize>))
        requires
            old(breakpoints).wf(),
        ensures
            final(breakpoints).wf(),
            final(breakpoints).entries_spec().len() == old(breakpoints).entries_spec().len(),
            forall|k: int|
                0 <= k < final(breakpoints).entries_spec().len()
                    ==> final(breakpoints).entries_spec()[k].addr
                    == old(breakpoints).entries_spec()[k].addr,
            forall|a: usize|
                final(breakpoints).contains_addr(a) == old(breakpoints).contains_addr(a),
            r.0 is Some ==> r.0.unwrap().pid_spec() == pid,
            forall|k: int|
                0 <= k < r.1@.len() ==> old(breakpoints).contains_addr(r.1@[k]),
            r.0 is None ==> r.1@.len() == 0 && final(breakpoints).entries_spec()
                == old(breakpoints).entries_spec(),
    {
        let mut inferior = Inferior { pid };
        let mut invalid: Vec<usize> = Vec::new();
        // The child signals readiness at its first stop; the adoption
        // decision is `is_entry_trap` of that first status.
        let first = match inferior.wait() {
            Ok(st) => st,
            Err(_) => return (None, invalid),
        };
        if !entry_trap_reached(first) {
            return (None, invalid);
        }
        let n = breakpoints.len();
        let mut i: usize = 0;
        while i < n
            invariant
                breakpoints.wf(),
                n == breakpoints.entries_spec().len(),
                i <= n,
                inferior.pid_spec() == pid,
                forall|k: int|
                    0 <= k < breakpoints.entries_spec().len() ==> breakpoints.entries_spec()[k].addr
                        == old(breakpoints).entries_spec()[k].addr,
                forall|a: usize|
                    breakpoints.contains_addr(a) == old(breakpoints).contains_addr(a),
                forall|k: int|
                    0 <= k < invalid@.len() ==> old(breakpoints).contains_addr(invalid@[k]),
            decreases n - i,
        {
            let bp = breakpoints.entry_at(i);
            proof {
                crate::breakpoint::lemma_entry_contains(*breakpoints, i as int);
            }
            match inferior.write_byte(bp.addr, TRAP_OPCODE) {
                Ok(orig) => breakpoints.set_orig(bp.addr, orig),
                Err(_) => invalid.push(bp.addr),
            }
            i = i + 1;
        }
        (Some(inferior), invalid)
    }

    /// Writes one byte of the tracee's memory by word-aligned
    /// read-modify-write: reads the containing word, splices `val` in at the
    /// byte offset within the word, writes the word back, and hands back the
    /// byte that was there before, so callers can restore it later.
    pub fn write_byte(&mut self, addr: usize, val: u8) -> (r: Result<u8, TraceError>)
        ensures
            final(self).pid_spec() == old(self).pid_spec(),
    {
        let aligned = align_addr_to_word(addr);
        let byte_offset = addr - aligned;
        let word = match ptrace_read_word(self.pid, aligned) {
            Ok(w) => w,
            Err(e) => return Err(TraceError::Os(e)),
        };
        let (updated, orig) = splice_word(word, byte_offset as u64, val);
        match ptrace_write_word(self.pid, aligned, updated) {
            Ok(()) => Ok(orig),
            Err(e) => Err(TraceError::Os(e)),
        }
    }

    /// Reads one byte of the tracee's memory: reads the containing aligned
    /// word and extracts the byte at the offset within it.
    pub fn read_byte(&self, addr: usize) -> (r: Result<u8, TraceError>)
    {
        let aligned = align_addr_to_word(addr);
        let byte_offset = addr - aligned;
        match ptrace_read_word(self.pid, aligned) {
            Ok(word) => {
                let (_, b) = splice_word(word, byte_offset as u64, 0);
                Ok(b)
            },
            Err(e) => Err(TraceError::Os(e)),
        }
    }

    /// Blocks until the child changes state and translates the result into
    /// the closed three-way stop taxonomy, reading the instruction pointer
    /// only in the stopped case. A wait result outside the taxonomy is an
    /// invariant violation and comes back as `UnexpectedWait`, on which the
    /// session must abort rather than continue on undefined state.
    pub fn wait(&self) -> (r: Result<Status, TraceError>) {
        let event = match wait_child(self.pid) {
            Ok(event) => event,
            Err(e) => return Err(TraceError::Os(e)),
        };
        match event {
            WaitEvent::Stopped(sig) => match ptrace_get_rip_rbp(self.pid) {
                Ok((rip, _)) => classify_wait(
                    WaitEvent::Stopped(sig),
                    #[verifier::truncate] (rip as usize),
                ),
                Err(e) => Err(TraceError::Os(e)),
            },
            other => classify_wait(other, 0),
        }
    }

    /// The breakpoint-aware resume protocol. If the process is stopped one
    /// byte past a tracked address, it executed that trap byte: restore the
    /// original byte there, rewind the instruction pointer to the breakpoint
    /// address, execute exactly one machine instruction, and — unless that
    /// step ended the process, in which case the terminal status is
    /// propagated at once — reinstall the trap. Then continue until the next
    /// trap or signal and report that stop.
    pub fn con(&mut self, breakpoints: &BreakpointTable) -> (r: Result<Status, TraceError>)
        requires
            breakpoints.wf(),
        ensures
            final(self).pid_spec() == old(self).pid_spec(),
    {
        let (rip64, _rbp) = match ptrace_get_rip_rbp(self.pid) {
            Ok(x) => x,
            Err(e) => return Err(TraceError::Os(e)),
        };
        let rip = #[verifier::truncate] (rip64 as usize);
        match breakpoint_hit(breakpoints, rip) {
            Some((bp_addr, orig_byte)) => {
                match self.write_byte(bp_addr, orig_byte) {
                    Ok(_) => (),
                    Err(e) => return Err(e),
                }
                match ptrace_set_rip(self.pid, bp_addr as u64) {
                    Ok(()) => (),
                    Err(e) => return Err(TraceError::Os(e)),
                }
                match ptrace_step(self.pid) {
                    Ok(()) => (),
                    Err(e) => return Err(TraceError::Os(e)),
                }
                match self.wait() {
                    Ok(post) => {
                        if trap_reinstall_needed(post) {
                            match self.write_byte(bp_addr, TRAP_OPCODE) {
                                Ok(_) => (),
                                Err(e) => return Err(e),
                            }
                        } else {
                            // The step ended the process: propagate the
                            // terminal status at once, with no reinstall.
                            return Ok(post);
                        }
                    },
                    Err(e) => return Err(e),
                }
            },
            None => (),
        }
        match ptrace_cont(self.pid) {
            Ok(()) => self.wait(),
            Err(e) => Err(TraceError::Os(e)),
        }
    }

    /// Reconstructs the call stack of the stopped process by walking the
    /// frame-pointer chain: resolve the instruction pointer to a function
    /// and source line, emit that frame, stop at the entry function, else
    /// follow the saved return address and previous frame pointer. When
    /// resolution fails, the raw register values are emitted and the walk
    /// stops. The frames come back in callee-to-caller order, ending at the
    /// entry function or at the raw fallback. The walk is capped at
    /// `MAX_BACKTRACE_FRAMES` — a safeguard beyond the original design, so
    /// a cyclic frame chain ends in the raw fallback instead of hanging the
    /// session.
    pub fn backtrace(&self, symbols: &SymbolTable) -> (r: Result<Vec<Frame>, TraceError>)
        ensures
            r matches Ok(fs) ==> frames_wellformed(fs@),
    {
        let (rip64, rbp64) = match ptrace_get_rip_rbp(self.pid) {
            Ok(x) => x,
            Err(e) => return Err(TraceError::Os(e)),
        };
        let mut rip = #[verifier::truncate] (rip64 as usize);
        let mut rbp = #[verifier::truncate] (rbp64 as usize);
        let mut frames: Vec<Frame> = Vec::new();
        // A corrupted frame chain can be cyclic; cap the walk and fall back
        // to the raw registers at the cap.
        let mut remaining: usize = MAX_BACKTRACE_FRAMES;
        loop
            invariant
                forall|i: int| 0 <= i < frames@.len() ==> is_mid_frame(#[trigger] frames@[i]),
            decreases remaining,
        {
            let function_here = symbols.function_for_address(rip);
            let line_here = symbols.line_for_address(rip);
            match (function_here, line_here) {
                (Some(function), Some((file, line))) => {
                    let at_entry = str_eq(function.as_str(), "main");
                    frames.push(Frame::Located { function, file, line });
                    if at_entry {
                        return Ok(frames);
                    }
                    if remaining == 0 || rbp > usize::MAX - 8 {
                        frames.push(Frame::Raw { rip, rbp });
                        return Ok(frames);
                    }
                    let new_rip = match ptrace_read_word(self.pid, rbp + 8) {
                        Ok(w) => w,
                        Err(e) => return Err(TraceError::Os(e)),
                    };
                    let new_rbp = match ptrace_read_word(self.pid, rbp) {
                        Ok(w) => w,
                        Err(e) => return Err(TraceError::Os(e)),
                    };
                    rip = #[verifier::truncate] (new_rip as usize);
                    rbp = #[verifier::truncate] (new_rbp as usize);
                    remaining = remaining - 1;
                },
                _ => {
                    frames.push(Frame::Raw { rip, rbp });
                    return Ok(frames);
                },
            }
        }
    }

    /// Forcibly terminates and reaps the child; the resulting wait status is
    /// handed back.
    pub fn kill(&mut self) -> (r: Result<Status, TraceError>)
        ensures
            final(self).pid_spec() == old(self).pid_spec(),
    {
        match ptrace_kill(self.pid) {
            Ok(()) => self.wait(),
            Err(e) => Err(TraceError::Os(e)),
        }
    }
}

} // verus!
