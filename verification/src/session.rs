//! The session controller: orchestrates operator commands against the one
//! traced process and the breakpoint table, and translates low-level stop
//! reasons into user-facing reports.
//!
//! At most one process is live at a time; a terminal stop discards it, so
//! the session returns to the no-process state.

use vstd::prelude::*;

use crate::backtrace::{frames_wellformed, Frame};
use crate::breakpoint::{Breakpoint, BreakpointTable};
use crate::inferior::Inferior;
use crate::status::{Status, TraceError};
use crate::symbols::{first_function_named, first_line_at, first_line_numbered, SymbolTable};
use crate::text::{addr_literal_ok, is_address_form, is_line_form, num_val, parse_address, parse_radix};
use crate::word::TRAP_OPCODE;

verus! {

/// A user-facing account of one stop of the target.
#[derive(Debug)]
pub enum StatusReport {
    /// Stopped on a signal at a resolvable source location.
    StoppedAt { signal: i32, file: String, line: usize },
    /// Stopped on a signal at an address without a source mapping.
    StoppedRaw { signal: i32, rip: usize },
    /// Exited normally with the given code.
    Exited { code: i32 },
    /// Terminated by the given signal.
    Signaled { signal: i32 },
}

/// Whether the report says the process is gone.
pub open spec fn report_is_terminal(r: StatusReport) -> bool {
    r is Exited || r is Signaled
}

/// The report `r` is the faithful account of status `st` under `symbols`:
/// terminal statuses are passed through, and a stop is located at the
/// source line mapped at its instruction pointer when there is one, else
/// reported raw.
pub open spec fn report_matches(symbols: SymbolTable, st: Status, r: StatusReport) -> bool {
    match st {
        Status::Exited(code) => r == (StatusReport::Exited { code }),
        Status::Signaled(signal) => r == (StatusReport::Signaled { signal }),
        Status::Stopped(signal, rip) => {
            if first_line_at(symbols.lines_spec(), rip) is Some {
                (r matches StatusReport::StoppedAt { signal: s2, file, line } && s2 == signal
                    && file@ == first_line_at(symbols.lines_spec(), rip).unwrap().file@ && line
                    == first_line_at(symbols.lines_spec(), rip).unwrap().line)
            } else {
                r == (StatusReport::StoppedRaw { signal, rip })
            }
        },
    }
}

/// Translates a stop status into its user-facing report, resolving a
/// stopped address to a source location when the symbols map one.
pub fn describe_status(symbols: &SymbolTable, st: Status) -> (r: StatusReport)
    ensures
        report_matches(*symbols, st, r),
{
    match st {
        Status::Exited(code) => StatusReport::Exited { code },
        Status::Signaled(signal) => StatusReport::Signaled { signal },
        Status::Stopped(signal, rip) => match symbols.line_for_address(rip) {
            Some((file, line)) => StatusReport::StoppedAt { signal, file, line },
            None => StatusReport::StoppedRaw { signal, rip },
        },
    }
}

/// The result of resuming the live process.
#[derive(Debug)]
pub enum ResumeOutcome {
    /// The process stopped or ended; here is the account of it.
    Report(StatusReport),
    /// A tracing primitive failed; the process is kept.
    Failed(TraceError),
}

/// The result of launching a freshly spawned child.
#[derive(Debug)]
pub enum RunOutcome {
    /// The child never reached its entry trap; no process was created.
    /// Breakpoint addresses that could not be patched are listed.
    StartFailed { invalid: Vec<usize> },
    /// The child is adopted and was resumed once.
    Started { invalid: Vec<usize>, resumed: ResumeOutcome },
}

/// The result of the continue command.
#[derive(Debug)]
pub enum ContinueOutcome {
    /// No process is running.
    NoProcess,
    /// The live process was resumed.
    Resumed(ResumeOutcome),
}

/// The result of the backtrace command.
#[derive(Debug)]
pub enum BacktraceOutcome {
    /// No process is running.
    NoProcess,
    /// The reconstructed call stack, callee to caller.
    Frames(Vec<Frame>),
    /// A tracing primitive failed.
    Failed(TraceError),
}

/// The result of the set-breakpoint command.
#[derive(Clone, Copy, Debug, PartialEq, Eq, Structural)]
pub enum BreakOutcome {
    /// Breakpoint number `index` is now set at `addr`.
    SetAt { index: usize, addr: usize },
    /// `addr` is already tracked; the table is unchanged.
    AlreadySet { addr: usize },
    /// The live process's memory at `addr` could not be patched; the table
    /// is unchanged.
    InstallFailed { addr: usize },
    /// The argument began with `*` but is not a well-formed address literal.
    InvalidAddress,
    /// The argument is a line number with no mapped address.
    InvalidLine,
    /// The argument is neither an address, a mapped line, nor a known
    /// function name.
    UnknownTarget,
}

/// The session controller: the symbol table of the target, the breakpoint
/// table, and the at-most-one live traced process.
pub struct Session {
    symbols: SymbolTable,
    breakpoints: BreakpointTable,
    inferior: Option<Inferior>,
}

/// What setting a breakpoint at a resolved address does to the session: a
/// tracked address is rejected and nothing changes (so setting the same
/// address twice leaves the table size unchanged); otherwise with no live
/// process a placeholder entry is appended; with a live process the trap is
/// installed and the entry appended with the recorded original byte, or the
/// table is left unchanged when the patch fails.
pub open spec fn bp_add_effect(pre: Session, post: Session, r: BreakOutcome, addr: usize) -> bool {
    if pre.breakpoints_spec().contains_addr(addr) {
        &&& r == (BreakOutcome::AlreadySet { addr })
        &&& post.breakpoints_spec().entries_spec() == pre.breakpoints_spec().entries_spec()
        &&& (forall|x: usize|
            post.breakpoints_spec().contains_addr(x) == pre.breakpoints_spec().contains_addr(x))
    } else if !pre.live() {
        &&& r == (BreakOutcome::SetAt { index: pre.breakpoints_spec().entries_spec().len() as usize, addr })
        &&& post.breakpoints_spec().entries_spec() == pre.breakpoints_spec().entries_spec().push(
            Breakpoint { addr, orig_byte: 0 },
        )
        &&& (forall|x: usize|
            post.breakpoints_spec().contains_addr(x) == (pre.breakpoints_spec().contains_addr(x)
                || x == addr))
    } else {
        &&& r is SetAt || r is InstallFailed
        &&& (r is InstallFailed ==> r == (BreakOutcome::InstallFailed { addr })
            && post.breakpoints_spec().entries_spec() == pre.breakpoints_spec().entries_spec())
        &&& (r is SetAt ==> r == (BreakOutcome::SetAt {
            index: pre.breakpoints_spec().entries_spec().len() as usize,
            addr,
        }) && (exists|b: u8|
            post.breakpoints_spec().entries_spec() == pre.breakpoints_spec().entries_spec().push(
                Breakpoint { addr, orig_byte: b },
            )) && (forall|x: usize|
            post.breakpoints_spec().contains_addr(x) == (pre.breakpoints_spec().contains_addr(x)
                || x == addr)))
    }
}

impl Session {
    /// The symbol table.
    pub closed spec fn symbols_spec(self) -> SymbolTable {
        self.symbols
    }

    /// The breakpoint table.
    pub closed spec fn breakpoints_spec(self) -> BreakpointTable {
        self.breakpoints
    }

    /// Whether a process is live.
    pub closed spec fn live(self) -> bool {
        self.inferior is Some
    }

    /// The live process's identifier.
    pub closed spec fn live_pid(self) -> i32 {
        self.inferior.unwrap().pid_spec()
    }

    /// Well-formed: the breakpoint table has unique addresses.
    pub open spec fn wf(self) -> bool {
        self.breakpoints_spec().wf()
    }

    /// Creates a session over the target's symbols: no process, no
    /// breakpoints.
    pub fn new(symbols: SymbolTable) -> (r: Session)
        ensures
            r.wf(),
            !r.live(),
            r.breakpoints_spec().entries_spec().len() == 0,
            forall|a: usize| !r.breakpoints_spec().contains_addr(a),
            r.symbols_spec() == symbols,
    {
        Session { symbols, breakpoints: BreakpointTable::new(), inferior: None }
    }

    /// Whether a process is currently live.
    pub fn is_running(&self) -> (r: bool)
        ensures
            r == self.live(),
    {
        self.inferior.is_some()
    }

    /// How many breakpoints the table tracks.
    pub fn breakpoint_count(&self) -> (r: usize)
        ensures
            r == self.breakpoints_spec().entries_spec().len(),
    {
        self.breakpoints.len()
    }

    /// Terminates and discards the live process, if any, handing back its
    /// identifier when the kill succeeded (for the session's report). Used
    /// when a new run replaces a live process and when the session quits:
    /// either way the previous process is gone before anything else starts.
    pub fn kill_existing(&mut self) -> (r: Option<i32>)
        requires
            old(self).wf(),
        ensures
            final(self).wf(),
            !final(self).live(),
            final(self).symbols_spec() == old(self).symbols_spec(),
            final(self).breakpoints_spec() == old(self).breakpoints_spec(),
            !old(self).live() ==> r is None,
            r is Some ==> old(self).live() && r == Some(old(self).live_pid()),
    {
        let r;
        match &mut self.inferior {
            Some(inf) => {
                let pid = inf.pid();
                match inf.kill() {
                    Ok(_) => {
                        r = Some(pid);
                    },
                    Err(_) => {
                        r = None;
                    },
                }
            },
            None => {
                r = None;
            },
        }
        self.inferior = None;
        r
    }

    /// Resumes the live process once, reports the outcome, and discards the
    /// process exactly when the report is terminal.
    fn resume_live(&mut self) -> (r: ResumeOutcome)
        requires
            old(self).wf(),
            old(self).live(),
        ensures
            final(self).wf(),
            final(self).symbols_spec() == old(self).symbols_spec(),
            final(self).breakpoints_spec() == old(self).breakpoints_spec(),
            !final(self).live() <==> (r matches ResumeOutcome::Report(rep) && report_is_terminal(
                rep,
            )),
            final(self).live() ==> final(self).live_pid() == old(self).live_pid(),
    {
        let (outcome, terminal) = match &mut self.inferior {
            Some(inf) => match inf.con(&self.breakpoints) {
                Ok(st) => {
                    let terminal_now = match st {
                        Status::Exited(_) => true,
                        Status::Signaled(_) => true,
                        Status::Stopped(_, _) => false,
                    };
                    let rep = describe_status(&self.symbols, st);
                    (ResumeOutcome::Report(rep), terminal_now)
                },
                Err(e) => (ResumeOutcome::Failed(e), false),
            },
            None => {
                proof {
                    assert(false);
                }
                (ResumeOutcome::Failed(TraceError::UnexpectedWait), false)
            },
        };
        if terminal {
            self.inferior = None;
        }
        outcome
    }

    /// Adopts a freshly spawned, trace-enabled child: installs the known
    /// breakpoints, checks that the first stop is the entry trap, and on
    /// success performs the initial resume and reports it. On failure no
    /// process is created and the session stays without one.
    pub fn run_spawned(&mut self, pid: i32) -> (r: RunOutcome)
        requires
            old(self).wf(),
            !old(self).live(),
        ensures
            final(self).wf(),
            final(self).symbols_spec() == old(self).symbols_spec(),
            forall|a: usize|
                final(self).breakpoints_spec().contains_addr(a) == old(
                    self,
                ).breakpoints_spec().contains_addr(a),
            r is StartFailed ==> !final(self).live(),
            (r matches RunOutcome::Started { resumed, .. } ==> (!final(self).live() <==> (resumed
                matches ResumeOutcome::Report(rep) && report_is_terminal(rep)))),
            final(self).live() ==> final(self).live_pid() == pid,
            (r matches RunOutcome::Started { invalid, .. } ==> forall|k: int|
                0 <= k < invalid@.len() ==> old(self).breakpoints_spec().contains_addr(
                    invalid@[k],
                )),
            (r matches RunOutcome::StartFailed { invalid } ==> invalid@.len() == 0),
    {
        let (inf_opt, invalid) = Inferior::new(pid, &mut self.breakpoints);
        match inf_opt {
            Some(inf) => {
                self.inferior = Some(inf);
                let resumed = self.resume_live();
                RunOutcome::Started { invalid, resumed }
            },
            None => RunOutcome::StartFailed { invalid },
        }
    }

    /// The continue command: with no live process nothing changes and the
    /// operator is told no process is running; otherwise the process is
    /// resumed once and the stop reported, the process being discarded
    /// exactly when it ended.
    pub fn continue_process(&mut self) -> (r: ContinueOutcome)
        requires
            old(self).wf(),
        ensures
            final(self).wf(),
            final(self).symbols_spec() == old(self).symbols_spec(),
            final(self).breakpoints_spec() == old(self).breakpoints_spec(),
            !old(self).live() ==> r == ContinueOutcome::NoProcess && *final(self) == *old(self),
            old(self).live() ==> (r matches ContinueOutcome::Resumed(res) && (!final(self).live()
                <==> (res matches ResumeOutcome::Report(rep) && report_is_terminal(rep)))),
    {
        if self.inferior.is_some() {
            let res = self.resume_live();
            ContinueOutcome::Resumed(res)
        } else {
            ContinueOutcome::NoProcess
        }
    }

    /// Sets a breakpoint at an already resolved address: rejects a tracked
    /// address, installs the trap at once when a process is live, records a
    /// placeholder otherwise.
    pub fn set_breakpoint_at(&mut self, addr: usize) -> (r: BreakOutcome)
        requires
            old(self).wf(),
        ensures
            final(self).wf(),
            final(self).symbols_spec() == old(self).symbols_spec(),
            final(self).live() == old(self).live(),
            bp_add_effect(*old(self), *final(self), r, addr),
    {
        if self.breakpoints.contains(addr) {
            return BreakOutcome::AlreadySet { addr };
        }
        let index = self.breakpoints.len();
        match &mut self.inferior {
            Some(inf) => match inf.write_byte(addr, TRAP_OPCODE) {
                Ok(orig) => {
                    let _ = self.breakpoints.add(addr, orig);
                    BreakOutcome::SetAt { index, addr }
                },
                Err(_) => BreakOutcome::InstallFailed { addr },
            },
            None => {
                let _ = self.breakpoints.add(addr, 0);
                BreakOutcome::SetAt { index, addr }
            },
        }
    }

    /// The set-breakpoint command. The argument grammar: a token beginning
    /// with `*` must be a `*0x` hexadecimal literal; a token of decimal
    /// digits is a source line number, resolved through the symbols; any
    /// other token is a function name, resolved the same way. A resolution
    /// failure is reported and mutates nothing; a resolved address is set
    /// as by `set_breakpoint_at`.
    pub fn set_breakpoint(&mut self, arg: &str) -> (r: BreakOutcome)
        requires
            old(self).wf(),
        ensures
            final(self).wf(),
            final(self).symbols_spec() == old(self).symbols_spec(),
            final(self).live() == old(self).live(),
            is_address_form(arg@) && !addr_literal_ok(arg@) ==> r == BreakOutcome::InvalidAddress
                && *final(self) == *old(self),
            is_address_form(arg@) && addr_literal_ok(arg@) ==> bp_add_effect(
                *old(self),
                *final(self),
                r,
                num_val(arg@.skip(3), 16) as usize,
            ),
            !is_address_form(arg@) && is_line_form(arg@) && first_line_numbered(
                old(self).symbols_spec().lines_spec(),
                num_val(arg@, 10) as usize,
            ) is None ==> r == BreakOutcome::InvalidLine && *final(self) == *old(self),
            !is_address_form(arg@) && is_line_form(arg@) && first_line_numbered(
                old(self).symbols_spec().lines_spec(),
                num_val(arg@, 10) as usize,
            ) is Some ==> bp_add_effect(
                *old(self),
                *final(self),
                r,
                first_line_numbered(
                    old(self).symbols_spec().lines_spec(),
                    num_val(arg@, 10) as usize,
                ).unwrap().addr,
            ),
            !is_address_form(arg@) && !is_line_form(arg@) && first_function_named(
                old(self).symbols_spec().functions_spec(),
                arg@,
            ) is None ==> r == BreakOutcome::UnknownTarget && *final(self) == *old(self),
            !is_address_form(arg@) && !is_line_form(arg@) && first_function_named(
                old(self).symbols_spec().functions_spec(),
                arg@,
            ) is Some ==> bp_add_effect(
                *old(self),
                *final(self),
                r,
                first_function_named(old(self).symbols_spec().functions_spec(), arg@).unwrap().low,
            ),
    {
        let len = arg.unicode_len();
        if len >= 1 && arg.get_char(0) == '*' {
            match parse_address(arg) {
                Some(addr) => self.set_breakpoint_at(addr),
                None => BreakOutcome::InvalidAddress,
            }
        } else {
            proof {
                assert(arg@.skip(0) =~= arg@);
            }
            match parse_radix(arg, 0, 10) {
                Some(line) => match self.symbols.address_for_line(line) {
                    Some(addr) => self.set_breakpoint_at(addr),
                    None => BreakOutcome::InvalidLine,
                },
                None => match self.symbols.address_for_function(arg) {
                    Some(addr) => self.set_breakpoint_at(addr),
                    None => BreakOutcome::UnknownTarget,
                },
            }
        }
    }

    /// The backtrace command: with no live process the operator is told no
    /// process is running; otherwise the live process's call stack is
    /// reconstructed, callee to caller.
    pub fn backtrace(&self) -> (r: BacktraceOutcome)
        ensures
            r is NoProcess <==> !self.live(),
            !self.live() ==> r == BacktraceOutcome::NoProcess,
            r matches BacktraceOutcome::Frames(fs) ==> frames_wellformed(fs@),
    {
        match &self.inferior {
            Some(inf) => match inf.backtrace(&self.symbols) {
                Ok(frames) => BacktraceOutcome::Frames(frames),
                Err(e) => BacktraceOutcome::Failed(e),
            },
            None => BacktraceOutcome::NoProcess,
        }
    }
}

} // verus!
