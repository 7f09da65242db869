use deet::backtrace::{walk_snapshot, Frame, MemSnapshot};
use deet::breakpoint::BreakpointTable;
use deet::command::DebuggerCommand;
use deet::inferior::{align_addr_to_word, breakpoint_hit, classify_wait, entry_trap_reached, trap_reinstall_needed};
use deet::session::{BreakOutcome, ContinueOutcome, describe_status, Session, StatusReport};
use deet::status::{Status, TraceError};
use deet::symbols::SymbolTable;
use deet::text::{parse_address, parse_radix, str_eq};
use deet::trace::WaitEvent;
use deet::word::{splice_word, TRAP_OPCODE};

fn symbols_with_foo() -> SymbolTable {
    let mut symbols = SymbolTable::new();
    symbols.add_function(String::from("main"), 0x1000, 0x1100);
    symbols.add_function(String::from("foo"), 0x4000, 0x4100);
    symbols.add_line(String::from("prog.c"), 3, 0x1020);
    symbols.add_line(String::from("prog.c"), 7, 0x4010);
    symbols
}

#[test]
fn splice_installs_trap_and_restores_byte_identical_memory() {
    // Install the trap into a word, inspect the byte, then splice the
    // recorded original byte back: memory must be byte-identical.
    let word: u64 = 0x1122334455667788;
    for off in 0..8u64 {
        let (patched, orig) = splice_word(word, off, TRAP_OPCODE);
        let (_, readback) = splice_word(patched, off, 0);
        assert_eq!(readback, TRAP_OPCODE);
        assert_eq!(orig, ((word >> (8 * off)) & 0xff) as u8);
        let (restored, recorded_trap) = splice_word(patched, off, orig);
        assert_eq!(recorded_trap, TRAP_OPCODE);
        assert_eq!(restored, word);
    }
}

#[test]
fn align_addr_rounds_down_to_word() {
    assert_eq!(align_addr_to_word(0x1007), 0x1000);
    assert_eq!(align_addr_to_word(0x1008), 0x1008);
    assert_eq!(align_addr_to_word(0), 0);
    assert_eq!(align_addr_to_word(0x4001), 0x4000);
}

#[test]
fn duplicate_breakpoint_is_rejected_without_live_process() {
    let mut session = Session::new(SymbolTable::new());
    let first = session.set_breakpoint_at(0x4000);
    assert_eq!(first, BreakOutcome::SetAt { index: 0, addr: 0x4000 });
    assert_eq!(session.breakpoint_count(), 1);
    let second = session.set_breakpoint_at(0x4000);
    assert_eq!(second, BreakOutcome::AlreadySet { addr: 0x4000 });
    assert_eq!(session.breakpoint_count(), 1);
}

#[test]
fn breakpoint_hit_fires_one_past_the_trap_address() {
    let mut table = BreakpointTable::new();
    assert!(table.add(0x4000, 0x55));
    // Stopped exactly one byte past the breakpoint: step-over at 0x4000,
    // restoring the recorded original byte.
    assert_eq!(breakpoint_hit(&table, 0x4001), Some((0x4000, 0x55)));
    // Stopped elsewhere: no step-over.
    assert_eq!(breakpoint_hit(&table, 0x4000), None);
    assert_eq!(breakpoint_hit(&table, 0x4002), None);
    assert_eq!(breakpoint_hit(&table, 0), None);
}

#[test]
fn breakpoint_by_function_name_resolves_to_its_address() {
    let mut session = Session::new(symbols_with_foo());
    let out = session.set_breakpoint("foo");
    assert_eq!(out, BreakOutcome::SetAt { index: 0, addr: 0x4000 });
    assert_eq!(session.breakpoint_count(), 1);
    // The stop the trap would produce is one past the address.
    let mut table = BreakpointTable::new();
    assert!(table.add(0x4000, 0));
    assert_eq!(breakpoint_hit(&table, 0x4001), Some((0x4000, 0)));
}

#[test]
fn breakpoint_at_unmapped_line_is_a_resolution_error() {
    let mut session = Session::new(symbols_with_foo());
    let out = session.set_breakpoint("42");
    assert_eq!(out, BreakOutcome::InvalidLine);
    assert_eq!(session.breakpoint_count(), 0);
}

#[test]
fn breakpoint_at_mapped_line_resolves() {
    let mut session = Session::new(symbols_with_foo());
    let out = session.set_breakpoint("7");
    assert_eq!(out, BreakOutcome::SetAt { index: 0, addr: 0x4010 });
}

#[test]
fn breakpoint_at_unknown_name_is_rejected() {
    let mut session = Session::new(symbols_with_foo());
    let out = session.set_breakpoint("bar");
    assert_eq!(out, BreakOutcome::UnknownTarget);
    assert_eq!(session.breakpoint_count(), 0);
}

#[test]
fn continue_without_live_process_reports_no_process() {
    let mut session = Session::new(SymbolTable::new());
    assert!(!session.is_running());
    let out = session.continue_process();
    assert!(matches!(out, ContinueOutcome::NoProcess));
    assert!(!session.is_running());
}

#[test]
fn kill_without_live_process_reports_nothing() {
    let mut session = Session::new(SymbolTable::new());
    assert_eq!(session.kill_existing(), None);
    assert!(!session.is_running());
}

#[test]
fn backtrace_walks_callee_to_caller_and_stops_at_main() {
    let symbols = symbols_with_foo();
    let mut mem = MemSnapshot::new();
    // foo's frame: saved return address one word above the frame pointer,
    // saved previous frame pointer at the frame pointer itself.
    mem.add(0x9008, 0x1020);
    mem.add(0x9000, 0x9100);
    let frames = walk_snapshot(&symbols, &mem, 0x4010, 0x9000, 64);
    assert_eq!(frames.len(), 2);
    match &frames[0] {
        Frame::Located { function, file, line } => {
            assert_eq!(function, "foo");
            assert_eq!(file, "prog.c");
            assert_eq!(*line, 7);
        }
        other => panic!("expected a located frame, got {:?}", other),
    }
    match &frames[1] {
        Frame::Located { function, file, line } => {
            assert_eq!(function, "main");
            assert_eq!(file, "prog.c");
            assert_eq!(*line, 3);
        }
        other => panic!("expected the entry frame, got {:?}", other),
    }
}

#[test]
fn backtrace_falls_back_to_raw_registers_without_symbols() {
    let symbols = SymbolTable::new();
    let mem = MemSnapshot::new();
    let frames = walk_snapshot(&symbols, &mem, 0x4010, 0x9000, 64);
    assert_eq!(frames.len(), 1);
    assert!(matches!(frames[0], Frame::Raw { rip: 0x4010, rbp: 0x9000 }));
}

#[test]
fn parse_address_accepts_star_hex_literals_only() {
    assert_eq!(parse_address("*0x4000"), Some(0x4000));
    assert_eq!(parse_address("*0X1aF"), Some(0x1af));
    assert_eq!(parse_address("*0xffffffffffffffff"), Some(usize::MAX));
    assert_eq!(parse_address("*0x10000000000000000"), None);
    assert_eq!(parse_address("*0x"), None);
    assert_eq!(parse_address("*4000"), None);
    assert_eq!(parse_address("0x4000"), None);
    assert_eq!(parse_address("*0xg"), None);
    assert_eq!(parse_address(""), None);
}

#[test]
fn parse_radix_reads_decimal_and_hex() {
    assert_eq!(parse_radix("42", 0, 10), Some(42));
    assert_eq!(parse_radix("0", 0, 10), Some(0));
    assert_eq!(parse_radix("4a", 0, 10), None);
    assert_eq!(parse_radix("", 0, 10), None);
    assert_eq!(parse_radix("ff", 0, 16), Some(255));
    assert_eq!(parse_radix("99999999999999999999999999", 0, 10), None);
}

#[test]
fn str_eq_compares_character_sequences() {
    assert!(str_eq("main", "main"));
    assert!(!str_eq("main", "mai"));
    assert!(!str_eq("main", "mainn"));
    assert!(!str_eq("", "a"));
    assert!(str_eq("", ""));
}

#[test]
fn from_tokens_parses_the_command_surface() {
    let quit = DebuggerCommand::from_tokens(&vec!["q"]);
    assert!(matches!(quit, Some(DebuggerCommand::Quit)));
    let quit_long = DebuggerCommand::from_tokens(&vec!["quit"]);
    assert!(matches!(quit_long, Some(DebuggerCommand::Quit)));
    let cont = DebuggerCommand::from_tokens(&vec!["c"]);
    assert!(matches!(cont, Some(DebuggerCommand::Continue)));
    let bt = DebuggerCommand::from_tokens(&vec!["bt"]);
    assert!(matches!(bt, Some(DebuggerCommand::Backtrace)));
    match DebuggerCommand::from_tokens(&vec!["run", "arg1", "arg2"]) {
        Some(DebuggerCommand::Run(args)) => assert_eq!(args, vec!["arg1", "arg2"]),
        other => panic!("expected a run command, got {:?}", other.is_some()),
    }
    match DebuggerCommand::from_tokens(&vec!["b", "*0x4000"]) {
        Some(DebuggerCommand::Break(arg)) => assert_eq!(arg, "*0x4000"),
        _ => panic!("expected a break command"),
    }
    match DebuggerCommand::from_tokens(&vec!["breakpoint", "foo"]) {
        Some(DebuggerCommand::Break(arg)) => assert_eq!(arg, "foo"),
        _ => panic!("expected a break command"),
    }
    assert!(DebuggerCommand::from_tokens(&vec!["bogus"]).is_none());
}

#[test]
fn describe_status_resolves_stops_against_the_symbols() {
    let symbols = symbols_with_foo();
    match describe_status(&symbols, Status::Stopped(5, 0x4010)) {
        StatusReport::StoppedAt { signal, file, line } => {
            assert_eq!(signal, 5);
            assert_eq!(file, "prog.c");
            assert_eq!(line, 7);
        }
        other => panic!("expected a located stop, got {:?}", other),
    }
    match describe_status(&symbols, Status::Stopped(5, 0x5000)) {
        StatusReport::StoppedRaw { signal, rip } => {
            assert_eq!(signal, 5);
            assert_eq!(rip, 0x5000);
        }
        other => panic!("expected a raw stop, got {:?}", other),
    }
    assert!(matches!(
        describe_status(&symbols, Status::Exited(0)),
        StatusReport::Exited { code: 0 }
    ));
    assert!(matches!(
        describe_status(&symbols, Status::Signaled(9)),
        StatusReport::Signaled { signal: 9 }
    ));
}

#[test]
fn symbol_lookups_answer_in_both_directions() {
    let symbols = symbols_with_foo();
    assert_eq!(symbols.address_for_function("foo"), Some(0x4000));
    assert_eq!(symbols.address_for_function("bar"), None);
    assert_eq!(symbols.address_for_line(3), Some(0x1020));
    assert_eq!(symbols.address_for_line(42), None);
    assert_eq!(symbols.function_for_address(0x4050), Some(String::from("foo")));
    assert_eq!(symbols.function_for_address(0x9000), None);
    assert_eq!(symbols.line_for_address(0x1020), Some((String::from("prog.c"), 3)));
    assert_eq!(symbols.line_for_address(0x1021), None);
}

#[test]
fn breakpoint_table_records_and_patches_original_bytes() {
    let mut table = BreakpointTable::new();
    assert_eq!(table.len(), 0);
    assert!(table.add(0x4000, 0));
    assert!(table.add(0x5000, 0));
    assert!(!table.add(0x4000, 7));
    assert_eq!(table.len(), 2);
    assert!(table.contains(0x4000));
    assert!(!table.contains(0x4001));
    assert_eq!(table.get_orig(0x4000), Some(0));
    table.set_orig(0x4000, 0x8b);
    assert_eq!(table.get_orig(0x4000), Some(0x8b));
    assert_eq!(table.get_orig(0x5000), Some(0));
    assert_eq!(table.get_orig(0x6000), None);
}

#[test]
fn wait_events_translate_to_the_stop_taxonomy() {
    assert_eq!(classify_wait(WaitEvent::Exited(3), 0), Ok(Status::Exited(3)));
    assert_eq!(classify_wait(WaitEvent::Signaled(9), 0), Ok(Status::Signaled(9)));
    assert_eq!(
        classify_wait(WaitEvent::Stopped(5), 0x4001),
        Ok(Status::Stopped(5, 0x4001))
    );
    assert_eq!(
        classify_wait(WaitEvent::Unknown, 0),
        Err(TraceError::UnexpectedWait)
    );
}

#[test]
fn trap_reinstalled_exactly_when_the_step_left_the_process_alive() {
    assert!(trap_reinstall_needed(Status::Stopped(5, 0x4001)));
    assert!(!trap_reinstall_needed(Status::Exited(0)));
    assert!(!trap_reinstall_needed(Status::Signaled(9)));
}

#[test]
fn only_the_entry_trap_yields_a_live_handle() {
    assert!(entry_trap_reached(Status::Stopped(5, 0x1000)));
    assert!(!entry_trap_reached(Status::Stopped(11, 0x1000)));
    assert!(!entry_trap_reached(Status::Exited(0)));
    assert!(!entry_trap_reached(Status::Signaled(9)));
}
