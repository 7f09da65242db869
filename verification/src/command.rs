//! The operator's command surface: one fixed set of commands, selected by
//! the first token of an already-tokenized input line.

use vstd::prelude::*;

use crate::text::str_eq;

verus! {

/// One debugger command.
pub enum DebuggerCommand {
    Quit,
    Run(Vec<String>),
    Continue,
    Break(String),
    Backtrace,
}

/// The token selects the quit command.
pub open spec fn is_quit_token(t: Seq<char>) -> bool {
    t == "q"@ || t == "quit"@
}

/// The token selects the run command.
pub open spec fn is_run_token(t: Seq<char>) -> bool {
    t == "r"@ || t == "run"@
}

/// The token selects the continue command.
pub open spec fn is_continue_token(t: Seq<char>) -> bool {
    t == "c"@ || t == "continue"@
}

/// The token selects the set-breakpoint command.
pub open spec fn is_break_token(t: Seq<char>) -> bool {
    t == "b"@ || t == "break"@ || t == "breakpoint"@
}

/// The token selects the backtrace command.
pub open spec fn is_backtrace_token(t: Seq<char>) -> bool {
    t == "bt"@ || t == "backtrace"@
}

/// The token selects some command.
pub open spec fn is_command_token(t: Seq<char>) -> bool {
    is_quit_token(t) || is_run_token(t) || is_continue_token(t) || is_break_token(t)
        || is_backtrace_token(t)
}

/// The five command families claim disjoint token sets, so exactly one
/// clause of `from_tokens`'s contract applies to a recognized token.
proof fn lemma_command_tokens_distinct()
    ensures
        forall|t: Seq<char>|
            is_quit_token(t) ==> !is_run_token(t) && !is_continue_token(t) && !is_break_token(t)
                && !is_backtrace_token(t),
        forall|t: Seq<char>|
            is_run_token(t) ==> !is_continue_token(t) && !is_break_token(t) && !is_backtrace_token(
                t,
            ),
        forall|t: Seq<char>| is_continue_token(t) ==> !is_break_token(t) && !is_backtrace_token(t),
        forall|t: Seq<char>| is_break_token(t) ==> !is_backtrace_token(t),
{
    reveal_strlit("q");
    reveal_strlit("quit");
    reveal_strlit("r");
    reveal_strlit("run");
    reveal_strlit("c");
    reveal_strlit("continue");
    reveal_strlit("b");
    reveal_strlit("break");
    reveal_strlit("breakpoint");
    reveal_strlit("bt");
    reveal_strlit("backtrace");
    assert("q"@.len() == 1 && "q"@[0] == 'q');
    assert("quit"@.len() == 4);
    assert("r"@.len() == 1 && "r"@[0] == 'r');
    assert("run"@.len() == 3);
    assert("c"@.len() == 1 && "c"@[0] == 'c');
    assert("continue"@.len() == 8);
    assert("b"@.len() == 1 && "b"@[0] == 'b');
    assert("break"@.len() == 5);
    assert("breakpoint"@.len() == 10);
    assert("bt"@.len() == 2 && "bt"@[1] == 't');
    assert("backtrace"@.len() == 9);
}

impl DebuggerCommand {
    /// Parses one tokenized input line: the first token selects the
    /// command, the run command takes the remaining tokens as the target's
    /// arguments, and the set-breakpoint command takes the next token as its
    /// target. An unrecognized first token parses to nothing.
    pub fn from_tokens(tokens: &Vec<&str>) -> (r: Option<DebuggerCommand>)
        requires
            tokens@.len() >= 1,
            is_break_token(tokens@[0]@) ==> tokens@.len() >= 2,
        ensures
            r is Some <==> is_command_token(tokens@[0]@),
            is_quit_token(tokens@[0]@) ==> r == Some(DebuggerCommand::Quit),
            is_continue_token(tokens@[0]@) ==> r == Some(DebuggerCommand::Continue),
            is_backtrace_token(tokens@[0]@) ==> r == Some(DebuggerCommand::Backtrace),
            is_run_token(tokens@[0]@) ==> (r matches Some(DebuggerCommand::Run(args))
                && args@.len() == tokens@.len() - 1 && (forall|i: int|
                0 <= i < args@.len() ==> args@[i]@ == tokens@[i + 1]@)),
            is_break_token(tokens@[0]@) ==> (r matches Some(DebuggerCommand::Break(arg)) && arg@
                == tokens@[1]@),
    {
        proof {
            lemma_command_tokens_distinct();
        }
        let head: &str = tokens[0];
        if str_eq(head, "q") || str_eq(head, "quit") {
            Some(DebuggerCommand::Quit)
        } else if str_eq(head, "r") || str_eq(head, "run") {
            let mut args: Vec<String> = Vec::new();
            let mut i: usize = 1;
            while i < tokens.len()
                invariant
                    1 <= i <= tokens@.len(),
                    args@.len() == i - 1,
                    forall|k: int| 0 <= k < args@.len() ==> args@[k]@ == tokens@[k + 1]@,
                decreases tokens@.len() - i,
            {
                args.push(String::from_str(tokens[i]));
                i = i + 1;
            }
            Some(DebuggerCommand::Run(args))
        } else if str_eq(head, "c") || str_eq(head, "continue") {
            Some(DebuggerCommand::Continue)
        } else if str_eq(head, "b") || str_eq(head, "break") || str_eq(head, "breakpoint") {
            Some(DebuggerCommand::Break(String::from_str(tokens[1])))
        } else if str_eq(head, "bt") || str_eq(head, "backtrace") {
            Some(DebuggerCommand::Backtrace)
        } else {
            None
        }
    }
}

} // verus!
