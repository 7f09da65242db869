//! Call-stack reconstruction over the frame-pointer convention.
//!
//! Starting from the current instruction and frame pointers, each step
//! resolves the instruction pointer to a function and source line, emits
//! that frame, and stops at the program's entry function; otherwise it reads
//! the saved return address one word above the frame pointer and the saved
//! previous frame pointer at the frame pointer itself, and continues with
//! those. When resolution fails the walk emits the raw register values and
//! stops: a best-effort diagnostic, not a hard failure.

use vstd::prelude::*;

use crate::symbols::{first_function, first_line_at, FunctionRecord, LineRecord, SymbolTable};
use crate::text::str_eq;

verus! {

/// One frame of a backtrace, in callee-to-caller order.
#[derive(Debug)]
pub enum Frame {
    /// A resolved frame: the function's name and the source location.
    Located { function: String, file: String, line: usize },
    /// The raw register values, emitted when resolution fails.
    Raw { rip: usize, rbp: usize },
}

/// An interior frame of a walk: resolved, and not the entry function (the
/// walk would have stopped there).
pub open spec fn is_mid_frame(f: Frame) -> bool {
    f matches Frame::Located { function, .. } && function@ != "main"@
}

/// A frame the walk may end on: a raw fallback, or the entry function.
pub open spec fn is_final_frame(f: Frame) -> bool {
    f matches Frame::Located { function, .. } ==> function@ == "main"@
}

/// The shape every finished walk has: at least one frame; every frame
/// before the last is a resolved frame of some function other than the
/// entry function; and a resolved last frame can only be the entry
/// function. Frames are emitted callee first, so this is callee-to-caller
/// order ending at `main` or at a raw diagnostic frame.
pub open spec fn frames_wellformed(fs: Seq<Frame>) -> bool {
    &&& fs.len() >= 1
    &&& forall|i: int| 0 <= i < fs.len() - 1 ==> is_mid_frame(#[trigger] fs[i])
    &&& is_final_frame(fs.last())
}

/// A snapshot of stack memory: address/word pairs, first entry wins.
pub struct MemSnapshot {
    words: Vec<(usize, u64)>,
}

/// The first word recorded at `addr`.
pub open spec fn lookup_word(s: Seq<(usize, u64)>, addr: usize) -> Option<u64>
    decreases s.len(),
{
    if s.len() == 0 {
        None
    } else if s[0].0 == addr {
        Some(s[0].1)
    } else {
        lookup_word(s.drop_first(), addr)
    }
}

impl MemSnapshot {
    /// The recorded address/word pairs.
    pub closed spec fn words_spec(self) -> Seq<(usize, u64)> {
        self.words@
    }

    /// Creates an empty snapshot.
    pub fn new() -> (r: MemSnapshot)
        ensures
            r.words_spec().len() == 0,
    {
        MemSnapshot { words: Vec::new() }
    }

    /// Records that `addr` holds `word`.
    pub fn add(&mut self, addr: usize, word: u64)
        ensures
            final(self).words_spec() == old(self).words_spec().push((addr, word)),
    {
        self.words.push((addr, word));
    }

    /// The word recorded at `addr`, if any.
    pub fn read_word(&self, addr: usize) -> (r: Option<u64>)
        ensures
            r == lookup_word(self.words_spec(), addr),
    {
        let n = self.words.len();
        proof {
            assert(self.words@.skip(0) =~= self.words@);
        }
        let mut i: usize = 0;
        while i < n
            invariant
                n == self.words@.len(),
                i <= n,
                lookup_word(self.words@, addr) == lookup_word(self.words@.skip(i as int), addr),
            decreases n - i,
        {
            proof {
                assert(self.words@.skip(i as int)[0] == self.words@[i as int]);
                assert(self.words@.skip(i as int).drop_first() =~= self.words@.skip(i as int + 1));
            }
            let entry = self.words[i];
            if entry.0 == addr {
                return Some(entry.1);
            }
            i = i + 1;
        }
        None
    }
}

/// The full walk, one frame per step. The first frame resolves the
/// starting instruction pointer; each later step reads the saved return
/// address one word above the frame pointer and the saved previous frame
/// pointer at the frame pointer itself, and continues with those. The walk
/// ends at the entry function, and falls back to the raw register values
/// when resolution or a read fails, the frame pointer has no word above
/// it, or the fuel runs out.
pub open spec fn walk_spec(
    funcs: Seq<FunctionRecord>,
    lines: Seq<LineRecord>,
    mem: Seq<(usize, u64)>,
    rip: usize,
    rbp: usize,
    fuel: int,
) -> Seq<Frame>
    decreases fuel,
{
    if first_function(funcs, rip) is None || first_line_at(lines, rip) is None {
        seq![Frame::Raw { rip, rbp }]
    } else {
        let f = first_function(funcs, rip).unwrap();
        let l = first_line_at(lines, rip).unwrap();
        let frame = Frame::Located { function: f.name, file: l.file, line: l.line };
        if f.name@ == "main"@ {
            seq![frame]
        } else if fuel <= 0 || rbp > usize::MAX - 8 {
            seq![frame, Frame::Raw { rip, rbp }]
        } else {
            match (lookup_word(mem, (rbp + 8) as usize), lookup_word(mem, rbp)) {
                (Some(new_rip), Some(new_rbp)) => seq![frame] + walk_spec(
                    funcs,
                    lines,
                    mem,
                    new_rip as usize,
                    new_rbp as usize,
                    fuel - 1,
                ),
                _ => seq![frame, Frame::Raw { rip, rbp }],
            }
        }
    }
}

/// Walks the frame-pointer chain through a memory snapshot, resolving each
/// instruction pointer against `symbols`, for at most `fuel` resolved
/// frames. The result is exactly the walk of the inputs, and so has the
/// finished-walk shape: frames in callee-to-caller order, the walk ending
/// at the entry function or at a raw fallback frame.
pub fn walk_snapshot(
    symbols: &SymbolTable,
    mem: &MemSnapshot,
    start_rip: usize,
    start_rbp: usize,
    fuel: usize,
) -> (r: Vec<Frame>)
    ensures
        r@ == walk_spec(
            symbols.functions_spec(),
            symbols.lines_spec(),
            mem.words_spec(),
            start_rip,
            start_rbp,
            fuel as int,
        ),
        frames_wellformed(r@),
{
    let ghost funcs = symbols.functions_spec();
    let ghost lines = symbols.lines_spec();
    let ghost words = mem.words_spec();
    let mut rip = start_rip;
    let mut rbp = start_rbp;
    let mut frames: Vec<Frame> = Vec::new();
    let mut remaining = fuel;
    proof {
        assert(walk_spec(funcs, lines, words, start_rip, start_rbp, fuel as int) =~= frames@
            + walk_spec(funcs, lines, words, rip, rbp, remaining as int));
    }
    loop
        invariant
            funcs == symbols.functions_spec(),
            lines == symbols.lines_spec(),
            words == mem.words_spec(),
            forall|i: int| 0 <= i < frames@.len() ==> is_mid_frame(#[trigger] frames@[i]),
            walk_spec(funcs, lines, words, start_rip, start_rbp, fuel as int) == frames@
                + walk_spec(funcs, lines, words, rip, rbp, remaining as int),
        decreases remaining,
    {
        let ghost rest = walk_spec(funcs, lines, words, rip, rbp, remaining as int);
        let function_here = symbols.function_for_address(rip);
        let line_here = symbols.line_for_address(rip);
        match (function_here, line_here) {
            (Some(function), Some((file, line))) => {
                let at_entry = str_eq(function.as_str(), "main");
                frames.push(Frame::Located { function, file, line });
                if at_entry {
                    proof {
                        assert(frames@.drop_last() + rest =~= frames@);
                    }
                    return frames;
                }
                if remaining == 0 || rbp > usize::MAX - 8 {
                    frames.push(Frame::Raw { rip, rbp });
                    proof {
                        assert(frames@.drop_last().drop_last() + rest =~= frames@);
                    }
                    return frames;
                }
                match (mem.read_word(rbp + 8), mem.read_word(rbp)) {
                    (Some(new_rip), Some(new_rbp)) => {
                        rip = #[verifier::truncate] (new_rip as usize);
                        rbp = #[verifier::truncate] (new_rbp as usize);
                        remaining = remaining - 1;
                        proof {
                            assert(frames@.drop_last() + rest =~= frames@ + walk_spec(
                                funcs,
                                lines,
                                words,
                                rip,
                                rbp,
                                remaining as int,
                            ));
                        }
                    },
                    _ => {
                        frames.push(Frame::Raw { rip, rbp });
                        proof {
                            assert(frames@.drop_last().drop_last() + rest =~= frames@);
                        }
                        return frames;
                    },
                }
            },
            _ => {
                frames.push(Frame::Raw { rip, rbp });
                proof {
                    assert(frames@.drop_last() + rest =~= frames@);
                }
                return frames;
            },
        }
    }
}

} // verus!
