//! The symbol table: a read-only lookup service mapping instruction
//! addresses to source locations and function names, and source lines or
//! function names back to addresses. It is loaded once (from the target's
//! debug metadata, by the caller) and only queried here.

use vstd::prelude::*;

use crate::text::str_eq;

verus! {

/// One function's name and the half-open address range `[low, high)` its
/// code occupies.
pub struct FunctionRecord {
    pub name: String,
    pub low: usize,
    pub high: usize,
}

/// One source line and the address its code starts at.
pub struct LineRecord {
    pub file: String,
    pub line: usize,
    pub addr: usize,
}

/// Whether `addr` falls in the function's address range.
pub open spec fn covers(f: FunctionRecord, addr: usize) -> bool {
    f.low <= addr && addr < f.high
}

/// The first record whose range covers `addr`.
pub open spec fn first_function(s: Seq<FunctionRecord>, addr: usize) -> Option<FunctionRecord>
    decreases s.len(),
{
    if s.len() == 0 {
        None
    } else if covers(s[0], addr) {
        Some(s[0])
    } else {
        first_function(s.drop_first(), addr)
    }
}

/// The first record whose name is `name`.
pub open spec fn first_function_named(s: Seq<FunctionRecord>, name: Seq<char>) -> Option<
    FunctionRecord,
>
    decreases s.len(),
{
    if s.len() == 0 {
        None
    } else if s[0].name@ == name {
        Some(s[0])
    } else {
        first_function_named(s.drop_first(), name)
    }
}

/// The first record whose address is exactly `addr`.
pub open spec fn first_line_at(s: Seq<LineRecord>, addr: usize) -> Option<LineRecord>
    decreases s.len(),
{
    if s.len() == 0 {
        None
    } else if s[0].addr == addr {
        Some(s[0])
    } else {
        first_line_at(s.drop_first(), addr)
    }
}

/// The first record for source line `line`.
pub open spec fn first_line_numbered(s: Seq<LineRecord>, line: usize) -> Option<LineRecord>
    decreases s.len(),
{
    if s.len() == 0 {
        None
    } else if s[0].line == line {
        Some(s[0])
    } else {
        first_line_numbered(s.drop_first(), line)
    }
}

/// Read-only mapping between code addresses and human-readable source
/// locations and function names.
pub struct SymbolTable {
    functions: Vec<FunctionRecord>,
    lines: Vec<LineRecord>,
}

impl SymbolTable {
    /// The function records, in load order.
    pub closed spec fn functions_spec(self) -> Seq<FunctionRecord> {
        self.functions@
    }

    /// The line records, in load order.
    pub closed spec fn lines_spec(self) -> Seq<LineRecord> {
        self.lines@
    }

    /// Creates an empty table (a target without debug symbols).
    pub fn new() -> (r: SymbolTable)
        ensures
            r.functions_spec().len() == 0,
            r.lines_spec().len() == 0,
    {
        SymbolTable { functions: Vec::new(), lines: Vec::new() }
    }

    /// Records that the function called `name` occupies `[low, high)`.
    pub fn add_function(&mut self, name: String, low: usize, high: usize)
        ensures
            final(self).functions_spec() == old(self).functions_spec().push(
                FunctionRecord { name, low, high },
            ),
            final(self).lines_spec() == old(self).lines_spec(),
    {
        self.functions.push(FunctionRecord { name, low, high });
    }

    /// Records that source line `line` of `file` starts at `addr`.
    pub fn add_line(&mut self, file: String, line: usize, addr: usize)
        ensures
            final(self).lines_spec() == old(self).lines_spec().push(LineRecord { file, line, addr }),
            final(self).functions_spec() == old(self).functions_spec(),
    {
        self.lines.push(LineRecord { file, line, addr });
    }

    /// The name of the (first) function whose range covers `addr`.
    pub fn function_for_address(&self, addr: usize) -> (r: Option<String>)
        ensures
            r is Some <==> first_function(self.functions_spec(), addr) is Some,
            r is Some ==> r == Some(first_function(self.functions_spec(), addr).unwrap().name),
    {
        let n = self.functions.len();
        proof {
            assert(self.functions@.skip(0) =~= self.functions@);
        }
        let mut i: usize = 0;
        while i < n
            invariant
                n == self.functions@.len(),
                i <= n,
                first_function(self.functions@, addr) == first_function(
                    self.functions@.skip(i as int),
                    addr,
                ),
            decreases n - i,
        {
            let f = &self.functions[i];
            proof {
                assert(self.functions@.skip(i as int)[0] == self.functions@[i as int]);
                assert(self.functions@.skip(i as int).drop_first() =~= self.functions@.skip(
                    i as int + 1,
                ));
            }
            if f.low <= addr && addr < f.high {
                return Some(f.name.clone());
            }
            i = i + 1;
        }
        None
    }

    /// The source location (file, line) mapped exactly at `addr`.
    pub fn line_for_address(&self, addr: usize) -> (r: Option<(String, usize)>)
        ensures
            r is Some <==> first_line_at(self.lines_spec(), addr) is Some,
            r is Some ==> {
                let rec = first_line_at(self.lines_spec(), addr).unwrap();
                r == Some((rec.file, rec.line))
            },
    {
        let n = self.lines.len();
        proof {
            assert(self.lines@.skip(0) =~= self.lines@);
        }
        let mut i: usize = 0;
        while i < n
            invariant
                n == self.lines@.len(),
                i <= n,
                first_line_at(self.lines@, addr) == first_line_at(
                    self.lines@.skip(i as int),
                    addr,
                ),
            decreases n - i,
        {
            let l = &self.lines[i];
            proof {
                assert(self.lines@.skip(i as int)[0] == self.lines@[i as int]);
                assert(self.lines@.skip(i as int).drop_first() =~= self.lines@.skip(i as int + 1));
            }
            if l.addr == addr {
                return Some((l.file.clone(), l.line));
            }
            i = i + 1;
        }
        None
    }

    /// The starting address of source line `line`.
    pub fn address_for_line(&self, line: usize) -> (r: Option<usize>)
        ensures
            r is Some <==> first_line_numbered(self.lines_spec(), line) is Some,
            r is Some ==> r == Some(first_line_numbered(self.lines_spec(), line).unwrap().addr),
    {
        let n = self.lines.len();
        proof {
            assert(self.lines@.skip(0) =~= self.lines@);
        }
        let mut i: usize = 0;
        while i < n
            invariant
                n == self.lines@.len(),
                i <= n,
                first_line_numbered(self.lines@, line) == first_line_numbered(
                    self.lines@.skip(i as int),
                    line,
                ),
            decreases n - i,
        {
            let l = &self.lines[i];
            proof {
                assert(self.lines@.skip(i as int)[0] == self.lines@[i as int]);
                assert(self.lines@.skip(i as int).drop_first() =~= self.lines@.skip(i as int + 1));
            }
            if l.line == line {
                return Some(l.addr);
            }
            i = i + 1;
        }
        None
    }

    /// The entry address of the function called `name`.
    pub fn address_for_function(&self, name: &str) -> (r: Option<usize>)
        ensures
            r is Some <==> first_function_named(self.functions_spec(), name@) is Some,
            r is Some ==> r == Some(
                first_function_named(self.functions_spec(), name@).unwrap().low,
            ),
    {
        let n = self.functions.len();
        proof {
            assert(self.functions@.skip(0) =~= self.functions@);
        }
        let mut i: usize = 0;
        while i < n
            invariant
                n == self.functions@.len(),
                i <= n,
                first_function_named(self.functions@, name@) == first_function_named(
                    self.functions@.skip(i as int),
                    name@,
                ),
            decreases n - i,
        {
            let f = &self.functions[i];
            proof {
                assert(self.functions@.skip(i as int)[0] == self.functions@[i as int]);
                assert(self.functions@.skip(i as int).drop_first() =~= self.functions@.skip(
                    i as int + 1,
                ));
            }
            if str_eq(f.name.as_str(), name) {
                return Some(f.low);
            }
            i = i + 1;
        }
        None
    }
}

} // verus!
