//! The breakpoint table: the authoritative mapping from instruction address
//! to the original byte that the trap opcode overwrote.
//!
//! Entries are added by the set-breakpoint command and never removed. While
//! no process is live an entry is a placeholder with original byte 0; it is
//! patched with the real byte when a process is launched with the trap
//! installed at that address.

use vstd::prelude::*;

verus! {

/// One breakpoint: an instruction address and the original byte that the
/// trap opcode replaced there (0 while the entry is a placeholder).
#[derive(Clone, Copy, Debug, PartialEq, Eq, Structural)]
pub struct Breakpoint {
    pub addr: usize,
    pub orig_byte: u8,
}

/// Mapping from address to breakpoint, keys unique, insertion order
/// irrelevant.
pub struct BreakpointTable {
    entries: Vec<Breakpoint>,
}

impl BreakpointTable {
    /// The entries in insertion order.
    pub closed spec fn entries_spec(self) -> Seq<Breakpoint> {
        self.entries@
    }

    /// Well-formed: no two entries share an address.
    pub closed spec fn wf(self) -> bool {
        forall|i: int, j: int|
            0 <= i < j < self.entries@.len() ==> self.entries@[i].addr != self.entries@[j].addr
    }

    /// Whether some entry tracks `addr`.
    pub closed spec fn contains_addr(self, addr: usize) -> bool {
        exists|i: int| 0 <= i < self.entries@.len() && self.entries@[i].addr == addr
    }

    /// The index of the entry tracking `addr` (meaningful when
    /// `contains_addr(addr)` holds; unique by `wf`).
    pub closed spec fn idx_of(self, addr: usize) -> int {
        choose|i: int| 0 <= i < self.entries@.len() && self.entries@[i].addr == addr
    }

    /// The original byte recorded for `addr`.
    pub closed spec fn orig_byte_of(self, addr: usize) -> u8 {
        self.entries@[self.idx_of(addr)].orig_byte
    }

    /// Creates the empty table.
    pub fn new() -> (r: BreakpointTable)
        ensures
            r.wf(),
            r.entries_spec().len() == 0,
            forall|a: usize| !r.contains_addr(a),
    {
        BreakpointTable { entries: Vec::new() }
    }

    /// How many breakpoints are tracked.
    pub fn len(&self) -> (r: usize)
        ensures
            r == self.entries_spec().len(),
    {
        self.entries.len()
    }

    /// Whether `addr` is already tracked.
    pub fn contains(&self, addr: usize) -> (r: bool)
        ensures
            r == self.contains_addr(addr),
    {
        let mut i: usize = 0;
        while i < self.entries.len()
            invariant
                i <= self.entries@.len(),
                forall|k: int| 0 <= k < i ==> self.entries@[k].addr != addr,
            decreases self.entries@.len() - i,
        {
            if self.entries[i].addr == addr {
                return true;
            }
            i = i + 1;
        }
        false
    }

    /// The entry at position `i`, for walking the table.
    pub fn entry_at(&self, i: usize) -> (r: Breakpoint)
        requires
            i < self.entries_spec().len(),
        ensures
            r == self.entries_spec()[i as int],
    {
        self.entries[i]
    }

    /// Adds a breakpoint at `addr` with the given original byte. An address
    /// that is already tracked is rejected and the table is unchanged, so
    /// adding the same address twice leaves the size as it was.
    pub fn add(&mut self, addr: usize, orig_byte: u8) -> (added: bool)
        requires
            old(self).wf(),
        ensures
            added == !old(self).contains_addr(addr),
            !added ==> final(self).entries_spec() == old(self).entries_spec(),
            added ==> final(self).entries_spec() == old(self).entries_spec().push(
                Breakpoint { addr, orig_byte },
            ),
            final(self).wf(),
            forall|a: usize|
                final(self).contains_addr(a) == (old(self).contains_addr(a) || a == addr),
    {
        if self.contains(addr) {
            return false;
        }
        self.entries.push(Breakpoint { addr, orig_byte });
        proof {
            let n = self.entries@.len() - 1;
            assert(self.entries@[n].addr == addr);
            assert forall|a: usize| #[trigger]
                self.contains_addr(a) == (old(self).contains_addr(a) || a == addr) by {
                if old(self).contains_addr(a) {
                    let i = choose|i: int|
                        0 <= i < old(self).entries@.len() && old(self).entries@[i].addr == a;
                    assert(self.entries@[i].addr == a);
                }
                if self.contains_addr(a) {
                    let i = choose|i: int|
                        0 <= i < self.entries@.len() && self.entries@[i].addr == a;
                    if i < n {
                        assert(old(self).entries@[i].addr == a);
                    }
                }
            }
        }
        true
    }

    /// Records the real original byte for an address that is already
    /// tracked; the set of tracked addresses is unchanged.
    pub fn set_orig(&mut self, addr: usize, orig_byte: u8)
        requires
            old(self).wf(),
            old(self).contains_addr(addr),
        ensures
            final(self).wf(),
            final(self).entries_spec().len() == old(self).entries_spec().len(),
            forall|k: int|
                0 <= k < final(self).entries_spec().len() ==> final(self).entries_spec()[k].addr
                    == old(self).entries_spec()[k].addr,
            forall|a: usize|
                final(self).contains_addr(a) == old(self).contains_addr(a),
            final(self).orig_byte_of(addr) == orig_byte,
            forall|a: usize|
                old(self).contains_addr(a) && a != addr ==> final(self).orig_byte_of(a) == old(
                    self,
                ).orig_byte_of(a),
    {
        let n = self.entries.len();
        let mut i: usize = 0;
        while i < n
            invariant
                n == self.entries@.len(),
                i <= n,
                *self == *old(self),
                old(self).wf(),
                old(self).contains_addr(addr),
                forall|k: int| 0 <= k < i ==> self.entries@[k].addr != addr,
            decreases n - i,
        {
            if self.entries[i].addr == addr {
                self.entries[i] = Breakpoint { addr, orig_byte };
                proof {
                    assert(forall|k: int|
                        0 <= k < self.entries@.len() ==> self.entries@[k].addr == old(
                            self,
                        ).entries@[k].addr);
                    lemma_unique_idx(old(self).entries@, addr, i as int);
                    lemma_unique_idx(self.entries@, addr, i as int);
                    assert forall|a: usize| #[trigger]
                        self.contains_addr(a) == old(self).contains_addr(a) by {
                        lemma_same_addrs_same_contains(old(self).entries@, self.entries@, a);
                    }
                    assert forall|a: usize|
                        old(self).contains_addr(a) && a != addr implies #[trigger] self
                        .orig_byte_of(a) == old(self).orig_byte_of(a) by {
                        let oi = old(self).idx_of(a);
                        assert(old(self).entries@[oi].addr == a);
                        assert(self.entries@[oi].addr == a);
                        lemma_unique_idx(self.entries@, a, oi);
                        lemma_unique_idx(old(self).entries@, a, oi);
                    }
                }
                return ;
            }
            i = i + 1;
        }
        proof {
            let w = choose|k: int|
                0 <= k < self.entries@.len() && self.entries@[k].addr == addr;
            assert(self.entries@[w].addr != addr);
        }
    }

    /// The original byte recorded for `addr`, if the address is tracked.
    pub fn get_orig(&self, addr: usize) -> (r: Option<u8>)
        requires
            self.wf(),
        ensures
            r is Some <==> self.contains_addr(addr),
            r is Some ==> r == Some(self.orig_byte_of(addr)),
    {
        let mut i: usize = 0;
        while i < self.entries.len()
            invariant
                i <= self.entries@.len(),
                self.wf(),
                forall|k: int| 0 <= k < i ==> self.entries@[k].addr != addr,
            decreases self.entries@.len() - i,
        {
            if self.entries[i].addr == addr {
                proof {
                    lemma_unique_idx(self.entries@, addr, i as int);
                }
                return Some(self.entries[i].orig_byte);
            }
            i = i + 1;
        }
        None
    }
}

/// Every entry's address is tracked by the table it sits in.
pub proof fn lemma_entry_contains(t: BreakpointTable, i: int)
    requires
        0 <= i < t.entries_spec().len(),
    ensures
        t.contains_addr(t.entries_spec()[i].addr),
{
    assert(t.entries_spec()[i].addr == t.entries_spec()[i].addr);
}

/// In a well-formed entry sequence, `idx_of`-style choice is pinned down: any
/// index holding `addr` is the chosen one.
proof fn lemma_unique_idx(s: Seq<Breakpoint>, addr: usize, i: int)
    requires
        forall|p: int, q: int| 0 <= p < q < s.len() ==> s[p].addr != s[q].addr,
        0 <= i < s.len(),
        s[i].addr == addr,
    ensures
        (choose|k: int| 0 <= k < s.len() && s[k].addr == addr) == i,
{
    let k = choose|k: int| 0 <= k < s.len() && s[k].addr == addr;
    assert(0 <= k < s.len() && s[k].addr == addr);
    if k < i {
        assert(s[k].addr != s[i].addr);
    } else if i < k {
        assert(s[i].addr != s[k].addr);
    }
}

/// Two entry sequences of equal length with equal addresses position by
/// position track the same addresses.
proof fn lemma_same_addrs_same_contains(s1: Seq<Breakpoint>, s2: Seq<Breakpoint>, a: usize)
    requires
        s1.len() == s2.len(),
        forall|k: int| 0 <= k < s1.len() ==> s1[k].addr == s2[k].addr,
    ensures
        (exists|i: int| 0 <= i < s1.len() && s1[i].addr == a) == (exists|i: int|
            0 <= i < s2.len() && s2[i].addr == a),
{
    if exists|i: int| 0 <= i < s1.len() && s1[i].addr == a {
        let i = choose|i: int| 0 <= i < s1.len() && s1[i].addr == a;
        assert(s2[i].addr == a);
    }
    if exists|i: int| 0 <= i < s2.len() && s2[i].addr == a {
        let i = choose|i: int| 0 <= i < s2.len() && s2[i].addr == a;
        assert(s1[i].addr == a);
    }
}

} // verus!
