//! Byte-level surgery on machine words.
//!
//! A breakpoint is installed by overwriting a single byte of the target's
//! code with the trap opcode. Tracing only moves whole words, so the byte is
//! spliced into the word that contains it. These functions carry the exact
//! bit-level contracts of that splice, and the round-trip laws that make
//! install-then-restore byte-identical.

use vstd::prelude::*;

verus! {

/// The single-byte opcode that raises a breakpoint trap when executed.
pub const TRAP_OPCODE: u8 = 0xcc;

/// The byte of `word` at byte offset `i` (offset 0 is the least significant).
pub open spec fn byte_of(word: u64, i: u64) -> u8 {
    ((word >> (8u64 * i)) & 0xff) as u8
}

/// `word` with the byte at offset `i` replaced by `val`.
pub open spec fn spliced(word: u64, i: u64, val: u8) -> u64 {
    (word & !(0xffu64 << (8u64 * i))) | ((val as u64) << (8u64 * i))
}

/// Replaces the byte of `word` at offset `off` with `val`; returns the new
/// word and the byte that was there before.
pub fn splice_word(word: u64, off: u64, val: u8) -> (r: (u64, u8))
    requires
        off < 8,
    ensures
        r.0 == spliced(word, off, val),
        r.1 == byte_of(word, off),
{
    let shift: u64 = 8 * off;
    let orig: u8 = ((word >> shift) & 0xff) as u8;
    let updated: u64 = (word & !(0xffu64 << shift)) | ((val as u64) << shift);
    (updated, orig)
}

/// After a splice, the targeted byte reads back as the spliced-in value and
/// every other byte of the word is untouched.
pub proof fn lemma_splice_effect(word: u64, off: u64, val: u8)
    requires
        off < 8,
    ensures
        byte_of(spliced(word, off, val), off) == val,
        forall|j: u64| j < 8 && j != off ==> byte_of(spliced(word, off, val), j) == byte_of(
            word,
            j,
        ),
{
    assert(byte_of(spliced(word, off, val), off) == val) by (bit_vector)
        requires
            off < 8,
    ;
    assert(forall|j: u64|
        j < 8 && j != off ==> byte_of(spliced(word, off, val), j) == byte_of(word, j))
        by (bit_vector)
        requires
            off < 8,
    ;
}

/// Installing a trap byte and then splicing the recorded original byte back
/// in reproduces the pre-installation word exactly: memory at the breakpoint
/// address is byte-identical to what existed before the install.
pub proof fn lemma_install_restore_round_trip(word: u64, off: u64, val: u8)
    requires
        off < 8,
    ensures
        spliced(spliced(word, off, val), off, byte_of(word, off)) == word,
{
    assert(spliced(spliced(word, off, val), off, byte_of(word, off)) == word) by (bit_vector)
        requires
            off < 8,
    ;
}

} // verus!
