//! Byte-patch primitives for the trap-based breakpoint protocol.
//!
//! A target address is not byte-addressable through the word-sized memory
//! primitives, so a breakpoint is planted by reading the aligned word that
//! contains the address, replacing one byte inside it, and writing the word
//! back.  The arithmetic here is shared by install, temporary restore and
//! reinstall; only the byte value written differs.

use vstd::prelude::*;

verus! {

/// Width in bytes of a machine word of the target.
pub const WORD_BYTES: u64 = 8;

/// The one-byte trap opcode written over the first byte of an instruction
/// to arm a breakpoint.
pub const TRAP_OPCODE: u8 = 0xcc;

/// Width in bytes of the trap instruction.  Executing the trap advances the
/// program counter by exactly this amount, so a stop at program counter `pc`
/// means the trap sat at `pc - TRAP_WIDTH`.
pub const TRAP_WIDTH: u64 = 1;

/// The byte of `word` that sits `offset` bytes above the word's base
/// address (little-endian).
pub open spec fn byte_at(word: u64, offset: u64) -> u8 {
    ((word >> (8 * offset)) & 0xff) as u8
}

/// `word` with the byte `offset` bytes above the word's base address
/// replaced by `val` and every other byte unchanged.
pub open spec fn set_byte(word: u64, offset: u64, val: u8) -> u64 {
    (word & !(0xffu64 << (8 * offset))) | ((val as u64) << (8 * offset))
}

/// The base address of the aligned word containing `addr`.
pub fn align_addr_to_word(addr: u64) -> (r: u64)
    ensures
        r == addr - addr % WORD_BYTES,
        r % WORD_BYTES == 0,
        r <= addr < r + WORD_BYTES,
{
    let r = addr & !(WORD_BYTES - 1);
    proof {
        assert(addr & !7u64 == addr - addr % 8 && (addr & !7u64) % 8 == 0) by (bit_vector);
    }
    r
}

/// Replaces the byte at `offset` within `word` by `val`; returns the updated
/// word and the byte that was overwritten.
pub fn replace_byte(word: u64, offset: u64, val: u8) -> (r: (u64, u8))
    requires
        offset < WORD_BYTES,
    ensures
        r.0 == set_byte(word, offset, val),
        r.1 == byte_at(word, offset),
{
    proof {
        assert((word >> (8 * offset)) & 0xff < 256) by (bit_vector);
    }
    let orig: u8 = ((word >> (8 * offset)) & 0xff) as u8;
    let masked: u64 = word & !(0xffu64 << (8 * offset));
    let updated: u64 = masked | ((val as u64) << (8 * offset));
    (updated, orig)
}

/// Reading back the byte just planted yields that byte.
pub proof fn lemma_set_byte_then_read(word: u64, offset: u64, val: u8)
    requires
        offset < WORD_BYTES,
    ensures
        byte_at(set_byte(word, offset, val), offset) == val,
{
    assert(((((word & !(0xffu64 << (8 * offset))) | ((val as u64) << (8 * offset))) >> (8
        * offset)) & 0xff) as u8 == val) by (bit_vector)
        requires
            offset < 8,
    ;
}

/// Planting a byte leaves every other byte of the word unchanged, so a
/// patch never clobbers the target's neighboring code.
pub proof fn lemma_set_byte_preserves_others(word: u64, offset: u64, other: u64, val: u8)
    requires
        offset < WORD_BYTES,
        other < WORD_BYTES,
        other != offset,
    ensures
        byte_at(set_byte(word, offset, val), other) == byte_at(word, other),
{
    assert(((((word & !(0xffu64 << (8 * offset))) | ((val as u64) << (8 * offset))) >> (8
        * other)) & 0xff) as u8 == ((word >> (8 * other)) & 0xff) as u8) by (bit_vector)
        requires
            offset < 8,
            other < 8,
            other != offset,
    ;
}

/// One full resume cycle over a hit breakpoint leaves the target's memory
/// semantics unchanged at steady state: restoring the saved original byte
/// recovers the pre-install word exactly, and reinstalling the trap
/// afterwards recovers the installed word exactly.  The code under the
/// patch is never corrupted, however many cycles run.
pub proof fn lemma_resume_cycle_steady_state(word: u64, offset: u64)
    requires
        offset < WORD_BYTES,
    ensures
        ({
            let orig = byte_at(word, offset);
            let installed = set_byte(word, offset, TRAP_OPCODE);
            let restored = set_byte(installed, offset, orig);
            restored == word && set_byte(restored, offset, TRAP_OPCODE) == installed
        }),
{
    lemma_restore_round_trip(word, offset, TRAP_OPCODE);
}

/// The patch round trip: planting any byte and then writing the saved
/// original byte back restores the word exactly.  At every quiescent stop
/// the restore half of the restore-step-reinstall sequence therefore leaves
/// the target's code as it was before the breakpoint was installed.
pub proof fn lemma_restore_round_trip(word: u64, offset: u64, val: u8)
    requires
        offset < WORD_BYTES,
    ensures
        set_byte(set_byte(word, offset, val), offset, byte_at(word, offset)) == word,
{
    let planted = set_byte(word, offset, val);
    assert((((word & !(0xffu64 << (8 * offset))) | ((val as u64) << (8 * offset))) & !(0xffu64
        << (8 * offset))) | (((((word >> (8 * offset)) & 0xff) as u8) as u64) << (8 * offset))
        == word) by (bit_vector)
        requires
            offset < 8,
    ;
}

} // verus!
