//! Bit-level helpers shared by the instruction decoder: single-bit masks,
//! bit tests, sign extension of narrow operand fields, and 16-bit wrapping
//! addition.
use vstd::prelude::*;

verus! {

/// Sign extension of the low `bit_count` bits of `x`: every bit above the
/// field is filled with the field's sign bit.
pub open spec fn sign_ext(x: u16, bit_count: u16) -> u16
    recommends
        1 <= bit_count <= 15,
{
    if (x >> (bit_count - 1) as u16) & 1 == 1 {
        x | (0xFFFFu16 << bit_count)
    } else {
        x
    }
}

/// Two's-complement addition modulo 2^16.
pub open spec fn wadd(a: u16, b: u16) -> u16 {
    if a + b >= 0x10000 {
        (a + b - 0x10000) as u16
    } else {
        (a + b) as u16
    }
}

/// A 16-bit word with only the bit at position `shift` set.
pub fn bit(shift: u16) -> (r: u16)
    requires
        shift < 16,
    ensures
        r == (1u16 << shift),
{
    1 << shift
}

/// Whether `value` has any of the bits of the mask `bit` set.
pub fn test_bit(value: u16, bit: u16) -> (r: bool)
    ensures
        r == ((value & bit) > 0),
{
    (value & bit) > 0
}

/// Extends the sign bit of the low `bit_count` bits of `x` across the rest
/// of the word.
pub fn sign_extend(x: u16, bit_count: usize) -> (r: u16)
    requires
        1 <= bit_count <= 15,
    ensures
        r == sign_ext(x, bit_count as u16),
{
    let bc: u16 = bit_count as u16;
    if (x >> (bc - 1)) & 1 == 1 {
        x | (0xFFFFu16 << bc)
    } else {
        x
    }
}

/// Addition that wraps around modulo 2^16, as all address and value
/// arithmetic of the machine does.
pub fn wrapping_add16(a: u16, b: u16) -> (r: u16)
    ensures
        r == wadd(a, b),
{
    let s: u32 = a as u32 + b as u32;
    if s >= 0x10000 {
        (s - 0x10000) as u16
    } else {
        s as u16
    }
}

/// A 3-bit register selector field of an instruction word, read at a given
/// shift; always below 8.
pub fn reg_field(instr: u16, shift: u16) -> (r: u16)
    requires
        shift < 16,
    ensures
        r == ((instr >> shift) & 7),
        r < 8,
{
    let r = (instr >> shift) & 7;
    proof {
        assert((instr >> shift) & 7 < 8) by (bit_vector);
    }
    r
}

/// The low byte of a word.
pub open spec fn low8(w: u16) -> u8 {
    (w & 0xFF) as u8
}

/// The high byte of a word.
pub open spec fn high8(w: u16) -> u8 {
    ((w >> 8) & 0xFF) as u8
}

/// Returns the low byte of `w`.
pub fn low_byte(w: u16) -> (b: u8)
    ensures
        b == low8(w),
{
    proof {
        assert(w & 0xFF < 256) by (bit_vector);
    }
    (w & 0xFF) as u8
}

/// Returns the high byte of `w`.
pub fn high_byte(w: u16) -> (b: u8)
    ensures
        b == high8(w),
{
    proof {
        assert((w >> 8) & 0xFF < 256) by (bit_vector);
    }
    ((w >> 8) & 0xFF) as u8
}

/// Builds a word from two bytes, the first byte most significant.
pub fn word_from_be_bytes(hi: u8, lo: u8) -> (w: u16)
    ensures
        w == hi * 256 + lo,
{
    let w = ((hi as u16) << 8) | (lo as u16);
    proof {
        assert(((hi as u16) << 8u16) | (lo as u16) == hi * 256 + lo) by (bit_vector);
    }
    w
}

/// Sign-extending a field that was already sign-extended at the same width
/// changes nothing, for each of the field widths the instruction set uses.
pub proof fn lemma_sign_extend_idempotent(x: u16, w: u16)
    requires
        w == 5 || w == 6 || w == 9 || w == 11,
    ensures
        sign_ext(sign_ext(x, w), w) == sign_ext(x, w),
{
    if w == 5 {
        assert(sign_ext(sign_ext(x, 5), 5) == sign_ext(x, 5)) by (bit_vector);
    } else if w == 6 {
        assert(sign_ext(sign_ext(x, 6), 6) == sign_ext(x, 6)) by (bit_vector);
    } else if w == 9 {
        assert(sign_ext(sign_ext(x, 9), 9) == sign_ext(x, 9)) by (bit_vector);
    } else {
        assert(sign_ext(sign_ext(x, 11), 11) == sign_ext(x, 11)) by (bit_vector);
    }
}

} // verus!
