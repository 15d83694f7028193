//! Instruction decoding helpers: sign extension of immediate fields and
//! extraction of the fixed operand fields of a 16-bit instruction word.

use vstd::prelude::*;

verus! {

/// Wrapping 16-bit addition: all address and data arithmetic of the
/// architecture wraps modulo 2^16.
pub open spec fn wadd(a: u16, b: u16) -> u16 {
    if a + b > 0xFFFF {
        (a + b - 0x10000) as u16
    } else {
        (a + b) as u16
    }
}

/// `value` with every bit at position `bit_count` and above filled with a
/// copy of the bit at position `bit_count - 1`.
pub open spec fn spec_sign_extend(value: u16, bit_count: u16) -> u16 {
    if (value >> (bit_count - 1) as u16) & 1 == 1 {
        value | (0xFFFFu16 << bit_count)
    } else {
        value
    }
}

/// A 16-bit word read as a two's-complement integer.
pub open spec fn as_signed16(w: u16) -> int {
    if w >= 0x8000 {
        w - 0x10000
    } else {
        w as int
    }
}

/// The low `n` bits of `v` read as an `n`-bit two's-complement integer.
pub open spec fn as_signed_width(v: u16, n: u16) -> int {
    if (v >> (n - 1) as u16) & 1 == 1 {
        v - (1u16 << n)
    } else {
        v as int
    }
}

/// Treats `value`'s bit at position `bit_count - 1` as a sign bit: if it is
/// set, fills all higher bits with ones, producing the 16-bit
/// two's-complement representation of the same negative quantity; otherwise
/// returns `value` unchanged.
pub fn sign_extend(value: u16, bit_count: u16) -> (r: u16)
    requires
        1 <= bit_count <= 15,
    ensures
        r == spec_sign_extend(value, bit_count),
{
    let mut sign_extended_value = value;
    if (sign_extended_value >> (bit_count - 1)) & 1 == 1 {
        sign_extended_value = sign_extended_value | (0xFFFFu16 << bit_count);
    }
    sign_extended_value
}

/// Sign extension round-trips: for any `bit_count`-bit value `v`, the
/// extended word read as a 16-bit two's-complement integer equals `v` read
/// as a `bit_count`-bit two's-complement integer.
pub proof fn lemma_sign_extend_round_trip(v: u16, bit_count: u16)
    by (bit_vector)
    requires
        1 <= bit_count <= 15,
        v < (1u16 << bit_count),
    ensures
        as_signed16(spec_sign_extend(v, bit_count)) == as_signed_width(v, bit_count),
{
}

/// Opcode selector: the top nibble of the instruction word.
pub open spec fn opcode_of(instr: u16) -> u16 {
    instr >> 12
}

/// Destination (or source, for the store instructions) register field,
/// bits 11 to 9.
pub open spec fn dr_of(instr: u16) -> u16 {
    (instr >> 9) & 0x7
}

/// First source (or base) register field, bits 8 to 6.
pub open spec fn sr1_of(instr: u16) -> u16 {
    (instr >> 6) & 0x7
}

/// Second source register field, bits 2 to 0.
pub open spec fn sr2_of(instr: u16) -> u16 {
    instr & 0x7
}

/// Immediate-mode flag, bit 5.
pub open spec fn imm_flag_of(instr: u16) -> u16 {
    (instr >> 5) & 0x1
}

/// Long-branch flag of the subroutine-call instruction, bit 11.
pub open spec fn long_flag_of(instr: u16) -> u16 {
    (instr >> 11) & 0x1
}

/// Condition-flag selector of the branch instruction, bits 11 to 9.
pub open spec fn cond_field_of(instr: u16) -> u16 {
    (instr >> 9) & 0x7
}

/// Trap vector, the low byte of the instruction word.
pub open spec fn trapvect_of(instr: u16) -> u16 {
    instr & 0xFF
}

/// Every operand field lies in the range its bit width allows.
pub proof fn lemma_field_bounds(instr: u16)
    by (bit_vector)
    ensures
        opcode_of(instr) < 16,
        dr_of(instr) < 8,
        sr1_of(instr) < 8,
        sr2_of(instr) < 8,
        imm_flag_of(instr) < 2,
        long_flag_of(instr) < 2,
        cond_field_of(instr) < 8,
        trapvect_of(instr) < 256,
        instr & 0x1FF < 0x200,
        instr & 0x3F < 0x40,
        instr & 0x1F < 0x20,
        instr & 0x7FF < 0x800,
{
}

} // verus!
