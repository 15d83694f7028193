//! The sixteen operation codes, one per value of the instruction word's top
//! nibble. Two of them (RTI and RES) are defined by the architecture but
//! deliberately left unimplemented for user programs.

use vstd::prelude::*;

verus! {

#[derive(Debug, PartialEq)]
pub enum Opcode {
    /// branch
    BR,
    /// add
    ADD,
    /// load
    LD,
    /// store
    ST,
    /// jump register
    JSR,
    /// bitwise and
    AND,
    /// load register
    LDR,
    /// store register
    STR,
    /// unused
    RTI,
    /// bitwise not
    NOT,
    /// load indirect
    LDI,
    /// store indirect
    STI,
    /// jump
    JMP,
    /// reserved (unused)
    RES,
    /// load effective address
    LEA,
    /// execute trap
    TRAP,
}

#[derive(Debug, PartialEq)]
pub enum OpcodeError {
    UnknownOpcode(u16),
}

/// The opcode a raw top-nibble value decodes to; values above 15 are
/// rejected, though a four-bit field can never hold one.
pub open spec fn spec_opcode_from_u16(raw: u16) -> Result<Opcode, OpcodeError> {
    if raw == 0 {
        Ok(Opcode::BR)
    } else if raw == 1 {
        Ok(Opcode::ADD)
    } else if raw == 2 {
        Ok(Opcode::LD)
    } else if raw == 3 {
        Ok(Opcode::ST)
    } else if raw == 4 {
        Ok(Opcode::JSR)
    } else if raw == 5 {
        Ok(Opcode::AND)
    } else if raw == 6 {
        Ok(Opcode::LDR)
    } else if raw == 7 {
        Ok(Opcode::STR)
    } else if raw == 8 {
        Ok(Opcode::RTI)
    } else if raw == 9 {
        Ok(Opcode::NOT)
    } else if raw == 10 {
        Ok(Opcode::LDI)
    } else if raw == 11 {
        Ok(Opcode::STI)
    } else if raw == 12 {
        Ok(Opcode::JMP)
    } else if raw == 13 {
        Ok(Opcode::RES)
    } else if raw == 14 {
        Ok(Opcode::LEA)
    } else if raw == 15 {
        Ok(Opcode::TRAP)
    } else {
        Err(OpcodeError::UnknownOpcode(raw))
    }
}

impl Opcode {
    /// Decodes a raw opcode value, exhaustively over the sixteen codes.
    pub fn from_u16(raw_opcode: u16) -> (r: Result<Self, OpcodeError>)
        ensures
            r == spec_opcode_from_u16(raw_opcode),
    {
        match raw_opcode {
            0 => Ok(Opcode::BR),
            1 => Ok(Opcode::ADD),
            2 => Ok(Opcode::LD),
            3 => Ok(Opcode::ST),
            4 => Ok(Opcode::JSR),
            5 => Ok(Opcode::AND),
            6 => Ok(Opcode::LDR),
            7 => Ok(Opcode::STR),
            8 => Ok(Opcode::RTI),
            9 => Ok(Opcode::NOT),
            10 => Ok(Opcode::LDI),
            11 => Ok(Opcode::STI),
            12 => Ok(Opcode::JMP),
            13 => Ok(Opcode::RES),
            14 => Ok(Opcode::LEA),
            15 => Ok(Opcode::TRAP),
            _ => Err(OpcodeError::UnknownOpcode(raw_opcode)),
        }
    }
}

} // verus!
