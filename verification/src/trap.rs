//! The six trap vectors of the system-call interface. Their numeric values
//! (0x20 to 0x25) are part of the architecture's binary contract.

use vstd::prelude::*;

verus! {

#[derive(Debug, PartialEq)]
pub enum TrapCode {
    /// get character from keyboard, not echoed onto the terminal (0x20)
    GETC,
    /// output a character (0x21)
    OUT,
    /// output a word string (0x22)
    PUTS,
    /// get character from keyboard, echoed onto the terminal (0x23)
    IN,
    /// output a byte string (0x24)
    PUTSP,
    /// halt the program (0x25)
    HALT,
}

#[derive(Debug, PartialEq)]
pub enum TrapCodeError {
    UnknownTrapCode(u16),
}

/// The trap routine a raw vector selects; anything outside 0x20 to 0x25 is
/// rejected.
pub open spec fn spec_trap_from_u16(raw: u16) -> Result<TrapCode, TrapCodeError> {
    if raw == 0x20 {
        Ok(TrapCode::GETC)
    } else if raw == 0x21 {
        Ok(TrapCode::OUT)
    } else if raw == 0x22 {
        Ok(TrapCode::PUTS)
    } else if raw == 0x23 {
        Ok(TrapCode::IN)
    } else if raw == 0x24 {
        Ok(TrapCode::PUTSP)
    } else if raw == 0x25 {
        Ok(TrapCode::HALT)
    } else {
        Err(TrapCodeError::UnknownTrapCode(raw))
    }
}

impl TrapCode {
    /// Decodes a raw trap vector to one of the six service routines.
    pub fn from_u16(raw_trap_code: u16) -> (r: Result<Self, TrapCodeError>)
        ensures
            r == spec_trap_from_u16(raw_trap_code),
    {
        match raw_trap_code {
            0x20 => Ok(TrapCode::GETC),
            0x21 => Ok(TrapCode::OUT),
            0x22 => Ok(TrapCode::PUTS),
            0x23 => Ok(TrapCode::IN),
            0x24 => Ok(TrapCode::PUTSP),
            0x25 => Ok(TrapCode::HALT),
            _ => Err(TrapCodeError::UnknownTrapCode(raw_trap_code)),
        }
    }
}

} // verus!
