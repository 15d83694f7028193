//! The register file: ten 16-bit slots (R0 to R7, the program counter, and
//! the condition register) with flag-update logic.

use vstd::prelude::*;

use crate::flag::flag_for;

verus! {

/// A register name. `COUNT` is the number of storage slots and names no
/// slot of its own.
#[derive(Debug, PartialEq, Clone, Copy)]
pub enum Register {
    R0,
    R1,
    R2,
    R3,
    R4,
    R5,
    R6,
    R7,
    PC,
    COND,
    COUNT,
}

#[derive(Debug, PartialEq)]
pub enum RegisterError {
    UnknownRegister(u16),
}

/// Slot index of the program counter in the register file.
pub open spec fn pc_idx() -> int {
    8
}

/// Slot index of the condition register in the register file.
pub open spec fn cond_idx() -> int {
    9
}

/// The numeric encoding of each register name.
pub open spec fn spec_register_num(r: Register) -> int {
    match r {
        Register::R0 => 0,
        Register::R1 => 1,
        Register::R2 => 2,
        Register::R3 => 3,
        Register::R4 => 4,
        Register::R5 => 5,
        Register::R6 => 6,
        Register::R7 => 7,
        Register::PC => 8,
        Register::COND => 9,
        Register::COUNT => 10,
    }
}

/// The register name a raw encoding resolves to, or the error for an
/// encoding outside the valid range.
pub open spec fn spec_register_from_u16(raw: u16) -> Result<Register, RegisterError> {
    if raw == 0 {
        Ok(Register::R0)
    } else if raw == 1 {
        Ok(Register::R1)
    } else if raw == 2 {
        Ok(Register::R2)
    } else if raw == 3 {
        Ok(Register::R3)
    } else if raw == 4 {
        Ok(Register::R4)
    } else if raw == 5 {
        Ok(Register::R5)
    } else if raw == 6 {
        Ok(Register::R6)
    } else if raw == 7 {
        Ok(Register::R7)
    } else if raw == 8 {
        Ok(Register::PC)
    } else if raw == 9 {
        Ok(Register::COND)
    } else if raw == 10 {
        Ok(Register::COUNT)
    } else {
        Err(RegisterError::UnknownRegister(raw))
    }
}

/// Every in-range raw encoding resolves to the register name with that
/// same number.
pub proof fn lemma_register_num_matches(raw: u16)
    requires
        raw <= 10,
    ensures
        spec_register_from_u16(raw) matches Ok(r) && spec_register_num(r) == raw,
{
}

impl Register {
    /// Resolves a raw encoding to a register name; encodings above 10 are
    /// rejected. Instruction fields are three bits wide, so a register
    /// field always resolves to one of R0 to R7.
    pub fn from_u16(raw_register: u16) -> (r: Result<Self, RegisterError>)
        ensures
            r == spec_register_from_u16(raw_register),
    {
        match raw_register {
            0 => Ok(Register::R0),
            1 => Ok(Register::R1),
            2 => Ok(Register::R2),
            3 => Ok(Register::R3),
            4 => Ok(Register::R4),
            5 => Ok(Register::R5),
            6 => Ok(Register::R6),
            7 => Ok(Register::R7),
            8 => Ok(Register::PC),
            9 => Ok(Register::COND),
            10 => Ok(Register::COUNT),
            _ => Err(RegisterError::UnknownRegister(raw_register)),
        }
    }

    /// The slot index this name selects.
    fn index(self) -> (i: usize)
        ensures
            i == spec_register_num(self),
    {
        match self {
            Register::R0 => 0,
            Register::R1 => 1,
            Register::R2 => 2,
            Register::R3 => 3,
            Register::R4 => 4,
            Register::R5 => 5,
            Register::R6 => 6,
            Register::R7 => 7,
            Register::PC => 8,
            Register::COND => 9,
            Register::COUNT => 10,
        }
    }
}

/// The register file: slots 0 to 7 are the general-purpose registers,
/// slot 8 the program counter, slot 9 the condition register.
pub struct Registers {
    data: Vec<u16>,
}

impl View for Registers {
    type V = Seq<u16>;

    closed spec fn view(&self) -> Seq<u16> {
        self.data@
    }
}

impl Registers {
    /// The register file always holds exactly ten slots.
    pub open spec fn wf(&self) -> bool {
        self@.len() == 10
    }

    /// A fresh, zero-initialized register file.
    pub fn new() -> (r: Registers)
        ensures
            r.wf(),
            forall|i: int| 0 <= i < 10 ==> r@[i] == 0u16,
    {
        let mut data: Vec<u16> = Vec::new();
        let mut i: usize = 0;
        while i < 10
            invariant
                i <= 10,
                data@.len() == i,
                forall|j: int| 0 <= j < i ==> data@[j] == 0u16,
            decreases 10 - i,
        {
            data.push(0);
            i = i + 1;
        }
        Registers { data }
    }

    /// The stored word of the named register.
    pub fn read(&self, register: Register) -> (v: u16)
        requires
            self.wf(),
            register != Register::COUNT,
        ensures
            v == self@[spec_register_num(register)],
    {
        self.data[register.index()]
    }

    /// Stores `value` into the named register; every other slot is kept.
    pub fn write(&mut self, register: Register, value: u16)
        requires
            old(self).wf(),
            register != Register::COUNT,
        ensures
            final(self).wf(),
            final(self)@ == old(self)@.update(spec_register_num(register), value),
            final(self)@[spec_register_num(register)] == value,
    {
        let i = register.index();
        self.data[i] = value;
    }

    /// Sets the condition register from the named register's current value:
    /// zero gives the zero flag, a set high bit the negative flag, anything
    /// else the positive flag.
    pub fn update_flags(&mut self, register: Register)
        requires
            old(self).wf(),
            register != Register::COUNT,
        ensures
            final(self).wf(),
            final(self)@ == old(self)@.update(
                cond_idx(),
                flag_for(old(self)@[spec_register_num(register)]),
            ),
    {
        let value = self.data[register.index()];
        proof {
            assert(value >> 15 == 1 <==> value >= 0x8000) by (bit_vector);
        }
        let flag: u16 = if value == 0 {
            crate::flag::FL_ZRO
        } else if value >> 15 == 1 {
            crate::flag::FL_NEG
        } else {
            crate::flag::FL_POS
        };
        self.data[9] = flag;
    }
}

/// A register write followed by a read of the same register yields the
/// written word: `write` leaves exactly `w` in the named slot, and `read`
/// returns exactly that slot.
pub proof fn lemma_write_then_read(pre: Registers, post: Registers, r: Register, w: u16)
    requires
        pre.wf(),
        r != Register::COUNT,
        post@ == pre@.update(spec_register_num(r), w),
    ensures
        post@[spec_register_num(r)] == w,
{
}

} // verus!
