//! The memory subsystem: 65,536 sixteen-bit words, with two addresses
//! reserved for the memory-mapped keyboard registers. Reading the keyboard
//! status register samples the terminal; the poll's outcome is handed in by
//! the caller as an `Option<u8>`, so the storage logic itself stays free of
//! I/O.

use vstd::prelude::*;

verus! {

/// Number of addressable words.
pub const MEMORY_MAX: usize = 65536;

/// Keyboard status register: reading it samples the terminal and leaves the
/// high bit set exactly when a key is pending.
pub const KBSR: u16 = 0xFE00;

/// Keyboard data register: holds the pending key's byte value, zero-extended,
/// after a status read that found a key.
pub const KBDR: u16 = 0xFE02;

/// The stored contents after the keyboard-status side effect of one read:
/// a read of `KBSR` with a pending key `b` stores 0x8000 there and the key
/// into `KBDR`; one with no pending key stores 0 into `KBSR`; a read of any
/// other address changes nothing.
pub open spec fn mem_after_read(m: Seq<u16>, index: u16, pending: Option<u8>) -> Seq<u16> {
    if index == KBSR {
        match pending {
            Some(b) => m.update(KBSR as int, 0x8000u16).update(KBDR as int, b as u16),
            None => m.update(KBSR as int, 0u16),
        }
    } else {
        m
    }
}

/// The word a read returns: the stored word at `index` after the
/// keyboard-status side effect, if any, has been applied.
pub open spec fn read_value(m: Seq<u16>, index: u16, pending: Option<u8>) -> u16 {
    mem_after_read(m, index, pending)[index as int]
}

/// The addressable store, one word per 16-bit address.
pub struct Memory {
    data: Vec<u16>,
}

impl View for Memory {
    type V = Seq<u16>;

    closed spec fn view(&self) -> Seq<u16> {
        self.data@
    }
}

impl Memory {
    /// The store always covers the full 16-bit address space.
    pub open spec fn wf(&self) -> bool {
        self@.len() == MEMORY_MAX
    }

    /// A fresh, zero-initialized memory.
    pub fn new() -> (m: Memory)
        ensures
            m.wf(),
            forall|i: int| 0 <= i < MEMORY_MAX ==> m@[i] == 0u16,
    {
        let mut data: Vec<u16> = Vec::new();
        let mut i: usize = 0;
        while i < MEMORY_MAX
            invariant
                i <= MEMORY_MAX,
                data@.len() == i,
                forall|j: int| 0 <= j < i ==> data@[j] == 0u16,
            decreases MEMORY_MAX - i,
        {
            data.push(0);
            i = i + 1;
        }
        Memory { data }
    }

    /// Reads the word at `index`. `pending` is the outcome of a non-blocking
    /// poll of the terminal, sampled by the caller: it is consulted only
    /// when `index` is the keyboard status register, whose read first
    /// refreshes the two keyboard registers. A read of any other address
    /// never changes the memory.
    pub fn read(&mut self, index: u16, pending: Option<u8>) -> (v: u16)
        requires
            old(self).wf(),
        ensures
            final(self).wf(),
            final(self)@ == mem_after_read(old(self)@, index, pending),
            v == read_value(old(self)@, index, pending),
            index != KBSR ==> final(self)@ == old(self)@,
            index == KBSR && pending is None ==> v == 0 && final(self)@[KBDR as int] == old(
                self,
            )@[KBDR as int],
            (index == KBSR && pending is Some) ==> v == 0x8000 && final(self)@[KBDR as int]
                == pending->0 as u16,
    {
        if index == KBSR {
            match pending {
                Some(b) => {
                    self.data[KBSR as usize] = 0x8000;
                    self.data[KBDR as usize] = b as u16;
                },
                None => {
                    self.data[KBSR as usize] = 0;
                },
            }
        }
        self.data[index as usize]
    }

    /// Stores `value` at `index`, unconditionally; every other word is kept.
    pub fn write(&mut self, index: u16, value: u16)
        requires
            old(self).wf(),
        ensures
            final(self).wf(),
            final(self)@ == old(self)@.update(index as int, value),
    {
        self.data[index as usize] = value;
    }
}

} // verus!
