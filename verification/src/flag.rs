//! Condition flag encodings.
//!
//! The condition register holds exactly one of three one-hot values after
//! every flag-updating instruction: negative, zero, or positive.

use vstd::prelude::*;

verus! {

/// Condition flag: the written value was positive (high bit clear, nonzero).
pub const FL_POS: u16 = 0x1;

/// Condition flag: the written value was exactly zero.
pub const FL_ZRO: u16 = 0x2;

/// Condition flag: the written value was negative (high bit set).
pub const FL_NEG: u16 = 0x4;

/// The flag value that a register write of `value` must leave in the
/// condition register.
pub open spec fn flag_for(value: u16) -> u16 {
    if value == 0 {
        FL_ZRO
    } else if value >= 0x8000 {
        FL_NEG
    } else {
        FL_POS
    }
}

} // verus!
