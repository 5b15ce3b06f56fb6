//! The ways in which decoding or executing an instruction can fail.

use vstd::prelude::*;

verus! {

/// Why a decoding step or an instruction failed.
#[derive(Clone, Copy, Debug, PartialEq, Eq, Structural)]
pub enum CycleError {
    /// The number is not the code of any instruction.
    UnknownOpcode(u16),
    /// The number names no register.
    RegisterIndex(u16),
    /// The reserved instruction was executed.
    ReservedOpcode,
    /// A return from interrupt was attempted in user mode.
    IllegalPrivilege,
    /// The condition bits of the status word, given here, name no flag.
    StatusWord(u16),
}

} // verus!
