//! Faults that stop the interpreter.
use vstd::prelude::*;

verus! {

/// What went wrong while an instruction was fetched or executed.
#[derive(Clone, Copy, Debug, PartialEq, Eq, Structural)]
pub enum FaultKind {
    /// A call was made with sixteen return addresses already saved.
    StackOverflow,
    /// A return was made with no return address saved.
    StackUnderflow,
    /// The program counter would leave memory, or the instruction at the
    /// program counter reaches past the last byte of memory.
    PcOutOfBounds,
    /// The instruction belongs to a known family but uses a discriminator
    /// that the family does not define.
    UnusedSubOpcode,
    /// The family selector names no instruction family.
    UnknownFamily,
}

/// A fault together with the place where it arose.
///
/// `opcode` is the instruction word that was latched when the fault arose
/// and `pc` the program counter at that moment. For a fault raised by the
/// executor that word is the instruction that could not be carried out. For
/// a failed fetch it is the instruction executed before, the one that left
/// the program counter where no instruction can be read.
#[derive(Clone, Copy, Debug, PartialEq, Eq, Structural)]
pub struct Fault {
    pub kind: FaultKind,
    pub opcode: u16,
    pub pc: u16,
}

/// Why a program could not be placed in memory.
#[derive(Clone, Copy, Debug, PartialEq, Eq, Structural)]
pub enum LoadFault {
    /// The program is longer than the memory from the load address to the
    /// end of memory.
    ProgramTooLarge,
}

} // verus!
