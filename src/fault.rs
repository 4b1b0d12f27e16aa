//! The faults that stop the simulator.
use vstd::prelude::*;

verus! {

/// A fatal fault: the step that raised it changed nothing, and stepping must stop.
#[derive(Debug, PartialEq, Eq, Structural, Clone, Copy)]
pub enum Fault {
    /// The low seven bits of the instruction word name no opcode class.
    UnknownOpcode { word: u32 },
    /// A fence or system instruction, which this simulator does not implement.
    UnsupportedOpcode { word: u32 },
    /// The funct fields name no instruction of the word's opcode class.
    IllegalInstruction { word: u32 },
    /// The program counter is not a multiple of 4.
    MisalignedFetch { addr: u32 },
    /// A halfword or word access at an address that is not a multiple of its width.
    MisalignedAccess { addr: u32 },
    /// A fetch, load or store touches a byte outside memory.
    OutOfBounds { addr: u32 },
    /// A taken branch or a jump targets an address that is not a multiple of 4.
    MisalignedTarget { target: u32 },
}

} // verus!
