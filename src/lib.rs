//! An instruction-set simulator for the RV32I base integer instruction set:
//! a little-endian byte memory, a decoder from instruction words to typed
//! instructions, and a hart that steps through a program one instruction at a time.
pub mod arith;
pub mod decode;
pub mod fault;
pub mod hart;
pub mod memory;
pub mod program;

pub use crate::arith::sign_extend_u32;
pub use crate::decode::{decode, EncodingVariant, Instruction, OPCODE};
pub use crate::fault::Fault;
pub use crate::hart::RISCV;
pub use crate::memory::{Byte, HalfWord, Memory, Word, MEM_SIZE};
pub use crate::program::{load_program, words_from_bytes};
