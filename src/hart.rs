//! The hart: 32 registers and a program counter, advanced one instruction per
//! clock cycle by fetching from memory, decoding and executing.
use crate::arith::{
    lemma_i32_as_u32, lemma_i32_shr, lemma_sign_extend_truncate, lemma_signed_wrap32,
    lemma_u32_as_i32, lemma_wrap32_low_bits, lemma_wrapping_add,
    lemma_wrapping_add_signed, lemma_wrapping_sub, sign_extend, sign_extend_u32, signed, sra,
    wrap32,
};
use crate::decode::{decode, decode_result, lemma_decode_exactly_recognized, Instruction};
use crate::fault::Fault;
use crate::memory::{halfword_at, with_halfword, with_word, word_at, word_ok, Memory, Word};
use vstd::arithmetic::power2::{lemma2_to64, pow2};
use vstd::prelude::*;

verus! {

/// Number of registers.
pub const XLEN: usize = 32;

/// Registers, program counter and memory after a step.
pub type State = (Seq<u32>, u32, Seq<u8>);

/// The register file `regs` after writing `v` to register `rd`; writes to
/// register 0 are dropped.
pub open spec fn write_reg(regs: Seq<u32>, rd: int, v: u32) -> Seq<u32> {
    if rd == 0 {
        regs
    } else {
        regs.update(rd, v)
    }
}

/// The address of the instruction after the one at `pc`.
pub open spec fn next_pc(pc: u32) -> u32 {
    wrap32(pc + 4)
}

/// `x` with its least significant bit cleared.
pub open spec fn clear_low_bit(x: u32) -> u32 {
    (x - x % 2) as u32
}

/// The program counter after a control transfer to `target`, or the fault
/// for a target that is not a multiple of 4.
pub open spec fn jump_to(target: u32) -> Result<u32, Fault> {
    if target % 4 == 0 {
        Ok(target)
    } else {
        Err(Fault::MisalignedTarget { target })
    }
}

/// The program counter after a branch at `pc` by `offset` that is taken or not.
pub open spec fn branch_next(taken: bool, pc: u32, offset: i32) -> Result<u32, Fault> {
    if taken {
        jump_to(wrap32(pc + offset))
    } else {
        Ok(next_pc(pc))
    }
}

/// The fault, if any, of an access of `width` bytes at `addr` in a memory of
/// `len` bytes: misalignment is checked before bounds.
pub open spec fn access_fault(addr: u32, width: int, len: int) -> Option<Fault> {
    if (addr as int) % width != 0 {
        Some(Fault::MisalignedAccess { addr })
    } else if addr + width > len {
        Some(Fault::OutOfBounds { addr })
    } else {
        None
    }
}

/// 1 when `c` holds, else 0.
pub open spec fn flag(c: bool) -> u32 {
    if c {
        1
    } else {
        0
    }
}

/// The effective address of a load or store: `base` plus `offset`, wrapped.
pub open spec fn address(base: u32, offset: i32) -> u32 {
    wrap32(base + offset)
}

/// Whether a branch instruction's condition holds on `regs`; false for every
/// other instruction.
pub open spec fn branch_taken(inst: Instruction, regs: Seq<u32>) -> bool {
    match inst {
        Instruction::BEQ { rs1, rs2, .. } => regs[rs1 as int] == regs[rs2 as int],
        Instruction::BNE { rs1, rs2, .. } => regs[rs1 as int] != regs[rs2 as int],
        Instruction::BLT { rs1, rs2, .. } => signed(regs[rs1 as int]) < signed(regs[rs2 as int]),
        Instruction::BGE { rs1, rs2, .. } => signed(regs[rs1 as int]) >= signed(regs[rs2 as int]),
        Instruction::BLTU { rs1, rs2, .. } => regs[rs1 as int] < regs[rs2 as int],
        Instruction::BGEU { rs1, rs2, .. } => regs[rs1 as int] >= regs[rs2 as int],
        _ => false,
    }
}

/// The branch offset of a branch instruction.
pub open spec fn branch_offset(inst: Instruction) -> i32 {
    match inst {
        Instruction::BEQ { offset, .. } | Instruction::BNE { offset, .. } | Instruction::BLT {
            offset,
            ..
        } | Instruction::BGE { offset, .. } | Instruction::BLTU { offset, .. }
        | Instruction::BGEU { offset, .. } => offset,
        _ => 0,
    }
}

/// Whether `inst` is a conditional branch.
pub open spec fn is_branch(inst: Instruction) -> bool {
    inst is BEQ || inst is BNE || inst is BLT || inst is BGE || inst is BLTU || inst is BGEU
}

/// Whether `inst` is an unconditional jump.
pub open spec fn is_jump(inst: Instruction) -> bool {
    inst is JAL || inst is JALR
}

/// Writes `v` to `rd` and moves on to the next instruction.
pub open spec fn write_and_advance(
    regs: Seq<u32>,
    pc: u32,
    mem: Seq<u8>,
    rd: usize,
    v: u32,
) -> Result<State, Fault> {
    Ok((write_reg(regs, rd as int, v), next_pc(pc), mem))
}

/// A load of `width` bytes at `addr` that writes `v` to `rd`, unless the access faults.
pub open spec fn load(
    regs: Seq<u32>,
    pc: u32,
    mem: Seq<u8>,
    rd: usize,
    addr: u32,
    width: int,
    v: u32,
) -> Result<State, Fault> {
    match access_fault(addr, width, mem.len() as int) {
        Some(f) => Err(f),
        None => write_and_advance(regs, pc, mem, rd, v),
    }
}

/// A store of `width` bytes at `addr` that leaves memory as `after`, unless the access faults.
pub open spec fn store(
    regs: Seq<u32>,
    pc: u32,
    mem: Seq<u8>,
    addr: u32,
    width: int,
    after: Seq<u8>,
) -> Result<State, Fault> {
    match access_fault(addr, width, mem.len() as int) {
        Some(f) => Err(f),
        None => Ok((regs, next_pc(pc), after)),
    }
}

/// The state after executing `inst` at `pc` on the registers `regs` and
/// memory `mem`, or the fault that stops it.
pub open spec fn outcome(inst: Instruction, regs: Seq<u32>, pc: u32, mem: Seq<u8>) -> Result<
    State,
    Fault,
> {
    let go = |rd: usize, v: u32| write_and_advance(regs, pc, mem, rd, v);
    match inst {
        Instruction::ADDI { imm, rs1, rd } => go(rd, wrap32(regs[rs1 as int] + imm)),
        Instruction::SLTI { imm, rs1, rd } => go(rd, flag(signed(regs[rs1 as int]) < imm)),
        Instruction::SLTIU { imm, rs1, rd } => go(rd, flag(regs[rs1 as int] < imm)),
        Instruction::ANDI { imm, rs1, rd } => go(rd, regs[rs1 as int] & imm),
        Instruction::ORI { imm, rs1, rd } => go(rd, regs[rs1 as int] | imm),
        Instruction::XORI { imm, rs1, rd } => go(rd, regs[rs1 as int] ^ imm),
        Instruction::SLLI { shamt, rs1, rd } => go(rd, regs[rs1 as int] << shamt),
        Instruction::SRLI { shamt, rs1, rd } => go(rd, regs[rs1 as int] >> shamt),
        Instruction::SRAI { shamt, rs1, rd } => go(rd, sra(regs[rs1 as int], shamt)),
        Instruction::LUI { imm, rd } => go(rd, imm),
        Instruction::AUIPC { imm, rd } => go(rd, wrap32(pc + imm)),
        Instruction::ADD { rs1, rs2, rd } => go(rd, wrap32(regs[rs1 as int] + regs[rs2 as int])),
        Instruction::SUB { rs1, rs2, rd } => go(rd, wrap32(regs[rs1 as int] - regs[rs2 as int])),
        Instruction::SLT { rs1, rs2, rd } => go(
            rd,
            flag(signed(regs[rs1 as int]) < signed(regs[rs2 as int])),
        ),
        Instruction::SLTU { rs1, rs2, rd } => go(rd, flag(regs[rs1 as int] < regs[rs2 as int])),
        Instruction::AND { rs1, rs2, rd } => go(rd, regs[rs1 as int] & regs[rs2 as int]),
        Instruction::OR { rs1, rs2, rd } => go(rd, regs[rs1 as int] | regs[rs2 as int]),
        Instruction::XOR { rs1, rs2, rd } => go(rd, regs[rs1 as int] ^ regs[rs2 as int]),
        Instruction::SLL { rs1, rs2, rd } => go(
            rd,
            regs[rs1 as int] << ((regs[rs2 as int] % 32) as u32),
        ),
        Instruction::SRL { rs1, rs2, rd } => go(
            rd,
            regs[rs1 as int] >> ((regs[rs2 as int] % 32) as u32),
        ),
        Instruction::SRA { rs1, rs2, rd } => go(
            rd,
            sra(regs[rs1 as int], (regs[rs2 as int] % 32) as u32),
        ),
        Instruction::JAL { offset, rd } => match jump_to(wrap32(pc + offset)) {
            Ok(target) => Ok((write_reg(regs, rd as int, next_pc(pc)), target, mem)),
            Err(f) => Err(f),
        },
        Instruction::JALR { offset, rs1, rd } => match jump_to(
            clear_low_bit(wrap32(regs[rs1 as int] + offset)),
        ) {
            Ok(target) => Ok((write_reg(regs, rd as int, next_pc(pc)), target, mem)),
            Err(f) => Err(f),
        },
        Instruction::BEQ { .. } | Instruction::BNE { .. } | Instruction::BLT { .. }
        | Instruction::BGE { .. } | Instruction::BLTU { .. } | Instruction::BGEU { .. } => {
            match branch_next(branch_taken(inst, regs), pc, branch_offset(inst)) {
                Ok(p) => Ok((regs, p, mem)),
                Err(f) => Err(f),
            }
        },
        Instruction::LW { offset, rs1, rd } => {
            let a = address(regs[rs1 as int], offset);
            load(regs, pc, mem, rd, a, 4, word_at(mem, a as int))
        },
        Instruction::LH { offset, rs1, rd } => {
            let a = address(regs[rs1 as int], offset);
            let v = wrap32(sign_extend(halfword_at(mem, a as int) as int, 16));
            load(regs, pc, mem, rd, a, 2, v)
        },
        Instruction::LHU { offset, rs1, rd } => {
            let a = address(regs[rs1 as int], offset);
            load(regs, pc, mem, rd, a, 2, halfword_at(mem, a as int) as u32)
        },
        Instruction::LB { offset, rs1, rd } => {
            let a = address(regs[rs1 as int], offset);
            load(regs, pc, mem, rd, a, 1, wrap32(sign_extend(mem[a as int] as int, 8)))
        },
        Instruction::LBU { offset, rs1, rd } => {
            let a = address(regs[rs1 as int], offset);
            load(regs, pc, mem, rd, a, 1, mem[a as int] as u32)
        },
        Instruction::SW { offset, rs1, rs2 } => {
            let a = address(regs[rs1 as int], offset);
            store(regs, pc, mem, a, 4, with_word(mem, a as int, regs[rs2 as int]))
        },
        Instruction::SH { offset, rs1, rs2 } => {
            let a = address(regs[rs1 as int], offset);
            let v = (regs[rs2 as int] % 0x1_0000) as u16;
            store(regs, pc, mem, a, 2, with_halfword(mem, a as int, v))
        },
        Instruction::SB { offset, rs1, rs2 } => {
            let a = address(regs[rs1 as int], offset);
            store(regs, pc, mem, a, 1, mem.update(a as int, (regs[rs2 as int] % 0x100) as u8))
        },
    }
}

/// The state after executing the instruction word `w` at `pc`, or the fault
/// that stops it.
pub open spec fn step_word(w: u32, regs: Seq<u32>, pc: u32, mem: Seq<u8>) -> Result<State, Fault> {
    match decode_result(w) {
        Ok(inst) => outcome(inst, regs, pc, mem),
        Err(f) => Err(f),
    }
}

/// A step that returned `r` took the state from `before` to `after` as
/// `expected` says: on success `after` is the expected state, and on a fault
/// `expected` is that fault and nothing changed.
pub open spec fn settles(
    expected: Result<State, Fault>,
    r: Result<(), Fault>,
    before: State,
    after: State,
) -> bool {
    match r {
        Ok(_) => expected == Ok::<State, Fault>(after),
        Err(f) => expected == Err::<State, Fault>(f) && after == before,
    }
}

/// The state after one clock cycle: fetch the word at `pc`, then execute it.
pub open spec fn cycle(regs: Seq<u32>, pc: u32, mem: Seq<u8>) -> Result<State, Fault> {
    if pc % 4 != 0 {
        Err(Fault::MisalignedFetch { addr: pc })
    } else if pc + 4 > mem.len() {
        Err(Fault::OutOfBounds { addr: pc })
    } else {
        step_word(word_at(mem, pc as int), regs, pc, mem)
    }
}

/// A single hart: the register file, the program counter, and the word most
/// recently fetched.
pub struct RISCV {
    /// The 32 registers; register 0 always reads as 0.
    pub reg: [Word; XLEN],
    /// The address of the instruction to fetch next.
    pub pc: Word,
    current_instruction: Word,
}

/// The fault, if any, of an access of `width` bytes at `addr` in `mem`.
fn check_access(addr: u32, width: u32, mem: &Memory) -> (r: Option<Fault>)
    requires
        width == 1 || width == 2 || width == 4,
    ensures
        r == access_fault(addr, width as int, mem@.len() as int),
{
    if addr % width != 0 {
        Some(Fault::MisalignedAccess { addr })
    } else if addr as u64 + width as u64 > mem.size() as u64 {
        Some(Fault::OutOfBounds { addr })
    } else {
        None
    }
}

impl RISCV {
    /// The word most recently fetched.
    pub closed spec fn fetched(&self) -> u32 {
        self.current_instruction
    }

    /// The register file as a sequence of 32 words.
    pub closed spec fn regs(&self) -> Seq<u32> {
        self.reg@
    }

    /// The program counter.
    pub closed spec fn program_counter(&self) -> u32 {
        self.pc
    }

    /// The registers and program counter of this hart, with the contents of `mem`.
    pub open spec fn state(&self, mem: &Memory) -> State {
        (self.regs(), self.program_counter(), mem@)
    }

    /// A hart with every register 0, starting at address 0.
    pub fn reset() -> (r: RISCV)
        ensures
            r.regs().len() == XLEN,
            forall|i: int| 0 <= i < XLEN ==> #[trigger] r.regs()[i] == 0,
            r.program_counter() == 0,
            r.fetched() == 0,
    {
        RISCV { reg: [0; XLEN], pc: 0, current_instruction: 0 }
    }

    /// A hart with every register 0, starting at address 0x1000.
    pub fn new_() -> (r: RISCV)
        ensures
            r.regs().len() == XLEN,
            forall|i: int| 0 <= i < XLEN ==> #[trigger] r.regs()[i] == 0,
            r.program_counter() == 0x1000,
            r.fetched() == 0,
    {
        RISCV { reg: [0; XLEN], pc: 0x1000, current_instruction: 0 }
    }

    /// Fetches the word at the program counter, which must be a multiple of 4
    /// within memory, and keeps it as the instruction to execute.
    pub fn fetch_instruction(&mut self, mem: &Memory) -> (r: Word)
        requires
            word_ok(mem@.len() as int, old(self).program_counter() as int),
        ensures
            r == word_at(mem@, old(self).program_counter() as int),
            final(self).fetched() == r,
            final(self).regs() == old(self).regs(),
            final(self).program_counter() == old(self).program_counter(),
    {
        self.current_instruction = mem.fetch_word(self.pc as usize);
        self.current_instruction
    }

    /// Advances the program counter by 4, wrapping at 2^32.
    pub fn increment_pc(&mut self)
        ensures
            final(self).program_counter() == next_pc(old(self).program_counter()),
            final(self).regs() == old(self).regs(),
            final(self).fetched() == old(self).fetched(),
    {
        proof {
            lemma_wrapping_add(self.pc, 4);
        }
        self.pc = self.pc.wrapping_add(4);
    }

    /// Writes `value` to register `rd`, unless `rd` is 0.
    fn write_reg(&mut self, rd: usize, value: u32)
        requires
            rd < XLEN,
        ensures
            final(self).regs() == write_reg(old(self).regs(), rd as int, value),
            final(self).program_counter() == old(self).program_counter(),
            final(self).fetched() == old(self).fetched(),
    {
        if rd != 0 {
            self.reg[rd] = value;
        }
    }
}

impl RISCV {
    /// Writes `value` to `rd` and advances the program counter by 4.
    fn write_and_advance(&mut self, rd: usize, value: u32)
        requires
            rd < XLEN,
        ensures
            final(self).regs() == write_reg(old(self).regs(), rd as int, value),
            final(self).program_counter() == next_pc(old(self).program_counter()),
            final(self).fetched() == old(self).fetched(),
    {
        self.write_reg(rd, value);
        self.increment_pc();
    }

    /// Moves to `branch_next(taken, pc, offset)`, or faults with the state unchanged.
    fn branch(&mut self, taken: bool, offset: i32) -> (r: Result<(), Fault>)
        ensures
            final(self).regs() == old(self).regs(),
            final(self).fetched() == old(self).fetched(),
            ({
                let expected = branch_next(taken, old(self).program_counter(), offset);
                match r {
                    Ok(_) => expected == Ok::<u32, Fault>(final(self).program_counter()),
                    Err(f) => expected == Err::<u32, Fault>(f) && final(self).program_counter()
                        == old(self).program_counter(),
                }
            }),
    {
        if taken {
            proof {
                lemma_wrapping_add_signed(self.pc, offset);
            }
            let target = self.pc.wrapping_add_signed(offset);
            if target % 4 != 0 {
                return Err(Fault::MisalignedTarget { target });
            }
            self.pc = target;
        } else {
            self.increment_pc();
        }
        Ok(())
    }

    /// Writes the address of the next instruction to `rd` and moves to
    /// `target`, or faults with the state unchanged.
    fn jump(&mut self, target: u32, rd: usize) -> (r: Result<(), Fault>)
        requires
            rd < XLEN,
        ensures
            final(self).fetched() == old(self).fetched(),
            ({
                let link = next_pc(old(self).program_counter());
                match r {
                    Ok(_) => jump_to(target) == Ok::<u32, Fault>(final(self).program_counter())
                        && final(self).regs() == write_reg(old(self).regs(), rd as int, link),
                    Err(f) => jump_to(target) == Err::<u32, Fault>(f)
                        && final(self).program_counter() == old(self).program_counter()
                        && final(self).regs() == old(self).regs(),
                }
            }),
    {
        if target % 4 != 0 {
            return Err(Fault::MisalignedTarget { target });
        }
        proof {
            lemma_wrapping_add(self.pc, 4);
        }
        let link = self.pc.wrapping_add(4);
        self.write_reg(rd, link);
        self.pc = target;
        Ok(())
    }

    /// Executes the decoded instruction `inst` at the program counter,
    /// reading and writing registers and `mem`, and moves the program counter
    /// to the next instruction or to the jump or branch target. On a fault
    /// nothing changes.
    pub fn execute_instruction(&mut self, inst: Instruction, mem: &mut Memory) -> (r: Result<
        (),
        Fault,
    >)
        requires
            inst.wf(),
        ensures
            final(self).fetched() == old(self).fetched(),
            settles(
                outcome(inst, old(self).regs(), old(self).program_counter(), old(mem)@),
                r,
                old(self).state(old(mem)),
                final(self).state(final(mem)),
            ),
    {
        match inst {
            Instruction::ADDI { imm, rs1, rd } => {
                proof {
                    lemma_wrapping_add_signed(self.reg[rs1 as int], imm);
                }
                let v = self.reg[rs1].wrapping_add_signed(imm);
                self.write_and_advance(rd, v);
            },
            Instruction::SLTI { imm, rs1, rd } => {
                proof {
                    lemma_u32_as_i32(self.reg[rs1 as int]);
                }
                let v: u32 = if (self.reg[rs1] as i32) < imm {
                    1
                } else {
                    0
                };
                self.write_and_advance(rd, v);
            },
            Instruction::SLTIU { imm, rs1, rd } => {
                let v: u32 = if self.reg[rs1] < imm {
                    1
                } else {
                    0
                };
                self.write_and_advance(rd, v);
            },
            Instruction::ANDI { imm, rs1, rd } => {
                let v = self.reg[rs1] & imm;
                self.write_and_advance(rd, v);
            },
            Instruction::ORI { imm, rs1, rd } => {
                let v = self.reg[rs1] | imm;
                self.write_and_advance(rd, v);
            },
            Instruction::XORI { imm, rs1, rd } => {
                let v = self.reg[rs1] ^ imm;
                self.write_and_advance(rd, v);
            },
            Instruction::SLLI { shamt, rs1, rd } => {
                let v = self.reg[rs1] << shamt;
                self.write_and_advance(rd, v);
            },
            Instruction::SRLI { shamt, rs1, rd } => {
                let v = self.reg[rs1] >> shamt;
                self.write_and_advance(rd, v);
            },
            Instruction::SRAI { shamt, rs1, rd } => {
                proof {
                    lemma_i32_shr(self.reg[rs1 as int], shamt);
                }
                let v = ((self.reg[rs1] as i32) >> shamt) as u32;
                self.write_and_advance(rd, v);
            },
            Instruction::LUI { imm, rd } => {
                self.write_and_advance(rd, imm);
            },
            Instruction::AUIPC { imm, rd } => {
                proof {
                    lemma_wrapping_add(self.pc, imm);
                }
                let v = self.pc.wrapping_add(imm);
                self.write_and_advance(rd, v);
            },
            Instruction::ADD { rs1, rs2, rd } => {
                proof {
                    lemma_wrapping_add(self.reg[rs1 as int], self.reg[rs2 as int]);
                }
                let v = self.reg[rs1].wrapping_add(self.reg[rs2]);
                self.write_and_advance(rd, v);
            },
            Instruction::SUB { rs1, rs2, rd } => {
                proof {
                    lemma_wrapping_sub(self.reg[rs1 as int], self.reg[rs2 as int]);
                }
                let v = self.reg[rs1].wrapping_sub(self.reg[rs2]);
                self.write_and_advance(rd, v);
            },
            Instruction::SLT { rs1, rs2, rd } => {
                proof {
                    lemma_u32_as_i32(self.reg[rs1 as int]);
                    lemma_u32_as_i32(self.reg[rs2 as int]);
                }
                let v: u32 = if (self.reg[rs1] as i32) < (self.reg[rs2] as i32) {
                    1
                } else {
                    0
                };
                self.write_and_advance(rd, v);
            },
            Instruction::SLTU { rs1, rs2, rd } => {
                let v: u32 = if self.reg[rs1] < self.reg[rs2] {
                    1
                } else {
                    0
                };
                self.write_and_advance(rd, v);
            },
            Instruction::AND { rs1, rs2, rd } => {
                let v = self.reg[rs1] & self.reg[rs2];
                self.write_and_advance(rd, v);
            },
            Instruction::OR { rs1, rs2, rd } => {
                let v = self.reg[rs1] | self.reg[rs2];
                self.write_and_advance(rd, v);
            },
            Instruction::XOR { rs1, rs2, rd } => {
                let v = self.reg[rs1] ^ self.reg[rs2];
                self.write_and_advance(rd, v);
            },
            Instruction::SLL { rs1, rs2, rd } => {
                let shamt: u32 = self.reg[rs2] % 32;
                let v = self.reg[rs1] << shamt;
                self.write_and_advance(rd, v);
            },
            Instruction::SRL { rs1, rs2, rd } => {
                let shamt: u32 = self.reg[rs2] % 32;
                let v = self.reg[rs1] >> shamt;
                self.write_and_advance(rd, v);
            },
            Instruction::SRA { rs1, rs2, rd } => {
                let shamt: u32 = self.reg[rs2] % 32;
                proof {
                    lemma_i32_shr(self.reg[rs1 as int], shamt);
                }
                let v = ((self.reg[rs1] as i32) >> shamt) as u32;
                self.write_and_advance(rd, v);
            },
            Instruction::JAL { offset, rd } => {
                proof {
                    lemma_wrapping_add_signed(self.pc, offset);
                }
                let target = self.pc.wrapping_add_signed(offset);
                return self.jump(target, rd);
            },
            Instruction::JALR { offset, rs1, rd } => {
                proof {
                    lemma_wrapping_add_signed(self.reg[rs1 as int], offset);
                }
                let sum = self.reg[rs1].wrapping_add_signed(offset);
                let target = sum & !1u32;
                assert(sum & !1u32 == sum - sum % 2) by (bit_vector);
                return self.jump(target, rd);
            },
            Instruction::BEQ { offset, rs1, rs2 } => {
                let taken = self.reg[rs1] == self.reg[rs2];
                return self.branch(taken, offset);
            },
            Instruction::BNE { offset, rs1, rs2 } => {
                let taken = self.reg[rs1] != self.reg[rs2];
                return self.branch(taken, offset);
            },
            Instruction::BLT { offset, rs1, rs2 } => {
                proof {
                    lemma_u32_as_i32(self.reg[rs1 as int]);
                    lemma_u32_as_i32(self.reg[rs2 as int]);
                }
                let taken = (self.reg[rs1] as i32) < (self.reg[rs2] as i32);
                return self.branch(taken, offset);
            },
            Instruction::BGE { offset, rs1, rs2 } => {
                proof {
                    lemma_u32_as_i32(self.reg[rs1 as int]);
                    lemma_u32_as_i32(self.reg[rs2 as int]);
                }
                let taken = (self.reg[rs1] as i32) >= (self.reg[rs2] as i32);
                return self.branch(taken, offset);
            },
            Instruction::BLTU { offset, rs1, rs2 } => {
                let taken = self.reg[rs1] < self.reg[rs2];
                return self.branch(taken, offset);
            },
            Instruction::BGEU { offset, rs1, rs2 } => {
                let taken = self.reg[rs1] >= self.reg[rs2];
                return self.branch(taken, offset);
            },
            Instruction::LW { offset, rs1, rd } => {
                proof {
                    lemma_wrapping_add_signed(self.reg[rs1 as int], offset);
                }
                let addr = self.reg[rs1].wrapping_add_signed(offset);
                if let Some(f) = check_access(addr, 4, mem) {
                    return Err(f);
                }
                let v = mem.fetch_word(addr as usize);
                self.write_and_advance(rd, v);
            },
            Instruction::LH { offset, rs1, rd } => {
                proof {
                    lemma_wrapping_add_signed(self.reg[rs1 as int], offset);
                }
                let addr = self.reg[rs1].wrapping_add_signed(offset);
                if let Some(f) = check_access(addr, 2, mem) {
                    return Err(f);
                }
                let h = mem.fetch_halfword(addr as usize);
                let e = sign_extend_u32(h as usize, 16);
                proof {
                    lemma_i32_as_u32(e);
                }
                self.write_and_advance(rd, e as u32);
            },
            Instruction::LHU { offset, rs1, rd } => {
                proof {
                    lemma_wrapping_add_signed(self.reg[rs1 as int], offset);
                }
                let addr = self.reg[rs1].wrapping_add_signed(offset);
                if let Some(f) = check_access(addr, 2, mem) {
                    return Err(f);
                }
                let h = mem.fetch_halfword(addr as usize);
                self.write_and_advance(rd, h as u32);
            },
            Instruction::LB { offset, rs1, rd } => {
                proof {
                    lemma_wrapping_add_signed(self.reg[rs1 as int], offset);
                }
                let addr = self.reg[rs1].wrapping_add_signed(offset);
                if let Some(f) = check_access(addr, 1, mem) {
                    return Err(f);
                }
                let b = mem.fetch_byte(addr as usize);
                let e = sign_extend_u32(b as usize, 8);
                proof {
                    lemma_i32_as_u32(e);
                }
                self.write_and_advance(rd, e as u32);
            },
            Instruction::LBU { offset, rs1, rd } => {
                proof {
                    lemma_wrapping_add_signed(self.reg[rs1 as int], offset);
                }
                let addr = self.reg[rs1].wrapping_add_signed(offset);
                if let Some(f) = check_access(addr, 1, mem) {
                    return Err(f);
                }
                let b = mem.fetch_byte(addr as usize);
                self.write_and_advance(rd, b as u32);
            },
            Instruction::SW { offset, rs1, rs2 } => {
                proof {
                    lemma_wrapping_add_signed(self.reg[rs1 as int], offset);
                }
                let addr = self.reg[rs1].wrapping_add_signed(offset);
                if let Some(f) = check_access(addr, 4, mem) {
                    return Err(f);
                }
                mem.store_word(addr as usize, self.reg[rs2]);
                self.increment_pc();
            },
            Instruction::SH { offset, rs1, rs2 } => {
                proof {
                    lemma_wrapping_add_signed(self.reg[rs1 as int], offset);
                }
                let addr = self.reg[rs1].wrapping_add_signed(offset);
                if let Some(f) = check_access(addr, 2, mem) {
                    return Err(f);
                }
                mem.store_halfword(addr as usize, (self.reg[rs2] % 0x1_0000) as u16);
                self.increment_pc();
            },
            Instruction::SB { offset, rs1, rs2 } => {
                proof {
                    lemma_wrapping_add_signed(self.reg[rs1 as int], offset);
                }
                let addr = self.reg[rs1].wrapping_add_signed(offset);
                if let Some(f) = check_access(addr, 1, mem) {
                    return Err(f);
                }
                mem.store_byte(addr as usize, (self.reg[rs2] % 0x100) as u8);
                self.increment_pc();
            },
        }
        Ok(())
    }
}

impl RISCV {
    /// Decodes and executes the most recently fetched word, then moves the
    /// program counter to the next instruction or to the jump or branch
    /// target. On a fault nothing changes.
    pub fn execute(&mut self, mem: &mut Memory) -> (r: Result<(), Fault>)
        ensures
            final(self).fetched() == old(self).fetched(),
            settles(
                step_word(
                    old(self).fetched(),
                    old(self).regs(),
                    old(self).program_counter(),
                    old(mem)@,
                ),
                r,
                old(self).state(old(mem)),
                final(self).state(final(mem)),
            ),
    {
        let inst = decode(self.current_instruction)?;
        self.execute_instruction(inst, mem)
    }

    /// One clock cycle: fetches the word at the program counter, executes it,
    /// and moves the program counter on. On a fault the registers, the
    /// program counter and memory are unchanged.
    pub fn clock_cycle(&mut self, mem: &mut Memory) -> (r: Result<(), Fault>)
        ensures
            settles(
                cycle(old(self).regs(), old(self).program_counter(), old(mem)@),
                r,
                old(self).state(old(mem)),
                final(self).state(final(mem)),
            ),
    {
        if self.pc % 4 != 0 {
            return Err(Fault::MisalignedFetch { addr: self.pc });
        }
        if self.pc as u64 + 4 > mem.size() as u64 {
            return Err(Fault::OutOfBounds { addr: self.pc });
        }
        self.fetch_instruction(mem);
        self.execute(mem)
    }
}

/// No instruction changes register 0, and every instruction keeps the
/// register file at 32 registers.
pub proof fn lemma_register_zero_kept(inst: Instruction, regs: Seq<u32>, pc: u32, mem: Seq<u8>)
    requires
        inst.wf(),
        regs.len() == XLEN,
    ensures
        outcome(inst, regs, pc, mem) matches Ok(s) ==> s.0.len() == XLEN && s.0[0] == regs[0],
{
}

/// An instruction that is neither a jump nor a taken branch moves the program
/// counter to the next word, modulo 2^32.
pub proof fn lemma_sequential_pc(inst: Instruction, regs: Seq<u32>, pc: u32, mem: Seq<u8>)
    requires
        inst.wf(),
        regs.len() == XLEN,
        !is_jump(inst),
        !branch_taken(inst, regs),
    ensures
        outcome(inst, regs, pc, mem) matches Ok(s) ==> s.1 == next_pc(pc),
{
}

/// A jump, and a branch that is taken, leave the program counter at a
/// multiple of 4.
pub proof fn lemma_transfer_aligned(inst: Instruction, regs: Seq<u32>, pc: u32, mem: Seq<u8>)
    requires
        inst.wf(),
        regs.len() == XLEN,
        is_jump(inst) || branch_taken(inst, regs),
    ensures
        outcome(inst, regs, pc, mem) matches Ok(s) ==> s.1 % 4 == 0,
{
}

/// The state after `n` clock cycles from `s`, or the first fault.
pub open spec fn run(s: State, n: nat) -> Result<State, Fault>
    decreases n,
{
    if n == 0 {
        Ok(s)
    } else {
        match run(s, (n - 1) as nat) {
            Ok(t) => cycle(t.0, t.1, t.2),
            Err(f) => Err(f),
        }
    }
}

/// A clock cycle never changes register 0.
pub proof fn lemma_cycle_keeps_register_zero(regs: Seq<u32>, pc: u32, mem: Seq<u8>)
    requires
        regs.len() == XLEN,
    ensures
        cycle(regs, pc, mem) matches Ok(s) ==> s.0.len() == XLEN && s.0[0] == regs[0],
{
    let w = word_at(mem, pc as int);
    lemma_decode_exactly_recognized(w);
    if let Ok(inst) = decode_result(w) {
        lemma_register_zero_kept(inst, regs, pc, mem);
    }
}

/// Register 0 reads as 0 in every state reachable from a reset register
/// file, whatever the memory and starting address.
pub proof fn lemma_reachable_register_zero(regs: Seq<u32>, pc: u32, mem: Seq<u8>, n: nat)
    requires
        regs.len() == XLEN,
        regs[0] == 0,
    ensures
        run((regs, pc, mem), n) matches Ok(s) ==> s.0.len() == XLEN && s.0[0] == 0,
    decreases n,
{
    if n > 0 {
        lemma_reachable_register_zero(regs, pc, mem, (n - 1) as nat);
        if let Ok(t) = run((regs, pc, mem), (n - 1) as nat) {
            lemma_cycle_keeps_register_zero(t.0, t.1, t.2);
        }
    }
}

/// Loading a byte: the unsigned load and the signed load succeed or fault
/// together; the unsigned load gives the stored byte, and the signed load
/// gives a word with the same low 8 bits whose signed value is the byte
/// sign-extended.
pub proof fn lemma_byte_loads(
    offset: i32,
    rs1: usize,
    rd: usize,
    regs: Seq<u32>,
    pc: u32,
    mem: Seq<u8>,
)
    requires
        rs1 < XLEN,
        0 < rd < XLEN,
        regs.len() == XLEN,
    ensures
        ({
            let a = address(regs[rs1 as int], offset) as int;
            let unsigned = outcome(Instruction::LBU { offset, rs1, rd }, regs, pc, mem);
            let signed_load = outcome(Instruction::LB { offset, rs1, rd }, regs, pc, mem);
            &&& (unsigned is Ok <==> signed_load is Ok)
            &&& unsigned matches Ok(s) ==> s.0[rd as int] == mem[a] as u32
            &&& signed_load matches Ok(s) ==> s.0[rd as int] % 0x100 == mem[a] && signed(
                s.0[rd as int],
            ) == sign_extend(mem[a] as int, 8)
        }),
{
    let a = address(regs[rs1 as int], offset) as int;
    if 0 <= a < mem.len() {
        lemma2_to64();
        let v = mem[a] as int;
        lemma_sign_extend_truncate(v, 8);
        lemma_signed_wrap32(sign_extend(v, 8));
        lemma_wrap32_low_bits(sign_extend(v, 8), 8);
    }
}

/// Loading a halfword: the unsigned load and the signed load succeed or
/// fault together; the unsigned load gives the stored halfword, and the
/// signed load gives a word with the same low 16 bits whose signed value is
/// the halfword sign-extended.
pub proof fn lemma_halfword_loads(
    offset: i32,
    rs1: usize,
    rd: usize,
    regs: Seq<u32>,
    pc: u32,
    mem: Seq<u8>,
)
    requires
        rs1 < XLEN,
        0 < rd < XLEN,
        regs.len() == XLEN,
    ensures
        ({
            let a = address(regs[rs1 as int], offset) as int;
            let unsigned = outcome(Instruction::LHU { offset, rs1, rd }, regs, pc, mem);
            let signed_load = outcome(Instruction::LH { offset, rs1, rd }, regs, pc, mem);
            &&& (unsigned is Ok <==> signed_load is Ok)
            &&& unsigned matches Ok(s) ==> s.0[rd as int] == halfword_at(mem, a) as u32
            &&& signed_load matches Ok(s) ==> s.0[rd as int] % 0x1_0000 == halfword_at(mem, a)
                && signed(s.0[rd as int]) == sign_extend(halfword_at(mem, a) as int, 16)
        }),
{
    let a = address(regs[rs1 as int], offset) as int;
    lemma2_to64();
    let v = halfword_at(mem, a) as int;
    lemma_sign_extend_truncate(v, 16);
    lemma_signed_wrap32(sign_extend(v, 16));
    lemma_wrap32_low_bits(sign_extend(v, 16), 16);
}

/// Shifting the all-ones word right: arithmetically by any amount it stays
/// all ones; logically, zeros come in from the top.
pub proof fn lemma_shift_all_ones(
    shamt: u32,
    rs1: usize,
    rd: usize,
    regs: Seq<u32>,
    pc: u32,
    mem: Seq<u8>,
)
    requires
        shamt < 32,
        rs1 < XLEN,
        0 < rd < XLEN,
        regs.len() == XLEN,
        regs[rs1 as int] == 0xffff_ffff,
    ensures
        outcome(Instruction::SRAI { shamt, rs1, rd }, regs, pc, mem) matches Ok(s) && s.0[rd as int]
            == 0xffff_ffff,
        outcome(Instruction::SRLI { shamt, rs1, rd }, regs, pc, mem) matches Ok(s) && s.0[rd as int]
            == 0xffff_ffffnat / pow2(shamt as nat),
{
    vstd::arithmetic::power2::lemma_pow2_pos(shamt as nat);
    crate::arith::lemma_div_neg_pred(0, pow2(shamt as nat) as int);
    vstd::bits::lemma_u32_shr_is_div(0xffff_ffff, shamt);
}

/// Comparing against the all-ones word: unsigned, it is above every other
/// value; signed, it is -1.
pub proof fn lemma_compare_all_ones(
    rs1: usize,
    rs2: usize,
    rd: usize,
    regs: Seq<u32>,
    pc: u32,
    mem: Seq<u8>,
)
    requires
        rs1 < XLEN,
        rs2 < XLEN,
        0 < rd < XLEN,
        regs.len() == XLEN,
        regs[rs1 as int] == 0xffff_ffff,
        regs[rs2 as int] < 0xffff_ffff,
    ensures
        outcome(Instruction::SLTU { rs1: rs2, rs2: rs1, rd }, regs, pc, mem) matches Ok(s)
            && s.0[rd as int] == 1,
        outcome(Instruction::SLTU { rs1, rs2, rd }, regs, pc, mem) matches Ok(s) && s.0[rd as int]
            == 0,
        outcome(Instruction::SLT { rs1, rs2, rd }, regs, pc, mem) matches Ok(s) && s.0[rd as int]
            == flag(-1 < signed(regs[rs2 as int])),
{
}

} // verus!
