//! Instruction decoding in three stages: the opcode class from the low seven
//! bits, the operand fields of the class's encoding format, and the mnemonic
//! selected by the funct fields.
use crate::fault::Fault;
use crate::arith::{sign_extend, sign_extend_u32, wrap32};
use crate::memory::Word;
use vstd::arithmetic::power2::lemma2_to64;
use vstd::prelude::*;

verus! {

/// Bits [6:0] of an instruction word.
pub open spec fn opcode_bits(w: u32) -> u32 {
    w & 0x7f
}

/// Bits [11:7]: the destination register (R, I, U, J) or imm[4:0] (S).
pub open spec fn rd_bits(w: u32) -> u32 {
    (w >> 7) & 0x1f
}

/// Bits [14:12].
pub open spec fn funct3_bits(w: u32) -> u32 {
    (w >> 12) & 0x7
}

/// Bits [19:15].
pub open spec fn rs1_bits(w: u32) -> u32 {
    (w >> 15) & 0x1f
}

/// Bits [24:20].
pub open spec fn rs2_bits(w: u32) -> u32 {
    (w >> 20) & 0x1f
}

/// Bits [31:25]: funct7 (R), imm[11:5] (S), or the high bits of a shift immediate.
pub open spec fn funct7_bits(w: u32) -> u32 {
    (w >> 25) & 0x7f
}

/// Bits [31:20]: the I-format immediate.
pub open spec fn imm12_bits(w: u32) -> u32 {
    (w >> 20) & 0xfff
}

/// Bits [31:12]: the U-format immediate.
pub open spec fn imm20_bits(w: u32) -> u32 {
    (w >> 12) & 0xfffff
}

/// Bit `k` of `w`.
pub open spec fn bit(w: u32, k: u32) -> u32 {
    (w >> k) & 1
}

/// The eleven opcode classes selected by the low seven bits of an instruction.
#[derive(Debug, PartialEq, Eq, Structural, Clone, Copy)]
pub enum OPCODE {
    /// Register-immediate arithmetic.
    OPIMM,
    /// Load upper immediate.
    LUI,
    /// Add upper immediate to the program counter.
    AUIPC,
    /// Register-register arithmetic.
    OPRR,
    /// Jump and link.
    JAL,
    /// Jump and link through a register.
    JALR,
    /// Conditional branches.
    BRANCH,
    /// Loads from memory.
    LOAD,
    /// Stores to memory.
    STORE,
    /// Memory and I/O fences.
    FENCE,
    /// Environment calls and breakpoints.
    SYSTEM,
}

impl OPCODE {
    /// The seven-bit pattern that selects this class.
    pub open spec fn code(self) -> usize {
        match self {
            OPCODE::OPIMM => 0b0010011,
            OPCODE::LUI => 0b0110111,
            OPCODE::AUIPC => 0b0010111,
            OPCODE::OPRR => 0b0110011,
            OPCODE::JAL => 0b1101111,
            OPCODE::JALR => 0b1100111,
            OPCODE::BRANCH => 0b1100011,
            OPCODE::LOAD => 0b0000011,
            OPCODE::STORE => 0b0100011,
            OPCODE::FENCE => 0b0001111,
            OPCODE::SYSTEM => 0b1110011,
        }
    }
}

/// The opcode class whose pattern is `v`, if any.
pub open spec fn opcode_of(v: int) -> Option<OPCODE> {
    if v == 0b0010011 {
        Some(OPCODE::OPIMM)
    } else if v == 0b0110111 {
        Some(OPCODE::LUI)
    } else if v == 0b0010111 {
        Some(OPCODE::AUIPC)
    } else if v == 0b0110011 {
        Some(OPCODE::OPRR)
    } else if v == 0b1101111 {
        Some(OPCODE::JAL)
    } else if v == 0b1100111 {
        Some(OPCODE::JALR)
    } else if v == 0b1100011 {
        Some(OPCODE::BRANCH)
    } else if v == 0b0000011 {
        Some(OPCODE::LOAD)
    } else if v == 0b0100011 {
        Some(OPCODE::STORE)
    } else if v == 0b0001111 {
        Some(OPCODE::FENCE)
    } else if v == 0b1110011 {
        Some(OPCODE::SYSTEM)
    } else {
        None
    }
}

impl OPCODE {
    /// The seven-bit pattern that selects this class.
    pub fn value(&self) -> (r: usize)
        ensures
            r == self.code(),
    {
        match self {
            OPCODE::OPIMM => 0b0010011,
            OPCODE::LUI => 0b0110111,
            OPCODE::AUIPC => 0b0010111,
            OPCODE::OPRR => 0b0110011,
            OPCODE::JAL => 0b1101111,
            OPCODE::JALR => 0b1100111,
            OPCODE::BRANCH => 0b1100011,
            OPCODE::LOAD => 0b0000011,
            OPCODE::STORE => 0b0100011,
            OPCODE::FENCE => 0b0001111,
            OPCODE::SYSTEM => 0b1110011,
        }
    }

    /// The class whose pattern is `value`, or `None` for any other value.
    pub fn from_value(value: usize) -> (r: Option<Self>)
        ensures
            r == opcode_of(value as int),
    {
        if value == 0b0010011 {
            Some(OPCODE::OPIMM)
        } else if value == 0b0110111 {
            Some(OPCODE::LUI)
        } else if value == 0b0010111 {
            Some(OPCODE::AUIPC)
        } else if value == 0b0110011 {
            Some(OPCODE::OPRR)
        } else if value == 0b1101111 {
            Some(OPCODE::JAL)
        } else if value == 0b1100111 {
            Some(OPCODE::JALR)
        } else if value == 0b1100011 {
            Some(OPCODE::BRANCH)
        } else if value == 0b0000011 {
            Some(OPCODE::LOAD)
        } else if value == 0b0100011 {
            Some(OPCODE::STORE)
        } else if value == 0b0001111 {
            Some(OPCODE::FENCE)
        } else if value == 0b1110011 {
            Some(OPCODE::SYSTEM)
        } else {
            None
        }
    }

    /// The class selected by the low seven bits of `instruction`, if any.
    pub fn get_opcode(instruction: Word) -> (r: Option<Self>)
        ensures
            r == opcode_of(opcode_bits(instruction) as int),
    {
        let opcode_value: usize = (instruction & 0b1111111) as usize;
        OPCODE::from_value(opcode_value)
    }
}

/// Every class maps back to itself through its pattern.
pub proof fn lemma_opcode_round_trip(op: OPCODE)
    ensures
        opcode_of(op.code() as int) == Some(op),
{
}

/// The operand fields of an instruction, split by encoding format.
#[derive(Debug, PartialEq, Eq, Clone, Copy)]
pub enum EncodingVariant {
    /// Register-register operations.
    RType { funct7: usize, rs2: usize, rs1: usize, funct3: usize, rd: usize, opcode: OPCODE },
    /// Register-immediate operations, register jumps and loads.
    IType { imm: usize, rs1: usize, funct3: usize, rd: usize, opcode: OPCODE },
    /// Stores: imm[11:5] and imm[4:0].
    SType {
        imm_11_5: usize,
        rs2: usize,
        rs1: usize,
        funct3: usize,
        imm_4_0: usize,
        opcode: OPCODE,
    },
    /// Branches: imm[12], imm[10:5], imm[4:1] and imm[11].
    BType {
        imm_12: usize,
        imm_10_5: usize,
        rs2: usize,
        rs1: usize,
        funct3: usize,
        imm_4_1: usize,
        imm_11: usize,
        opcode: OPCODE,
    },
    /// Upper-immediate operations: imm[31:12].
    UType { imm_31_12: usize, rd: usize, opcode: OPCODE },
    /// Jumps: imm[20], imm[10:1], imm[11] and imm[19:12].
    JType {
        imm_20: usize,
        imm_10_1: usize,
        imm_11: usize,
        imm_19_12: usize,
        rd: usize,
        opcode: OPCODE,
    },
}

impl EncodingVariant {
    /// Each field fits in the bits it was taken from.
    pub open spec fn wf(self) -> bool {
        match self {
            EncodingVariant::RType { funct7, rs2, rs1, funct3, rd, .. } => funct7 < 128 && rs2 < 32
                && rs1 < 32 && funct3 < 8 && rd < 32,
            EncodingVariant::IType { imm, rs1, funct3, rd, .. } => imm < 4096 && rs1 < 32 && funct3
                < 8 && rd < 32,
            EncodingVariant::SType { imm_11_5, rs2, rs1, funct3, imm_4_0, .. } => imm_11_5 < 128
                && rs2 < 32 && rs1 < 32 && funct3 < 8 && imm_4_0 < 32,
            EncodingVariant::BType { imm_12, imm_10_5, rs2, rs1, funct3, imm_4_1, imm_11, .. } =>
                imm_12 < 2 && imm_10_5 < 64 && rs2 < 32 && rs1 < 32 && funct3 < 8 && imm_4_1 < 16
                && imm_11 < 2,
            EncodingVariant::UType { imm_31_12, rd, .. } => imm_31_12 < 0x10_0000 && rd < 32,
            EncodingVariant::JType { imm_20, imm_10_1, imm_11, imm_19_12, rd, .. } => imm_20 < 2
                && imm_10_1 < 1024 && imm_11 < 2 && imm_19_12 < 256 && rd < 32,
        }
    }
}

/// The fields of `w` in the R format.
pub open spec fn r_fields(w: u32, opcode: OPCODE) -> EncodingVariant {
    EncodingVariant::RType {
        funct7: funct7_bits(w) as usize,
        rs2: rs2_bits(w) as usize,
        rs1: rs1_bits(w) as usize,
        funct3: funct3_bits(w) as usize,
        rd: rd_bits(w) as usize,
        opcode,
    }
}

/// The fields of `w` in the I format.
pub open spec fn i_fields(w: u32, opcode: OPCODE) -> EncodingVariant {
    EncodingVariant::IType {
        imm: imm12_bits(w) as usize,
        rs1: rs1_bits(w) as usize,
        funct3: funct3_bits(w) as usize,
        rd: rd_bits(w) as usize,
        opcode,
    }
}

/// The fields of `w` in the S format.
pub open spec fn s_fields(w: u32, opcode: OPCODE) -> EncodingVariant {
    EncodingVariant::SType {
        imm_11_5: funct7_bits(w) as usize,
        rs2: rs2_bits(w) as usize,
        rs1: rs1_bits(w) as usize,
        funct3: funct3_bits(w) as usize,
        imm_4_0: rd_bits(w) as usize,
        opcode,
    }
}

/// The fields of `w` in the B format.
pub open spec fn b_fields(w: u32, opcode: OPCODE) -> EncodingVariant {
    EncodingVariant::BType {
        imm_12: bit(w, 31) as usize,
        imm_10_5: ((w >> 25) & 0x3f) as usize,
        rs2: rs2_bits(w) as usize,
        rs1: rs1_bits(w) as usize,
        funct3: funct3_bits(w) as usize,
        imm_4_1: ((w >> 8) & 0xf) as usize,
        imm_11: bit(w, 7) as usize,
        opcode,
    }
}

/// The fields of `w` in the U format.
pub open spec fn u_fields(w: u32, opcode: OPCODE) -> EncodingVariant {
    EncodingVariant::UType { imm_31_12: imm20_bits(w) as usize, rd: rd_bits(w) as usize, opcode }
}

/// The fields of `w` in the J format.
pub open spec fn j_fields(w: u32, opcode: OPCODE) -> EncodingVariant {
    EncodingVariant::JType {
        imm_20: bit(w, 31) as usize,
        imm_10_1: ((w >> 21) & 0x3ff) as usize,
        imm_11: bit(w, 20) as usize,
        imm_19_12: ((w >> 12) & 0xff) as usize,
        rd: rd_bits(w) as usize,
        opcode,
    }
}

/// The fields of `w` in the format of its opcode class; `None` where the
/// opcode is unrecognized or belongs to the fence or system class.
pub open spec fn encoding_of(w: u32) -> Option<EncodingVariant> {
    match opcode_of(opcode_bits(w) as int) {
        Some(OPCODE::OPRR) => Some(r_fields(w, OPCODE::OPRR)),
        Some(OPCODE::OPIMM) => Some(i_fields(w, OPCODE::OPIMM)),
        Some(OPCODE::JALR) => Some(i_fields(w, OPCODE::JALR)),
        Some(OPCODE::LOAD) => Some(i_fields(w, OPCODE::LOAD)),
        Some(OPCODE::STORE) => Some(s_fields(w, OPCODE::STORE)),
        Some(OPCODE::BRANCH) => Some(b_fields(w, OPCODE::BRANCH)),
        Some(OPCODE::LUI) => Some(u_fields(w, OPCODE::LUI)),
        Some(OPCODE::AUIPC) => Some(u_fields(w, OPCODE::AUIPC)),
        Some(OPCODE::JAL) => Some(j_fields(w, OPCODE::JAL)),
        _ => None,
    }
}

/// Every field taken from a word fits in the bits it was taken from.
pub proof fn lemma_field_bounds(w: u32)
    ensures
        opcode_bits(w) < 128,
        rd_bits(w) < 32,
        funct3_bits(w) < 8,
        rs1_bits(w) < 32,
        rs2_bits(w) < 32,
        funct7_bits(w) < 128,
        imm12_bits(w) < 4096,
        imm20_bits(w) < 0x10_0000,
        bit(w, 31) < 2,
        bit(w, 20) < 2,
        bit(w, 7) < 2,
        (w >> 25) & 0x3f < 64,
        (w >> 8) & 0xf < 16,
        (w >> 21) & 0x3ff < 1024,
        (w >> 12) & 0xff < 256,
{
    assert(w & 0x7f < 128 && (w >> 7) & 0x1f < 32 && (w >> 12) & 0x7 < 8 && (w >> 15) & 0x1f < 32
        && (w >> 20) & 0x1f < 32 && (w >> 25) & 0x7f < 128 && (w >> 20) & 0xfff < 4096 && (w >> 12)
        & 0xfffff < 0x10_0000 && (w >> 31) & 1 < 2 && (w >> 20) & 1 < 2 && (w >> 7) & 1 < 2 && (w
        >> 25) & 0x3f < 64 && (w >> 8) & 0xf < 16 && (w >> 21) & 0x3ff < 1024 && (w >> 12) & 0xff
        < 256) by (bit_vector);
}

impl EncodingVariant {
    /// Splits `instruction` into the fields of its opcode class's format.
    /// `None` where the opcode is unrecognized, or is a fence or system
    /// instruction, which this simulator does not implement.
    pub fn get_encoding(instruction: Word) -> (r: Option<EncodingVariant>)
        ensures
            r == encoding_of(instruction),
            r matches Some(e) ==> e.wf(),
    {
        proof {
            lemma_field_bounds(instruction);
        }
        let opcode = match OPCODE::get_opcode(instruction) {
            Some(op) => op,
            None => return None,
        };
        let rd = ((instruction >> 7) & 0b11111) as usize;
        let funct3 = ((instruction >> 12) & 0b111) as usize;
        let rs1 = ((instruction >> 15) & 0b11111) as usize;
        let rs2 = ((instruction >> 20) & 0b11111) as usize;
        match opcode {
            OPCODE::OPIMM | OPCODE::JALR | OPCODE::LOAD => Some(
                EncodingVariant::IType {
                    imm: ((instruction >> 20) & 0b111111111111) as usize,
                    rs1,
                    funct3,
                    rd,
                    opcode,
                },
            ),
            OPCODE::LUI | OPCODE::AUIPC => Some(
                EncodingVariant::UType {
                    imm_31_12: ((instruction >> 12) & 0b11111111111111111111) as usize,
                    rd,
                    opcode,
                },
            ),
            OPCODE::OPRR => Some(
                EncodingVariant::RType {
                    funct7: ((instruction >> 25) & 0b1111111) as usize,
                    rs2,
                    rs1,
                    funct3,
                    rd,
                    opcode,
                },
            ),
            OPCODE::JAL => Some(
                EncodingVariant::JType {
                    imm_20: ((instruction >> 31) & 0b1) as usize,
                    imm_10_1: ((instruction >> 21) & 0b1111111111) as usize,
                    imm_11: ((instruction >> 20) & 0b1) as usize,
                    imm_19_12: ((instruction >> 12) & 0b11111111) as usize,
                    rd,
                    opcode,
                },
            ),
            OPCODE::BRANCH => Some(
                EncodingVariant::BType {
                    imm_12: ((instruction >> 31) & 0b1) as usize,
                    imm_10_5: ((instruction >> 25) & 0b111111) as usize,
                    rs2,
                    rs1,
                    funct3,
                    imm_4_1: ((instruction >> 8) & 0b1111) as usize,
                    imm_11: ((instruction >> 7) & 0b1) as usize,
                    opcode,
                },
            ),
            OPCODE::STORE => Some(
                EncodingVariant::SType {
                    imm_11_5: ((instruction >> 25) & 0b1111111) as usize,
                    rs2,
                    rs1,
                    funct3,
                    imm_4_0: rd,
                    opcode,
                },
            ),
            OPCODE::FENCE | OPCODE::SYSTEM => None,
        }
    }
}

/// A decoded instruction: a mnemonic and its operands. Immediates are already
/// sign-extended; register fields are indices into the register file.
#[derive(Debug, PartialEq, Eq, Clone, Copy)]
pub enum Instruction {
    ADDI { imm: i32, rs1: usize, rd: usize },
    SLTI { imm: i32, rs1: usize, rd: usize },
    SLTIU { imm: u32, rs1: usize, rd: usize },
    ANDI { imm: u32, rs1: usize, rd: usize },
    ORI { imm: u32, rs1: usize, rd: usize },
    XORI { imm: u32, rs1: usize, rd: usize },
    SLLI { shamt: u32, rs1: usize, rd: usize },
    SRLI { shamt: u32, rs1: usize, rd: usize },
    SRAI { shamt: u32, rs1: usize, rd: usize },
    LUI { imm: u32, rd: usize },
    AUIPC { imm: u32, rd: usize },
    ADD { rs1: usize, rs2: usize, rd: usize },
    SUB { rs1: usize, rs2: usize, rd: usize },
    SLT { rs1: usize, rs2: usize, rd: usize },
    SLTU { rs1: usize, rs2: usize, rd: usize },
    AND { rs1: usize, rs2: usize, rd: usize },
    OR { rs1: usize, rs2: usize, rd: usize },
    XOR { rs1: usize, rs2: usize, rd: usize },
    SLL { rs1: usize, rs2: usize, rd: usize },
    SRL { rs1: usize, rs2: usize, rd: usize },
    SRA { rs1: usize, rs2: usize, rd: usize },
    JAL { offset: i32, rd: usize },
    JALR { offset: i32, rs1: usize, rd: usize },
    BEQ { offset: i32, rs1: usize, rs2: usize },
    BNE { offset: i32, rs1: usize, rs2: usize },
    BLT { offset: i32, rs1: usize, rs2: usize },
    BLTU { offset: i32, rs1: usize, rs2: usize },
    BGE { offset: i32, rs1: usize, rs2: usize },
    BGEU { offset: i32, rs1: usize, rs2: usize },
    LW { offset: i32, rs1: usize, rd: usize },
    LH { offset: i32, rs1: usize, rd: usize },
    LHU { offset: i32, rs1: usize, rd: usize },
    LB { offset: i32, rs1: usize, rd: usize },
    LBU { offset: i32, rs1: usize, rd: usize },
    SW { offset: i32, rs1: usize, rs2: usize },
    SH { offset: i32, rs1: usize, rs2: usize },
    SB { offset: i32, rs1: usize, rs2: usize },
}

/// The I-format immediate `imm` as a signed value.
pub open spec fn i_imm(imm: usize) -> int {
    sign_extend(imm as int, 12)
}

/// The S-format immediate assembled from imm[11:5] and imm[4:0].
pub open spec fn s_imm(imm_11_5: usize, imm_4_0: usize) -> int {
    sign_extend(imm_11_5 * 32 + imm_4_0, 12)
}

/// The B-format offset assembled from its pieces; bit 0 is zero.
pub open spec fn b_imm(imm_12: usize, imm_11: usize, imm_10_5: usize, imm_4_1: usize) -> int {
    sign_extend(imm_12 * 0x1000 + imm_11 * 0x800 + imm_10_5 * 32 + imm_4_1 * 2, 13)
}

/// The J-format offset assembled from its pieces; bit 0 is zero.
pub open spec fn j_imm(imm_20: usize, imm_19_12: usize, imm_11: usize, imm_10_1: usize) -> int {
    sign_extend(imm_20 * 0x10_0000 + imm_19_12 * 0x1000 + imm_11 * 0x800 + imm_10_1 * 2, 21)
}

/// The instruction that the fields `e` select, or `None` where the funct
/// fields name no instruction of the opcode class.
pub open spec fn instruction_of(e: EncodingVariant) -> Option<Instruction> {
    match e {
        EncodingVariant::IType { imm, rs1, funct3, rd, opcode } => {
            let v = i_imm(imm);
            let shamt = (imm % 32) as u32;
            match opcode {
                OPCODE::OPIMM => if funct3 == 0 {
                    Some(Instruction::ADDI { imm: v as i32, rs1, rd })
                } else if funct3 == 2 {
                    Some(Instruction::SLTI { imm: v as i32, rs1, rd })
                } else if funct3 == 3 {
                    Some(Instruction::SLTIU { imm: wrap32(v), rs1, rd })
                } else if funct3 == 4 {
                    Some(Instruction::XORI { imm: wrap32(v), rs1, rd })
                } else if funct3 == 6 {
                    Some(Instruction::ORI { imm: wrap32(v), rs1, rd })
                } else if funct3 == 7 {
                    Some(Instruction::ANDI { imm: wrap32(v), rs1, rd })
                } else if funct3 == 1 && imm / 32 == 0 {
                    Some(Instruction::SLLI { shamt, rs1, rd })
                } else if funct3 == 5 && imm / 32 == 0 {
                    Some(Instruction::SRLI { shamt, rs1, rd })
                } else if funct3 == 5 && imm / 32 == 0b0100000 {
                    Some(Instruction::SRAI { shamt, rs1, rd })
                } else {
                    None
                },
                OPCODE::JALR => if funct3 == 0 {
                    Some(Instruction::JALR { offset: v as i32, rs1, rd })
                } else {
                    None
                },
                OPCODE::LOAD => if funct3 == 0 {
                    Some(Instruction::LB { offset: v as i32, rs1, rd })
                } else if funct3 == 1 {
                    Some(Instruction::LH { offset: v as i32, rs1, rd })
                } else if funct3 == 2 {
                    Some(Instruction::LW { offset: v as i32, rs1, rd })
                } else if funct3 == 4 {
                    Some(Instruction::LBU { offset: v as i32, rs1, rd })
                } else if funct3 == 5 {
                    Some(Instruction::LHU { offset: v as i32, rs1, rd })
                } else {
                    None
                },
                _ => None,
            }
        },
        EncodingVariant::UType { imm_31_12, rd, opcode } => {
            let imm = (imm_31_12 * 0x1000) as u32;
            match opcode {
                OPCODE::LUI => Some(Instruction::LUI { imm, rd }),
                OPCODE::AUIPC => Some(Instruction::AUIPC { imm, rd }),
                _ => None,
            }
        },
        EncodingVariant::RType { funct7, rs2, rs1, funct3, rd, opcode } => {
            if opcode != OPCODE::OPRR {
                None
            } else if funct7 == 0 {
                if funct3 == 0 {
                    Some(Instruction::ADD { rs1, rs2, rd })
                } else if funct3 == 1 {
                    Some(Instruction::SLL { rs1, rs2, rd })
                } else if funct3 == 2 {
                    Some(Instruction::SLT { rs1, rs2, rd })
                } else if funct3 == 3 {
                    Some(Instruction::SLTU { rs1, rs2, rd })
                } else if funct3 == 4 {
                    Some(Instruction::XOR { rs1, rs2, rd })
                } else if funct3 == 5 {
                    Some(Instruction::SRL { rs1, rs2, rd })
                } else if funct3 == 6 {
                    Some(Instruction::OR { rs1, rs2, rd })
                } else {
                    Some(Instruction::AND { rs1, rs2, rd })
                }
            } else if funct7 == 0b0100000 && funct3 == 0 {
                Some(Instruction::SUB { rs1, rs2, rd })
            } else if funct7 == 0b0100000 && funct3 == 5 {
                Some(Instruction::SRA { rs1, rs2, rd })
            } else {
                None
            }
        },
        EncodingVariant::JType { imm_20, imm_10_1, imm_11, imm_19_12, rd, opcode } => {
            if opcode == OPCODE::JAL {
                Some(
                    Instruction::JAL {
                        offset: j_imm(imm_20, imm_19_12, imm_11, imm_10_1) as i32,
                        rd,
                    },
                )
            } else {
                None
            }
        },
        EncodingVariant::BType { imm_12, imm_10_5, rs2, rs1, funct3, imm_4_1, imm_11, opcode } => {
            let offset = b_imm(imm_12, imm_11, imm_10_5, imm_4_1) as i32;
            if opcode != OPCODE::BRANCH {
                None
            } else if funct3 == 0 {
                Some(Instruction::BEQ { offset, rs1, rs2 })
            } else if funct3 == 1 {
                Some(Instruction::BNE { offset, rs1, rs2 })
            } else if funct3 == 4 {
                Some(Instruction::BLT { offset, rs1, rs2 })
            } else if funct3 == 5 {
                Some(Instruction::BGE { offset, rs1, rs2 })
            } else if funct3 == 6 {
                Some(Instruction::BLTU { offset, rs1, rs2 })
            } else if funct3 == 7 {
                Some(Instruction::BGEU { offset, rs1, rs2 })
            } else {
                None
            }
        },
        EncodingVariant::SType { imm_11_5, rs2, rs1, funct3, imm_4_0, opcode } => {
            let offset = s_imm(imm_11_5, imm_4_0) as i32;
            if opcode != OPCODE::STORE {
                None
            } else if funct3 == 0 {
                Some(Instruction::SB { offset, rs1, rs2 })
            } else if funct3 == 1 {
                Some(Instruction::SH { offset, rs1, rs2 })
            } else if funct3 == 2 {
                Some(Instruction::SW { offset, rs1, rs2 })
            } else {
                None
            }
        },
    }
}

impl Instruction {
    /// Register indices name one of the 32 registers and shift amounts are below 32.
    pub open spec fn wf(self) -> bool {
        match self {
            Instruction::ADDI { rs1, rd, .. } | Instruction::SLTI { rs1, rd, .. }
            | Instruction::SLTIU { rs1, rd, .. } | Instruction::ANDI { rs1, rd, .. }
            | Instruction::ORI { rs1, rd, .. } | Instruction::XORI { rs1, rd, .. }
            | Instruction::JALR { rs1, rd, .. } | Instruction::LW { rs1, rd, .. }
            | Instruction::LH { rs1, rd, .. } | Instruction::LHU { rs1, rd, .. }
            | Instruction::LB { rs1, rd, .. } | Instruction::LBU { rs1, rd, .. } => rs1 < 32 && rd
                < 32,
            Instruction::SLLI { shamt, rs1, rd } | Instruction::SRLI { shamt, rs1, rd }
            | Instruction::SRAI { shamt, rs1, rd } => shamt < 32 && rs1 < 32 && rd < 32,
            Instruction::LUI { rd, .. } | Instruction::AUIPC { rd, .. } | Instruction::JAL {
                rd,
                ..
            } => rd < 32,
            Instruction::ADD { rs1, rs2, rd } | Instruction::SUB { rs1, rs2, rd }
            | Instruction::SLT { rs1, rs2, rd } | Instruction::SLTU { rs1, rs2, rd }
            | Instruction::AND { rs1, rs2, rd } | Instruction::OR { rs1, rs2, rd }
            | Instruction::XOR { rs1, rs2, rd } | Instruction::SLL { rs1, rs2, rd }
            | Instruction::SRL { rs1, rs2, rd } | Instruction::SRA { rs1, rs2, rd } => rs1 < 32
                && rs2 < 32 && rd < 32,
            Instruction::BEQ { rs1, rs2, .. } | Instruction::BNE { rs1, rs2, .. }
            | Instruction::BLT { rs1, rs2, .. } | Instruction::BLTU { rs1, rs2, .. }
            | Instruction::BGE { rs1, rs2, .. } | Instruction::BGEU { rs1, rs2, .. }
            | Instruction::SW { rs1, rs2, .. } | Instruction::SH { rs1, rs2, .. }
            | Instruction::SB { rs1, rs2, .. } => rs1 < 32 && rs2 < 32,
        }
    }

    /// Resolves the mnemonic that the fields `encoding` select, with its
    /// immediate sign-extended. `None` where the funct fields name no
    /// instruction of the opcode class.
    pub fn parse_instruction(encoding: EncodingVariant) -> (r: Option<Instruction>)
        requires
            encoding.wf(),
        ensures
            r == instruction_of(encoding),
            r matches Some(i) ==> i.wf(),
    {
        proof {
            lemma2_to64();
        }
        match encoding {
            EncodingVariant::IType { imm, rs1, funct3, rd, opcode } => {
                let v: i32 = sign_extend_u32(imm, 12);
                proof {
                    crate::arith::lemma_i32_as_u32(v);
                }
                let u: u32 = v as u32;
                let shamt: u32 = (imm % 32) as u32;
                match opcode {
                    OPCODE::OPIMM => if funct3 == 0 {
                        Some(Instruction::ADDI { imm: v, rs1, rd })
                    } else if funct3 == 2 {
                        Some(Instruction::SLTI { imm: v, rs1, rd })
                    } else if funct3 == 3 {
                        Some(Instruction::SLTIU { imm: u, rs1, rd })
                    } else if funct3 == 4 {
                        Some(Instruction::XORI { imm: u, rs1, rd })
                    } else if funct3 == 6 {
                        Some(Instruction::ORI { imm: u, rs1, rd })
                    } else if funct3 == 7 {
                        Some(Instruction::ANDI { imm: u, rs1, rd })
                    } else if funct3 == 1 && imm / 32 == 0 {
                        Some(Instruction::SLLI { shamt, rs1, rd })
                    } else if funct3 == 5 && imm / 32 == 0 {
                        Some(Instruction::SRLI { shamt, rs1, rd })
                    } else if funct3 == 5 && imm / 32 == 0b0100000 {
                        Some(Instruction::SRAI { shamt, rs1, rd })
                    } else {
                        None
                    },
                    OPCODE::JALR => if funct3 == 0 {
                        Some(Instruction::JALR { offset: v, rs1, rd })
                    } else {
                        None
                    },
                    OPCODE::LOAD => if funct3 == 0 {
                        Some(Instruction::LB { offset: v, rs1, rd })
                    } else if funct3 == 1 {
                        Some(Instruction::LH { offset: v, rs1, rd })
                    } else if funct3 == 2 {
                        Some(Instruction::LW { offset: v, rs1, rd })
                    } else if funct3 == 4 {
                        Some(Instruction::LBU { offset: v, rs1, rd })
                    } else if funct3 == 5 {
                        Some(Instruction::LHU { offset: v, rs1, rd })
                    } else {
                        None
                    },
                    _ => None,
                }
            },
            EncodingVariant::UType { imm_31_12, rd, opcode } => {
                let imm: u32 = (imm_31_12 as u32) * 0x1000;
                match opcode {
                    OPCODE::LUI => Some(Instruction::LUI { imm, rd }),
                    OPCODE::AUIPC => Some(Instruction::AUIPC { imm, rd }),
                    _ => None,
                }
            },
            EncodingVariant::RType { funct7, rs2, rs1, funct3, rd, opcode } => {
                match opcode {
                    OPCODE::OPRR => {},
                    _ => return None,
                }
                if funct7 == 0 {
                    if funct3 == 0 {
                        Some(Instruction::ADD { rs1, rs2, rd })
                    } else if funct3 == 1 {
                        Some(Instruction::SLL { rs1, rs2, rd })
                    } else if funct3 == 2 {
                        Some(Instruction::SLT { rs1, rs2, rd })
                    } else if funct3 == 3 {
                        Some(Instruction::SLTU { rs1, rs2, rd })
                    } else if funct3 == 4 {
                        Some(Instruction::XOR { rs1, rs2, rd })
                    } else if funct3 == 5 {
                        Some(Instruction::SRL { rs1, rs2, rd })
                    } else if funct3 == 6 {
                        Some(Instruction::OR { rs1, rs2, rd })
                    } else {
                        Some(Instruction::AND { rs1, rs2, rd })
                    }
                } else if funct7 == 0b0100000 && funct3 == 0 {
                    Some(Instruction::SUB { rs1, rs2, rd })
                } else if funct7 == 0b0100000 && funct3 == 5 {
                    Some(Instruction::SRA { rs1, rs2, rd })
                } else {
                    None
                }
            },
            EncodingVariant::JType { imm_20, imm_10_1, imm_11, imm_19_12, rd, opcode } => {
                match opcode {
                    OPCODE::JAL => {
                        let raw: usize = imm_20 * 0x10_0000 + imm_19_12 * 0x1000 + imm_11 * 0x800
                            + imm_10_1 * 2;
                        let offset: i32 = sign_extend_u32(raw, 21);
                        Some(Instruction::JAL { offset, rd })
                    },
                    _ => None,
                }
            },
            EncodingVariant::BType {
                imm_12,
                imm_10_5,
                rs2,
                rs1,
                funct3,
                imm_4_1,
                imm_11,
                opcode,
            } => {
                match opcode {
                    OPCODE::BRANCH => {},
                    _ => return None,
                }
                let raw: usize = imm_12 * 0x1000 + imm_11 * 0x800 + imm_10_5 * 32 + imm_4_1 * 2;
                let offset: i32 = sign_extend_u32(raw, 13);
                if funct3 == 0 {
                    Some(Instruction::BEQ { offset, rs1, rs2 })
                } else if funct3 == 1 {
                    Some(Instruction::BNE { offset, rs1, rs2 })
                } else if funct3 == 4 {
                    Some(Instruction::BLT { offset, rs1, rs2 })
                } else if funct3 == 5 {
                    Some(Instruction::BGE { offset, rs1, rs2 })
                } else if funct3 == 6 {
                    Some(Instruction::BLTU { offset, rs1, rs2 })
                } else if funct3 == 7 {
                    Some(Instruction::BGEU { offset, rs1, rs2 })
                } else {
                    None
                }
            },
            EncodingVariant::SType { imm_11_5, rs2, rs1, funct3, imm_4_0, opcode } => {
                match opcode {
                    OPCODE::STORE => {},
                    _ => return None,
                }
                let offset: i32 = sign_extend_u32(imm_11_5 * 32 + imm_4_0, 12);
                if funct3 == 0 {
                    Some(Instruction::SB { offset, rs1, rs2 })
                } else if funct3 == 1 {
                    Some(Instruction::SH { offset, rs1, rs2 })
                } else if funct3 == 2 {
                    Some(Instruction::SW { offset, rs1, rs2 })
                } else {
                    None
                }
            },
        }
    }
}

/// The instruction that the word `w` encodes, if any.
pub open spec fn decoded(w: u32) -> Option<Instruction> {
    match encoding_of(w) {
        Some(e) => instruction_of(e),
        None => None,
    }
}

/// What decoding `w` gives: its instruction, or the fault that stops it.
pub open spec fn decode_result(w: u32) -> Result<Instruction, Fault> {
    match opcode_of(opcode_bits(w) as int) {
        None => Err(Fault::UnknownOpcode { word: w }),
        Some(OPCODE::FENCE) | Some(OPCODE::SYSTEM) => Err(Fault::UnsupportedOpcode { word: w }),
        Some(_) => match decoded(w) {
            Some(i) => Ok(i),
            None => Err(Fault::IllegalInstruction { word: w }),
        },
    }
}

/// Decodes the instruction word `word`.
pub fn decode(word: Word) -> (r: Result<Instruction, Fault>)
    ensures
        r == decode_result(word),
        r matches Ok(i) ==> i.wf(),
{
    match OPCODE::get_opcode(word) {
        None => Err(Fault::UnknownOpcode { word }),
        Some(OPCODE::FENCE) | Some(OPCODE::SYSTEM) => Err(Fault::UnsupportedOpcode { word }),
        Some(_) => match EncodingVariant::get_encoding(word) {
            Some(encoding) => match Instruction::parse_instruction(encoding) {
                Some(i) => Ok(i),
                None => Err(Fault::IllegalInstruction { word }),
            },
            None => Err(Fault::IllegalInstruction { word }),
        },
    }
}

/// Whether the opcode and funct fields of `w` are a row of the RV32I table of
/// implemented instructions.
pub open spec fn recognized(w: u32) -> bool {
    let op = opcode_bits(w);
    let f3 = funct3_bits(w);
    let f7 = funct7_bits(w);
    ||| op == 0b0010011 && (f3 == 0 || f3 == 2 || f3 == 3 || f3 == 4 || f3 == 6 || f3 == 7 || (f3
        == 1 && f7 == 0) || (f3 == 5 && (f7 == 0 || f7 == 0b0100000)))
    ||| op == 0b0110111 || op == 0b0010111 || op == 0b1101111
    ||| op == 0b0110011 && (f7 == 0 || (f7 == 0b0100000 && (f3 == 0 || f3 == 5)))
    ||| op == 0b1100111 && f3 == 0
    ||| op == 0b1100011 && f3 != 2 && f3 != 3
    ||| op == 0b0000011 && (f3 == 0 || f3 == 1 || f3 == 2 || f3 == 4 || f3 == 5)
    ||| op == 0b0100011 && (f3 == 0 || f3 == 1 || f3 == 2)
}

/// A word decodes to an instruction exactly when its opcode and funct fields
/// are a row of the table; the instruction is then a single value fixed by
/// the word, and its register and shift fields are in range.
pub proof fn lemma_decode_exactly_recognized(w: u32)
    ensures
        decode_result(w) is Ok <==> recognized(w),
        decoded(w) is Some <==> recognized(w),
        decode_result(w) matches Ok(i) ==> i.wf() && decoded(w) == Some(i),
{
    lemma_field_bounds(w);
    assert(imm12_bits(w) / 32 == funct7_bits(w) && imm12_bits(w) % 32 < 32) by (bit_vector);
}

} // verus!
