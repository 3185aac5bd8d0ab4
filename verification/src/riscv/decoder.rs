//! RISC-V rv32im instruction decoder

use vstd::prelude::*;
use super::instruction::{lemma_register_new_of_index, Instruction, Register};
use crate::svm::little_endian::le_value;

verus! {

// Fields of a 32-bit instruction word.

/// Bits 0..7: the major opcode.
pub open spec fn opcode_of(w: u32) -> u32 {
    w & 0x7f
}

/// Bits 7..12: the destination register.
pub open spec fn rd_of(w: u32) -> u32 {
    (w >> 7) & 0x1f
}

/// Bits 12..15: the minor opcode.
pub open spec fn funct3_of(w: u32) -> u32 {
    (w >> 12) & 0x7
}

/// Bits 15..20: the first source register.
pub open spec fn rs1_of(w: u32) -> u32 {
    (w >> 15) & 0x1f
}

/// Bits 20..25: the second source register (and the shift amount).
pub open spec fn rs2_of(w: u32) -> u32 {
    (w >> 20) & 0x1f
}

/// Bits 25..32: the function code of register-register instructions.
pub open spec fn funct7_of(w: u32) -> u32 {
    (w >> 25) & 0x7f
}

/// The register numbered by a five-bit field.
pub open spec fn reg_of(field: u32) -> Register {
    Register::new(field as u8)
}

/// Reads `v` as a two's-complement number of `bits` bits (`v < 2^bits`).
pub open spec fn sign_extend(v: int, bits: nat) -> int {
    if v >= vstd::arithmetic::power2::pow2((bits - 1) as nat) {
        v - vstd::arithmetic::power2::pow2(bits)
    } else {
        v
    }
}

/// The I-type immediate: bits 20..32, sign-extended from 12 bits.
pub open spec fn i_imm(w: u32) -> int {
    sign_extend(((w >> 20) & 0xfff) as int, 12)
}

/// The S-type immediate: bits 25..32 above bits 7..12, sign-extended from 12 bits.
pub open spec fn s_imm(w: u32) -> int {
    sign_extend(((w >> 25) & 0x7f) * 0x20 + ((w >> 7) & 0x1f), 12)
}

/// The B-type immediate: a 13-bit even offset made of bits 31, 7, 30..25 and 11..8.
pub open spec fn b_imm(w: u32) -> int {
    sign_extend(
        ((w >> 31) & 1) * 0x1000 + ((w >> 7) & 1) * 0x800 + ((w >> 25) & 0x3f) * 0x20 + ((w >> 8)
            & 0xf) * 2,
        13,
    )
}

/// The U-type immediate: bits 12..32 in place, low twelve bits zero, as a signed word.
pub open spec fn u_imm(w: u32) -> int {
    sign_extend((w & 0xfffff000) as int, 32)
}

/// The J-type immediate: a 21-bit even offset made of bits 31, 19..12, 20 and 30..21.
pub open spec fn j_imm(w: u32) -> int {
    sign_extend(
        ((w >> 31) & 1) * 0x100000 + ((w >> 12) & 0xff) * 0x1000 + ((w >> 20) & 1) * 0x800 + ((w
            >> 21) & 0x3ff) * 2,
        21,
    )
}

/// OP: register-register arithmetic, including the M extension.
pub open spec fn decode_op(w: u32) -> Instruction {
    let (rd, rs1, rs2) = (reg_of(rd_of(w)), reg_of(rs1_of(w)), reg_of(rs2_of(w)));
    let (f7, f3) = (funct7_of(w), funct3_of(w));
    if f7 == 0 {
        if f3 == 0 {
            Instruction::Add { rd, rs1, rs2 }
        } else if f3 == 1 {
            Instruction::Sll { rd, rs1, rs2 }
        } else if f3 == 2 {
            Instruction::Slt { rd, rs1, rs2 }
        } else if f3 == 3 {
            Instruction::Sltu { rd, rs1, rs2 }
        } else if f3 == 4 {
            Instruction::Xor { rd, rs1, rs2 }
        } else if f3 == 5 {
            Instruction::Srl { rd, rs1, rs2 }
        } else if f3 == 6 {
            Instruction::Or { rd, rs1, rs2 }
        } else {
            Instruction::And { rd, rs1, rs2 }
        }
    } else if f7 == 0x20 && f3 == 0 {
        Instruction::Sub { rd, rs1, rs2 }
    } else if f7 == 0x20 && f3 == 5 {
        Instruction::Sra { rd, rs1, rs2 }
    } else if f7 == 1 {
        if f3 == 0 {
            Instruction::Mul { rd, rs1, rs2 }
        } else if f3 == 1 {
            Instruction::Mulh { rd, rs1, rs2 }
        } else if f3 == 2 {
            Instruction::Mulhsu { rd, rs1, rs2 }
        } else if f3 == 3 {
            Instruction::Mulhu { rd, rs1, rs2 }
        } else if f3 == 4 {
            Instruction::Div { rd, rs1, rs2 }
        } else if f3 == 5 {
            Instruction::Divu { rd, rs1, rs2 }
        } else if f3 == 6 {
            Instruction::Rem { rd, rs1, rs2 }
        } else {
            Instruction::Remu { rd, rs1, rs2 }
        }
    } else {
        Instruction::Unknown(w)
    }
}

/// OP-IMM: register-immediate arithmetic and shifts.
pub open spec fn decode_op_imm(w: u32) -> Instruction {
    let (rd, rs1, f3) = (reg_of(rd_of(w)), reg_of(rs1_of(w)), funct3_of(w));
    let imm = i_imm(w) as i32;
    let shamt = rs2_of(w);
    if f3 == 0 {
        Instruction::Addi { rd, rs1, imm }
    } else if f3 == 2 {
        Instruction::Slti { rd, rs1, imm }
    } else if f3 == 3 {
        Instruction::Sltiu { rd, rs1, imm }
    } else if f3 == 4 {
        Instruction::Xori { rd, rs1, imm }
    } else if f3 == 6 {
        Instruction::Ori { rd, rs1, imm }
    } else if f3 == 7 {
        Instruction::Andi { rd, rs1, imm }
    } else if f3 == 1 && funct7_of(w) == 0 {
        Instruction::Slli { rd, rs1, shamt }
    } else if f3 == 5 && funct7_of(w) == 0 {
        Instruction::Srli { rd, rs1, shamt }
    } else if f3 == 5 && funct7_of(w) == 0x20 {
        Instruction::Srai { rd, rs1, shamt }
    } else {
        Instruction::Unknown(w)
    }
}

/// LOAD
pub open spec fn decode_load_spec(w: u32) -> Instruction {
    let (rd, rs1, f3) = (reg_of(rd_of(w)), reg_of(rs1_of(w)), funct3_of(w));
    let imm = i_imm(w) as i32;
    if f3 == 0 {
        Instruction::Lb { rd, rs1, imm }
    } else if f3 == 1 {
        Instruction::Lh { rd, rs1, imm }
    } else if f3 == 2 {
        Instruction::Lw { rd, rs1, imm }
    } else if f3 == 4 {
        Instruction::Lbu { rd, rs1, imm }
    } else if f3 == 5 {
        Instruction::Lhu { rd, rs1, imm }
    } else {
        Instruction::Unknown(w)
    }
}

/// STORE
pub open spec fn decode_store_spec(w: u32) -> Instruction {
    let (rs1, rs2, f3) = (reg_of(rs1_of(w)), reg_of(rs2_of(w)), funct3_of(w));
    let imm = s_imm(w) as i32;
    if f3 == 0 {
        Instruction::Sb { rs1, rs2, imm }
    } else if f3 == 1 {
        Instruction::Sh { rs1, rs2, imm }
    } else if f3 == 2 {
        Instruction::Sw { rs1, rs2, imm }
    } else {
        Instruction::Unknown(w)
    }
}

/// BRANCH
pub open spec fn decode_branch_spec(w: u32) -> Instruction {
    let (rs1, rs2, f3) = (reg_of(rs1_of(w)), reg_of(rs2_of(w)), funct3_of(w));
    let imm = b_imm(w) as i32;
    if f3 == 0 {
        Instruction::Beq { rs1, rs2, imm }
    } else if f3 == 1 {
        Instruction::Bne { rs1, rs2, imm }
    } else if f3 == 4 {
        Instruction::Blt { rs1, rs2, imm }
    } else if f3 == 5 {
        Instruction::Bge { rs1, rs2, imm }
    } else if f3 == 6 {
        Instruction::Bltu { rs1, rs2, imm }
    } else if f3 == 7 {
        Instruction::Bgeu { rs1, rs2, imm }
    } else {
        Instruction::Unknown(w)
    }
}

/// SYSTEM: environment calls and CSR accesses.
pub open spec fn decode_system_spec(w: u32) -> Instruction {
    let (rd, rs1, f3) = (reg_of(rd_of(w)), reg_of(rs1_of(w)), funct3_of(w));
    let csr = ((w >> 20) & 0xfff) as u16;
    let uimm = rs1_of(w) as u8;
    if f3 == 0 {
        if (w >> 20) & 0xfff == 0 {
            Instruction::Ecall
        } else if (w >> 20) & 0xfff == 1 {
            Instruction::Ebreak
        } else {
            Instruction::Unknown(w)
        }
    } else if f3 == 1 {
        Instruction::Csrrw { rd, rs1, csr }
    } else if f3 == 2 {
        Instruction::Csrrs { rd, rs1, csr }
    } else if f3 == 3 {
        Instruction::Csrrc { rd, rs1, csr }
    } else if f3 == 5 {
        Instruction::Csrrwi { rd, uimm, csr }
    } else if f3 == 6 {
        Instruction::Csrrsi { rd, uimm, csr }
    } else if f3 == 7 {
        Instruction::Csrrci { rd, uimm, csr }
    } else {
        Instruction::Unknown(w)
    }
}

/// The instruction that the word `w` encodes, by the rv32im base encoding;
/// `Unknown(w)` for a word that encodes none.
pub open spec fn decode_spec(w: u32) -> Instruction {
    let op = opcode_of(w);
    let rd = reg_of(rd_of(w));
    if op == 0x33 {
        decode_op(w)
    } else if op == 0x13 {
        decode_op_imm(w)
    } else if op == 0x03 {
        decode_load_spec(w)
    } else if op == 0x23 {
        decode_store_spec(w)
    } else if op == 0x63 {
        decode_branch_spec(w)
    } else if op == 0x6f {
        Instruction::Jal { rd, imm: j_imm(w) as i32 }
    } else if op == 0x67 {
        if funct3_of(w) == 0 {
            Instruction::Jalr { rd, rs1: reg_of(rs1_of(w)), imm: i_imm(w) as i32 }
        } else {
            Instruction::Unknown(w)
        }
    } else if op == 0x37 {
        Instruction::Lui { rd, imm: u_imm(w) as i32 }
    } else if op == 0x17 {
        Instruction::Auipc { rd, imm: u_imm(w) as i32 }
    } else if op == 0x73 {
        decode_system_spec(w)
    } else if op == 0x0f {
        if funct3_of(w) == 0 {
            Instruction::Fence { pred: ((w >> 24) & 0xf) as u8, succ: ((w >> 20) & 0xf) as u8 }
        } else if funct3_of(w) == 1 {
            Instruction::FenceI
        } else {
            Instruction::Unknown(w)
        }
    } else {
        Instruction::Unknown(w)
    }
}

/// What every decoded instruction satisfies: immediates lie in the range their
/// encoding can hold, branch and jump offsets are even, upper immediates have
/// their low twelve bits clear, and small fields fit their bit widths.
pub open spec fn encodable(inst: Instruction) -> bool {
    match inst {
        Instruction::Addi { imm, .. }
        | Instruction::Xori { imm, .. }
        | Instruction::Ori { imm, .. }
        | Instruction::Andi { imm, .. }
        | Instruction::Slti { imm, .. }
        | Instruction::Sltiu { imm, .. }
        | Instruction::Lb { imm, .. }
        | Instruction::Lh { imm, .. }
        | Instruction::Lw { imm, .. }
        | Instruction::Lbu { imm, .. }
        | Instruction::Lhu { imm, .. }
        | Instruction::Sb { imm, .. }
        | Instruction::Sh { imm, .. }
        | Instruction::Sw { imm, .. }
        | Instruction::Jalr { imm, .. } => -2048 <= imm <= 2047,
        Instruction::Slli { shamt, .. }
        | Instruction::Srli { shamt, .. }
        | Instruction::Srai { shamt, .. } => shamt < 32,
        Instruction::Beq { imm, .. }
        | Instruction::Bne { imm, .. }
        | Instruction::Blt { imm, .. }
        | Instruction::Bge { imm, .. }
        | Instruction::Bltu { imm, .. }
        | Instruction::Bgeu { imm, .. } => -4096 <= imm <= 4094 && imm % 2 == 0,
        Instruction::Jal { imm, .. } => -0x100000 <= imm <= 0xffffe && imm % 2 == 0,
        Instruction::Lui { imm, .. } | Instruction::Auipc { imm, .. } => imm % 4096 == 0,
        Instruction::Fence { pred, succ } => pred < 16 && succ < 16,
        Instruction::Csrrw { csr, .. }
        | Instruction::Csrrs { csr, .. }
        | Instruction::Csrrc { csr, .. } => csr < 4096,
        Instruction::Csrrwi { csr, uimm, .. }
        | Instruction::Csrrsi { csr, uimm, .. }
        | Instruction::Csrrci { csr, uimm, .. } => csr < 4096 && uimm < 32,
        _ => true,
    }
}

/// The word with the major opcode `op` in bits 0..7, `rd` in bits 7..12, `f3` in
/// bits 12..15, `rs1` in bits 15..20 and `top` in bits 20..32.
pub open spec fn word_of(op: u32, rd: u32, f3: u32, rs1: u32, top: u32) -> u32 {
    op | (rd << 7u32) | (f3 << 12u32) | (rs1 << 15u32) | (top << 20u32)
}

/// An R-type word of the OP major opcode (0x33): `f7` above `rs2` in the top bits.
pub open spec fn r_word(f7: u32, f3: u32, rd: Register, rs1: Register, rs2: Register) -> u32 {
    word_of(0x33, rd.index() as u32, f3, rs1.index() as u32, (f7 * 32 + rs2.index()) as u32)
}

/// An I-type word: the 12-bit immediate, two's complement, in the top bits.
pub open spec fn i_word(op: u32, f3: u32, rd: Register, rs1: Register, imm: int) -> u32 {
    word_of(op, rd.index() as u32, f3, rs1.index() as u32, (imm % 4096) as u32)
}

/// An S-type word (STORE, 0x23): immediate bits 11..5 above `rs2` in the top bits,
/// bits 4..0 where `rd` would be.
pub open spec fn s_word(f3: u32, rs1: Register, rs2: Register, imm: int) -> u32 {
    let u = imm % 4096;
    word_of(0x23, (u % 32) as u32, f3, rs1.index() as u32, ((u / 32) * 32 + rs2.index()) as u32)
}

/// A B-type word (BRANCH, 0x63) for an even 13-bit offset: offset bit 12 in bit
/// 31, bits 10..5 in bits 30..25, bits 4..1 in bits 11..8 and bit 11 in bit 7.
pub open spec fn b_word(f3: u32, rs1: Register, rs2: Register, imm: int) -> u32 {
    let u = imm % 8192;
    word_of(
        0x63,
        (((u / 2) % 16) * 2 + (u / 2048) % 2) as u32,
        f3,
        rs1.index() as u32,
        ((u / 4096) * 2048 + ((u / 32) % 64) * 32 + rs2.index()) as u32,
    )
}

/// A J-type word (JAL, 0x6f) for an even 21-bit offset: offset bit 20 in bit 31,
/// bits 10..1 in bits 30..21, bit 11 in bit 20 and bits 19..12 in bits 19..12.
pub open spec fn j_word(rd: Register, imm: int) -> u32 {
    let u = imm % 0x20_0000;
    word_of(
        0x6f,
        rd.index() as u32,
        ((u / 4096) % 8) as u32,
        ((u / 32768) % 32) as u32,
        ((u / 0x10_0000) * 2048 + ((u / 2) % 1024) * 2 + (u / 2048) % 2) as u32,
    )
}

/// A U-type word: the upper 20 bits of the immediate in bits 12..32.
pub open spec fn u_word(op: u32, rd: Register, imm: int) -> u32 {
    let u = imm % 0x1_0000_0000;
    word_of(op, rd.index() as u32, ((u / 4096) % 8) as u32, ((u / 32768) % 32) as u32, (u / 0x10_0000) as u32)
}

/// The standard rv32im encoding of an instruction, by the base formats (R, I, S,
/// B, U, J) and the opcode and function codes of the instruction set's tables.
pub open spec fn encoding(inst: Instruction) -> u32 {
    match inst {
        Instruction::Add { rd, rs1, rs2 } => r_word(0, 0, rd, rs1, rs2),
        Instruction::Sll { rd, rs1, rs2 } => r_word(0, 1, rd, rs1, rs2),
        Instruction::Slt { rd, rs1, rs2 } => r_word(0, 2, rd, rs1, rs2),
        Instruction::Sltu { rd, rs1, rs2 } => r_word(0, 3, rd, rs1, rs2),
        Instruction::Xor { rd, rs1, rs2 } => r_word(0, 4, rd, rs1, rs2),
        Instruction::Srl { rd, rs1, rs2 } => r_word(0, 5, rd, rs1, rs2),
        Instruction::Or { rd, rs1, rs2 } => r_word(0, 6, rd, rs1, rs2),
        Instruction::And { rd, rs1, rs2 } => r_word(0, 7, rd, rs1, rs2),
        Instruction::Sub { rd, rs1, rs2 } => r_word(32, 0, rd, rs1, rs2),
        Instruction::Sra { rd, rs1, rs2 } => r_word(32, 5, rd, rs1, rs2),
        Instruction::Mul { rd, rs1, rs2 } => r_word(1, 0, rd, rs1, rs2),
        Instruction::Mulh { rd, rs1, rs2 } => r_word(1, 1, rd, rs1, rs2),
        Instruction::Mulhsu { rd, rs1, rs2 } => r_word(1, 2, rd, rs1, rs2),
        Instruction::Mulhu { rd, rs1, rs2 } => r_word(1, 3, rd, rs1, rs2),
        Instruction::Div { rd, rs1, rs2 } => r_word(1, 4, rd, rs1, rs2),
        Instruction::Divu { rd, rs1, rs2 } => r_word(1, 5, rd, rs1, rs2),
        Instruction::Rem { rd, rs1, rs2 } => r_word(1, 6, rd, rs1, rs2),
        Instruction::Remu { rd, rs1, rs2 } => r_word(1, 7, rd, rs1, rs2),
        Instruction::Addi { rd, rs1, imm } => i_word(0x13, 0, rd, rs1, imm as int),
        Instruction::Slti { rd, rs1, imm } => i_word(0x13, 2, rd, rs1, imm as int),
        Instruction::Sltiu { rd, rs1, imm } => i_word(0x13, 3, rd, rs1, imm as int),
        Instruction::Xori { rd, rs1, imm } => i_word(0x13, 4, rd, rs1, imm as int),
        Instruction::Ori { rd, rs1, imm } => i_word(0x13, 6, rd, rs1, imm as int),
        Instruction::Andi { rd, rs1, imm } => i_word(0x13, 7, rd, rs1, imm as int),
        Instruction::Slli { rd, rs1, shamt } => word_of(0x13, rd.index() as u32, 1, rs1.index() as u32, shamt),
        Instruction::Srli { rd, rs1, shamt } => word_of(0x13, rd.index() as u32, 5, rs1.index() as u32, shamt),
        Instruction::Srai { rd, rs1, shamt } => word_of(0x13, rd.index() as u32, 5, rs1.index() as u32, (0x400 + shamt) as u32),
        Instruction::Lb { rd, rs1, imm } => i_word(0x03, 0, rd, rs1, imm as int),
        Instruction::Lh { rd, rs1, imm } => i_word(0x03, 1, rd, rs1, imm as int),
        Instruction::Lw { rd, rs1, imm } => i_word(0x03, 2, rd, rs1, imm as int),
        Instruction::Lbu { rd, rs1, imm } => i_word(0x03, 4, rd, rs1, imm as int),
        Instruction::Lhu { rd, rs1, imm } => i_word(0x03, 5, rd, rs1, imm as int),
        Instruction::Sb { rs1, rs2, imm } => s_word(0, rs1, rs2, imm as int),
        Instruction::Sh { rs1, rs2, imm } => s_word(1, rs1, rs2, imm as int),
        Instruction::Sw { rs1, rs2, imm } => s_word(2, rs1, rs2, imm as int),
        Instruction::Beq { rs1, rs2, imm } => b_word(0, rs1, rs2, imm as int),
        Instruction::Bne { rs1, rs2, imm } => b_word(1, rs1, rs2, imm as int),
        Instruction::Blt { rs1, rs2, imm } => b_word(4, rs1, rs2, imm as int),
        Instruction::Bge { rs1, rs2, imm } => b_word(5, rs1, rs2, imm as int),
        Instruction::Bltu { rs1, rs2, imm } => b_word(6, rs1, rs2, imm as int),
        Instruction::Bgeu { rs1, rs2, imm } => b_word(7, rs1, rs2, imm as int),
        Instruction::Jal { rd, imm } => j_word(rd, imm as int),
        Instruction::Jalr { rd, rs1, imm } => i_word(0x67, 0, rd, rs1, imm as int),
        Instruction::Lui { rd, imm } => u_word(0x37, rd, imm as int),
        Instruction::Auipc { rd, imm } => u_word(0x17, rd, imm as int),
        Instruction::Ecall => word_of(0x73, 0, 0, 0, 0),
        Instruction::Ebreak => word_of(0x73, 0, 0, 0, 1),
        Instruction::Csrrw { rd, rs1, csr } => word_of(0x73, rd.index() as u32, 1, rs1.index() as u32, csr as u32),
        Instruction::Csrrs { rd, rs1, csr } => word_of(0x73, rd.index() as u32, 2, rs1.index() as u32, csr as u32),
        Instruction::Csrrc { rd, rs1, csr } => word_of(0x73, rd.index() as u32, 3, rs1.index() as u32, csr as u32),
        Instruction::Csrrwi { rd, uimm, csr } => word_of(0x73, rd.index() as u32, 5, uimm as u32, csr as u32),
        Instruction::Csrrsi { rd, uimm, csr } => word_of(0x73, rd.index() as u32, 6, uimm as u32, csr as u32),
        Instruction::Csrrci { rd, uimm, csr } => word_of(0x73, rd.index() as u32, 7, uimm as u32, csr as u32),
        Instruction::Fence { pred, succ } => word_of(0x0f, 0, 0, 0, (pred * 16 + succ) as u32),
        Instruction::FenceI => word_of(0x0f, 0, 1, 0, 0),
        Instruction::Unknown(w) => w,
    }
}

/// Reading the fields back out of a word built by `word_of`.
proof fn lemma_word_fields(op: u32, rd: u32, f3: u32, rs1: u32, top: u32)
    by (bit_vector)
    requires
        op < 128,
        rd < 32,
        f3 < 8,
        rs1 < 32,
        top < 4096,
    ensures
        word_of(op, rd, f3, rs1, top) & 0x7f == op,
        (word_of(op, rd, f3, rs1, top) >> 7u32) & 0x1f == rd,
        (word_of(op, rd, f3, rs1, top) >> 12u32) & 0x7 == f3,
        (word_of(op, rd, f3, rs1, top) >> 15u32) & 0x1f == rs1,
        (word_of(op, rd, f3, rs1, top) >> 20u32) & 0x1f == top % 32,
        (word_of(op, rd, f3, rs1, top) >> 25u32) & 0x7f == top / 32,
        (word_of(op, rd, f3, rs1, top) >> 20u32) & 0xfff == top,
        (word_of(op, rd, f3, rs1, top) >> 24u32) & 0xf == (top / 16) % 16,
        (word_of(op, rd, f3, rs1, top) >> 20u32) & 0xf == top % 16,
        (word_of(op, rd, f3, rs1, top) >> 31u32) & 1 == top / 2048,
        (word_of(op, rd, f3, rs1, top) >> 7u32) & 1 == rd % 2,
        (word_of(op, rd, f3, rs1, top) >> 8u32) & 0xf == rd / 2,
        (word_of(op, rd, f3, rs1, top) >> 25u32) & 0x3f == (top / 32) % 64,
        (word_of(op, rd, f3, rs1, top) >> 12u32) & 0xff == f3 + rs1 * 8,
        (word_of(op, rd, f3, rs1, top) >> 20u32) & 1 == top % 2,
        (word_of(op, rd, f3, rs1, top) >> 21u32) & 0x3ff == (top / 2) % 1024,
        word_of(op, rd, f3, rs1, top) & 0xfffff000 == f3 * 4096 + rs1 * 32768 + top * 1048576,
{
}

/// The register fields of an encoded word name the registers encoded.
proof fn lemma_register_fields(rd: Register, rs1: Register, rs2: Register)
    ensures
        reg_of(rd.index() as u32) == rd,
        reg_of(rs1.index() as u32) == rs1,
        reg_of(rs2.index() as u32) == rs2,
        rd.index() < 32 && rs1.index() < 32 && rs2.index() < 32,
{
    lemma_register_new_of_index(rd);
    lemma_register_new_of_index(rs1);
    lemma_register_new_of_index(rs2);
}

/// The fields of an R-type word.
proof fn lemma_r_fields(f7: u32, f3: u32, rd: Register, rs1: Register, rs2: Register)
    requires
        f7 < 128,
        f3 < 8,
    ensures
        ({
            let w = r_word(f7, f3, rd, rs1, rs2);
            &&& opcode_of(w) == 0x33
            &&& funct7_of(w) == f7
            &&& funct3_of(w) == f3
            &&& reg_of(rd_of(w)) == rd
            &&& reg_of(rs1_of(w)) == rs1
            &&& reg_of(rs2_of(w)) == rs2
        }),
{
    lemma_register_fields(rd, rs1, rs2);
    lemma_word_fields(0x33, rd.index() as u32, f3, rs1.index() as u32, (f7 * 32 + rs2.index()) as u32);
}

/// The fields of an I-type word, and its immediate.
proof fn lemma_i_fields(op: u32, f3: u32, rd: Register, rs1: Register, imm: int)
    requires
        op < 128,
        f3 < 8,
        -2048 <= imm <= 2047,
    ensures
        ({
            let w = i_word(op, f3, rd, rs1, imm);
            &&& opcode_of(w) == op
            &&& funct3_of(w) == f3
            &&& reg_of(rd_of(w)) == rd
            &&& reg_of(rs1_of(w)) == rs1
            &&& i_imm(w) == imm
        }),
{
    vstd::arithmetic::power2::lemma2_to64();
    lemma_register_fields(rd, rs1, rs1);
    lemma_word_fields(op, rd.index() as u32, f3, rs1.index() as u32, (imm % 4096) as u32);
}

/// The fields of an S-type word, and its immediate.
proof fn lemma_s_fields(f3: u32, rs1: Register, rs2: Register, imm: int)
    requires
        f3 < 8,
        -2048 <= imm <= 2047,
    ensures
        ({
            let w = s_word(f3, rs1, rs2, imm);
            &&& opcode_of(w) == 0x23
            &&& funct3_of(w) == f3
            &&& reg_of(rs1_of(w)) == rs1
            &&& reg_of(rs2_of(w)) == rs2
            &&& s_imm(w) == imm
        }),
{
    vstd::arithmetic::power2::lemma2_to64();
    lemma_register_fields(rs1, rs1, rs2);
    let u = imm % 4096;
    lemma_word_fields(0x23, (u % 32) as u32, f3, rs1.index() as u32, ((u / 32) * 32 + rs2.index()) as u32);
}

/// A 13-bit even number from its bit groups: bit 12, bit 11, bits 10..5, bits 4..1.
proof fn lemma_b_digits(u: int)
    requires
        0 <= u < 8192,
        u % 2 == 0,
    ensures
        u == (u / 4096) * 4096 + ((u / 2048) % 2) * 2048 + ((u / 32) % 64) * 32 + ((u / 2) % 16) * 2,
        0 <= ((u / 32) % 64) * 32 < 2048,
        0 <= (u / 4096) < 2,
        0 <= ((u / 2) % 16) * 2 + (u / 2048) % 2 < 32,
{
    assert(u == (u / 4096) * 4096 + ((u / 2048) % 2) * 2048 + ((u / 32) % 64) * 32 + ((u / 2) % 16) * 2) by (nonlinear_arith)
        requires
            0 <= u < 8192,
            u % 2 == 0,
    ;
}

/// The digits of a number in a mixed radix: `hi` above a six-bit `mid` above a
/// five-bit `lo`.
proof fn lemma_top_digits(x: int, hi: int, mid: int, lo: int)
    requires
        x == hi * 2048 + mid * 32 + lo,
        0 <= hi,
        0 <= mid < 64,
        0 <= lo < 32,
    ensures
        x / 2048 == hi,
        (x / 32) % 64 == mid,
        x % 32 == lo,
{
    assert(x / 2048 == hi && (x / 32) % 64 == mid && x % 32 == lo) by (nonlinear_arith)
        requires
            x == hi * 2048 + mid * 32 + lo,
            0 <= hi,
            0 <= mid < 64,
            0 <= lo < 32,
    ;
}

/// A 21-bit even number from its bit groups: bit 20, bits 19..12, bit 11, bits
/// 10..1.
proof fn lemma_j_digits(u: int)
    requires
        0 <= u < 0x20_0000,
        u % 2 == 0,
    ensures
        u == (u / 0x10_0000) * 0x10_0000 + ((u / 4096) % 256) * 4096 + ((u / 2048) % 2) * 2048 + ((u / 2) % 1024) * 2,
        (u / 4096) % 256 == (u / 4096) % 8 + ((u / 32768) % 32) * 8,
        0 <= u / 0x10_0000 < 2,
{
    assert(u == (u / 0x10_0000) * 0x10_0000 + ((u / 4096) % 256) * 4096 + ((u / 2048) % 2) * 2048 + ((u / 2) % 1024) * 2
        && (u / 4096) % 256 == (u / 4096) % 8 + ((u / 32768) % 32) * 8) by (nonlinear_arith)
        requires
            0 <= u < 0x20_0000,
            u % 2 == 0,
    ;
}

/// The fields of a B-type word, and its offset.
#[verifier::spinoff_prover]
#[verifier::rlimit(40)]
proof fn lemma_b_fields(f3: u32, rs1: Register, rs2: Register, imm: int)
    requires
        f3 < 8,
        -4096 <= imm <= 4094,
        imm % 2 == 0,
    ensures
        ({
            let w = b_word(f3, rs1, rs2, imm);
            &&& opcode_of(w) == 0x63
            &&& funct3_of(w) == f3
            &&& reg_of(rs1_of(w)) == rs1
            &&& reg_of(rs2_of(w)) == rs2
            &&& b_imm(w) == imm
        }),
{
    vstd::arithmetic::power2::lemma2_to64();
    lemma_register_fields(rs1, rs1, rs2);
    let u = imm % 8192;
    assert(u == if imm >= 0 { imm } else { imm + 8192 });
    lemma_b_digits(u);
    let a = u / 4096;
    let b = (u / 2048) % 2;
    let c = (u / 32) % 64;
    let d = (u / 2) % 16;
    let rdf = d * 2 + b;
    let top = a * 2048 + c * 32 + rs2.index();
    lemma_top_digits(top, a, c, rs2.index() as int);
    assert(rdf % 2 == b && rdf / 2 == d);
    lemma_word_fields(0x63, rdf as u32, f3, rs1.index() as u32, top as u32);
    let w = b_word(f3, rs1, rs2, imm);
    assert(((w >> 31u32) & 1) * 0x1000 + ((w >> 7u32) & 1) * 0x800 + ((w >> 25u32) & 0x3f) * 0x20 + ((w >> 8u32) & 0xf) * 2 == u);
}

/// The fields of a J-type word, and its offset.
#[verifier::spinoff_prover]
#[verifier::rlimit(40)]
proof fn lemma_j_fields(rd: Register, imm: int)
    requires
        -0x100000 <= imm <= 0xffffe,
        imm % 2 == 0,
    ensures
        ({
            let w = j_word(rd, imm);
            &&& opcode_of(w) == 0x6f
            &&& reg_of(rd_of(w)) == rd
            &&& j_imm(w) == imm
        }),
{
    vstd::arithmetic::power2::lemma2_to64();
    lemma_register_fields(rd, rd, rd);
    let u = imm % 0x20_0000;
    assert(u == if imm >= 0 { imm } else { imm + 0x20_0000 });
    lemma_j_digits(u);
    let a = u / 0x10_0000;
    let c = (u / 2) % 1024;
    let b = (u / 2048) % 2;
    let top = a * 2048 + c * 2 + b;
    assert(top / 2048 == a && (top / 2) % 1024 == c && top % 2 == b && top < 4096) by (nonlinear_arith)
        requires
            top == a * 2048 + c * 2 + b,
            0 <= a < 2,
            0 <= c < 1024,
            0 <= b < 2,
    ;
    lemma_word_fields(0x6f, rd.index() as u32, ((u / 4096) % 8) as u32, ((u / 32768) % 32) as u32, top as u32);
    let w = j_word(rd, imm);
    assert(((w >> 31u32) & 1) * 0x100000 + ((w >> 12u32) & 0xff) * 0x1000 + ((w >> 20u32) & 1) * 0x800 + ((w >> 21u32) & 0x3ff) * 2 == u);
}

/// The fields of a U-type word, and its immediate.
#[verifier::spinoff_prover]
#[verifier::rlimit(40)]
proof fn lemma_u_fields(op: u32, rd: Register, imm: int)
    requires
        op < 128,
        -0x8000_0000 <= imm <= 0x7fff_ffff,
        imm % 4096 == 0,
    ensures
        ({
            let w = u_word(op, rd, imm);
            &&& opcode_of(w) == op
            &&& reg_of(rd_of(w)) == rd
            &&& u_imm(w) == imm
        }),
{
    vstd::arithmetic::power2::lemma2_to64();
    lemma_register_fields(rd, rd, rd);
    let u = imm % 0x1_0000_0000;
    assert(u == if imm >= 0 { imm } else { imm + 0x1_0000_0000 });
    assert(((u / 4096) % 8) * 4096 + ((u / 32768) % 32) * 32768 + (u / 0x10_0000) * 1048576 == u
        && u / 0x10_0000 < 4096) by (nonlinear_arith)
        requires
            0 <= u < 0x1_0000_0000,
            u % 4096 == 0,
    ;
    lemma_word_fields(op, rd.index() as u32, ((u / 4096) % 8) as u32, ((u / 32768) % 32) as u32, (u / 0x10_0000) as u32);
}

/// The encoding format group of an instruction: 0, 5 and 6 for the
/// register-register base, `SUB`/`SRA` and M-extension operations, 1 for the
/// I-type formats, 2 for stores and branches, 3 for the rest, 4 for unknown words.
pub open spec fn format_group(inst: Instruction) -> nat {
    match inst {
        Instruction::Add { .. } | Instruction::Sll { .. } | Instruction::Slt { .. } | Instruction::Sltu { .. } | Instruction::Xor { .. } | Instruction::Srl { .. } | Instruction::Or { .. } | Instruction::And { .. } => 0,
        Instruction::Sub { .. } | Instruction::Sra { .. } => 5,
        Instruction::Mul { .. } | Instruction::Mulh { .. } | Instruction::Mulhsu { .. } | Instruction::Mulhu { .. } | Instruction::Div { .. } | Instruction::Divu { .. } | Instruction::Rem { .. } | Instruction::Remu { .. } => 6,
        Instruction::Addi { .. } | Instruction::Slti { .. } | Instruction::Sltiu { .. } | Instruction::Xori { .. } | Instruction::Ori { .. } | Instruction::Andi { .. } | Instruction::Lb { .. } | Instruction::Lh { .. } | Instruction::Lw { .. } | Instruction::Lbu { .. } | Instruction::Lhu { .. } | Instruction::Jalr { .. } | Instruction::Slli { .. } | Instruction::Srli { .. } | Instruction::Srai { .. } => 1,
        Instruction::Sb { .. } | Instruction::Sh { .. } | Instruction::Sw { .. } | Instruction::Beq { .. } | Instruction::Bne { .. } | Instruction::Blt { .. } | Instruction::Bge { .. } | Instruction::Bltu { .. } | Instruction::Bgeu { .. } => 2,
        Instruction::Jal { .. } | Instruction::Lui { .. } | Instruction::Auipc { .. } | Instruction::Csrrw { .. } | Instruction::Csrrs { .. } | Instruction::Csrrc { .. } | Instruction::Csrrwi { .. } | Instruction::Csrrsi { .. } | Instruction::Csrrci { .. } | Instruction::Ecall | Instruction::Ebreak | Instruction::Fence { .. } | Instruction::FenceI => 3,
        Instruction::Unknown(_) => 4,
    }
}

/// Decoding gives back each base register-register instruction from its encoding.
#[verifier::spinoff_prover]
#[verifier::rlimit(100)]
proof fn lemma_decode_encoding_0(inst: Instruction)
    requires
        encodable(inst),
        format_group(inst) == 0,
    ensures
        decode_spec(encoding(inst)) == inst,
{
    match inst {
        Instruction::Add { rd, rs1, rs2 } => lemma_r_fields(0, 0, rd, rs1, rs2),
        Instruction::Sll { rd, rs1, rs2 } => lemma_r_fields(0, 1, rd, rs1, rs2),
        Instruction::Slt { rd, rs1, rs2 } => lemma_r_fields(0, 2, rd, rs1, rs2),
        Instruction::Sltu { rd, rs1, rs2 } => lemma_r_fields(0, 3, rd, rs1, rs2),
        Instruction::Xor { rd, rs1, rs2 } => lemma_r_fields(0, 4, rd, rs1, rs2),
        Instruction::Srl { rd, rs1, rs2 } => lemma_r_fields(0, 5, rd, rs1, rs2),
        Instruction::Or { rd, rs1, rs2 } => lemma_r_fields(0, 6, rd, rs1, rs2),
        Instruction::And { rd, rs1, rs2 } => lemma_r_fields(0, 7, rd, rs1, rs2),
        _ => {},
    }
}

/// Decoding gives back each SUB and SRA instruction from its encoding.
#[verifier::spinoff_prover]
#[verifier::rlimit(100)]
proof fn lemma_decode_encoding_5(inst: Instruction)
    requires
        encodable(inst),
        format_group(inst) == 5,
    ensures
        decode_spec(encoding(inst)) == inst,
{
    match inst {
        Instruction::Sub { rd, rs1, rs2 } => lemma_r_fields(32, 0, rd, rs1, rs2),
        Instruction::Sra { rd, rs1, rs2 } => lemma_r_fields(32, 5, rd, rs1, rs2),
        _ => {},
    }
}

/// Decoding gives back each M-extension instruction from its encoding.
#[verifier::spinoff_prover]
#[verifier::rlimit(100)]
proof fn lemma_decode_encoding_6(inst: Instruction)
    requires
        encodable(inst),
        format_group(inst) == 6,
    ensures
        decode_spec(encoding(inst)) == inst,
{
    match inst {
        Instruction::Mul { rd, rs1, rs2 } => lemma_r_fields(1, 0, rd, rs1, rs2),
        Instruction::Mulh { rd, rs1, rs2 } => lemma_r_fields(1, 1, rd, rs1, rs2),
        Instruction::Mulhsu { rd, rs1, rs2 } => lemma_r_fields(1, 2, rd, rs1, rs2),
        Instruction::Mulhu { rd, rs1, rs2 } => lemma_r_fields(1, 3, rd, rs1, rs2),
        Instruction::Div { rd, rs1, rs2 } => lemma_r_fields(1, 4, rd, rs1, rs2),
        Instruction::Divu { rd, rs1, rs2 } => lemma_r_fields(1, 5, rd, rs1, rs2),
        Instruction::Rem { rd, rs1, rs2 } => lemma_r_fields(1, 6, rd, rs1, rs2),
        Instruction::Remu { rd, rs1, rs2 } => lemma_r_fields(1, 7, rd, rs1, rs2),
        _ => {},
    }
}

/// Decoding gives back each immediate, shift, load and JALR instruction from its encoding.
#[verifier::spinoff_prover]
#[verifier::rlimit(100)]
proof fn lemma_decode_encoding_1(inst: Instruction)
    requires
        encodable(inst),
        format_group(inst) == 1,
    ensures
        decode_spec(encoding(inst)) == inst,
{
    match inst {
        Instruction::Addi { rd, rs1, imm } => lemma_i_fields(0x13, 0, rd, rs1, imm as int),
        Instruction::Slti { rd, rs1, imm } => lemma_i_fields(0x13, 2, rd, rs1, imm as int),
        Instruction::Sltiu { rd, rs1, imm } => lemma_i_fields(0x13, 3, rd, rs1, imm as int),
        Instruction::Xori { rd, rs1, imm } => lemma_i_fields(0x13, 4, rd, rs1, imm as int),
        Instruction::Ori { rd, rs1, imm } => lemma_i_fields(0x13, 6, rd, rs1, imm as int),
        Instruction::Andi { rd, rs1, imm } => lemma_i_fields(0x13, 7, rd, rs1, imm as int),
        Instruction::Lb { rd, rs1, imm } => lemma_i_fields(0x03, 0, rd, rs1, imm as int),
        Instruction::Lh { rd, rs1, imm } => lemma_i_fields(0x03, 1, rd, rs1, imm as int),
        Instruction::Lw { rd, rs1, imm } => lemma_i_fields(0x03, 2, rd, rs1, imm as int),
        Instruction::Lbu { rd, rs1, imm } => lemma_i_fields(0x03, 4, rd, rs1, imm as int),
        Instruction::Lhu { rd, rs1, imm } => lemma_i_fields(0x03, 5, rd, rs1, imm as int),
        Instruction::Jalr { rd, rs1, imm } => lemma_i_fields(0x67, 0, rd, rs1, imm as int),
        Instruction::Slli { rd, rs1, shamt } | Instruction::Srli { rd, rs1, shamt } => {
            lemma_register_fields(rd, rs1, rs1);
            let f3: u32 = if inst is Slli { 1 } else { 5 };
            lemma_word_fields(0x13, rd.index() as u32, f3, rs1.index() as u32, shamt);
        },
        Instruction::Srai { rd, rs1, shamt } => {
            lemma_register_fields(rd, rs1, rs1);
            lemma_word_fields(0x13, rd.index() as u32, 5, rs1.index() as u32, (0x400 + shamt) as u32);
        },
        _ => {},
    }
}

/// Decoding gives back each store and branch instruction from its encoding.
#[verifier::spinoff_prover]
#[verifier::rlimit(100)]
proof fn lemma_decode_encoding_2(inst: Instruction)
    requires
        encodable(inst),
        format_group(inst) == 2,
    ensures
        decode_spec(encoding(inst)) == inst,
{
    match inst {
        Instruction::Sb { rs1, rs2, imm } => lemma_s_fields(0, rs1, rs2, imm as int),
        Instruction::Sh { rs1, rs2, imm } => lemma_s_fields(1, rs1, rs2, imm as int),
        Instruction::Sw { rs1, rs2, imm } => lemma_s_fields(2, rs1, rs2, imm as int),
        Instruction::Beq { rs1, rs2, imm } => lemma_b_fields(0, rs1, rs2, imm as int),
        Instruction::Bne { rs1, rs2, imm } => lemma_b_fields(1, rs1, rs2, imm as int),
        Instruction::Blt { rs1, rs2, imm } => lemma_b_fields(4, rs1, rs2, imm as int),
        Instruction::Bge { rs1, rs2, imm } => lemma_b_fields(5, rs1, rs2, imm as int),
        Instruction::Bltu { rs1, rs2, imm } => lemma_b_fields(6, rs1, rs2, imm as int),
        Instruction::Bgeu { rs1, rs2, imm } => lemma_b_fields(7, rs1, rs2, imm as int),
        _ => {},
    }
}

/// Decoding gives back each JAL, upper-immediate, system and fence instruction from its encoding.
#[verifier::spinoff_prover]
#[verifier::rlimit(100)]
proof fn lemma_decode_encoding_3(inst: Instruction)
    requires
        encodable(inst),
        format_group(inst) == 3,
    ensures
        decode_spec(encoding(inst)) == inst,
{
    match inst {
        Instruction::Jal { rd, imm } => lemma_j_fields(rd, imm as int),
        Instruction::Lui { rd, imm } => lemma_u_fields(0x37, rd, imm as int),
        Instruction::Auipc { rd, imm } => lemma_u_fields(0x17, rd, imm as int),
        Instruction::Csrrw { rd, rs1, csr } | Instruction::Csrrs { rd, rs1, csr } | Instruction::Csrrc { rd, rs1, csr } => {
            lemma_register_fields(rd, rs1, rs1);
            let f3: u32 = if inst is Csrrw { 1 } else if inst is Csrrs { 2 } else { 3 };
            lemma_word_fields(0x73, rd.index() as u32, f3, rs1.index() as u32, csr as u32);
        },
        Instruction::Csrrwi { rd, uimm, csr } | Instruction::Csrrsi { rd, uimm, csr } | Instruction::Csrrci { rd, uimm, csr } => {
            lemma_register_fields(rd, rd, rd);
            let f3: u32 = if inst is Csrrwi { 5 } else if inst is Csrrsi { 6 } else { 7 };
            lemma_word_fields(0x73, rd.index() as u32, f3, uimm as u32, csr as u32);
        },
        Instruction::Ecall => lemma_word_fields(0x73, 0, 0, 0, 0),
        Instruction::Ebreak => lemma_word_fields(0x73, 0, 0, 0, 1),
        Instruction::Fence { pred, succ } => lemma_word_fields(0x0f, 0, 0, 0, (pred * 16 + succ) as u32),
        Instruction::FenceI => lemma_word_fields(0x0f, 0, 1, 0, 0),
        _ => {},
    }
}

/// Decoding gives back every instruction from its standard rv32im encoding
/// (`encoding`, built from the instruction set's format and opcode tables), for
/// every instruction whose fields fit their encoding (`encodable`): the opcode,
/// function codes, registers and immediates each land where the decoder reads
/// them.
pub proof fn lemma_decode_encoding(inst: Instruction)
    requires
        encodable(inst),
        !(inst is Unknown),
    ensures
        decode_spec(encoding(inst)) == inst,
{
    if format_group(inst) == 0 {
        lemma_decode_encoding_0(inst);
    } else if format_group(inst) == 1 {
        lemma_decode_encoding_1(inst);
    } else if format_group(inst) == 2 {
        lemma_decode_encoding_2(inst);
    } else if format_group(inst) == 5 {
        lemma_decode_encoding_5(inst);
    } else if format_group(inst) == 6 {
        lemma_decode_encoding_6(inst);
    } else {
        lemma_decode_encoding_3(inst);
    }
}

/// Decode a 32-bit RISC-V instruction
pub fn decode(word: u32) -> (inst: Instruction)
    ensures
        inst == decode_spec(word),
        encodable(inst),
        inst matches Instruction::Unknown(raw) ==> raw == word,
{
    let opcode = word & 0x7f;
    assert((word >> 7) & 0x1f < 32 && (word >> 15) & 0x1f < 32 && (word >> 20) & 0x1f < 32)
        by (bit_vector);
    let rd = Register::new(((word >> 7) & 0x1f) as u8);
    let funct3 = (word >> 12) & 0x7;
    let rs1 = Register::new(((word >> 15) & 0x1f) as u8);
    let rs2 = Register::new(((word >> 20) & 0x1f) as u8);
    let funct7 = (word >> 25) & 0x7f;
    proof {
        lemma_immediates(word);
    }
    match opcode {
        // R-type: OP
        0b0110011 => decode_r_type(rd, funct3, rs1, rs2, funct7, word),
        // I-type: OP-IMM
        0b0010011 => decode_i_type_alu(rd, funct3, rs1, word),
        // I-type: LOAD
        0b0000011 => decode_load(rd, funct3, rs1, word),
        // S-type: STORE
        0b0100011 => decode_store(funct3, rs1, rs2, word),
        // B-type: BRANCH
        0b1100011 => decode_branch(funct3, rs1, rs2, word),
        // J-type: JAL
        0b1101111 => {
            let imm = decode_j_imm(word);
            Instruction::Jal { rd, imm }
        },
        // I-type: JALR
        0b1100111 => {
            let imm = decode_i_imm(word);
            if funct3 == 0 {
                Instruction::Jalr { rd, rs1, imm }
            } else {
                Instruction::Unknown(word)
            }
        },
        // U-type: LUI
        0b0110111 => {
            let imm = decode_u_imm(word);
            Instruction::Lui { rd, imm }
        },
        // U-type: AUIPC
        0b0010111 => {
            let imm = decode_u_imm(word);
            Instruction::Auipc { rd, imm }
        },
        // SYSTEM
        0b1110011 => decode_system(rd, funct3, rs1, word),
        // MISC-MEM (FENCE)
        0b0001111 => {
            if funct3 == 0 {
                assert((word >> 24) & 0xf < 16 && (word >> 20) & 0xf < 16) by (bit_vector);
                let pred = ((word >> 24) & 0xf) as u8;
                let succ = ((word >> 20) & 0xf) as u8;
                Instruction::Fence { pred, succ }
            } else if funct3 == 1 {
                Instruction::FenceI
            } else {
                Instruction::Unknown(word)
            }
        },
        _ => Instruction::Unknown(word),
    }
}

/// The ranges of the immediates, as `encodable` states them.
proof fn lemma_immediates(w: u32)
    ensures
        -2048 <= i_imm(w) <= 2047,
        -2048 <= s_imm(w) <= 2047,
        -4096 <= b_imm(w) <= 4094,
        b_imm(w) % 2 == 0,
        -0x100000 <= j_imm(w) <= 0xffffe,
        j_imm(w) % 2 == 0,
        u_imm(w) % 4096 == 0,
        -0x8000_0000 <= u_imm(w) <= 0x7fff_ffff,
        rs2_of(w) < 32,
        rs1_of(w) < 32,
        (w >> 20) & 0xfff < 4096,
{
    vstd::arithmetic::power2::lemma2_to64();
    let a = (w >> 20) & 0xfff;
    assert(a < 0x1000) by (bit_vector)
        requires
            a == (w >> 20) & 0xfff,
    ;
    let b = (w >> 25) & 0x7f;
    let c = (w >> 7) & 0x1f;
    assert(b < 0x80 && c < 0x20) by (bit_vector)
        requires
            b == (w >> 25) & 0x7f,
            c == (w >> 7) & 0x1f,
    ;
    let b1 = (w >> 31) & 1;
    let b2 = (w >> 7) & 1;
    let b3 = (w >> 25) & 0x3f;
    let b4 = (w >> 8) & 0xf;
    assert(b1 < 2 && b2 < 2 && b3 < 0x40 && b4 < 0x10) by (bit_vector)
        requires
            b1 == (w >> 31) & 1,
            b2 == (w >> 7) & 1,
            b3 == (w >> 25) & 0x3f,
            b4 == (w >> 8) & 0xf,
    ;
    let j2 = (w >> 12) & 0xff;
    let j3 = (w >> 20) & 1;
    let j4 = (w >> 21) & 0x3ff;
    assert(j2 < 0x100 && j3 < 2 && j4 < 0x400) by (bit_vector)
        requires
            j2 == (w >> 12) & 0xff,
            j3 == (w >> 20) & 1,
            j4 == (w >> 21) & 0x3ff,
    ;
    let u = w & 0xfffff000;
    assert(u % 4096 == 0) by (bit_vector)
        requires
            u == w & 0xfffff000,
    ;
    assert(rs2_of(w) < 32 && rs1_of(w) < 32) by (bit_vector);
}

fn decode_r_type(
    rd: Register,
    funct3: u32,
    rs1: Register,
    rs2: Register,
    funct7: u32,
    word: u32,
) -> (inst: Instruction)
    requires
        rd == reg_of(rd_of(word)),
        rs1 == reg_of(rs1_of(word)),
        rs2 == reg_of(rs2_of(word)),
        funct3 == funct3_of(word),
        funct7 == funct7_of(word),
    ensures
        inst == decode_op(word),
{
    match (funct7, funct3) {
        // RV32I
        (0b0000000, 0b000) => Instruction::Add { rd, rs1, rs2 },
        (0b0100000, 0b000) => Instruction::Sub { rd, rs1, rs2 },
        (0b0000000, 0b001) => Instruction::Sll { rd, rs1, rs2 },
        (0b0000000, 0b010) => Instruction::Slt { rd, rs1, rs2 },
        (0b0000000, 0b011) => Instruction::Sltu { rd, rs1, rs2 },
        (0b0000000, 0b100) => Instruction::Xor { rd, rs1, rs2 },
        (0b0000000, 0b101) => Instruction::Srl { rd, rs1, rs2 },
        (0b0100000, 0b101) => Instruction::Sra { rd, rs1, rs2 },
        (0b0000000, 0b110) => Instruction::Or { rd, rs1, rs2 },
        (0b0000000, 0b111) => Instruction::And { rd, rs1, rs2 },
        // RV32M
        (0b0000001, 0b000) => Instruction::Mul { rd, rs1, rs2 },
        (0b0000001, 0b001) => Instruction::Mulh { rd, rs1, rs2 },
        (0b0000001, 0b010) => Instruction::Mulhsu { rd, rs1, rs2 },
        (0b0000001, 0b011) => Instruction::Mulhu { rd, rs1, rs2 },
        (0b0000001, 0b100) => Instruction::Div { rd, rs1, rs2 },
        (0b0000001, 0b101) => Instruction::Divu { rd, rs1, rs2 },
        (0b0000001, 0b110) => Instruction::Rem { rd, rs1, rs2 },
        (0b0000001, 0b111) => Instruction::Remu { rd, rs1, rs2 },
        _ => {
            assert(funct3 < 8) by (bit_vector)
                requires
                    funct3 == (word >> 12) & 0x7,
            ;
            Instruction::Unknown(word)
        },
    }
}

fn decode_i_type_alu(rd: Register, funct3: u32, rs1: Register, word: u32) -> (inst: Instruction)
    requires
        rd == reg_of(rd_of(word)),
        rs1 == reg_of(rs1_of(word)),
        funct3 == funct3_of(word),
    ensures
        inst == decode_op_imm(word),
{
    let imm = decode_i_imm(word);
    let shamt = ((word >> 20) & 0x1f) as u32;
    let funct7 = (word >> 25) & 0x7f;
    match funct3 {
        0b000 => Instruction::Addi { rd, rs1, imm },
        0b010 => Instruction::Slti { rd, rs1, imm },
        0b011 => Instruction::Sltiu { rd, rs1, imm },
        0b100 => Instruction::Xori { rd, rs1, imm },
        0b110 => Instruction::Ori { rd, rs1, imm },
        0b111 => Instruction::Andi { rd, rs1, imm },
        0b001 => {
            if funct7 == 0 {
                Instruction::Slli { rd, rs1, shamt }
            } else {
                Instruction::Unknown(word)
            }
        },
        0b101 => {
            match funct7 {
                0b0000000 => Instruction::Srli { rd, rs1, shamt },
                0b0100000 => Instruction::Srai { rd, rs1, shamt },
                _ => Instruction::Unknown(word),
            }
        },
        _ => Instruction::Unknown(word),
    }
}

fn decode_load(rd: Register, funct3: u32, rs1: Register, word: u32) -> (inst: Instruction)
    requires
        rd == reg_of(rd_of(word)),
        rs1 == reg_of(rs1_of(word)),
        funct3 == funct3_of(word),
    ensures
        inst == decode_load_spec(word),
{
    let imm = decode_i_imm(word);
    match funct3 {
        0b000 => Instruction::Lb { rd, rs1, imm },
        0b001 => Instruction::Lh { rd, rs1, imm },
        0b010 => Instruction::Lw { rd, rs1, imm },
        0b100 => Instruction::Lbu { rd, rs1, imm },
        0b101 => Instruction::Lhu { rd, rs1, imm },
        _ => Instruction::Unknown(word),
    }
}

fn decode_store(funct3: u32, rs1: Register, rs2: Register, word: u32) -> (inst: Instruction)
    requires
        rs1 == reg_of(rs1_of(word)),
        rs2 == reg_of(rs2_of(word)),
        funct3 == funct3_of(word),
    ensures
        inst == decode_store_spec(word),
{
    let imm = decode_s_imm(word);
    match funct3 {
        0b000 => Instruction::Sb { rs1, rs2, imm },
        0b001 => Instruction::Sh { rs1, rs2, imm },
        0b010 => Instruction::Sw { rs1, rs2, imm },
        _ => Instruction::Unknown(word),
    }
}

fn decode_branch(funct3: u32, rs1: Register, rs2: Register, word: u32) -> (inst: Instruction)
    requires
        rs1 == reg_of(rs1_of(word)),
        rs2 == reg_of(rs2_of(word)),
        funct3 == funct3_of(word),
    ensures
        inst == decode_branch_spec(word),
{
    let imm = decode_b_imm(word);
    match funct3 {
        0b000 => Instruction::Beq { rs1, rs2, imm },
        0b001 => Instruction::Bne { rs1, rs2, imm },
        0b100 => Instruction::Blt { rs1, rs2, imm },
        0b101 => Instruction::Bge { rs1, rs2, imm },
        0b110 => Instruction::Bltu { rs1, rs2, imm },
        0b111 => Instruction::Bgeu { rs1, rs2, imm },
        _ => Instruction::Unknown(word),
    }
}

fn decode_system(rd: Register, funct3: u32, rs1: Register, word: u32) -> (inst: Instruction)
    requires
        rd == reg_of(rd_of(word)),
        rs1 == reg_of(rs1_of(word)),
        funct3 == funct3_of(word),
    ensures
        inst == decode_system_spec(word),
{
    assert((word >> 20) & 0xfff < 0x1000 && (word >> 15) & 0x1f < 0x20) by (bit_vector);
    let csr = ((word >> 20) & 0xfff) as u16;
    let uimm = ((word >> 15) & 0x1f) as u8;
    match funct3 {
        0b000 => {
            let imm = (word >> 20) & 0xfff;
            match imm {
                0 => Instruction::Ecall,
                1 => Instruction::Ebreak,
                _ => Instruction::Unknown(word),
            }
        },
        0b001 => Instruction::Csrrw { rd, rs1, csr },
        0b010 => Instruction::Csrrs { rd, rs1, csr },
        0b011 => Instruction::Csrrc { rd, rs1, csr },
        0b101 => Instruction::Csrrwi { rd, uimm, csr },
        0b110 => Instruction::Csrrsi { rd, uimm, csr },
        0b111 => Instruction::Csrrci { rd, uimm, csr },
        _ => Instruction::Unknown(word),
    }
}

// Immediate decoding functions

/// Sign-extending a 12-bit field.
proof fn lemma_sign_extend12(imm: u32)
    by (bit_vector)
    requires
        imm < 0x1000,
    ensures
        imm & 0x800 != 0 ==> (imm | 0xfffff000) as i32 == imm - 0x1000 && imm >= 0x800,
        imm & 0x800 == 0 ==> imm < 0x800,
{
}

fn decode_i_imm(word: u32) -> (imm: i32)
    ensures
        imm == i_imm(word),
{
    proof {
        vstd::arithmetic::power2::lemma2_to64();
    }
    let imm = (word >> 20) & 0xfff;
    assert(imm < 0x1000) by (bit_vector)
        requires
            imm == (word >> 20) & 0xfff,
    ;
    proof {
        lemma_sign_extend12(imm);
    }
    // Sign extend from 12 bits
    if imm & 0x800 != 0 {
        (imm | 0xfffff000) as i32
    } else {
        imm as i32
    }
}

fn decode_s_imm(word: u32) -> (imm: i32)
    ensures
        imm == s_imm(word),
{
    proof {
        vstd::arithmetic::power2::lemma2_to64();
    }
    let imm11_5 = (word >> 25) & 0x7f;
    let imm4_0 = (word >> 7) & 0x1f;
    let imm = (imm11_5 << 5) | imm4_0;
    assert(imm == imm11_5 * 0x20 + imm4_0 && imm < 0x1000) by (bit_vector)
        requires
            imm11_5 == (word >> 25) & 0x7f,
            imm4_0 == (word >> 7) & 0x1f,
            imm == (imm11_5 << 5) | imm4_0,
    ;
    proof {
        lemma_sign_extend12(imm);
    }
    // Sign extend from 12 bits
    if imm & 0x800 != 0 {
        (imm | 0xfffff000) as i32
    } else {
        imm as i32
    }
}

fn decode_b_imm(word: u32) -> (imm: i32)
    ensures
        imm == b_imm(word),
{
    proof {
        vstd::arithmetic::power2::lemma2_to64();
    }
    let imm12 = (word >> 31) & 0x1;
    let imm10_5 = (word >> 25) & 0x3f;
    let imm4_1 = (word >> 8) & 0xf;
    let imm11 = (word >> 7) & 0x1;
    let imm = (imm12 << 12) | (imm11 << 11) | (imm10_5 << 5) | (imm4_1 << 1);
    assert(imm == imm12 * 0x1000 + imm11 * 0x800 + imm10_5 * 0x20 + imm4_1 * 2 && imm < 0x2000)
        by (bit_vector)
        requires
            imm12 == (word >> 31) & 0x1,
            imm10_5 == (word >> 25) & 0x3f,
            imm4_1 == (word >> 8) & 0xf,
            imm11 == (word >> 7) & 0x1,
            imm == (imm12 << 12) | (imm11 << 11) | (imm10_5 << 5) | (imm4_1 << 1),
    ;
    assert((imm & 0x1000 != 0 ==> (imm | 0xffffe000) as i32 == imm - 0x2000 && imm >= 0x1000) && (imm & 0x1000
        == 0 ==> imm < 0x1000)) by (bit_vector)
        requires
            imm < 0x2000,
    ;
    // Sign extend from 13 bits
    if imm & 0x1000 != 0 {
        (imm | 0xffffe000) as i32
    } else {
        imm as i32
    }
}

fn decode_u_imm(word: u32) -> (imm: i32)
    ensures
        imm == u_imm(word),
{
    proof {
        vstd::arithmetic::power2::lemma2_to64();
    }
    let v = word & 0xfffff000;
    assert((v as i32) == (if v >= 0x8000_0000 { v - 0x1_0000_0000 } else { v as int }))
        by (bit_vector);
    v as i32
}

fn decode_j_imm(word: u32) -> (imm: i32)
    ensures
        imm == j_imm(word),
{
    proof {
        vstd::arithmetic::power2::lemma2_to64();
    }
    let imm20 = (word >> 31) & 0x1;
    let imm10_1 = (word >> 21) & 0x3ff;
    let imm11 = (word >> 20) & 0x1;
    let imm19_12 = (word >> 12) & 0xff;
    let imm = (imm20 << 20) | (imm19_12 << 12) | (imm11 << 11) | (imm10_1 << 1);
    assert(imm == imm20 * 0x100000 + imm19_12 * 0x1000 + imm11 * 0x800 + imm10_1 * 2 && imm
        < 0x200000) by (bit_vector)
        requires
            imm20 == (word >> 31) & 0x1,
            imm10_1 == (word >> 21) & 0x3ff,
            imm11 == (word >> 20) & 0x1,
            imm19_12 == (word >> 12) & 0xff,
            imm == (imm20 << 20) | (imm19_12 << 12) | (imm11 << 11) | (imm10_1 << 1),
    ;
    assert((imm & 0x100000 != 0 ==> (imm | 0xffe00000) as i32 == imm - 0x200000 && imm >= 0x100000) && (imm
        & 0x100000 == 0 ==> imm < 0x100000)) by (bit_vector)
        requires
            imm < 0x200000,
    ;
    // Sign extend from 21 bits
    if imm & 0x100000 != 0 {
        (imm | 0xffe00000) as i32
    } else {
        imm as i32
    }
}

/// The instruction words that `bytes` holds, four bytes each, least significant byte
/// first; `None` where its length is not a multiple of four.
pub fn words_from_le_bytes(bytes: &[u8]) -> (r: Option<Vec<u32>>)
    ensures
        r is None <==> bytes@.len() % 4 != 0,
        r matches Some(words) ==> words@.len() * 4 == bytes@.len() && forall|i: int|
            0 <= i < words@.len() ==> #[trigger] words@[i] == le_value(bytes@.subrange(4 * i, 4 * i + 4)),
{
    if bytes.len() % 4 != 0 {
        return None;
    }
    let mut words: Vec<u32> = Vec::new();
    let mut i: usize = 0;
    while i < bytes.len() / 4
        invariant
            bytes@.len() % 4 == 0,
            0 <= i <= bytes@.len() / 4,
            words@.len() == i,
            forall|j: int| 0 <= j < i ==> #[trigger] words@[j] == le_value(bytes@.subrange(4 * j, 4 * j + 4)),
        decreases bytes@.len() / 4 - i,
    {
        let b0 = bytes[4 * i];
        let b1 = bytes[4 * i + 1];
        let b2 = bytes[4 * i + 2];
        let b3 = bytes[4 * i + 3];
        let word = b0 as u32 + 256 * (b1 as u32 + 256 * (b2 as u32 + 256 * b3 as u32));
        proof {
            let s = bytes@.subrange(4 * i, 4 * i + 4);
            assert(s.drop_first().drop_first().drop_first().drop_first().len() == 0);
            assert(le_value(s) == b0 + 256 * (b1 + 256 * (b2 + 256 * b3))) by {
                reveal_with_fuel(le_value, 5);
                assert(s[0] == b0 && s[1] == b1 && s[2] == b2 && s[3] == b3);
                assert(s.drop_first()[0] == b1);
                assert(s.drop_first().drop_first()[0] == b2);
                assert(s.drop_first().drop_first().drop_first()[0] == b3);
            }
        }
        words.push(word);
        i = i + 1;
    }
    Some(words)
}

} // verus!
