//! The sBPF code that the compiler emits for each rv32im instruction, and how the
//! pieces are put together into a program.
//!
//! The RISC-V registers live in memory, four bytes each from `regfile_base`; sBPF
//! registers `r0` to `r9` serve as temporaries and `r8` holds register-file
//! addresses. Jumps are emitted with offset 0 and resolved once every instruction's
//! position is known.

use vstd::prelude::*;
use crate::riscv::instruction::{Instruction, Register};
use crate::svm::bytecode::{opcodes, MemorySize, SvmInstruction, SvmRegister};
use crate::svm::semantics::quotient_toward_zero;
use super::translator::CompilerConfig;

verus! {

/// The address of RISC-V register `reg` in the register file.
pub open spec fn reg_addr(c: CompilerConfig, reg: Register) -> int {
    c.regfile_base + reg.index() * 4
}

/// Sign-extends the low 32 bits of `r` to 64 bits.
pub open spec fn sign_extend32(r: SvmRegister) -> Seq<SvmInstruction> {
    seq![SvmInstruction::lsh64_imm(r, 32), SvmInstruction::arsh64_imm(r, 32)]
}

/// Zero-extends the low 32 bits of `r` to 64 bits.
pub open spec fn zero_extend32(r: SvmRegister) -> Seq<SvmInstruction> {
    seq![SvmInstruction::lsh64_imm(r, 32), SvmInstruction::rsh64_imm(r, 32)]
}

/// Loads RISC-V register `rv` into `svm`, sign-extended; `x0` loads zero.
pub open spec fn load_code(c: CompilerConfig, svm: SvmRegister, rv: Register) -> Seq<SvmInstruction> {
    if rv == Register::ZERO {
        seq![SvmInstruction::mov64_imm(svm, 0)]
    } else {
        seq![
            SvmInstruction::mov64_imm(SvmRegister::R8, reg_addr(c, rv) as i32),
            SvmInstruction::ldx(MemorySize::Word, svm, SvmRegister::R8, 0),
        ] + sign_extend32(svm)
    }
}

/// Stores `svm` into RISC-V register `rv`; nothing for `x0`.
pub open spec fn store_code(c: CompilerConfig, rv: Register, svm: SvmRegister) -> Seq<SvmInstruction> {
    if rv == Register::ZERO {
        seq![]
    } else {
        seq![
            SvmInstruction::mov64_imm(SvmRegister::R8, reg_addr(c, rv) as i32),
            SvmInstruction::stx(MemorySize::Word, SvmRegister::R8, svm, 0),
        ]
    }
}

/// A 32-bit register-register operation, the result sign-extended.
#[verifier::opaque]
pub open spec fn r_type_code(c: CompilerConfig, rd: Register, rs1: Register, rs2: Register, op: u8) -> Seq<SvmInstruction> {
    load_code(c, SvmRegister::R1, rs1) + load_code(c, SvmRegister::R2, rs2) + seq![
        SvmInstruction::alu32_reg(op, SvmRegister::R1, SvmRegister::R2),
    ] + sign_extend32(SvmRegister::R1) + store_code(c, rd, SvmRegister::R1)
}

/// A 32-bit register-immediate operation, the result sign-extended.
#[verifier::opaque]
pub open spec fn i_type_code(c: CompilerConfig, rd: Register, rs1: Register, imm: i32, op: u8) -> Seq<SvmInstruction> {
    load_code(c, SvmRegister::R1, rs1) + seq![SvmInstruction::alu32_imm(op, SvmRegister::R1, imm)]
        + sign_extend32(SvmRegister::R1) + store_code(c, rd, SvmRegister::R1)
}

/// The 64-bit shift that follows the operand's extension.
pub open spec fn shift_core(right: bool, arithmetic: bool, amount: Seq<SvmInstruction>) -> Seq<SvmInstruction> {
    if right {
        if arithmetic {
            sign_extend32(SvmRegister::R1) + amount
        } else {
            zero_extend32(SvmRegister::R1) + amount
        }
    } else {
        amount
    }
}

/// A shift by a register, the amount masked to five bits.
#[verifier::opaque]
pub open spec fn shift_code(c: CompilerConfig, rd: Register, rs1: Register, rs2: Register, right: bool, arithmetic: bool) -> Seq<SvmInstruction> {
    let by = if right {
        if arithmetic {
            SvmInstruction::arsh64_reg(SvmRegister::R1, SvmRegister::R2)
        } else {
            SvmInstruction::rsh64_reg(SvmRegister::R1, SvmRegister::R2)
        }
    } else {
        SvmInstruction::lsh64_reg(SvmRegister::R1, SvmRegister::R2)
    };
    load_code(c, SvmRegister::R1, rs1) + load_code(c, SvmRegister::R2, rs2) + seq![
        SvmInstruction::and32_imm(SvmRegister::R2, 0x1f),
    ] + shift_core(right, arithmetic, seq![by]) + sign_extend32(SvmRegister::R1) + store_code(
        c,
        rd,
        SvmRegister::R1,
    )
}

/// A shift by an immediate, the amount masked to five bits.
#[verifier::opaque]
pub open spec fn shift_imm_code(c: CompilerConfig, rd: Register, rs1: Register, shamt: u32, right: bool, arithmetic: bool) -> Seq<SvmInstruction> {
    let s = (shamt & 0x1f) as i32;
    let by = if right {
        if arithmetic {
            SvmInstruction::arsh64_imm(SvmRegister::R1, s)
        } else {
            SvmInstruction::rsh64_imm(SvmRegister::R1, s)
        }
    } else {
        SvmInstruction::lsh64_imm(SvmRegister::R1, s)
    };
    load_code(c, SvmRegister::R1, rs1) + shift_core(right, arithmetic, seq![by]) + sign_extend32(
        SvmRegister::R1,
    ) + store_code(c, rd, SvmRegister::R1)
}

/// Set-less-than on two registers: `r3` starts at 1 and is cleared unless the
/// comparison jumps over the clearing.
#[verifier::opaque]
pub open spec fn slt_code(c: CompilerConfig, rd: Register, rs1: Register, rs2: Register, signed: bool) -> Seq<SvmInstruction> {
    let op = if signed { opcodes::JSLT } else { opcodes::JLT };
    load_code(c, SvmRegister::R1, rs1) + load_code(c, SvmRegister::R2, rs2) + seq![
        SvmInstruction::mov64_imm(SvmRegister::R3, 1),
        SvmInstruction::jmp_reg(op, SvmRegister::R1, SvmRegister::R2, 1),
        SvmInstruction::mov64_imm(SvmRegister::R3, 0),
    ] + store_code(c, rd, SvmRegister::R3)
}

/// Set-less-than on a register and an immediate.
#[verifier::opaque]
pub open spec fn slti_code(c: CompilerConfig, rd: Register, rs1: Register, imm: i32, signed: bool) -> Seq<SvmInstruction> {
    let op = if signed { opcodes::JSLT } else { opcodes::JLT };
    load_code(c, SvmRegister::R1, rs1) + seq![
        SvmInstruction::mov64_imm(SvmRegister::R3, 1),
        SvmInstruction::jmp_imm(op, SvmRegister::R1, imm, 1),
        SvmInstruction::mov64_imm(SvmRegister::R3, 0),
    ] + store_code(c, rd, SvmRegister::R3)
}

/// The extension of a loaded value of `size` to the register.
pub open spec fn load_extension(size: MemorySize, sign_extend: bool) -> Seq<SvmInstruction> {
    if sign_extend {
        match size {
            MemorySize::Byte => seq![
                SvmInstruction::lsh64_imm(SvmRegister::R2, 56),
                SvmInstruction::arsh64_imm(SvmRegister::R2, 56),
            ],
            MemorySize::Half => seq![
                SvmInstruction::lsh64_imm(SvmRegister::R2, 48),
                SvmInstruction::arsh64_imm(SvmRegister::R2, 48),
            ],
            MemorySize::Word => sign_extend32(SvmRegister::R2),
            MemorySize::DWord => seq![],
        }
    } else {
        seq![]
    }
}

/// The effective address `rs1 + imm + memory_base`, in `r1`.
pub open spec fn address_code(c: CompilerConfig, rs1: Register, imm: i32) -> Seq<SvmInstruction> {
    load_code(c, SvmRegister::R1, rs1) + seq![
        SvmInstruction::add64_imm(SvmRegister::R1, imm),
        SvmInstruction::add64_imm(SvmRegister::R1, c.memory_base as i32),
    ]
}

/// A load of `size` bytes.
#[verifier::opaque]
pub open spec fn load_mem_code(c: CompilerConfig, rd: Register, rs1: Register, imm: i32, size: MemorySize, sign_extend: bool) -> Seq<SvmInstruction> {
    address_code(c, rs1, imm) + seq![
        SvmInstruction::ldx(size, SvmRegister::R2, SvmRegister::R1, 0),
    ] + load_extension(size, sign_extend) + store_code(c, rd, SvmRegister::R2)
}

/// A store of `size` bytes.
#[verifier::opaque]
pub open spec fn store_mem_code(c: CompilerConfig, rs1: Register, rs2: Register, imm: i32, size: MemorySize) -> Seq<SvmInstruction> {
    address_code(c, rs1, imm) + load_code(c, SvmRegister::R2, rs2) + seq![
        SvmInstruction::stx(size, SvmRegister::R1, SvmRegister::R2, 0),
    ]
}

/// A conditional branch: its jump is the last instruction, its offset still 0.
#[verifier::opaque]
pub open spec fn branch_code(c: CompilerConfig, rs1: Register, rs2: Register, jmp_op: u8) -> Seq<SvmInstruction> {
    load_code(c, SvmRegister::R1, rs1) + load_code(c, SvmRegister::R2, rs2) + seq![
        SvmInstruction::jmp_reg(jmp_op, SvmRegister::R1, SvmRegister::R2, 0),
    ]
}

/// The RISC-V byte address of the instruction at index `idx`: the address of the
/// first instruction plus four bytes for each before it, modulo `2^32`, read as an
/// `i32`.
pub open spec fn byte_address(c: CompilerConfig, idx: int) -> i32 {
    vstd::wrapping::u32_specs::wrapping_add(c.initial_pc, (idx * 4) as u32) as i32
}

/// The RISC-V byte address of the instruction after the one at index `idx`.
pub open spec fn return_address(c: CompilerConfig, idx: int) -> i32 {
    byte_address(c, idx + 1)
}

/// JAL: saves the return address, then jumps (last instruction, offset still 0).
#[verifier::opaque]
pub open spec fn jal_code(c: CompilerConfig, rd: Register, idx: int) -> Seq<SvmInstruction> {
    seq![SvmInstruction::mov64_imm(SvmRegister::R1, return_address(c, idx))] + store_code(
        c,
        rd,
        SvmRegister::R1,
    ) + seq![SvmInstruction::ja(0)]
}

/// JALR: computes the target byte address in `r1` with its lowest bit cleared,
/// saves the return address, then jumps to the dispatch table (last instruction,
/// offset still 0).
#[verifier::opaque]
pub open spec fn jalr_code(c: CompilerConfig, rd: Register, rs1: Register, imm: i32, idx: int) -> Seq<SvmInstruction> {
    load_code(c, SvmRegister::R1, rs1) + seq![
        SvmInstruction::add64_imm(SvmRegister::R1, imm),
        SvmInstruction::and64_imm(SvmRegister::R1, -2i32),
    ] + (if rd != Register::ZERO {
        seq![SvmInstruction::mov64_imm(SvmRegister::R2, return_address(c, idx))] + store_code(
            c,
            rd,
            SvmRegister::R2,
        )
    } else {
        seq![]
    }) + seq![SvmInstruction::ja(0)]
}

/// Sets `rd` to a constant.
#[verifier::opaque]
pub open spec fn constant_code(c: CompilerConfig, rd: Register, value: i32) -> Seq<SvmInstruction> {
    seq![SvmInstruction::mov64_imm(SvmRegister::R1, value)] + store_code(c, rd, SvmRegister::R1)
}

/// MULH, MULHSU, MULHU: the high word of the 64-bit product.
#[verifier::opaque]
pub open spec fn mulh_code(c: CompilerConfig, rd: Register, rs1: Register, rs2: Register, rs1_signed: bool, rs2_signed: bool) -> Seq<SvmInstruction> {
    load_code(c, SvmRegister::R1, rs1) + load_code(c, SvmRegister::R2, rs2) + (if rs1_signed {
        seq![]
    } else {
        zero_extend32(SvmRegister::R1)
    }) + (if rs2_signed {
        seq![]
    } else {
        zero_extend32(SvmRegister::R2)
    }) + seq![
        SvmInstruction::mul64_reg(SvmRegister::R1, SvmRegister::R2),
        SvmInstruction::rsh64_imm(SvmRegister::R1, 32),
    ] + sign_extend32(SvmRegister::R1) + store_code(c, rd, SvmRegister::R1)
}

/// DIV, DIVU: -1 for a zero divisor, `i32::MIN` for `i32::MIN / -1`, else the quotient.
#[verifier::opaque]
pub open spec fn div_code(c: CompilerConfig, rd: Register, rs1: Register, rs2: Register, signed: bool) -> Seq<SvmInstruction> {
    let body = if signed {
        seq![
            SvmInstruction::mov64_imm(SvmRegister::R3, i32::MIN),
            SvmInstruction::jmp_reg(opcodes::JNE, SvmRegister::R1, SvmRegister::R3, 4),
            SvmInstruction::mov64_imm(SvmRegister::R3, -1i32),
            SvmInstruction::jmp_reg(opcodes::JNE, SvmRegister::R2, SvmRegister::R3, 2),
            SvmInstruction::mov64_imm(SvmRegister::R1, i32::MIN),
            SvmInstruction::ja(1),
            SvmInstruction::sdiv32_reg(SvmRegister::R1, SvmRegister::R2),
        ]
    } else {
        seq![SvmInstruction::div32_reg(SvmRegister::R1, SvmRegister::R2)]
    };
    load_code(c, SvmRegister::R1, rs1) + load_code(c, SvmRegister::R2, rs2) + seq![
        SvmInstruction::jmp_imm(opcodes::JNE, SvmRegister::R2, 0, 2),
        SvmInstruction::mov64_imm(SvmRegister::R1, -1i32),
        SvmInstruction::ja(body.len() as i16),
    ] + body + sign_extend32(SvmRegister::R1) + store_code(c, rd, SvmRegister::R1)
}

/// REM, REMU: the dividend for a zero divisor, 0 for `i32::MIN % -1`, else the
/// remainder (signed: dividend minus quotient times divisor).
#[verifier::opaque]
pub open spec fn rem_code(c: CompilerConfig, rd: Register, rs1: Register, rs2: Register, signed: bool) -> Seq<SvmInstruction> {
    let body = if signed {
        seq![
            SvmInstruction::mov64_imm(SvmRegister::R3, i32::MIN),
            SvmInstruction::jmp_reg(opcodes::JNE, SvmRegister::R1, SvmRegister::R3, 4),
            SvmInstruction::mov64_imm(SvmRegister::R3, -1i32),
            SvmInstruction::jmp_reg(opcodes::JNE, SvmRegister::R2, SvmRegister::R3, 2),
            SvmInstruction::mov64_imm(SvmRegister::R1, 0),
            SvmInstruction::ja(5),
            SvmInstruction::mov64_reg(SvmRegister::R3, SvmRegister::R1),
            SvmInstruction::sdiv32_reg(SvmRegister::R1, SvmRegister::R2),
            SvmInstruction::mul32_reg(SvmRegister::R1, SvmRegister::R2),
            SvmInstruction::sub32_reg(SvmRegister::R3, SvmRegister::R1),
            SvmInstruction::mov64_reg(SvmRegister::R1, SvmRegister::R3),
        ]
    } else {
        zero_extend32(SvmRegister::R1) + zero_extend32(SvmRegister::R2) + seq![
            SvmInstruction::mod64_reg(SvmRegister::R1, SvmRegister::R2),
        ]
    };
    load_code(c, SvmRegister::R1, rs1) + load_code(c, SvmRegister::R2, rs2) + seq![
        SvmInstruction::jmp_imm(opcodes::JNE, SvmRegister::R2, 0, 1),
        SvmInstruction::ja(body.len() as i16),
    ] + body + sign_extend32(SvmRegister::R1) + store_code(c, rd, SvmRegister::R1)
}

/// The code for the instruction at index `idx` (nothing for an unknown word, which
/// stops compilation).
#[verifier::opaque]
pub open spec fn inst_code(c: CompilerConfig, inst: Instruction, idx: int) -> Seq<SvmInstruction> {
    match inst {
        Instruction::Add { rd, rs1, rs2 } => r_type_code(c, rd, rs1, rs2, opcodes::ADD),
        Instruction::Sub { rd, rs1, rs2 } => r_type_code(c, rd, rs1, rs2, opcodes::SUB),
        Instruction::Xor { rd, rs1, rs2 } => r_type_code(c, rd, rs1, rs2, opcodes::XOR),
        Instruction::Or { rd, rs1, rs2 } => r_type_code(c, rd, rs1, rs2, opcodes::OR),
        Instruction::And { rd, rs1, rs2 } => r_type_code(c, rd, rs1, rs2, opcodes::AND),
        Instruction::Sll { rd, rs1, rs2 } => shift_code(c, rd, rs1, rs2, false, false),
        Instruction::Srl { rd, rs1, rs2 } => shift_code(c, rd, rs1, rs2, true, false),
        Instruction::Sra { rd, rs1, rs2 } => shift_code(c, rd, rs1, rs2, true, true),
        Instruction::Slt { rd, rs1, rs2 } => slt_code(c, rd, rs1, rs2, true),
        Instruction::Sltu { rd, rs1, rs2 } => slt_code(c, rd, rs1, rs2, false),
        Instruction::Addi { rd, rs1, imm } => i_type_code(c, rd, rs1, imm, opcodes::ADD),
        Instruction::Xori { rd, rs1, imm } => i_type_code(c, rd, rs1, imm, opcodes::XOR),
        Instruction::Ori { rd, rs1, imm } => i_type_code(c, rd, rs1, imm, opcodes::OR),
        Instruction::Andi { rd, rs1, imm } => i_type_code(c, rd, rs1, imm, opcodes::AND),
        Instruction::Slli { rd, rs1, shamt } => shift_imm_code(c, rd, rs1, shamt, false, false),
        Instruction::Srli { rd, rs1, shamt } => shift_imm_code(c, rd, rs1, shamt, true, false),
        Instruction::Srai { rd, rs1, shamt } => shift_imm_code(c, rd, rs1, shamt, true, true),
        Instruction::Slti { rd, rs1, imm } => slti_code(c, rd, rs1, imm, true),
        Instruction::Sltiu { rd, rs1, imm } => slti_code(c, rd, rs1, imm, false),
        Instruction::Lb { rd, rs1, imm } => load_mem_code(c, rd, rs1, imm, MemorySize::Byte, true),
        Instruction::Lh { rd, rs1, imm } => load_mem_code(c, rd, rs1, imm, MemorySize::Half, true),
        Instruction::Lw { rd, rs1, imm } => load_mem_code(c, rd, rs1, imm, MemorySize::Word, true),
        Instruction::Lbu { rd, rs1, imm } => load_mem_code(c, rd, rs1, imm, MemorySize::Byte, false),
        Instruction::Lhu { rd, rs1, imm } => load_mem_code(c, rd, rs1, imm, MemorySize::Half, false),
        Instruction::Sb { rs1, rs2, imm } => store_mem_code(c, rs1, rs2, imm, MemorySize::Byte),
        Instruction::Sh { rs1, rs2, imm } => store_mem_code(c, rs1, rs2, imm, MemorySize::Half),
        Instruction::Sw { rs1, rs2, imm } => store_mem_code(c, rs1, rs2, imm, MemorySize::Word),
        Instruction::Beq { rs1, rs2, .. } => branch_code(c, rs1, rs2, opcodes::JEQ),
        Instruction::Bne { rs1, rs2, .. } => branch_code(c, rs1, rs2, opcodes::JNE),
        Instruction::Blt { rs1, rs2, .. } => branch_code(c, rs1, rs2, opcodes::JSLT),
        Instruction::Bge { rs1, rs2, .. } => branch_code(c, rs1, rs2, opcodes::JSGE),
        Instruction::Bltu { rs1, rs2, .. } => branch_code(c, rs1, rs2, opcodes::JLT),
        Instruction::Bgeu { rs1, rs2, .. } => branch_code(c, rs1, rs2, opcodes::JGE),
        Instruction::Jal { rd, .. } => jal_code(c, rd, idx),
        Instruction::Jalr { rd, rs1, imm } => jalr_code(c, rd, rs1, imm, idx),
        Instruction::Lui { rd, imm } => constant_code(c, rd, imm),
        Instruction::Auipc { rd, imm } => constant_code(
            c,
            rd,
            vstd::wrapping::i32_specs::wrapping_add(byte_address(c, idx), imm),
        ),
        Instruction::Ecall => load_code(c, SvmRegister::R0, Register::A0) + seq![SvmInstruction::exit()],
        Instruction::Ebreak => seq![SvmInstruction::exit()],
        Instruction::Fence { .. } | Instruction::FenceI => seq![],
        Instruction::Csrrw { rd, .. }
        | Instruction::Csrrs { rd, .. }
        | Instruction::Csrrc { rd, .. }
        | Instruction::Csrrwi { rd, .. }
        | Instruction::Csrrsi { rd, .. }
        | Instruction::Csrrci { rd, .. } => constant_code(c, rd, 0),
        Instruction::Mul { rd, rs1, rs2 } => r_type_code(c, rd, rs1, rs2, opcodes::MUL),
        Instruction::Mulh { rd, rs1, rs2 } => mulh_code(c, rd, rs1, rs2, true, true),
        Instruction::Mulhsu { rd, rs1, rs2 } => mulh_code(c, rd, rs1, rs2, true, false),
        Instruction::Mulhu { rd, rs1, rs2 } => mulh_code(c, rd, rs1, rs2, false, false),
        Instruction::Div { rd, rs1, rs2 } => div_code(c, rd, rs1, rs2, true),
        Instruction::Divu { rd, rs1, rs2 } => div_code(c, rd, rs1, rs2, false),
        Instruction::Rem { rd, rs1, rs2 } => rem_code(c, rd, rs1, rs2, true),
        Instruction::Remu { rd, rs1, rs2 } => rem_code(c, rd, rs1, rs2, false),
        Instruction::Unknown(_) => seq![],
    }
}

/// Branches and JAL: their jump goes to another instruction of the program.
pub open spec fn is_direct_jump(inst: Instruction) -> bool {
    ||| inst is Beq
    ||| inst is Bne
    ||| inst is Blt
    ||| inst is Bge
    ||| inst is Bltu
    ||| inst is Bgeu
    ||| inst is Jal
}

/// The byte offset of a branch or JAL.
pub open spec fn jump_offset(inst: Instruction) -> i32 {
    match inst {
        Instruction::Beq { imm, .. }
        | Instruction::Bne { imm, .. }
        | Instruction::Blt { imm, .. }
        | Instruction::Bge { imm, .. }
        | Instruction::Bltu { imm, .. }
        | Instruction::Bgeu { imm, .. }
        | Instruction::Jal { imm, .. } => imm,
        _ => 0,
    }
}

/// The index of the instruction a branch or JAL at `idx` goes to: its byte offset
/// divided by four (rounding toward zero) added to `idx`, as a `usize` (a negative
/// index wraps around to a huge one).
pub open spec fn jump_target_index(inst: Instruction, idx: int) -> usize {
    (idx + quotient_toward_zero(jump_offset(inst) as int, 4)) as usize
}

/// The prologue: `r9` and RISC-V `sp` get the stack base.
pub open spec fn prologue(c: CompilerConfig) -> Seq<SvmInstruction> {
    seq![
        SvmInstruction::mov64_imm(SvmRegister::R9, c.stack_base as i32),
        SvmInstruction::mov64_imm(SvmRegister::R1, reg_addr(c, Register::SP) as i32),
        SvmInstruction::st(MemorySize::Word, SvmRegister::R1, 0, c.stack_base as i32),
    ]
}

/// The epilogue: `r0` gets RISC-V `a0`, then the program exits.
pub open spec fn epilogue(c: CompilerConfig) -> Seq<SvmInstruction> {
    load_code(c, SvmRegister::R0, Register::A0) + seq![SvmInstruction::exit()]
}

/// The prologue followed by the code of the first `k` instructions.
pub open spec fn code_upto(c: CompilerConfig, instrs: Seq<Instruction>, k: nat) -> Seq<SvmInstruction>
    decreases k,
{
    if k == 0 {
        prologue(c)
    } else {
        code_upto(c, instrs, (k - 1) as nat) + inst_code(c, instrs[k - 1], k - 1)
    }
}

/// Where the code of instruction `k` starts (for `k` the number of instructions:
/// where the code after the last one starts).
pub open spec fn start_of(c: CompilerConfig, instrs: Seq<Instruction>, k: nat) -> nat {
    code_upto(c, instrs, k).len()
}

/// Where each instruction's code starts, for indices `0` to `instrs.len()`.
pub open spec fn position_map(c: CompilerConfig, instrs: Seq<Instruction>) -> Seq<usize> {
    Seq::new((instrs.len() + 1) as nat, |i: int| start_of(c, instrs, i as nat) as usize)
}

/// The jumps of the first `k` instructions' branches and JALs still to be resolved:
/// the jump's position and the index of the instruction it goes to.
pub open spec fn direct_jumps(c: CompilerConfig, instrs: Seq<Instruction>, k: nat) -> Seq<(usize, usize)>
    decreases k,
{
    if k == 0 {
        seq![]
    } else {
        let prev = direct_jumps(c, instrs, (k - 1) as nat);
        if is_direct_jump(instrs[k - 1]) {
            prev.push(((start_of(c, instrs, k) - 1) as usize, jump_target_index(instrs[k - 1], k - 1)))
        } else {
            prev
        }
    }
}

/// The return sites among the first `k` instructions: the index after each JAL that
/// saves its return address.
pub open spec fn return_sites(instrs: Seq<Instruction>, k: nat) -> Seq<usize>
    decreases k,
{
    if k == 0 {
        seq![]
    } else {
        let prev = return_sites(instrs, (k - 1) as nat);
        match instrs[k - 1] {
            Instruction::Jal { rd, .. } => if rd != Register::ZERO {
                prev.push(k as usize)
            } else {
                prev
            },
            _ => prev,
        }
    }
}

/// The positions of the jumps of the first `k` instructions' JALRs, which go to the
/// dispatch table.
pub open spec fn indirect_jumps(c: CompilerConfig, instrs: Seq<Instruction>, k: nat) -> Seq<usize>
    decreases k,
{
    if k == 0 {
        seq![]
    } else {
        let prev = indirect_jumps(c, instrs, (k - 1) as nat);
        if instrs[k - 1] is Jalr {
            prev.push((start_of(c, instrs, k) - 1) as usize)
        } else {
            prev
        }
    }
}

/// The word of the first unknown instruction among the first `k`.
pub open spec fn first_unknown(instrs: Seq<Instruction>, k: nat) -> Option<u32>
    decreases k,
{
    if k == 0 {
        None
    } else {
        match first_unknown(instrs, (k - 1) as nat) {
            Some(w) => Some(w),
            None => match instrs[k - 1] {
                Instruction::Unknown(w) => Some(w),
                _ => None,
            },
        }
    }
}

/// `p` with the jump at `at` given the offset that lands on `dest`, or the error
/// value `err` where that offset does not fit an `i16`.
pub open spec fn set_jump(p: Seq<SvmInstruction>, at: usize, dest: int, err: i32) -> Result<Seq<SvmInstruction>, i32> {
    let off = dest - at - 1;
    if off < i16::MIN || off > i16::MAX {
        Err(err)
    } else {
        Ok(p.update(at as int, SvmInstruction { offset: off as i16, ..p[at as int] }))
    }
}

/// Resolves the jumps `fixups` in order against `map`, stopping at the first whose
/// target has no position or whose offset does not fit; the error is the target.
pub open spec fn resolve(p: Seq<SvmInstruction>, fixups: Seq<(usize, usize)>, map: Seq<usize>) -> Result<Seq<SvmInstruction>, i32>
    decreases fixups.len(),
{
    if fixups.len() == 0 {
        Ok(p)
    } else {
        match resolve(p, fixups.drop_last(), map) {
            Err(e) => Err(e),
            Ok(q) => {
                let (at, target) = fixups.last();
                if target >= map.len() {
                    Err(target as i32)
                } else {
                    set_jump(q, at, map[target as int] as int, target as i32)
                }
            },
        }
    }
}

/// The dispatch table that JALR jumps to, which starts at position `start`: for
/// target address 0, the epilogue (`r0` gets `a0`, then exit), then for each return
/// site a comparison of `r1` with its byte
/// address and a jump to its code. The error is the site whose jump does not fit.
pub open spec fn dispatch_table(c: CompilerConfig, sites: Seq<usize>, start: int, map: Seq<usize>) -> Result<Seq<SvmInstruction>, i32>
    decreases sites.len(),
{
    if sites.len() == 0 {
        Ok(seq![SvmInstruction::jmp_imm(opcodes::JNE, SvmRegister::R1, 0, 5)] + epilogue(c))
    } else {
        match dispatch_table(c, sites.drop_last(), start, map) {
            Err(e) => Err(e),
            Ok(d) => {
                let site = sites.last();
                if site >= map.len() {
                    Err(site as i32)
                } else {
                    let at = start + d.len() + 1;
                    let off = map[site as int] - at - 1;
                    if off < i16::MIN || off > i16::MAX {
                        Err(site as i32)
                    } else {
                        Ok(d + seq![
                            SvmInstruction::jmp_imm(opcodes::JNE, SvmRegister::R1, byte_address(c, site as int), 1),
                            SvmInstruction::ja(off as i16),
                        ])
                    }
                }
            },
        }
    }
}

/// Points the JALR jumps at `ats` to the dispatch table at `start`; the error is
/// `start` where an offset does not fit.
pub open spec fn resolve_indirect(p: Seq<SvmInstruction>, ats: Seq<usize>, start: int) -> Result<Seq<SvmInstruction>, i32>
    decreases ats.len(),
{
    if ats.len() == 0 {
        Ok(p)
    } else {
        match resolve_indirect(p, ats.drop_last(), start) {
            Err(e) => Err(e),
            Ok(q) => set_jump(q, ats.last(), start, start as i32),
        }
    }
}

/// What compiling gives: a program, the word of the first unknown instruction, or the
/// target of the first jump that cannot be resolved.
pub enum Compiled {
    Program(Seq<SvmInstruction>),
    Unsupported(u32),
    BadTarget(i32),
}

/// The outcome of compiling `instrs` with `c`: prologue, each instruction's code with
/// its branches and JALs resolved, then (where there is a JALR) the dispatch table
/// and an exit, with the JALRs pointed at the table, then the epilogue.
pub open spec fn compile_outcome(c: CompilerConfig, instrs: Seq<Instruction>) -> Compiled {
    let n = instrs.len();
    match first_unknown(instrs, n) {
        Some(w) => Compiled::Unsupported(w),
        None => {
            let map = position_map(c, instrs);
            match resolve(code_upto(c, instrs, n), direct_jumps(c, instrs, n), map) {
                Err(t) => Compiled::BadTarget(t),
                Ok(p1) => if indirect_jumps(c, instrs, n).len() == 0 {
                    Compiled::Program(p1 + epilogue(c))
                } else {
                    let start = p1.len() as int;
                    match dispatch_table(c, return_sites(instrs, n), start, map) {
                        Err(t) => Compiled::BadTarget(t),
                        Ok(d) => match resolve_indirect(
                            p1 + d + seq![SvmInstruction::exit()],
                            indirect_jumps(c, instrs, n),
                            start,
                        ) {
                            Err(t) => Compiled::BadTarget(t),
                            Ok(p3) => Compiled::Program(p3 + epilogue(c)),
                        },
                    }
                },
            }
        },
    }
}

/// What the compiler asks of its input: fewer than `2^30` instructions (the most a
/// 32-bit address space holds) and a register file that ends inside the 64-bit
/// address space.
pub open spec fn compilable(c: CompilerConfig, n: nat) -> bool {
    n < 0x4000_0000 && config_fits(c)
}

/// A register file that ends inside the 64-bit address space.
pub open spec fn config_fits(c: CompilerConfig) -> bool {
    c.regfile_base <= u64::MAX - 124
}

/// Loading a RISC-V register takes at most four instructions, storing one at most two.
pub proof fn lemma_move_code_len(c: CompilerConfig, svm: SvmRegister, rv: Register)
    ensures
        load_code(c, svm, rv).len() <= 4,
        store_code(c, rv, svm).len() <= 2,
{
}

/// The length of each template.
proof fn lemma_template_lens(c: CompilerConfig, rd: Register, rs1: Register, rs2: Register)
    ensures
        forall|op: u8| #[trigger] r_type_code(c, rd, rs1, rs2, op).len() <= 13,
        forall|imm: i32, op: u8| #[trigger] i_type_code(c, rd, rs1, imm, op).len() <= 9,
        forall|r: bool, a: bool| #[trigger] shift_code(c, rd, rs1, rs2, r, a).len() <= 16,
        forall|s: u32, r: bool, a: bool| #[trigger] shift_imm_code(c, rd, rs1, s, r, a).len() <= 11,
        forall|sg: bool| #[trigger] slt_code(c, rd, rs1, rs2, sg).len() <= 13,
        forall|imm: i32, sg: bool| #[trigger] slti_code(c, rd, rs1, imm, sg).len() <= 9,
        forall|imm: i32, sz: MemorySize, sg: bool| #[trigger] load_mem_code(c, rd, rs1, imm, sz, sg).len() <= 11,
        forall|imm: i32, sz: MemorySize| #[trigger] store_mem_code(c, rs1, rs2, imm, sz).len() <= 11,
        forall|op: u8| 1 <= #[trigger] branch_code(c, rs1, rs2, op).len() <= 9,
        forall|idx: int| 1 <= #[trigger] jal_code(c, rd, idx).len() <= 4,
        forall|imm: i32, idx: int| 1 <= #[trigger] jalr_code(c, rd, rs1, imm, idx).len() <= 10,
        forall|v: i32| #[trigger] constant_code(c, rd, v).len() <= 3,
        forall|a: bool, b: bool| #[trigger] mulh_code(c, rd, rs1, rs2, a, b).len() <= 18,
        forall|sg: bool| #[trigger] div_code(c, rd, rs1, rs2, sg).len() <= 22,
        forall|sg: bool| #[trigger] rem_code(c, rd, rs1, rs2, sg).len() <= 25,
{
    let r1 = SvmRegister::R1;
    let r2 = SvmRegister::R2;
    lemma_move_code_len(c, r1, rs1);
    lemma_move_code_len(c, r2, rs2);
    lemma_move_code_len(c, r1, rd);
    lemma_move_code_len(c, r2, rd);
    lemma_move_code_len(c, SvmRegister::R3, rd);
    reveal(r_type_code);
    reveal(i_type_code);
    reveal(shift_code);
    reveal(shift_imm_code);
    reveal(slt_code);
    reveal(slti_code);
    reveal(load_mem_code);
    reveal(store_mem_code);
    reveal(branch_code);
    reveal(jal_code);
    reveal(jalr_code);
    reveal(constant_code);
    reveal(mulh_code);
    reveal(div_code);
    reveal(rem_code);
}

/// No instruction's code is longer than 25 instructions, and a branch's, JAL's or
/// JALR's is not empty.
#[verifier::spinoff_prover]
#[verifier::rlimit(40)]
pub proof fn lemma_inst_code_len(c: CompilerConfig, inst: Instruction, idx: int)
    ensures
        inst_code(c, inst, idx).len() <= 25,
        is_direct_jump(inst) || inst is Jalr ==> inst_code(c, inst, idx).len() >= 1,
{
    reveal(inst_code);
    let (rd, rs1, rs2) = match inst {
        Instruction::Add { rd, rs1, rs2 } | Instruction::Sub { rd, rs1, rs2 }
        | Instruction::Xor { rd, rs1, rs2 } | Instruction::Or { rd, rs1, rs2 }
        | Instruction::And { rd, rs1, rs2 } | Instruction::Sll { rd, rs1, rs2 }
        | Instruction::Srl { rd, rs1, rs2 } | Instruction::Sra { rd, rs1, rs2 }
        | Instruction::Slt { rd, rs1, rs2 } | Instruction::Sltu { rd, rs1, rs2 }
        | Instruction::Mul { rd, rs1, rs2 } | Instruction::Mulh { rd, rs1, rs2 }
        | Instruction::Mulhsu { rd, rs1, rs2 } | Instruction::Mulhu { rd, rs1, rs2 }
        | Instruction::Div { rd, rs1, rs2 } | Instruction::Divu { rd, rs1, rs2 }
        | Instruction::Rem { rd, rs1, rs2 } | Instruction::Remu { rd, rs1, rs2 } => (rd, rs1, rs2),
        Instruction::Addi { rd, rs1, .. } | Instruction::Xori { rd, rs1, .. }
        | Instruction::Ori { rd, rs1, .. } | Instruction::Andi { rd, rs1, .. }
        | Instruction::Slli { rd, rs1, .. } | Instruction::Srli { rd, rs1, .. }
        | Instruction::Srai { rd, rs1, .. } | Instruction::Slti { rd, rs1, .. }
        | Instruction::Sltiu { rd, rs1, .. } | Instruction::Lb { rd, rs1, .. }
        | Instruction::Lh { rd, rs1, .. } | Instruction::Lw { rd, rs1, .. }
        | Instruction::Lbu { rd, rs1, .. } | Instruction::Lhu { rd, rs1, .. }
        | Instruction::Jalr { rd, rs1, .. } => (rd, rs1, Register::ZERO),
        Instruction::Sb { rs1, rs2, .. } | Instruction::Sh { rs1, rs2, .. }
        | Instruction::Sw { rs1, rs2, .. } | Instruction::Beq { rs1, rs2, .. }
        | Instruction::Bne { rs1, rs2, .. } | Instruction::Blt { rs1, rs2, .. }
        | Instruction::Bge { rs1, rs2, .. } | Instruction::Bltu { rs1, rs2, .. }
        | Instruction::Bgeu { rs1, rs2, .. } => (Register::ZERO, rs1, rs2),
        Instruction::Jal { rd, .. } | Instruction::Lui { rd, .. } | Instruction::Auipc { rd, .. }
        | Instruction::Csrrw { rd, .. } | Instruction::Csrrs { rd, .. }
        | Instruction::Csrrc { rd, .. } | Instruction::Csrrwi { rd, .. }
        | Instruction::Csrrsi { rd, .. } | Instruction::Csrrci { rd, .. } => (rd, Register::ZERO, Register::ZERO),
        _ => (Register::ZERO, Register::ZERO, Register::ZERO),
    };
    lemma_template_lens(c, rd, rs1, rs2);
    lemma_move_code_len(c, SvmRegister::R0, Register::A0);
}

/// The code of the first `k` instructions is the prologue and at most 25
/// instructions for each, and it begins with the code of any fewer instructions.
pub proof fn lemma_code_upto(c: CompilerConfig, instrs: Seq<Instruction>, k: nat)
    requires
        k <= instrs.len(),
    ensures
        3 <= start_of(c, instrs, k) <= 3 + 25 * k,
        forall|i: nat| i <= k ==> #[trigger] code_upto(c, instrs, k).subrange(0, start_of(c, instrs, i) as int)
            == code_upto(c, instrs, i),
        forall|i: nat| i <= k ==> #[trigger] start_of(c, instrs, i) <= start_of(c, instrs, k),
    decreases k,
{
    if k > 0 {
        let j = (k - 1) as nat;
        lemma_code_upto(c, instrs, j);
        lemma_inst_code_len(c, instrs[j as int], j as int);
        let whole = code_upto(c, instrs, k);
        let prev = code_upto(c, instrs, j);
        assert forall|i: nat| i <= k implies #[trigger] whole.subrange(0, start_of(c, instrs, i) as int)
            == code_upto(c, instrs, i) by {
            if i < k {
                assert(whole.subrange(0, start_of(c, instrs, i) as int) =~= prev.subrange(0, start_of(c, instrs, i) as int));
            } else {
                assert(whole.subrange(0, start_of(c, instrs, i) as int) =~= whole);
            }
        }
        assert forall|i: nat| i <= k implies #[trigger] start_of(c, instrs, i) <= start_of(c, instrs, k) by {
            if i < k {
                assert(start_of(c, instrs, i) <= start_of(c, instrs, j));
            }
        }
    } else {
        assert(code_upto(c, instrs, 0).subrange(0, start_of(c, instrs, 0) as int) =~= code_upto(c, instrs, 0));
    }
}

/// The jumps recorded for the first `k` instructions lie in their code.
pub proof fn lemma_jumps_in_code(c: CompilerConfig, instrs: Seq<Instruction>, k: nat)
    requires
        k <= instrs.len(),
        k <= usize::MAX,
        start_of(c, instrs, k) <= usize::MAX,
    ensures
        direct_jumps(c, instrs, k).len() <= k,
        forall|m: int| 0 <= m < direct_jumps(c, instrs, k).len() ==> #[trigger] direct_jumps(c, instrs, k)[m].0 < start_of(c, instrs, k),
        indirect_jumps(c, instrs, k).len() <= k,
        forall|m: int| 0 <= m < indirect_jumps(c, instrs, k).len() ==> #[trigger] indirect_jumps(c, instrs, k)[m] < start_of(c, instrs, k),
        return_sites(instrs, k).len() <= k,
        forall|m: int| 0 <= m < return_sites(instrs, k).len() ==> 1 <= #[trigger] return_sites(instrs, k)[m] <= k,
    decreases k,
{
    if k > 0 {
        let j = (k - 1) as nat;
        lemma_jumps_in_code(c, instrs, j);
        lemma_code_upto(c, instrs, k);
        lemma_inst_code_len(c, instrs[j as int], j as int);
    }
}

/// Once an unknown instruction is found, it stays the first.
pub proof fn lemma_first_unknown_stays(instrs: Seq<Instruction>, k: nat, n: nat)
    requires
        k <= n,
        first_unknown(instrs, k) is Some,
    ensures
        first_unknown(instrs, n) == first_unknown(instrs, k),
    decreases n,
{
    if n > k {
        lemma_first_unknown_stays(instrs, k, (n - 1) as nat);
    }
}

/// A jump that cannot be resolved stops the resolution of any longer list.
pub proof fn lemma_resolve_stops(p: Seq<SvmInstruction>, fixups: Seq<(usize, usize)>, map: Seq<usize>, k: int)
    requires
        0 <= k <= fixups.len(),
        resolve(p, fixups.take(k), map) is Err,
    ensures
        resolve(p, fixups, map) == resolve(p, fixups.take(k), map),
    decreases fixups.len(),
{
    if k < fixups.len() {
        assert(fixups.drop_last().take(k) =~= fixups.take(k));
        lemma_resolve_stops(p, fixups.drop_last(), map, k);
    } else {
        assert(fixups.take(k) =~= fixups);
    }
}

/// Resolving one more jump.
pub proof fn lemma_resolve_next(p: Seq<SvmInstruction>, fixups: Seq<(usize, usize)>, map: Seq<usize>, k: int)
    requires
        0 <= k < fixups.len(),
    ensures
        resolve(p, fixups.take(k + 1), map) == (match resolve(p, fixups.take(k), map) {
            Err(e) => Err(e),
            Ok(q) => {
                let (at, target) = fixups[k];
                if target >= map.len() {
                    Err(target as i32)
                } else {
                    set_jump(q, at, map[target as int] as int, target as i32)
                }
            },
        }),
{
    assert(fixups.take(k + 1).drop_last() =~= fixups.take(k));
}

/// Resolution keeps the length and changes nothing but the jumps' offsets.
pub proof fn lemma_resolve_len(p: Seq<SvmInstruction>, fixups: Seq<(usize, usize)>, map: Seq<usize>)
    requires
        forall|m: int| 0 <= m < fixups.len() ==> #[trigger] fixups[m].0 < p.len(),
    ensures
        resolve(p, fixups, map) matches Ok(q) ==> q.len() == p.len(),
    decreases fixups.len(),
{
    if fixups.len() > 0 {
        lemma_resolve_len(p, fixups.drop_last(), map);
    }
}

/// The same for the JALR jumps.
pub proof fn lemma_resolve_indirect_stops(p: Seq<SvmInstruction>, ats: Seq<usize>, start: int, k: int)
    requires
        0 <= k <= ats.len(),
        resolve_indirect(p, ats.take(k), start) is Err,
    ensures
        resolve_indirect(p, ats, start) == resolve_indirect(p, ats.take(k), start),
    decreases ats.len(),
{
    if k < ats.len() {
        assert(ats.drop_last().take(k) =~= ats.take(k));
        lemma_resolve_indirect_stops(p, ats.drop_last(), start, k);
    } else {
        assert(ats.take(k) =~= ats);
    }
}

/// Resolving one more JALR jump.
pub proof fn lemma_resolve_indirect_next(p: Seq<SvmInstruction>, ats: Seq<usize>, start: int, k: int)
    requires
        0 <= k < ats.len(),
    ensures
        resolve_indirect(p, ats.take(k + 1), start) == (match resolve_indirect(p, ats.take(k), start) {
            Err(e) => Err(e),
            Ok(q) => set_jump(q, ats[k], start, start as i32),
        }),
{
    assert(ats.take(k + 1).drop_last() =~= ats.take(k));
}

/// A return site whose jump does not fit stops the table.
pub proof fn lemma_dispatch_stops(c: CompilerConfig, sites: Seq<usize>, start: int, map: Seq<usize>, k: int)
    requires
        0 <= k <= sites.len(),
        dispatch_table(c, sites.take(k), start, map) is Err,
    ensures
        dispatch_table(c, sites, start, map) == dispatch_table(c, sites.take(k), start, map),
    decreases sites.len(),
{
    if k < sites.len() {
        assert(sites.drop_last().take(k) =~= sites.take(k));
        lemma_dispatch_stops(c, sites.drop_last(), start, map, k);
    } else {
        assert(sites.take(k) =~= sites);
    }
}

/// The table with one more return site; it has two entries per site after its
/// first six.
pub proof fn lemma_dispatch_next(c: CompilerConfig, sites: Seq<usize>, start: int, map: Seq<usize>, k: int)
    requires
        0 <= k < sites.len(),
    ensures
        dispatch_table(c, sites.take(k + 1), start, map) == (match dispatch_table(c, sites.take(k), start, map) {
            Err(e) => Err(e),
            Ok(d) => {
                let site = sites[k];
                if site >= map.len() {
                    Err(site as i32)
                } else {
                    let at = start + d.len() + 1;
                    let off = map[site as int] - at - 1;
                    if off < i16::MIN || off > i16::MAX {
                        Err(site as i32)
                    } else {
                        Ok(d + seq![
                            SvmInstruction::jmp_imm(opcodes::JNE, SvmRegister::R1, byte_address(c, site as int), 1),
                            SvmInstruction::ja(off as i16),
                        ])
                    }
                }
            },
        }),
{
    assert(sites.take(k + 1).drop_last() =~= sites.take(k));
}

/// The table begins with its check for target address 0: a jump past the epilogue
/// where `r1` is not 0, then the epilogue.
pub proof fn lemma_dispatch_head(c: CompilerConfig, sites: Seq<usize>, start: int, map: Seq<usize>)
    ensures
        dispatch_table(c, sites, start, map) matches Ok(d) ==> d.len() >= 6 && d.subrange(0, 6) == seq![
            SvmInstruction::jmp_imm(opcodes::JNE, SvmRegister::R1, 0, 5),
        ] + epilogue(c),
    decreases sites.len(),
{
    if sites.len() > 0 {
        lemma_dispatch_head(c, sites.drop_last(), start, map);
        if dispatch_table(c, sites, start, map) is Ok {
            let d0 = dispatch_table(c, sites.drop_last(), start, map)->Ok_0;
            let d = dispatch_table(c, sites, start, map)->Ok_0;
            assert(d.subrange(0, 6) =~= d0.subrange(0, 6));
        }
    } else {
        if dispatch_table(c, sites, start, map) is Ok {
            let d = dispatch_table(c, sites, start, map)->Ok_0;
            assert(d.subrange(0, 6) =~= d);
        }
    }
}

/// The table has six entries for its start and two for each return site.
pub proof fn lemma_dispatch_len(c: CompilerConfig, sites: Seq<usize>, start: int, map: Seq<usize>)
    ensures
        dispatch_table(c, sites, start, map) matches Ok(d) ==> d.len() == 6 + 2 * sites.len(),
    decreases sites.len(),
{
    if sites.len() > 0 {
        lemma_dispatch_len(c, sites.drop_last(), start, map);
    }
}

} // verus!
