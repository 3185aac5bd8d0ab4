//! RISC-V rv32im instructions and registers.

use vstd::prelude::*;
use crate::text::{hex_fixed_text, hex_text, push_decimal, push_hex, push_hex_fixed, push_signed, signed_text, decimal_text};

verus! {

/// A RISC-V integer register, `x0` to `x31`, named by its ABI name.
#[derive(Debug, Clone, Copy, PartialEq, Eq, Hash, Structural)]
pub enum Register {
    /// `x0`
    ZERO,
    /// `x1`
    RA,
    /// `x2`
    SP,
    /// `x3`
    GP,
    /// `x4`
    TP,
    /// `x5`
    T0,
    /// `x6`
    T1,
    /// `x7`
    T2,
    /// `x8`
    S0,
    /// `x9`
    S1,
    /// `x10`
    A0,
    /// `x11`
    A1,
    /// `x12`
    A2,
    /// `x13`
    A3,
    /// `x14`
    A4,
    /// `x15`
    A5,
    /// `x16`
    A6,
    /// `x17`
    A7,
    /// `x18`
    S2,
    /// `x19`
    S3,
    /// `x20`
    S4,
    /// `x21`
    S5,
    /// `x22`
    S6,
    /// `x23`
    S7,
    /// `x24`
    S8,
    /// `x25`
    S9,
    /// `x26`
    S10,
    /// `x27`
    S11,
    /// `x28`
    T3,
    /// `x29`
    T4,
    /// `x30`
    T5,
    /// `x31`
    T6,
}

impl Register {
    /// The frame pointer, another name for `s0`.
    pub const FP: Register = Register::S0;

    /// The register's number, `0` to `31`.
    pub open spec fn spec_index(self) -> usize {
        match self {
            Register::ZERO => 0,
            Register::RA => 1,
            Register::SP => 2,
            Register::GP => 3,
            Register::TP => 4,
            Register::T0 => 5,
            Register::T1 => 6,
            Register::T2 => 7,
            Register::S0 => 8,
            Register::S1 => 9,
            Register::A0 => 10,
            Register::A1 => 11,
            Register::A2 => 12,
            Register::A3 => 13,
            Register::A4 => 14,
            Register::A5 => 15,
            Register::A6 => 16,
            Register::A7 => 17,
            Register::S2 => 18,
            Register::S3 => 19,
            Register::S4 => 20,
            Register::S5 => 21,
            Register::S6 => 22,
            Register::S7 => 23,
            Register::S8 => 24,
            Register::S9 => 25,
            Register::S10 => 26,
            Register::S11 => 27,
            Register::T3 => 28,
            Register::T4 => 29,
            Register::T5 => 30,
            Register::T6 => 31,
        }
    }

    /// The register `x{val}`; numbers above 31 give `x31`.
    pub open spec fn spec_new(val: u8) -> Register {
        match val {
            0 => Register::ZERO,
            1 => Register::RA,
            2 => Register::SP,
            3 => Register::GP,
            4 => Register::TP,
            5 => Register::T0,
            6 => Register::T1,
            7 => Register::T2,
            8 => Register::S0,
            9 => Register::S1,
            10 => Register::A0,
            11 => Register::A1,
            12 => Register::A2,
            13 => Register::A3,
            14 => Register::A4,
            15 => Register::A5,
            16 => Register::A6,
            17 => Register::A7,
            18 => Register::S2,
            19 => Register::S3,
            20 => Register::S4,
            21 => Register::S5,
            22 => Register::S6,
            23 => Register::S7,
            24 => Register::S8,
            25 => Register::S9,
            26 => Register::S10,
            27 => Register::S11,
            28 => Register::T3,
            29 => Register::T4,
            30 => Register::T5,
            _ => Register::T6,
        }
    }

    /// The register `x{val}`.
    #[verifier::when_used_as_spec(spec_new)]
    pub fn new(val: u8) -> (r: Register)
        requires
            val < 32,
        ensures
            r.index() == val,
            r == Register::spec_new(val),
    {
        match val {
            0 => Register::ZERO,
            1 => Register::RA,
            2 => Register::SP,
            3 => Register::GP,
            4 => Register::TP,
            5 => Register::T0,
            6 => Register::T1,
            7 => Register::T2,
            8 => Register::S0,
            9 => Register::S1,
            10 => Register::A0,
            11 => Register::A1,
            12 => Register::A2,
            13 => Register::A3,
            14 => Register::A4,
            15 => Register::A5,
            16 => Register::A6,
            17 => Register::A7,
            18 => Register::S2,
            19 => Register::S3,
            20 => Register::S4,
            21 => Register::S5,
            22 => Register::S6,
            23 => Register::S7,
            24 => Register::S8,
            25 => Register::S9,
            26 => Register::S10,
            27 => Register::S11,
            28 => Register::T3,
            29 => Register::T4,
            30 => Register::T5,
            _ => Register::T6,
        }
    }

    /// The register's number, `0` to `31`.
    #[verifier::when_used_as_spec(spec_index)]
    pub fn index(self) -> (i: usize)
        ensures
            i == self.spec_index(),
            i < 32,
    {
        match self {
            Register::ZERO => 0,
            Register::RA => 1,
            Register::SP => 2,
            Register::GP => 3,
            Register::TP => 4,
            Register::T0 => 5,
            Register::T1 => 6,
            Register::T2 => 7,
            Register::S0 => 8,
            Register::S1 => 9,
            Register::A0 => 10,
            Register::A1 => 11,
            Register::A2 => 12,
            Register::A3 => 13,
            Register::A4 => 14,
            Register::A5 => 15,
            Register::A6 => 16,
            Register::A7 => 17,
            Register::S2 => 18,
            Register::S3 => 19,
            Register::S4 => 20,
            Register::S5 => 21,
            Register::S6 => 22,
            Register::S7 => 23,
            Register::S8 => 24,
            Register::S9 => 25,
            Register::S10 => 26,
            Register::S11 => 27,
            Register::T3 => 28,
            Register::T4 => 29,
            Register::T5 => 30,
            Register::T6 => 31,
        }
    }

    /// The register's ABI name as it is written in assembly (`zero`, `ra`, `a0`, ...).
    pub open spec fn name_text(self) -> Seq<char> {
        match self {
            Register::ZERO => "zero"@,
            Register::RA => "ra"@,
            Register::SP => "sp"@,
            Register::GP => "gp"@,
            Register::TP => "tp"@,
            Register::T0 => "t0"@,
            Register::T1 => "t1"@,
            Register::T2 => "t2"@,
            Register::S0 => "s0"@,
            Register::S1 => "s1"@,
            Register::A0 => "a0"@,
            Register::A1 => "a1"@,
            Register::A2 => "a2"@,
            Register::A3 => "a3"@,
            Register::A4 => "a4"@,
            Register::A5 => "a5"@,
            Register::A6 => "a6"@,
            Register::A7 => "a7"@,
            Register::S2 => "s2"@,
            Register::S3 => "s3"@,
            Register::S4 => "s4"@,
            Register::S5 => "s5"@,
            Register::S6 => "s6"@,
            Register::S7 => "s7"@,
            Register::S8 => "s8"@,
            Register::S9 => "s9"@,
            Register::S10 => "s10"@,
            Register::S11 => "s11"@,
            Register::T3 => "t3"@,
            Register::T4 => "t4"@,
            Register::T5 => "t5"@,
            Register::T6 => "t6"@,
        }
    }

    /// The register's ABI name as it is written in assembly.
    pub fn name(self) -> (s: &'static str)
        ensures
            s@ == self.name_text(),
    {
        match self {
            Register::ZERO => "zero",
            Register::RA => "ra",
            Register::SP => "sp",
            Register::GP => "gp",
            Register::TP => "tp",
            Register::T0 => "t0",
            Register::T1 => "t1",
            Register::T2 => "t2",
            Register::S0 => "s0",
            Register::S1 => "s1",
            Register::A0 => "a0",
            Register::A1 => "a1",
            Register::A2 => "a2",
            Register::A3 => "a3",
            Register::A4 => "a4",
            Register::A5 => "a5",
            Register::A6 => "a6",
            Register::A7 => "a7",
            Register::S2 => "s2",
            Register::S3 => "s3",
            Register::S4 => "s4",
            Register::S5 => "s5",
            Register::S6 => "s6",
            Register::S7 => "s7",
            Register::S8 => "s8",
            Register::S9 => "s9",
            Register::S10 => "s10",
            Register::S11 => "s11",
            Register::T3 => "t3",
            Register::T4 => "t4",
            Register::T5 => "t5",
            Register::T6 => "t6",
        }
    }
}

/// Two registers are the same register exactly when their numbers agree.
pub proof fn lemma_register_index_injective(a: Register, b: Register)
    ensures
        a.index() == b.index() <==> a == b,
{
}

/// Building a register from a register's number gives that register back.
pub proof fn lemma_register_new_of_index(r: Register)
    ensures
        Register::new(r.index() as u8) == r,
{
}

/// An rv32im instruction.
#[derive(Debug, Clone, Copy, PartialEq, Eq, Structural)]
pub enum Instruction {
    Add { rd: Register, rs1: Register, rs2: Register },
    Sub { rd: Register, rs1: Register, rs2: Register },
    Xor { rd: Register, rs1: Register, rs2: Register },
    Or { rd: Register, rs1: Register, rs2: Register },
    And { rd: Register, rs1: Register, rs2: Register },
    Sll { rd: Register, rs1: Register, rs2: Register },
    Srl { rd: Register, rs1: Register, rs2: Register },
    Sra { rd: Register, rs1: Register, rs2: Register },
    Slt { rd: Register, rs1: Register, rs2: Register },
    Sltu { rd: Register, rs1: Register, rs2: Register },
    Addi { rd: Register, rs1: Register, imm: i32 },
    Xori { rd: Register, rs1: Register, imm: i32 },
    Ori { rd: Register, rs1: Register, imm: i32 },
    Andi { rd: Register, rs1: Register, imm: i32 },
    Slli { rd: Register, rs1: Register, shamt: u32 },
    Srli { rd: Register, rs1: Register, shamt: u32 },
    Srai { rd: Register, rs1: Register, shamt: u32 },
    Slti { rd: Register, rs1: Register, imm: i32 },
    Sltiu { rd: Register, rs1: Register, imm: i32 },
    Lb { rd: Register, rs1: Register, imm: i32 },
    Lh { rd: Register, rs1: Register, imm: i32 },
    Lw { rd: Register, rs1: Register, imm: i32 },
    Lbu { rd: Register, rs1: Register, imm: i32 },
    Lhu { rd: Register, rs1: Register, imm: i32 },
    Sb { rs1: Register, rs2: Register, imm: i32 },
    Sh { rs1: Register, rs2: Register, imm: i32 },
    Sw { rs1: Register, rs2: Register, imm: i32 },
    Beq { rs1: Register, rs2: Register, imm: i32 },
    Bne { rs1: Register, rs2: Register, imm: i32 },
    Blt { rs1: Register, rs2: Register, imm: i32 },
    Bge { rs1: Register, rs2: Register, imm: i32 },
    Bltu { rs1: Register, rs2: Register, imm: i32 },
    Bgeu { rs1: Register, rs2: Register, imm: i32 },
    Jal { rd: Register, imm: i32 },
    Jalr { rd: Register, rs1: Register, imm: i32 },
    Lui { rd: Register, imm: i32 },
    Auipc { rd: Register, imm: i32 },
    Ecall,
    Ebreak,
    Fence { pred: u8, succ: u8 },
    FenceI,
    Csrrw { rd: Register, rs1: Register, csr: u16 },
    Csrrs { rd: Register, rs1: Register, csr: u16 },
    Csrrc { rd: Register, rs1: Register, csr: u16 },
    Csrrwi { rd: Register, uimm: u8, csr: u16 },
    Csrrsi { rd: Register, uimm: u8, csr: u16 },
    Csrrci { rd: Register, uimm: u8, csr: u16 },
    Mul { rd: Register, rs1: Register, rs2: Register },
    Mulh { rd: Register, rs1: Register, rs2: Register },
    Mulhsu { rd: Register, rs1: Register, rs2: Register },
    Mulhu { rd: Register, rs1: Register, rs2: Register },
    Div { rd: Register, rs1: Register, rs2: Register },
    Divu { rd: Register, rs1: Register, rs2: Register },
    Rem { rd: Register, rs1: Register, rs2: Register },
    Remu { rd: Register, rs1: Register, rs2: Register },
    /// A word that encodes no rv32im instruction.
    Unknown(u32),
}

impl Instruction {
    /// The register the instruction writes, if it names one.
    pub open spec fn dest(self) -> Option<Register> {
        match self {
            Instruction::Add { rd, .. } => Some(rd),
            Instruction::Sub { rd, .. } => Some(rd),
            Instruction::Xor { rd, .. } => Some(rd),
            Instruction::Or { rd, .. } => Some(rd),
            Instruction::And { rd, .. } => Some(rd),
            Instruction::Sll { rd, .. } => Some(rd),
            Instruction::Srl { rd, .. } => Some(rd),
            Instruction::Sra { rd, .. } => Some(rd),
            Instruction::Slt { rd, .. } => Some(rd),
            Instruction::Sltu { rd, .. } => Some(rd),
            Instruction::Addi { rd, .. } => Some(rd),
            Instruction::Xori { rd, .. } => Some(rd),
            Instruction::Ori { rd, .. } => Some(rd),
            Instruction::Andi { rd, .. } => Some(rd),
            Instruction::Slli { rd, .. } => Some(rd),
            Instruction::Srli { rd, .. } => Some(rd),
            Instruction::Srai { rd, .. } => Some(rd),
            Instruction::Slti { rd, .. } => Some(rd),
            Instruction::Sltiu { rd, .. } => Some(rd),
            Instruction::Lb { rd, .. } => Some(rd),
            Instruction::Lh { rd, .. } => Some(rd),
            Instruction::Lw { rd, .. } => Some(rd),
            Instruction::Lbu { rd, .. } => Some(rd),
            Instruction::Lhu { rd, .. } => Some(rd),
            Instruction::Jal { rd, .. } => Some(rd),
            Instruction::Jalr { rd, .. } => Some(rd),
            Instruction::Lui { rd, .. } => Some(rd),
            Instruction::Auipc { rd, .. } => Some(rd),
            Instruction::Csrrw { rd, .. } => Some(rd),
            Instruction::Csrrs { rd, .. } => Some(rd),
            Instruction::Csrrc { rd, .. } => Some(rd),
            Instruction::Csrrwi { rd, .. } => Some(rd),
            Instruction::Csrrsi { rd, .. } => Some(rd),
            Instruction::Csrrci { rd, .. } => Some(rd),
            Instruction::Mul { rd, .. } => Some(rd),
            Instruction::Mulh { rd, .. } => Some(rd),
            Instruction::Mulhsu { rd, .. } => Some(rd),
            Instruction::Mulhu { rd, .. } => Some(rd),
            Instruction::Div { rd, .. } => Some(rd),
            Instruction::Divu { rd, .. } => Some(rd),
            Instruction::Rem { rd, .. } => Some(rd),
            Instruction::Remu { rd, .. } => Some(rd),
            _ => None,
        }
    }

    /// Branches, jumps and the two environment instructions.
    pub open spec fn transfers_control(self) -> bool {
        self is Beq || self is Bne || self is Blt || self is Bge || self is Bltu || self is Bgeu || self is Jal || self is Jalr || self is Ecall || self is Ebreak
    }

    /// Returns the destination register if any.
    pub fn rd(&self) -> (r: Option<Register>)
        ensures
            r == self.dest(),
    {
        match *self {
            Instruction::Add { rd, .. } => Some(rd),
            Instruction::Sub { rd, .. } => Some(rd),
            Instruction::Xor { rd, .. } => Some(rd),
            Instruction::Or { rd, .. } => Some(rd),
            Instruction::And { rd, .. } => Some(rd),
            Instruction::Sll { rd, .. } => Some(rd),
            Instruction::Srl { rd, .. } => Some(rd),
            Instruction::Sra { rd, .. } => Some(rd),
            Instruction::Slt { rd, .. } => Some(rd),
            Instruction::Sltu { rd, .. } => Some(rd),
            Instruction::Addi { rd, .. } => Some(rd),
            Instruction::Xori { rd, .. } => Some(rd),
            Instruction::Ori { rd, .. } => Some(rd),
            Instruction::Andi { rd, .. } => Some(rd),
            Instruction::Slli { rd, .. } => Some(rd),
            Instruction::Srli { rd, .. } => Some(rd),
            Instruction::Srai { rd, .. } => Some(rd),
            Instruction::Slti { rd, .. } => Some(rd),
            Instruction::Sltiu { rd, .. } => Some(rd),
            Instruction::Lb { rd, .. } => Some(rd),
            Instruction::Lh { rd, .. } => Some(rd),
            Instruction::Lw { rd, .. } => Some(rd),
            Instruction::Lbu { rd, .. } => Some(rd),
            Instruction::Lhu { rd, .. } => Some(rd),
            Instruction::Jal { rd, .. } => Some(rd),
            Instruction::Jalr { rd, .. } => Some(rd),
            Instruction::Lui { rd, .. } => Some(rd),
            Instruction::Auipc { rd, .. } => Some(rd),
            Instruction::Csrrw { rd, .. } => Some(rd),
            Instruction::Csrrs { rd, .. } => Some(rd),
            Instruction::Csrrc { rd, .. } => Some(rd),
            Instruction::Csrrwi { rd, .. } => Some(rd),
            Instruction::Csrrsi { rd, .. } => Some(rd),
            Instruction::Csrrci { rd, .. } => Some(rd),
            Instruction::Mul { rd, .. } => Some(rd),
            Instruction::Mulh { rd, .. } => Some(rd),
            Instruction::Mulhsu { rd, .. } => Some(rd),
            Instruction::Mulhu { rd, .. } => Some(rd),
            Instruction::Div { rd, .. } => Some(rd),
            Instruction::Divu { rd, .. } => Some(rd),
            Instruction::Rem { rd, .. } => Some(rd),
            Instruction::Remu { rd, .. } => Some(rd),
            _ => None,
        }
    }

    /// Returns true if this is a branch or jump instruction
    pub fn is_control_flow(&self) -> (b: bool)
        ensures
            b == self.transfers_control(),
    {
        match *self {
            Instruction::Beq { .. } | Instruction::Bne { .. } | Instruction::Blt { .. } | Instruction::Bge { .. } | Instruction::Bltu { .. } | Instruction::Bgeu { .. } | Instruction::Jal { .. } | Instruction::Jalr { .. } | Instruction::Ecall | Instruction::Ebreak => true,
            _ => false,
        }
    }

    /// The instruction in assembly syntax (`add a0, a1, a2`, `lw a0, 8(sp)`, ...).
    pub open spec fn asm_text(self) -> Seq<char> {
        match self {
            Instruction::Add { rd, rs1, rs2 } => three_regs_text("add"@, rd, rs1, rs2),
            Instruction::Sub { rd, rs1, rs2 } => three_regs_text("sub"@, rd, rs1, rs2),
            Instruction::Xor { rd, rs1, rs2 } => three_regs_text("xor"@, rd, rs1, rs2),
            Instruction::Or { rd, rs1, rs2 } => three_regs_text("or"@, rd, rs1, rs2),
            Instruction::And { rd, rs1, rs2 } => three_regs_text("and"@, rd, rs1, rs2),
            Instruction::Sll { rd, rs1, rs2 } => three_regs_text("sll"@, rd, rs1, rs2),
            Instruction::Srl { rd, rs1, rs2 } => three_regs_text("srl"@, rd, rs1, rs2),
            Instruction::Sra { rd, rs1, rs2 } => three_regs_text("sra"@, rd, rs1, rs2),
            Instruction::Slt { rd, rs1, rs2 } => three_regs_text("slt"@, rd, rs1, rs2),
            Instruction::Sltu { rd, rs1, rs2 } => three_regs_text("sltu"@, rd, rs1, rs2),
            Instruction::Mul { rd, rs1, rs2 } => three_regs_text("mul"@, rd, rs1, rs2),
            Instruction::Mulh { rd, rs1, rs2 } => three_regs_text("mulh"@, rd, rs1, rs2),
            Instruction::Mulhsu { rd, rs1, rs2 } => three_regs_text("mulhsu"@, rd, rs1, rs2),
            Instruction::Mulhu { rd, rs1, rs2 } => three_regs_text("mulhu"@, rd, rs1, rs2),
            Instruction::Div { rd, rs1, rs2 } => three_regs_text("div"@, rd, rs1, rs2),
            Instruction::Divu { rd, rs1, rs2 } => three_regs_text("divu"@, rd, rs1, rs2),
            Instruction::Rem { rd, rs1, rs2 } => three_regs_text("rem"@, rd, rs1, rs2),
            Instruction::Remu { rd, rs1, rs2 } => three_regs_text("remu"@, rd, rs1, rs2),
            Instruction::Addi { rd, rs1, imm } => two_regs_imm_text("addi"@, rd, rs1, imm as int),
            Instruction::Xori { rd, rs1, imm } => two_regs_imm_text("xori"@, rd, rs1, imm as int),
            Instruction::Ori { rd, rs1, imm } => two_regs_imm_text("ori"@, rd, rs1, imm as int),
            Instruction::Andi { rd, rs1, imm } => two_regs_imm_text("andi"@, rd, rs1, imm as int),
            Instruction::Slti { rd, rs1, imm } => two_regs_imm_text("slti"@, rd, rs1, imm as int),
            Instruction::Sltiu { rd, rs1, imm } => two_regs_imm_text("sltiu"@, rd, rs1, imm as int),
            Instruction::Slli { rd, rs1, shamt } => two_regs_imm_text("slli"@, rd, rs1, shamt as int),
            Instruction::Srli { rd, rs1, shamt } => two_regs_imm_text("srli"@, rd, rs1, shamt as int),
            Instruction::Srai { rd, rs1, shamt } => two_regs_imm_text("srai"@, rd, rs1, shamt as int),
            Instruction::Lb { rd, rs1, imm } => offset_text("lb"@, rd, imm as int, rs1),
            Instruction::Lh { rd, rs1, imm } => offset_text("lh"@, rd, imm as int, rs1),
            Instruction::Lw { rd, rs1, imm } => offset_text("lw"@, rd, imm as int, rs1),
            Instruction::Lbu { rd, rs1, imm } => offset_text("lbu"@, rd, imm as int, rs1),
            Instruction::Lhu { rd, rs1, imm } => offset_text("lhu"@, rd, imm as int, rs1),
            Instruction::Sb { rs1, rs2, imm } => offset_text("sb"@, rs2, imm as int, rs1),
            Instruction::Sh { rs1, rs2, imm } => offset_text("sh"@, rs2, imm as int, rs1),
            Instruction::Sw { rs1, rs2, imm } => offset_text("sw"@, rs2, imm as int, rs1),
            Instruction::Beq { rs1, rs2, imm } => two_regs_imm_text("beq"@, rs1, rs2, imm as int),
            Instruction::Bne { rs1, rs2, imm } => two_regs_imm_text("bne"@, rs1, rs2, imm as int),
            Instruction::Blt { rs1, rs2, imm } => two_regs_imm_text("blt"@, rs1, rs2, imm as int),
            Instruction::Bge { rs1, rs2, imm } => two_regs_imm_text("bge"@, rs1, rs2, imm as int),
            Instruction::Bltu { rs1, rs2, imm } => two_regs_imm_text("bltu"@, rs1, rs2, imm as int),
            Instruction::Bgeu { rs1, rs2, imm } => two_regs_imm_text("bgeu"@, rs1, rs2, imm as int),
            Instruction::Jal { rd, imm } => reg_imm_text("jal"@, rd, imm as int),
            Instruction::Jalr { rd, rs1, imm } => offset_text("jalr"@, rd, imm as int, rs1),
            Instruction::Lui { rd, imm } => reg_imm_text("lui"@, rd, imm as int),
            Instruction::Auipc { rd, imm } => reg_imm_text("auipc"@, rd, imm as int),
            Instruction::Ecall => "ecall"@,
            Instruction::Ebreak => "ebreak"@,
            Instruction::Fence { pred, succ } => "fence "@ + decimal_text(pred as nat) + ", "@ + decimal_text(succ as nat),
            Instruction::FenceI => "fence.i"@,
            Instruction::Csrrw { rd, rs1, csr } => csr_text("csrrw"@, rd, csr, rs1.name_text()),
            Instruction::Csrrs { rd, rs1, csr } => csr_text("csrrs"@, rd, csr, rs1.name_text()),
            Instruction::Csrrc { rd, rs1, csr } => csr_text("csrrc"@, rd, csr, rs1.name_text()),
            Instruction::Csrrwi { rd, uimm, csr } => csr_text("csrrwi"@, rd, csr, decimal_text(uimm as nat)),
            Instruction::Csrrsi { rd, uimm, csr } => csr_text("csrrsi"@, rd, csr, decimal_text(uimm as nat)),
            Instruction::Csrrci { rd, uimm, csr } => csr_text("csrrci"@, rd, csr, decimal_text(uimm as nat)),
            Instruction::Unknown(raw) => ".word 0x"@ + hex_fixed_text(raw as nat, 8),
        }
    }

    /// The instruction in assembly syntax.
    pub fn to_text(&self) -> (s: String)
        ensures
            s@ == self.asm_text(),
    {
        match *self {
            Instruction::Add { rd, rs1, rs2 } => three_regs("add", rd, rs1, rs2),
            Instruction::Sub { rd, rs1, rs2 } => three_regs("sub", rd, rs1, rs2),
            Instruction::Xor { rd, rs1, rs2 } => three_regs("xor", rd, rs1, rs2),
            Instruction::Or { rd, rs1, rs2 } => three_regs("or", rd, rs1, rs2),
            Instruction::And { rd, rs1, rs2 } => three_regs("and", rd, rs1, rs2),
            Instruction::Sll { rd, rs1, rs2 } => three_regs("sll", rd, rs1, rs2),
            Instruction::Srl { rd, rs1, rs2 } => three_regs("srl", rd, rs1, rs2),
            Instruction::Sra { rd, rs1, rs2 } => three_regs("sra", rd, rs1, rs2),
            Instruction::Slt { rd, rs1, rs2 } => three_regs("slt", rd, rs1, rs2),
            Instruction::Sltu { rd, rs1, rs2 } => three_regs("sltu", rd, rs1, rs2),
            Instruction::Mul { rd, rs1, rs2 } => three_regs("mul", rd, rs1, rs2),
            Instruction::Mulh { rd, rs1, rs2 } => three_regs("mulh", rd, rs1, rs2),
            Instruction::Mulhsu { rd, rs1, rs2 } => three_regs("mulhsu", rd, rs1, rs2),
            Instruction::Mulhu { rd, rs1, rs2 } => three_regs("mulhu", rd, rs1, rs2),
            Instruction::Div { rd, rs1, rs2 } => three_regs("div", rd, rs1, rs2),
            Instruction::Divu { rd, rs1, rs2 } => three_regs("divu", rd, rs1, rs2),
            Instruction::Rem { rd, rs1, rs2 } => three_regs("rem", rd, rs1, rs2),
            Instruction::Remu { rd, rs1, rs2 } => three_regs("remu", rd, rs1, rs2),
            Instruction::Addi { rd, rs1, imm } => two_regs_imm("addi", rd, rs1, imm as i64),
            Instruction::Xori { rd, rs1, imm } => two_regs_imm("xori", rd, rs1, imm as i64),
            Instruction::Ori { rd, rs1, imm } => two_regs_imm("ori", rd, rs1, imm as i64),
            Instruction::Andi { rd, rs1, imm } => two_regs_imm("andi", rd, rs1, imm as i64),
            Instruction::Slti { rd, rs1, imm } => two_regs_imm("slti", rd, rs1, imm as i64),
            Instruction::Sltiu { rd, rs1, imm } => two_regs_imm("sltiu", rd, rs1, imm as i64),
            Instruction::Slli { rd, rs1, shamt } => two_regs_imm("slli", rd, rs1, shamt as i64),
            Instruction::Srli { rd, rs1, shamt } => two_regs_imm("srli", rd, rs1, shamt as i64),
            Instruction::Srai { rd, rs1, shamt } => two_regs_imm("srai", rd, rs1, shamt as i64),
            Instruction::Lb { rd, rs1, imm } => with_offset("lb", rd, imm, rs1),
            Instruction::Lh { rd, rs1, imm } => with_offset("lh", rd, imm, rs1),
            Instruction::Lw { rd, rs1, imm } => with_offset("lw", rd, imm, rs1),
            Instruction::Lbu { rd, rs1, imm } => with_offset("lbu", rd, imm, rs1),
            Instruction::Lhu { rd, rs1, imm } => with_offset("lhu", rd, imm, rs1),
            Instruction::Sb { rs1, rs2, imm } => with_offset("sb", rs2, imm, rs1),
            Instruction::Sh { rs1, rs2, imm } => with_offset("sh", rs2, imm, rs1),
            Instruction::Sw { rs1, rs2, imm } => with_offset("sw", rs2, imm, rs1),
            Instruction::Beq { rs1, rs2, imm } => two_regs_imm("beq", rs1, rs2, imm as i64),
            Instruction::Bne { rs1, rs2, imm } => two_regs_imm("bne", rs1, rs2, imm as i64),
            Instruction::Blt { rs1, rs2, imm } => two_regs_imm("blt", rs1, rs2, imm as i64),
            Instruction::Bge { rs1, rs2, imm } => two_regs_imm("bge", rs1, rs2, imm as i64),
            Instruction::Bltu { rs1, rs2, imm } => two_regs_imm("bltu", rs1, rs2, imm as i64),
            Instruction::Bgeu { rs1, rs2, imm } => two_regs_imm("bgeu", rs1, rs2, imm as i64),
            Instruction::Jal { rd, imm } => reg_imm("jal", rd, imm),
            Instruction::Jalr { rd, rs1, imm } => with_offset("jalr", rd, imm, rs1),
            Instruction::Lui { rd, imm } => reg_imm("lui", rd, imm),
            Instruction::Auipc { rd, imm } => reg_imm("auipc", rd, imm),
            Instruction::Ecall => String::from_str("ecall"),
            Instruction::Ebreak => String::from_str("ebreak"),
            Instruction::Fence { pred, succ } => {
                let mut s = String::from_str("fence ");
                push_decimal(&mut s, pred as u64);
                s.append(", ");
                push_decimal(&mut s, succ as u64);
                s
            },
            Instruction::FenceI => String::from_str("fence.i"),
            Instruction::Csrrw { rd, rs1, csr } => {
                let mut s = csr_prefix("csrrw", rd, csr);
                s.append(rs1.name());
                s
            },
            Instruction::Csrrs { rd, rs1, csr } => {
                let mut s = csr_prefix("csrrs", rd, csr);
                s.append(rs1.name());
                s
            },
            Instruction::Csrrc { rd, rs1, csr } => {
                let mut s = csr_prefix("csrrc", rd, csr);
                s.append(rs1.name());
                s
            },
            Instruction::Csrrwi { rd, uimm, csr } => {
                let mut s = csr_prefix("csrrwi", rd, csr);
                push_decimal(&mut s, uimm as u64);
                s
            },
            Instruction::Csrrsi { rd, uimm, csr } => {
                let mut s = csr_prefix("csrrsi", rd, csr);
                push_decimal(&mut s, uimm as u64);
                s
            },
            Instruction::Csrrci { rd, uimm, csr } => {
                let mut s = csr_prefix("csrrci", rd, csr);
                push_decimal(&mut s, uimm as u64);
                s
            },
            Instruction::Unknown(raw) => {
                let mut s = String::from_str(".word 0x");
                push_hex_fixed(&mut s, raw as u64, 8);
                s
            },
        }
    }
}

/// The assembly text of each instruction: its mnemonic, a space, then its operands
/// separated by `, ` in assembly order: the destination first; a load or JALR
/// writes its source as `offset(base)`, and a store writes the data register, then
/// `offset(base)`; a branch writes its two sources, then the offset; a CSR
/// instruction writes the CSR number in hexadecimal before its source.
pub proof fn lemma_assembly_layout(inst: Instruction)
    ensures
        (inst matches Instruction::Add { rd, rs1, rs2 } ==> inst.asm_text() == "add"@ + " "@ + rd.name_text() + ", "@ + rs1.name_text() + ", "@ + rs2.name_text()),
        (inst matches Instruction::Sub { rd, rs1, rs2 } ==> inst.asm_text() == "sub"@ + " "@ + rd.name_text() + ", "@ + rs1.name_text() + ", "@ + rs2.name_text()),
        (inst matches Instruction::Xor { rd, rs1, rs2 } ==> inst.asm_text() == "xor"@ + " "@ + rd.name_text() + ", "@ + rs1.name_text() + ", "@ + rs2.name_text()),
        (inst matches Instruction::Or { rd, rs1, rs2 } ==> inst.asm_text() == "or"@ + " "@ + rd.name_text() + ", "@ + rs1.name_text() + ", "@ + rs2.name_text()),
        (inst matches Instruction::And { rd, rs1, rs2 } ==> inst.asm_text() == "and"@ + " "@ + rd.name_text() + ", "@ + rs1.name_text() + ", "@ + rs2.name_text()),
        (inst matches Instruction::Sll { rd, rs1, rs2 } ==> inst.asm_text() == "sll"@ + " "@ + rd.name_text() + ", "@ + rs1.name_text() + ", "@ + rs2.name_text()),
        (inst matches Instruction::Srl { rd, rs1, rs2 } ==> inst.asm_text() == "srl"@ + " "@ + rd.name_text() + ", "@ + rs1.name_text() + ", "@ + rs2.name_text()),
        (inst matches Instruction::Sra { rd, rs1, rs2 } ==> inst.asm_text() == "sra"@ + " "@ + rd.name_text() + ", "@ + rs1.name_text() + ", "@ + rs2.name_text()),
        (inst matches Instruction::Slt { rd, rs1, rs2 } ==> inst.asm_text() == "slt"@ + " "@ + rd.name_text() + ", "@ + rs1.name_text() + ", "@ + rs2.name_text()),
        (inst matches Instruction::Sltu { rd, rs1, rs2 } ==> inst.asm_text() == "sltu"@ + " "@ + rd.name_text() + ", "@ + rs1.name_text() + ", "@ + rs2.name_text()),
        (inst matches Instruction::Mul { rd, rs1, rs2 } ==> inst.asm_text() == "mul"@ + " "@ + rd.name_text() + ", "@ + rs1.name_text() + ", "@ + rs2.name_text()),
        (inst matches Instruction::Mulh { rd, rs1, rs2 } ==> inst.asm_text() == "mulh"@ + " "@ + rd.name_text() + ", "@ + rs1.name_text() + ", "@ + rs2.name_text()),
        (inst matches Instruction::Mulhsu { rd, rs1, rs2 } ==> inst.asm_text() == "mulhsu"@ + " "@ + rd.name_text() + ", "@ + rs1.name_text() + ", "@ + rs2.name_text()),
        (inst matches Instruction::Mulhu { rd, rs1, rs2 } ==> inst.asm_text() == "mulhu"@ + " "@ + rd.name_text() + ", "@ + rs1.name_text() + ", "@ + rs2.name_text()),
        (inst matches Instruction::Div { rd, rs1, rs2 } ==> inst.asm_text() == "div"@ + " "@ + rd.name_text() + ", "@ + rs1.name_text() + ", "@ + rs2.name_text()),
        (inst matches Instruction::Divu { rd, rs1, rs2 } ==> inst.asm_text() == "divu"@ + " "@ + rd.name_text() + ", "@ + rs1.name_text() + ", "@ + rs2.name_text()),
        (inst matches Instruction::Rem { rd, rs1, rs2 } ==> inst.asm_text() == "rem"@ + " "@ + rd.name_text() + ", "@ + rs1.name_text() + ", "@ + rs2.name_text()),
        (inst matches Instruction::Remu { rd, rs1, rs2 } ==> inst.asm_text() == "remu"@ + " "@ + rd.name_text() + ", "@ + rs1.name_text() + ", "@ + rs2.name_text()),
        (inst matches Instruction::Addi { rd, rs1, imm } ==> inst.asm_text() == "addi"@ + " "@ + rd.name_text() + ", "@ + rs1.name_text() + ", "@ + signed_text(imm as int)),
        (inst matches Instruction::Xori { rd, rs1, imm } ==> inst.asm_text() == "xori"@ + " "@ + rd.name_text() + ", "@ + rs1.name_text() + ", "@ + signed_text(imm as int)),
        (inst matches Instruction::Ori { rd, rs1, imm } ==> inst.asm_text() == "ori"@ + " "@ + rd.name_text() + ", "@ + rs1.name_text() + ", "@ + signed_text(imm as int)),
        (inst matches Instruction::Andi { rd, rs1, imm } ==> inst.asm_text() == "andi"@ + " "@ + rd.name_text() + ", "@ + rs1.name_text() + ", "@ + signed_text(imm as int)),
        (inst matches Instruction::Slti { rd, rs1, imm } ==> inst.asm_text() == "slti"@ + " "@ + rd.name_text() + ", "@ + rs1.name_text() + ", "@ + signed_text(imm as int)),
        (inst matches Instruction::Sltiu { rd, rs1, imm } ==> inst.asm_text() == "sltiu"@ + " "@ + rd.name_text() + ", "@ + rs1.name_text() + ", "@ + signed_text(imm as int)),
        (inst matches Instruction::Slli { rd, rs1, shamt } ==> inst.asm_text() == "slli"@ + " "@ + rd.name_text() + ", "@ + rs1.name_text() + ", "@ + signed_text(shamt as int)),
        (inst matches Instruction::Srli { rd, rs1, shamt } ==> inst.asm_text() == "srli"@ + " "@ + rd.name_text() + ", "@ + rs1.name_text() + ", "@ + signed_text(shamt as int)),
        (inst matches Instruction::Srai { rd, rs1, shamt } ==> inst.asm_text() == "srai"@ + " "@ + rd.name_text() + ", "@ + rs1.name_text() + ", "@ + signed_text(shamt as int)),
        (inst matches Instruction::Lb { rd, rs1, imm } ==> inst.asm_text() == "lb"@ + " "@ + rd.name_text() + ", "@ + signed_text(imm as int) + "("@ + rs1.name_text() + ")"@),
        (inst matches Instruction::Lh { rd, rs1, imm } ==> inst.asm_text() == "lh"@ + " "@ + rd.name_text() + ", "@ + signed_text(imm as int) + "("@ + rs1.name_text() + ")"@),
        (inst matches Instruction::Lw { rd, rs1, imm } ==> inst.asm_text() == "lw"@ + " "@ + rd.name_text() + ", "@ + signed_text(imm as int) + "("@ + rs1.name_text() + ")"@),
        (inst matches Instruction::Lbu { rd, rs1, imm } ==> inst.asm_text() == "lbu"@ + " "@ + rd.name_text() + ", "@ + signed_text(imm as int) + "("@ + rs1.name_text() + ")"@),
        (inst matches Instruction::Lhu { rd, rs1, imm } ==> inst.asm_text() == "lhu"@ + " "@ + rd.name_text() + ", "@ + signed_text(imm as int) + "("@ + rs1.name_text() + ")"@),
        (inst matches Instruction::Sb { rs1, rs2, imm } ==> inst.asm_text() == "sb"@ + " "@ + rs2.name_text() + ", "@ + signed_text(imm as int) + "("@ + rs1.name_text() + ")"@),
        (inst matches Instruction::Sh { rs1, rs2, imm } ==> inst.asm_text() == "sh"@ + " "@ + rs2.name_text() + ", "@ + signed_text(imm as int) + "("@ + rs1.name_text() + ")"@),
        (inst matches Instruction::Sw { rs1, rs2, imm } ==> inst.asm_text() == "sw"@ + " "@ + rs2.name_text() + ", "@ + signed_text(imm as int) + "("@ + rs1.name_text() + ")"@),
        (inst matches Instruction::Beq { rs1, rs2, imm } ==> inst.asm_text() == "beq"@ + " "@ + rs1.name_text() + ", "@ + rs2.name_text() + ", "@ + signed_text(imm as int)),
        (inst matches Instruction::Bne { rs1, rs2, imm } ==> inst.asm_text() == "bne"@ + " "@ + rs1.name_text() + ", "@ + rs2.name_text() + ", "@ + signed_text(imm as int)),
        (inst matches Instruction::Blt { rs1, rs2, imm } ==> inst.asm_text() == "blt"@ + " "@ + rs1.name_text() + ", "@ + rs2.name_text() + ", "@ + signed_text(imm as int)),
        (inst matches Instruction::Bge { rs1, rs2, imm } ==> inst.asm_text() == "bge"@ + " "@ + rs1.name_text() + ", "@ + rs2.name_text() + ", "@ + signed_text(imm as int)),
        (inst matches Instruction::Bltu { rs1, rs2, imm } ==> inst.asm_text() == "bltu"@ + " "@ + rs1.name_text() + ", "@ + rs2.name_text() + ", "@ + signed_text(imm as int)),
        (inst matches Instruction::Bgeu { rs1, rs2, imm } ==> inst.asm_text() == "bgeu"@ + " "@ + rs1.name_text() + ", "@ + rs2.name_text() + ", "@ + signed_text(imm as int)),
        (inst matches Instruction::Jal { rd, imm } ==> inst.asm_text() == "jal"@ + " "@ + rd.name_text() + ", "@ + signed_text(imm as int)),
        (inst matches Instruction::Jalr { rd, rs1, imm } ==> inst.asm_text() == "jalr"@ + " "@ + rd.name_text() + ", "@ + signed_text(imm as int) + "("@ + rs1.name_text() + ")"@),
        (inst matches Instruction::Lui { rd, imm } ==> inst.asm_text() == "lui"@ + " "@ + rd.name_text() + ", "@ + signed_text(imm as int)),
        (inst matches Instruction::Auipc { rd, imm } ==> inst.asm_text() == "auipc"@ + " "@ + rd.name_text() + ", "@ + signed_text(imm as int)),
        (inst is Ecall ==> inst.asm_text() == "ecall"@),
        (inst is Ebreak ==> inst.asm_text() == "ebreak"@),
        (inst is FenceI ==> inst.asm_text() == "fence.i"@),
        (inst matches Instruction::Fence { pred, succ } ==> inst.asm_text() == "fence "@ + decimal_text(pred as nat) + ", "@ + decimal_text(succ as nat)),
        (inst matches Instruction::Csrrw { rd, rs1, csr } ==> inst.asm_text() == "csrrw"@ + " "@ + rd.name_text() + ", 0x"@ + hex_text(csr as nat) + ", "@ + rs1.name_text()),
        (inst matches Instruction::Csrrs { rd, rs1, csr } ==> inst.asm_text() == "csrrs"@ + " "@ + rd.name_text() + ", 0x"@ + hex_text(csr as nat) + ", "@ + rs1.name_text()),
        (inst matches Instruction::Csrrc { rd, rs1, csr } ==> inst.asm_text() == "csrrc"@ + " "@ + rd.name_text() + ", 0x"@ + hex_text(csr as nat) + ", "@ + rs1.name_text()),
        (inst matches Instruction::Csrrwi { rd, uimm, csr } ==> inst.asm_text() == "csrrwi"@ + " "@ + rd.name_text() + ", 0x"@ + hex_text(csr as nat) + ", "@ + decimal_text(uimm as nat)),
        (inst matches Instruction::Csrrsi { rd, uimm, csr } ==> inst.asm_text() == "csrrsi"@ + " "@ + rd.name_text() + ", 0x"@ + hex_text(csr as nat) + ", "@ + decimal_text(uimm as nat)),
        (inst matches Instruction::Csrrci { rd, uimm, csr } ==> inst.asm_text() == "csrrci"@ + " "@ + rd.name_text() + ", 0x"@ + hex_text(csr as nat) + ", "@ + decimal_text(uimm as nat)),
        (inst matches Instruction::Unknown(raw) ==> inst.asm_text() == ".word 0x"@ + hex_fixed_text(raw as nat, 8)),
{
}

/// The ABI names of the registers by number: `x0` is `zero`, then `ra`, `sp`, `gp`,
/// `tp`, `t0`-`t2`, `s0`, `s1`, `a0`-`a7`, `s2`-`s11` and `t3`-`t6`.
pub proof fn lemma_register_names(r: Register)
    ensures
        r.index() == 0 ==> r.name_text() == "zero"@,
        r.index() == 1 ==> r.name_text() == "ra"@,
        r.index() == 2 ==> r.name_text() == "sp"@,
        r.index() == 3 ==> r.name_text() == "gp"@,
        r.index() == 4 ==> r.name_text() == "tp"@,
        r.index() == 5 ==> r.name_text() == "t0"@,
        r.index() == 6 ==> r.name_text() == "t1"@,
        r.index() == 7 ==> r.name_text() == "t2"@,
        r.index() == 8 ==> r.name_text() == "s0"@,
        r.index() == 9 ==> r.name_text() == "s1"@,
        r.index() == 10 ==> r.name_text() == "a0"@,
        r.index() == 11 ==> r.name_text() == "a1"@,
        r.index() == 12 ==> r.name_text() == "a2"@,
        r.index() == 13 ==> r.name_text() == "a3"@,
        r.index() == 14 ==> r.name_text() == "a4"@,
        r.index() == 15 ==> r.name_text() == "a5"@,
        r.index() == 16 ==> r.name_text() == "a6"@,
        r.index() == 17 ==> r.name_text() == "a7"@,
        r.index() == 18 ==> r.name_text() == "s2"@,
        r.index() == 19 ==> r.name_text() == "s3"@,
        r.index() == 20 ==> r.name_text() == "s4"@,
        r.index() == 21 ==> r.name_text() == "s5"@,
        r.index() == 22 ==> r.name_text() == "s6"@,
        r.index() == 23 ==> r.name_text() == "s7"@,
        r.index() == 24 ==> r.name_text() == "s8"@,
        r.index() == 25 ==> r.name_text() == "s9"@,
        r.index() == 26 ==> r.name_text() == "s10"@,
        r.index() == 27 ==> r.name_text() == "s11"@,
        r.index() == 28 ==> r.name_text() == "t3"@,
        r.index() == 29 ==> r.name_text() == "t4"@,
        r.index() == 30 ==> r.name_text() == "t5"@,
        r.index() == 31 ==> r.name_text() == "t6"@,
{
}

/// `m a, b, c`
pub open spec fn three_regs_text(m: Seq<char>, a: Register, b: Register, c: Register) -> Seq<char> {
    m + " "@ + a.name_text() + ", "@ + b.name_text() + ", "@ + c.name_text()
}

/// `m a, b, imm`
pub open spec fn two_regs_imm_text(m: Seq<char>, a: Register, b: Register, imm: int) -> Seq<char> {
    m + " "@ + a.name_text() + ", "@ + b.name_text() + ", "@ + signed_text(imm)
}

/// `m a, imm(base)`
pub open spec fn offset_text(m: Seq<char>, a: Register, imm: int, base: Register) -> Seq<char> {
    m + " "@ + a.name_text() + ", "@ + signed_text(imm) + "("@ + base.name_text() + ")"@
}

/// `m a, imm`
pub open spec fn reg_imm_text(m: Seq<char>, a: Register, imm: int) -> Seq<char> {
    m + " "@ + a.name_text() + ", "@ + signed_text(imm)
}

/// `m rd, 0xcsr, last`
pub open spec fn csr_text(m: Seq<char>, rd: Register, csr: u16, last: Seq<char>) -> Seq<char> {
    m + " "@ + rd.name_text() + ", 0x"@ + hex_text(csr as nat) + ", "@ + last
}

fn three_regs(m: &str, a: Register, b: Register, c: Register) -> (s: String)
    ensures
        s@ == three_regs_text(m@, a, b, c),
{
    let mut s = String::from_str(m);
    s.append(" ");
    s.append(a.name());
    s.append(", ");
    s.append(b.name());
    s.append(", ");
    s.append(c.name());
    s
}

fn two_regs_imm(m: &str, a: Register, b: Register, imm: i64) -> (s: String)
    ensures
        s@ == two_regs_imm_text(m@, a, b, imm as int),
{
    let mut s = String::from_str(m);
    s.append(" ");
    s.append(a.name());
    s.append(", ");
    s.append(b.name());
    s.append(", ");
    push_signed(&mut s, imm);
    s
}

fn with_offset(m: &str, a: Register, imm: i32, base: Register) -> (s: String)
    ensures
        s@ == offset_text(m@, a, imm as int, base),
{
    let mut s = String::from_str(m);
    s.append(" ");
    s.append(a.name());
    s.append(", ");
    push_signed(&mut s, imm as i64);
    s.append("(");
    s.append(base.name());
    s.append(")");
    s
}

fn reg_imm(m: &str, a: Register, imm: i32) -> (s: String)
    ensures
        s@ == reg_imm_text(m@, a, imm as int),
{
    let mut s = String::from_str(m);
    s.append(" ");
    s.append(a.name());
    s.append(", ");
    push_signed(&mut s, imm as i64);
    s
}

fn csr_prefix(m: &str, rd: Register, csr: u16) -> (s: String)
    ensures
        s@ + seq![] == m@ + " "@ + rd.name_text() + ", 0x"@ + hex_text(csr as nat) + ", "@,
{
    let mut s = String::from_str(m);
    s.append(" ");
    s.append(rd.name());
    s.append(", 0x");
    push_hex(&mut s, csr as u64);
    s.append(", ");
    assert(s@ + seq![] =~= s@);
    s
}

} // verus!
