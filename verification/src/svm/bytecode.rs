//! SVM (Solana BPF) bytecode definitions
//!
//! Solana uses a modified version of eBPF called sBPF.
//! Key characteristics:
//! - 64-bit registers (r0-r10)
//! - r0: return value
//! - r1-r5: function arguments
//! - r6-r9: callee-saved
//! - r10: stack frame pointer (read-only)
//! - 8-byte instructions (little-endian)

pub mod opcodes;

use vstd::prelude::*;
use super::little_endian::{le_bytes, le_value, lemma_bytes_of_value, lemma_value_of_bytes, lemma_byte_powers};
use crate::text::{decimal_text, plus_signed_text, signed_text, hex_fixed_text, push_decimal, push_signed, push_plus_signed, push_hex_fixed};
use super::semantics::charge;

verus! {

/// sBPF register
#[derive(Debug, Clone, Copy, PartialEq, Eq, Hash, Structural)]
pub enum SvmRegister {
    /// Return value
    R0,
    /// Arg 1
    R1,
    /// Arg 2
    R2,
    /// Arg 3
    R3,
    /// Arg 4
    R4,
    /// Arg 5
    R5,
    /// Callee-saved
    R6,
    /// Callee-saved
    R7,
    /// Callee-saved
    R8,
    /// Callee-saved
    R9,
    /// Stack frame pointer (read-only)
    R10,
}

impl SvmRegister {
    /// The register's number, `0` to `10`.
    pub open spec fn spec_number(self) -> u8 {
        match self {
            SvmRegister::R0 => 0,
            SvmRegister::R1 => 1,
            SvmRegister::R2 => 2,
            SvmRegister::R3 => 3,
            SvmRegister::R4 => 4,
            SvmRegister::R5 => 5,
            SvmRegister::R6 => 6,
            SvmRegister::R7 => 7,
            SvmRegister::R8 => 8,
            SvmRegister::R9 => 9,
            SvmRegister::R10 => 10,
        }
    }

    /// The register's number, `0` to `10`.
    #[verifier::when_used_as_spec(spec_number)]
    pub fn number(self) -> (n: u8)
        ensures
            n == self.spec_number(),
            n <= 10,
    {
        match self {
            SvmRegister::R0 => 0,
            SvmRegister::R1 => 1,
            SvmRegister::R2 => 2,
            SvmRegister::R3 => 3,
            SvmRegister::R4 => 4,
            SvmRegister::R5 => 5,
            SvmRegister::R6 => 6,
            SvmRegister::R7 => 7,
            SvmRegister::R8 => 8,
            SvmRegister::R9 => 9,
            SvmRegister::R10 => 10,
        }
    }

    /// The register `r{val}`.
    pub fn new(val: u8) -> (r: SvmRegister)
        requires
            val <= 10,
        ensures
            r.number() == val,
    {
        match val {
            0 => SvmRegister::R0,
            1 => SvmRegister::R1,
            2 => SvmRegister::R2,
            3 => SvmRegister::R3,
            4 => SvmRegister::R4,
            5 => SvmRegister::R5,
            6 => SvmRegister::R6,
            7 => SvmRegister::R7,
            8 => SvmRegister::R8,
            9 => SvmRegister::R9,
            _ => SvmRegister::R10,
        }
    }
}

/// Memory access size
#[derive(Debug, Clone, Copy, PartialEq, Eq, Structural)]
pub enum MemorySize {
    /// 8-bit
    Byte,
    /// 16-bit
    Half,
    /// 32-bit
    Word,
    /// 64-bit
    DWord,
}

impl MemorySize {
    /// The number of bytes an access of this size reads or writes.
    pub open spec fn bytes(self) -> nat {
        match self {
            MemorySize::Byte => 1,
            MemorySize::Half => 2,
            MemorySize::Word => 4,
            MemorySize::DWord => 8,
        }
    }
}

/// The opcode of a load from memory of the given size.
pub open spec fn ldx_opcode(size: MemorySize) -> u8 {
    match size {
        MemorySize::Byte => opcodes::LDX_B,
        MemorySize::Half => opcodes::LDX_H,
        MemorySize::Word => opcodes::LDX_W,
        MemorySize::DWord => opcodes::LDX_DW,
    }
}

/// The opcode of a store of an immediate of the given size.
pub open spec fn st_opcode(size: MemorySize) -> u8 {
    match size {
        MemorySize::Byte => opcodes::ST_B,
        MemorySize::Half => opcodes::ST_H,
        MemorySize::Word => opcodes::ST_W,
        MemorySize::DWord => opcodes::ST_DW,
    }
}

/// The opcode of a store of a register of the given size.
pub open spec fn stx_opcode(size: MemorySize) -> u8 {
    match size {
        MemorySize::Byte => opcodes::STX_B,
        MemorySize::Half => opcodes::STX_H,
        MemorySize::Word => opcodes::STX_W,
        MemorySize::DWord => opcodes::STX_DW,
    }
}

/// sBPF instruction (8 bytes)
#[derive(Debug, Clone, Copy, PartialEq, Eq, Structural)]
pub struct SvmInstruction {
    pub opcode: u8,
    pub dst: u8,
    pub src: u8,
    pub offset: i16,
    pub imm: i32,
}

/// The eight bytes of an instruction: the opcode, the source register in the high
/// and the destination register in the low four bits, the offset, then the immediate,
/// each little-endian.
pub open spec fn encoding(i: SvmInstruction) -> Seq<u8> {
    seq![i.opcode, (i.src << 4u8) | (i.dst & 0x0f)] + le_bytes((i.offset as u16) as nat, 2)
        + le_bytes((i.imm as u32) as nat, 4)
}

/// The instruction that eight bytes encode.
pub open spec fn decoding(b: Seq<u8>) -> SvmInstruction {
    SvmInstruction {
        opcode: b[0],
        dst: b[1] & 0x0f,
        src: (b[1] >> 4u8) & 0x0f,
        offset: (le_value(b.subrange(2, 4)) as u16) as i16,
        imm: (le_value(b.subrange(4, 8)) as u32) as i32,
    }
}

impl SvmInstruction {
    #[verifier::allow_in_spec]
    pub fn new(opcode: u8, dst: u8, src: u8, offset: i16, imm: i32) -> Self
        returns
            (SvmInstruction { opcode, dst, src, offset, imm }),
    {
        SvmInstruction { opcode, dst, src, offset, imm }
    }

    /// Encode instruction to bytes (little-endian)
    pub fn encode(&self) -> (bytes: [u8; 8])
        ensures
            bytes@ == encoding(*self),
    {
        let off = self.offset as u16;
        let imm = self.imm as u32;
        let bytes = [
            self.opcode,
            (self.src << 4u8) | (self.dst & 0x0f),
            (off & 0xff) as u8,
            (off >> 8u16) as u8,
            (imm & 0xff) as u8,
            ((imm >> 8u32) & 0xff) as u8,
            ((imm >> 16u32) & 0xff) as u8,
            (imm >> 24u32) as u8,
        ];
        proof {
            lemma_le_bytes_u16(off);
            lemma_le_bytes_u32(imm);
            assert(bytes@ =~= encoding(*self));
        }
        bytes
    }

    /// Decode instruction from bytes
    pub fn decode(bytes: &[u8; 8]) -> (inst: Self)
        ensures
            inst == decoding(bytes@),
    {
        let opcode = bytes[0];
        let dst = bytes[1] & 0x0f;
        let src = (bytes[1] >> 4u8) & 0x0f;
        let off = (bytes[2] as u16) | ((bytes[3] as u16) << 8u16);
        let imm = (bytes[4] as u32) | ((bytes[5] as u32) << 8u32) | ((bytes[6] as u32) << 16u32) | ((
        bytes[7] as u32) << 24u32);
        proof {
            let b = bytes@;
            lemma_le_value_2(b[2], b[3]);
            lemma_le_value_4(b[4], b[5], b[6], b[7]);
            assert(b.subrange(2, 4) =~= seq![b[2], b[3]]);
            assert(b.subrange(4, 8) =~= seq![b[4], b[5], b[6], b[7]]);
        }
        SvmInstruction { opcode, dst, src, offset: off as i16, imm: imm as i32 }
    }

    // Constructor helpers

    /// ALU64 register operation: dst = dst OP src
    #[verifier::allow_in_spec]
    pub fn alu64_reg(op: u8, dst: SvmRegister, src: SvmRegister) -> Self
        returns
            (SvmInstruction { opcode: opcodes::ALU64_REG | op, dst: dst.number(), src: src.number(), offset: 0, imm: 0 }),
    {
        SvmInstruction::new(opcodes::ALU64_REG | op, dst.number(), src.number(), 0, 0)
    }

    /// ALU64 immediate operation: dst = dst OP imm
    #[verifier::allow_in_spec]
    pub fn alu64_imm(op: u8, dst: SvmRegister, imm: i32) -> Self
        returns
            (SvmInstruction { opcode: opcodes::ALU64_IMM | op, dst: dst.number(), src: 0, offset: 0, imm: imm }),
    {
        SvmInstruction::new(opcodes::ALU64_IMM | op, dst.number(), 0, 0, imm)
    }

    /// ALU32 register operation: dst = (u32)dst OP (u32)src
    #[verifier::allow_in_spec]
    pub fn alu32_reg(op: u8, dst: SvmRegister, src: SvmRegister) -> Self
        returns
            (SvmInstruction { opcode: opcodes::ALU32_REG | op, dst: dst.number(), src: src.number(), offset: 0, imm: 0 }),
    {
        SvmInstruction::new(opcodes::ALU32_REG | op, dst.number(), src.number(), 0, 0)
    }

    /// ALU32 immediate operation: dst = (u32)dst OP (u32)imm
    #[verifier::allow_in_spec]
    pub fn alu32_imm(op: u8, dst: SvmRegister, imm: i32) -> Self
        returns
            (SvmInstruction { opcode: opcodes::ALU32_IMM | op, dst: dst.number(), src: 0, offset: 0, imm: imm }),
    {
        SvmInstruction::new(opcodes::ALU32_IMM | op, dst.number(), 0, 0, imm)
    }

    /// Jump (unconditional)
    #[verifier::allow_in_spec]
    pub fn ja(offset: i16) -> Self
        returns
            (SvmInstruction { opcode: opcodes::JMP_IMM | opcodes::JA, dst: 0, src: 0, offset: offset, imm: 0 }),
    {
        SvmInstruction::new(opcodes::JMP_IMM | opcodes::JA, 0, 0, offset, 0)
    }

    /// Jump conditional (register comparison)
    #[verifier::allow_in_spec]
    pub fn jmp_reg(op: u8, dst: SvmRegister, src: SvmRegister, offset: i16) -> Self
        returns
            (SvmInstruction { opcode: opcodes::JMP_REG | op, dst: dst.number(), src: src.number(), offset: offset, imm: 0 }),
    {
        SvmInstruction::new(opcodes::JMP_REG | op, dst.number(), src.number(), offset, 0)
    }

    /// Jump conditional (immediate comparison)
    #[verifier::allow_in_spec]
    pub fn jmp_imm(op: u8, dst: SvmRegister, imm: i32, offset: i16) -> Self
        returns
            (SvmInstruction { opcode: opcodes::JMP_IMM | op, dst: dst.number(), src: 0, offset: offset, imm: imm }),
    {
        SvmInstruction::new(opcodes::JMP_IMM | op, dst.number(), 0, offset, imm)
    }

    /// Jump conditional 32-bit (register comparison)
    #[verifier::allow_in_spec]
    pub fn jmp32_reg(op: u8, dst: SvmRegister, src: SvmRegister, offset: i16) -> Self
        returns
            (SvmInstruction { opcode: opcodes::JMP32_REG | op, dst: dst.number(), src: src.number(), offset: offset, imm: 0 }),
    {
        SvmInstruction::new(opcodes::JMP32_REG | op, dst.number(), src.number(), offset, 0)
    }

    /// Jump conditional 32-bit (immediate comparison)
    #[verifier::allow_in_spec]
    pub fn jmp32_imm(op: u8, dst: SvmRegister, imm: i32, offset: i16) -> Self
        returns
            (SvmInstruction { opcode: opcodes::JMP32_IMM | op, dst: dst.number(), src: 0, offset: offset, imm: imm }),
    {
        SvmInstruction::new(opcodes::JMP32_IMM | op, dst.number(), 0, offset, imm)
    }

    /// Call function
    #[verifier::allow_in_spec]
    pub fn call(func_id: i32) -> Self
        returns
            (SvmInstruction { opcode: opcodes::JMP_IMM | opcodes::CALL, dst: 0, src: 0, offset: 0, imm: func_id }),
    {
        SvmInstruction::new(opcodes::JMP_IMM | opcodes::CALL, 0, 0, 0, func_id)
    }

    /// Exit program
    #[verifier::allow_in_spec]
    pub fn exit() -> Self
        returns
            (SvmInstruction { opcode: opcodes::JMP_IMM | opcodes::EXIT, dst: 0, src: 0, offset: 0, imm: 0 }),
    {
        SvmInstruction::new(opcodes::JMP_IMM | opcodes::EXIT, 0, 0, 0, 0)
    }

    /// Load 64-bit immediate (takes 2 instruction slots)
    pub fn lddw(dst: SvmRegister, imm: i64) -> (r: [Self; 2])
        ensures
            r@ == seq![
                SvmInstruction { opcode: opcodes::LD_IMM_DW, dst: dst.number(), src: 0, offset: 0, imm: imm as i32 },
                SvmInstruction { opcode: 0, dst: 0, src: 0, offset: 0, imm: (imm >> 32u64) as i32 },
            ],
    {
        let r = [
            SvmInstruction::new(opcodes::LD_IMM_DW, dst.number(), 0, 0, imm as i32),
            SvmInstruction::new(0, 0, 0, 0, (imm >> 32u64) as i32),
        ];
        assert(r@ =~= seq![r[0], r[1]]);
        r
    }

    /// Load from memory: dst = *(size*)(src + offset)
    #[verifier::allow_in_spec]
    pub fn ldx(size: MemorySize, dst: SvmRegister, src: SvmRegister, offset: i16) -> Self
        returns
            (SvmInstruction { opcode: ldx_opcode(size), dst: dst.number(), src: src.number(), offset, imm: 0 }),
    {
        let opcode = match size {
            MemorySize::Byte => opcodes::LDX_B,
            MemorySize::Half => opcodes::LDX_H,
            MemorySize::Word => opcodes::LDX_W,
            MemorySize::DWord => opcodes::LDX_DW,
        };
        SvmInstruction::new(opcode, dst.number(), src.number(), offset, 0)
    }

    /// Store register to memory: *(size*)(dst + offset) = src
    #[verifier::allow_in_spec]
    pub fn stx(size: MemorySize, dst: SvmRegister, src: SvmRegister, offset: i16) -> Self
        returns
            (SvmInstruction { opcode: stx_opcode(size), dst: dst.number(), src: src.number(), offset, imm: 0 }),
    {
        let opcode = match size {
            MemorySize::Byte => opcodes::STX_B,
            MemorySize::Half => opcodes::STX_H,
            MemorySize::Word => opcodes::STX_W,
            MemorySize::DWord => opcodes::STX_DW,
        };
        SvmInstruction::new(opcode, dst.number(), src.number(), offset, 0)
    }

    /// Store immediate to memory: *(size*)(dst + offset) = imm
    #[verifier::allow_in_spec]
    pub fn st(size: MemorySize, dst: SvmRegister, offset: i16, imm: i32) -> Self
        returns
            (SvmInstruction { opcode: st_opcode(size), dst: dst.number(), src: 0, offset, imm }),
    {
        let opcode = match size {
            MemorySize::Byte => opcodes::ST_B,
            MemorySize::Half => opcodes::ST_H,
            MemorySize::Word => opcodes::ST_W,
            MemorySize::DWord => opcodes::ST_DW,
        };
        SvmInstruction::new(opcode, dst.number(), 0, offset, imm)
    }

    /// Move register: dst = src
    #[verifier::allow_in_spec]
    pub fn mov64_reg(dst: SvmRegister, src: SvmRegister) -> Self
        returns
            Self::alu64_reg(opcodes::MOV, dst, src),
    {
        Self::alu64_reg(opcodes::MOV, dst, src)
    }

    /// Move immediate: dst = imm
    #[verifier::allow_in_spec]
    pub fn mov64_imm(dst: SvmRegister, imm: i32) -> Self
        returns
            Self::alu64_imm(opcodes::MOV, dst, imm),
    {
        Self::alu64_imm(opcodes::MOV, dst, imm)
    }

    /// Move 32-bit register: dst = (u32)src
    #[verifier::allow_in_spec]
    pub fn mov32_reg(dst: SvmRegister, src: SvmRegister) -> Self
        returns
            Self::alu32_reg(opcodes::MOV, dst, src),
    {
        Self::alu32_reg(opcodes::MOV, dst, src)
    }

    /// Move 32-bit immediate: dst = (u32)imm
    #[verifier::allow_in_spec]
    pub fn mov32_imm(dst: SvmRegister, imm: i32) -> Self
        returns
            Self::alu32_imm(opcodes::MOV, dst, imm),
    {
        Self::alu32_imm(opcodes::MOV, dst, imm)
    }

    /// Add: dst += src
    #[verifier::allow_in_spec]
    pub fn add64_reg(dst: SvmRegister, src: SvmRegister) -> Self
        returns
            Self::alu64_reg(opcodes::ADD, dst, src),
    {
        Self::alu64_reg(opcodes::ADD, dst, src)
    }

    /// Add immediate: dst += imm
    #[verifier::allow_in_spec]
    pub fn add64_imm(dst: SvmRegister, imm: i32) -> Self
        returns
            Self::alu64_imm(opcodes::ADD, dst, imm),
    {
        Self::alu64_imm(opcodes::ADD, dst, imm)
    }

    /// Sub: dst -= src
    #[verifier::allow_in_spec]
    pub fn sub64_reg(dst: SvmRegister, src: SvmRegister) -> Self
        returns
            Self::alu64_reg(opcodes::SUB, dst, src),
    {
        Self::alu64_reg(opcodes::SUB, dst, src)
    }

    /// Sub immediate: dst -= imm
    #[verifier::allow_in_spec]
    pub fn sub64_imm(dst: SvmRegister, imm: i32) -> Self
        returns
            Self::alu64_imm(opcodes::SUB, dst, imm),
    {
        Self::alu64_imm(opcodes::SUB, dst, imm)
    }

    /// Mul: dst *= src
    #[verifier::allow_in_spec]
    pub fn mul64_reg(dst: SvmRegister, src: SvmRegister) -> Self
        returns
            Self::alu64_reg(opcodes::MUL, dst, src),
    {
        Self::alu64_reg(opcodes::MUL, dst, src)
    }

    /// Mul immediate: dst *= imm
    #[verifier::allow_in_spec]
    pub fn mul64_imm(dst: SvmRegister, imm: i32) -> Self
        returns
            Self::alu64_imm(opcodes::MUL, dst, imm),
    {
        Self::alu64_imm(opcodes::MUL, dst, imm)
    }

    /// Div: dst /= src (unsigned)
    #[verifier::allow_in_spec]
    pub fn div64_reg(dst: SvmRegister, src: SvmRegister) -> Self
        returns
            Self::alu64_reg(opcodes::DIV, dst, src),
    {
        Self::alu64_reg(opcodes::DIV, dst, src)
    }

    /// Div immediate: dst /= imm (unsigned)
    #[verifier::allow_in_spec]
    pub fn div64_imm(dst: SvmRegister, imm: i32) -> Self
        returns
            Self::alu64_imm(opcodes::DIV, dst, imm),
    {
        Self::alu64_imm(opcodes::DIV, dst, imm)
    }

    /// Signed div: dst /= src (signed)
    #[verifier::allow_in_spec]
    pub fn sdiv64_reg(dst: SvmRegister, src: SvmRegister) -> Self
        returns
            Self::alu64_reg(opcodes::SDIV, dst, src),
    {
        Self::alu64_reg(opcodes::SDIV, dst, src)
    }

    /// Mod: dst %= src (unsigned)
    #[verifier::allow_in_spec]
    pub fn mod64_reg(dst: SvmRegister, src: SvmRegister) -> Self
        returns
            Self::alu64_reg(opcodes::MOD, dst, src),
    {
        Self::alu64_reg(opcodes::MOD, dst, src)
    }

    /// And: dst &= src
    #[verifier::allow_in_spec]
    pub fn and64_reg(dst: SvmRegister, src: SvmRegister) -> Self
        returns
            Self::alu64_reg(opcodes::AND, dst, src),
    {
        Self::alu64_reg(opcodes::AND, dst, src)
    }

    /// And immediate: dst &= imm
    #[verifier::allow_in_spec]
    pub fn and64_imm(dst: SvmRegister, imm: i32) -> Self
        returns
            Self::alu64_imm(opcodes::AND, dst, imm),
    {
        Self::alu64_imm(opcodes::AND, dst, imm)
    }

    /// Or: dst |= src
    #[verifier::allow_in_spec]
    pub fn or64_reg(dst: SvmRegister, src: SvmRegister) -> Self
        returns
            Self::alu64_reg(opcodes::OR, dst, src),
    {
        Self::alu64_reg(opcodes::OR, dst, src)
    }

    /// Or immediate: dst |= imm
    #[verifier::allow_in_spec]
    pub fn or64_imm(dst: SvmRegister, imm: i32) -> Self
        returns
            Self::alu64_imm(opcodes::OR, dst, imm),
    {
        Self::alu64_imm(opcodes::OR, dst, imm)
    }

    /// Xor: dst ^= src
    #[verifier::allow_in_spec]
    pub fn xor64_reg(dst: SvmRegister, src: SvmRegister) -> Self
        returns
            Self::alu64_reg(opcodes::XOR, dst, src),
    {
        Self::alu64_reg(opcodes::XOR, dst, src)
    }

    /// Xor immediate: dst ^= imm
    #[verifier::allow_in_spec]
    pub fn xor64_imm(dst: SvmRegister, imm: i32) -> Self
        returns
            Self::alu64_imm(opcodes::XOR, dst, imm),
    {
        Self::alu64_imm(opcodes::XOR, dst, imm)
    }

    /// Left shift: dst <<= src
    #[verifier::allow_in_spec]
    pub fn lsh64_reg(dst: SvmRegister, src: SvmRegister) -> Self
        returns
            Self::alu64_reg(opcodes::LSH, dst, src),
    {
        Self::alu64_reg(opcodes::LSH, dst, src)
    }

    /// Left shift immediate: dst <<= imm
    #[verifier::allow_in_spec]
    pub fn lsh64_imm(dst: SvmRegister, imm: i32) -> Self
        returns
            Self::alu64_imm(opcodes::LSH, dst, imm),
    {
        Self::alu64_imm(opcodes::LSH, dst, imm)
    }

    /// Right shift (logical): dst >>= src
    #[verifier::allow_in_spec]
    pub fn rsh64_reg(dst: SvmRegister, src: SvmRegister) -> Self
        returns
            Self::alu64_reg(opcodes::RSH, dst, src),
    {
        Self::alu64_reg(opcodes::RSH, dst, src)
    }

    /// Right shift immediate (logical): dst >>= imm
    #[verifier::allow_in_spec]
    pub fn rsh64_imm(dst: SvmRegister, imm: i32) -> Self
        returns
            Self::alu64_imm(opcodes::RSH, dst, imm),
    {
        Self::alu64_imm(opcodes::RSH, dst, imm)
    }

    /// Arithmetic right shift: dst >>= src (signed)
    #[verifier::allow_in_spec]
    pub fn arsh64_reg(dst: SvmRegister, src: SvmRegister) -> Self
        returns
            Self::alu64_reg(opcodes::ARSH, dst, src),
    {
        Self::alu64_reg(opcodes::ARSH, dst, src)
    }

    /// Arithmetic right shift immediate: dst >>= imm (signed)
    #[verifier::allow_in_spec]
    pub fn arsh64_imm(dst: SvmRegister, imm: i32) -> Self
        returns
            Self::alu64_imm(opcodes::ARSH, dst, imm),
    {
        Self::alu64_imm(opcodes::ARSH, dst, imm)
    }

    /// Negate: dst = -dst
    #[verifier::allow_in_spec]
    pub fn neg64(dst: SvmRegister) -> Self
        returns
            Self::alu64_imm(opcodes::NEG, dst, 0),
    {
        Self::alu64_imm(opcodes::NEG, dst, 0)
    }

    /// 32-bit add
    #[verifier::allow_in_spec]
    pub fn add32_reg(dst: SvmRegister, src: SvmRegister) -> Self
        returns
            Self::alu32_reg(opcodes::ADD, dst, src),
    {
        Self::alu32_reg(opcodes::ADD, dst, src)
    }

    #[verifier::allow_in_spec]
    pub fn add32_imm(dst: SvmRegister, imm: i32) -> Self
        returns
            Self::alu32_imm(opcodes::ADD, dst, imm),
    {
        Self::alu32_imm(opcodes::ADD, dst, imm)
    }

    #[verifier::allow_in_spec]
    pub fn sub32_reg(dst: SvmRegister, src: SvmRegister) -> Self
        returns
            Self::alu32_reg(opcodes::SUB, dst, src),
    {
        Self::alu32_reg(opcodes::SUB, dst, src)
    }

    #[verifier::allow_in_spec]
    pub fn sub32_imm(dst: SvmRegister, imm: i32) -> Self
        returns
            Self::alu32_imm(opcodes::SUB, dst, imm),
    {
        Self::alu32_imm(opcodes::SUB, dst, imm)
    }

    #[verifier::allow_in_spec]
    pub fn mul32_reg(dst: SvmRegister, src: SvmRegister) -> Self
        returns
            Self::alu32_reg(opcodes::MUL, dst, src),
    {
        Self::alu32_reg(opcodes::MUL, dst, src)
    }

    #[verifier::allow_in_spec]
    pub fn mul32_imm(dst: SvmRegister, imm: i32) -> Self
        returns
            Self::alu32_imm(opcodes::MUL, dst, imm),
    {
        Self::alu32_imm(opcodes::MUL, dst, imm)
    }

    #[verifier::allow_in_spec]
    pub fn div32_reg(dst: SvmRegister, src: SvmRegister) -> Self
        returns
            Self::alu32_reg(opcodes::DIV, dst, src),
    {
        Self::alu32_reg(opcodes::DIV, dst, src)
    }

    #[verifier::allow_in_spec]
    pub fn sdiv32_reg(dst: SvmRegister, src: SvmRegister) -> Self
        returns
            Self::alu32_reg(opcodes::SDIV, dst, src),
    {
        Self::alu32_reg(opcodes::SDIV, dst, src)
    }

    #[verifier::allow_in_spec]
    pub fn mod32_reg(dst: SvmRegister, src: SvmRegister) -> Self
        returns
            Self::alu32_reg(opcodes::MOD, dst, src),
    {
        Self::alu32_reg(opcodes::MOD, dst, src)
    }

    #[verifier::allow_in_spec]
    pub fn and32_reg(dst: SvmRegister, src: SvmRegister) -> Self
        returns
            Self::alu32_reg(opcodes::AND, dst, src),
    {
        Self::alu32_reg(opcodes::AND, dst, src)
    }

    #[verifier::allow_in_spec]
    pub fn and32_imm(dst: SvmRegister, imm: i32) -> Self
        returns
            Self::alu32_imm(opcodes::AND, dst, imm),
    {
        Self::alu32_imm(opcodes::AND, dst, imm)
    }

    #[verifier::allow_in_spec]
    pub fn or32_reg(dst: SvmRegister, src: SvmRegister) -> Self
        returns
            Self::alu32_reg(opcodes::OR, dst, src),
    {
        Self::alu32_reg(opcodes::OR, dst, src)
    }

    #[verifier::allow_in_spec]
    pub fn or32_imm(dst: SvmRegister, imm: i32) -> Self
        returns
            Self::alu32_imm(opcodes::OR, dst, imm),
    {
        Self::alu32_imm(opcodes::OR, dst, imm)
    }

    #[verifier::allow_in_spec]
    pub fn xor32_reg(dst: SvmRegister, src: SvmRegister) -> Self
        returns
            Self::alu32_reg(opcodes::XOR, dst, src),
    {
        Self::alu32_reg(opcodes::XOR, dst, src)
    }

    #[verifier::allow_in_spec]
    pub fn xor32_imm(dst: SvmRegister, imm: i32) -> Self
        returns
            Self::alu32_imm(opcodes::XOR, dst, imm),
    {
        Self::alu32_imm(opcodes::XOR, dst, imm)
    }

    #[verifier::allow_in_spec]
    pub fn lsh32_reg(dst: SvmRegister, src: SvmRegister) -> Self
        returns
            Self::alu32_reg(opcodes::LSH, dst, src),
    {
        Self::alu32_reg(opcodes::LSH, dst, src)
    }

    #[verifier::allow_in_spec]
    pub fn lsh32_imm(dst: SvmRegister, imm: i32) -> Self
        returns
            Self::alu32_imm(opcodes::LSH, dst, imm),
    {
        Self::alu32_imm(opcodes::LSH, dst, imm)
    }

    #[verifier::allow_in_spec]
    pub fn rsh32_reg(dst: SvmRegister, src: SvmRegister) -> Self
        returns
            Self::alu32_reg(opcodes::RSH, dst, src),
    {
        Self::alu32_reg(opcodes::RSH, dst, src)
    }

    #[verifier::allow_in_spec]
    pub fn rsh32_imm(dst: SvmRegister, imm: i32) -> Self
        returns
            Self::alu32_imm(opcodes::RSH, dst, imm),
    {
        Self::alu32_imm(opcodes::RSH, dst, imm)
    }

    #[verifier::allow_in_spec]
    pub fn arsh32_reg(dst: SvmRegister, src: SvmRegister) -> Self
        returns
            Self::alu32_reg(opcodes::ARSH, dst, src),
    {
        Self::alu32_reg(opcodes::ARSH, dst, src)
    }

    #[verifier::allow_in_spec]
    pub fn arsh32_imm(dst: SvmRegister, imm: i32) -> Self
        returns
            Self::alu32_imm(opcodes::ARSH, dst, imm),
    {
        Self::alu32_imm(opcodes::ARSH, dst, imm)
    }

}

proof fn lemma_le_bytes_u16(v: u16)
    ensures
        le_bytes(v as nat, 2) == seq![(v & 0xff) as u8, (v >> 8u16) as u8],
{
    assert((v & 0xff) == v % 256 && (v >> 8u16) == v / 256) by (bit_vector);
    reveal_with_fuel(le_bytes, 3);
    assert(le_bytes(v as nat, 2) =~= seq![(v & 0xff) as u8, (v >> 8u16) as u8]);
}

proof fn lemma_le_bytes_u32(v: u32)
    ensures
        le_bytes(v as nat, 4) == seq![
            (v & 0xff) as u8,
            ((v >> 8u32) & 0xff) as u8,
            ((v >> 16u32) & 0xff) as u8,
            (v >> 24u32) as u8,
        ],
{
    assert((v & 0xff) == v % 256 && ((v >> 8u32) & 0xff) == (v / 256) % 256 && ((v >> 16u32)
        & 0xff) == ((v / 256) / 256) % 256 && (v >> 24u32) == ((v / 256) / 256) / 256)
        by (bit_vector);
    reveal_with_fuel(le_bytes, 5);
    assert(le_bytes(v as nat, 4) =~= seq![
        (v & 0xff) as u8,
        ((v >> 8u32) & 0xff) as u8,
        ((v >> 16u32) & 0xff) as u8,
        (v >> 24u32) as u8,
    ]);
}

proof fn lemma_le_value_2(b0: u8, b1: u8)
    ensures
        le_value(seq![b0, b1]) == ((b0 as u16) | ((b1 as u16) << 8u16)) as nat,
{
    reveal_with_fuel(le_value, 3);
    assert(seq![b0, b1].drop_first() =~= seq![b1]);
    assert(seq![b1].drop_first() =~= Seq::<u8>::empty());
    assert(((b0 as u16) | ((b1 as u16) << 8u16)) == b0 + 256 * b1) by (bit_vector);
}

proof fn lemma_le_value_4(b0: u8, b1: u8, b2: u8, b3: u8)
    ensures
        le_value(seq![b0, b1, b2, b3]) == ((b0 as u32) | ((b1 as u32) << 8u32) | ((b2 as u32)
            << 16u32) | ((b3 as u32) << 24u32)) as nat,
{
    reveal_with_fuel(le_value, 5);
    assert(seq![b0, b1, b2, b3].drop_first() =~= seq![b1, b2, b3]);
    assert(seq![b1, b2, b3].drop_first() =~= seq![b2, b3]);
    assert(seq![b2, b3].drop_first() =~= seq![b3]);
    assert(seq![b3].drop_first() =~= Seq::<u8>::empty());
    assert(((b0 as u32) | ((b1 as u32) << 8u32) | ((b2 as u32) << 16u32) | ((b3 as u32)
        << 24u32)) == b0 + 256 * (b1 + 256 * (b2 + 256 * b3))) by (bit_vector);
}

/// Decoding the encoding of an instruction gives the instruction back, provided its
/// register numbers fit the four bits the encoding keeps for each.
pub proof fn lemma_decode_encode(i: SvmInstruction)
    requires
        i.dst < 16,
        i.src < 16,
    ensures
        decoding(encoding(i)) == i,
{
    let b = encoding(i);
    lemma_value_of_bytes((i.offset as u16) as nat, 2);
    lemma_value_of_bytes((i.imm as u32) as nat, 4);
    lemma_byte_powers();
    assert(b.subrange(2, 4) =~= le_bytes((i.offset as u16) as nat, 2));
    assert(b.subrange(4, 8) =~= le_bytes((i.imm as u32) as nat, 4));
    vstd::arithmetic::div_mod::lemma_small_mod((i.offset as u16) as nat, 0x1_0000);
    vstd::arithmetic::div_mod::lemma_small_mod((i.imm as u32) as nat, 0x1_0000_0000);
    let (d, s) = (i.dst, i.src);
    assert(((s << 4u8) | (d & 0x0f)) & 0x0f == d && ((((s << 4u8) | (d & 0x0f)) >> 4u8) & 0x0f)
        == s) by (bit_vector)
        requires
            d < 16,
            s < 16,
    ;
    let o = i.offset;
    assert(((o as u16) as i16) == o) by (bit_vector);
    let m = i.imm;
    assert(((m as u32) as i32) == m) by (bit_vector);
}

/// Encoding the instruction that eight bytes decode to gives the same eight bytes.
pub proof fn lemma_encode_decode(b: Seq<u8>)
    requires
        b.len() == 8,
    ensures
        encoding(decoding(b)) == b,
{
    let i = decoding(b);
    let ob = b.subrange(2, 4);
    let ib = b.subrange(4, 8);
    lemma_bytes_of_value(ob);
    lemma_bytes_of_value(ib);
    lemma_byte_powers();
    let ov = le_value(ob);
    let iv = le_value(ib);
    let ov16 = ov as u16;
    let iv32 = iv as u32;
    assert(((ov16 as i16) as u16) == ov16) by (bit_vector);
    assert(((iv32 as i32) as u32) == iv32) by (bit_vector);
    let b1 = b[1];
    assert((((b1 >> 4u8) & 0x0f) << 4u8) | ((b1 & 0x0f) & 0x0f) == b1) by (bit_vector);
    assert(encoding(i) =~= b);
}
/// The mnemonic of an ALU operation code.
pub open spec fn alu_op_text(op: u8) -> Seq<char> {
    if op == opcodes::ADD {
        "add"@
    } else if op == opcodes::SUB {
        "sub"@
    } else if op == opcodes::MUL {
        "mul"@
    } else if op == opcodes::DIV {
        "div"@
    } else if op == opcodes::OR {
        "or"@
    } else if op == opcodes::AND {
        "and"@
    } else if op == opcodes::LSH {
        "lsh"@
    } else if op == opcodes::RSH {
        "rsh"@
    } else if op == opcodes::NEG {
        "neg"@
    } else if op == opcodes::MOD {
        "mod"@
    } else if op == opcodes::XOR {
        "xor"@
    } else if op == opcodes::MOV {
        "mov"@
    } else if op == opcodes::ARSH {
        "arsh"@
    } else if op == opcodes::SDIV {
        "sdiv"@
    } else {
        "unknown"@
    }
}

fn alu_op_name(op: u8) -> (s: &'static str)
    ensures
        s@ == alu_op_text(op),
{
    match op {
        opcodes::ADD => "add",
        opcodes::SUB => "sub",
        opcodes::MUL => "mul",
        opcodes::DIV => "div",
        opcodes::OR => "or",
        opcodes::AND => "and",
        opcodes::LSH => "lsh",
        opcodes::RSH => "rsh",
        opcodes::NEG => "neg",
        opcodes::MOD => "mod",
        opcodes::XOR => "xor",
        opcodes::MOV => "mov",
        opcodes::ARSH => "arsh",
        opcodes::SDIV => "sdiv",
        _ => "unknown",
    }
}

/// The mnemonic of a conditional jump operation code.
pub open spec fn jmp_op_text(op: u8) -> Seq<char> {
    if op == opcodes::JEQ {
        "jeq"@
    } else if op == opcodes::JGT {
        "jgt"@
    } else if op == opcodes::JGE {
        "jge"@
    } else if op == opcodes::JSET {
        "jset"@
    } else if op == opcodes::JNE {
        "jne"@
    } else if op == opcodes::JSGT {
        "jsgt"@
    } else if op == opcodes::JSGE {
        "jsge"@
    } else if op == opcodes::JLT {
        "jlt"@
    } else if op == opcodes::JLE {
        "jle"@
    } else if op == opcodes::JSLT {
        "jslt"@
    } else if op == opcodes::JSLE {
        "jsle"@
    } else {
        "unknown"@
    }
}

fn jmp_op_name(op: u8) -> (s: &'static str)
    ensures
        s@ == jmp_op_text(op),
{
    match op {
        opcodes::JEQ => "jeq",
        opcodes::JGT => "jgt",
        opcodes::JGE => "jge",
        opcodes::JSET => "jset",
        opcodes::JNE => "jne",
        opcodes::JSGT => "jsgt",
        opcodes::JSGE => "jsge",
        opcodes::JLT => "jlt",
        opcodes::JLE => "jle",
        opcodes::JSLT => "jslt",
        opcodes::JSLE => "jsle",
        _ => "unknown",
    }
}

/// An instruction in assembly syntax. The class is read from the low three opcode
/// bits, so register-operand ALU and jump instructions print in their immediate form.
pub open spec fn instruction_text(i: SvmInstruction) -> Seq<char> {
    let class = i.opcode & 0x07;
    let op = i.opcode & 0xf0;
    if class == 0x04 || class == 0x07 {
        alu_op_text(op) + (if class == 0x04 { "32"@ } else { "64"@ }) + " r"@ + decimal_text(i.dst as nat)
            + ", "@ + signed_text(i.imm as int)
    } else if class == 0x05 {
        if op == opcodes::JA {
            "ja "@ + plus_signed_text(i.offset as int)
        } else if op == opcodes::CALL {
            "call "@ + signed_text(i.imm as int)
        } else if op == opcodes::EXIT {
            "exit"@
        } else {
            jmp_op_text(op) + " r"@ + decimal_text(i.dst as nat) + ", "@ + signed_text(i.imm as int)
                + ", "@ + plus_signed_text(i.offset as int)
        }
    } else {
        "op=0x"@ + hex_fixed_text(i.opcode as nat, 2) + " dst="@ + decimal_text(i.dst as nat) + " src="@
            + decimal_text(i.src as nat) + " off="@ + signed_text(i.offset as int) + " imm="@
            + signed_text(i.imm as int)
    }
}

impl SvmRegister {
    /// The register as it is written in assembly: `r` and its number.
    pub fn to_text(self) -> (s: String)
        ensures
            s@ == "r"@ + decimal_text(self.number() as nat),
    {
        let mut s = String::from_str("r");
        push_decimal(&mut s, self.number() as u64);
        s
    }
}

impl SvmInstruction {
    /// The instruction in assembly syntax.
    pub fn to_text(&self) -> (s: String)
        ensures
            s@ == instruction_text(*self),
    {
        let class = self.opcode & 0x07;
        let op = self.opcode & 0xf0;
        let opcode = self.opcode;
        assert(opcode & 0x07 < 8) by (bit_vector);
        match class {
            0x04 | 0x07 => {
                // ALU32 or ALU64 immediate
                let width = if class == 0x04 { "32" } else { "64" };
                let mut s = String::from_str(alu_op_name(op));
                s.append(width);
                s.append(" r");
                push_decimal(&mut s, self.dst as u64);
                s.append(", ");
                push_signed(&mut s, self.imm as i64);
                s
            },
            0x0c | 0x0f => {
                // ALU32 or ALU64 register
                let width = if class == 0x0c { "32" } else { "64" };
                let mut s = String::from_str(alu_op_name(op));
                s.append(width);
                s.append(" r");
                push_decimal(&mut s, self.dst as u64);
                s.append(", r");
                push_decimal(&mut s, self.src as u64);
                s
            },
            0x05 => {
                // JMP immediate
                match op {
                    opcodes::JA => {
                        let mut s = String::from_str("ja ");
                        push_plus_signed(&mut s, self.offset as i64);
                        s
                    },
                    opcodes::CALL => {
                        let mut s = String::from_str("call ");
                        push_signed(&mut s, self.imm as i64);
                        s
                    },
                    opcodes::EXIT => String::from_str("exit"),
                    _ => {
                        let mut s = String::from_str(jmp_op_name(op));
                        s.append(" r");
                        push_decimal(&mut s, self.dst as u64);
                        s.append(", ");
                        push_signed(&mut s, self.imm as i64);
                        s.append(", ");
                        push_plus_signed(&mut s, self.offset as i64);
                        s
                    },
                }
            },
            0x0d => {
                // JMP register
                let mut s = String::from_str(jmp_op_name(op));
                s.append(" r");
                push_decimal(&mut s, self.dst as u64);
                s.append(", r");
                push_decimal(&mut s, self.src as u64);
                s.append(", ");
                push_plus_signed(&mut s, self.offset as i64);
                s
            },
            _ => {
                // Memory or other
                let mut s = String::from_str("op=0x");
                push_hex_fixed(&mut s, self.opcode as u64, 2);
                s.append(" dst=");
                push_decimal(&mut s, self.dst as u64);
                s.append(" src=");
                push_decimal(&mut s, self.src as u64);
                s.append(" off=");
                push_signed(&mut s, self.offset as i64);
                s.append(" imm=");
                push_signed(&mut s, self.imm as i64);
                s
            },
        }
    }
}

/// The compute units the cost model charges for an instruction: multiplication 10,
/// division and remainder 25, a call 100, other ALU and jump operations 1, the
/// 64-bit immediate load 1 and other memory operations 5. The class is read from the
/// low three opcode bits.
pub open spec fn cost_estimate(i: SvmInstruction) -> nat {
    let class = i.opcode & 0x07;
    let op = i.opcode & 0xf0;
    if class == 0x04 || class == 0x07 {
        if op == opcodes::MUL {
            10
        } else if op == opcodes::DIV || op == opcodes::MOD || op == opcodes::SDIV {
            25
        } else {
            1
        }
    } else if class == 0x05 {
        if op == opcodes::CALL {
            100
        } else {
            1
        }
    } else if i.opcode == opcodes::LD_IMM_DW {
        1
    } else {
        5
    }
}

/// An opcode's class in its low four bits and its operation in its high four; the
/// low three bits are those of the class.
pub proof fn lemma_opcode_fields(class: u8, op: u8)
    by (bit_vector)
    requires
        class < 16,
        op % 16 == 0,
    ensures
        class | op == class + op,
        (class | op) & 0x0f == class,
        (class | op) & 0xf0 == op,
        (class | op) & 0x07 == class % 8,
{
}

/// The cost estimate of the ALU operations and of the 64-bit jumps, whatever their
/// operands: a multiplication costs 10, a division or remainder (`DIV`, `MOD`,
/// `SDIV`) 25 and any other ALU operation 1; a call costs 100 and any other jump
/// 1. For these the estimate is what the machine charges when it runs them.
pub proof fn lemma_operation_costs(op: u8, d: SvmRegister, r: SvmRegister, imm: i32, off: i16)
    requires
        op % 16 == 0,
    ensures
        ({
            let alu: nat = if op == opcodes::MUL {
                10
            } else if op == opcodes::DIV || op == opcodes::MOD || op == opcodes::SDIV {
                25
            } else {
                1
            };
            let jump: nat = if op == opcodes::CALL { 100 } else { 1 };
            &&& cost_estimate(SvmInstruction::alu64_reg(op, d, r)) == alu
            &&& cost_estimate(SvmInstruction::alu64_imm(op, d, imm)) == alu
            &&& cost_estimate(SvmInstruction::alu32_reg(op, d, r)) == alu
            &&& cost_estimate(SvmInstruction::alu32_imm(op, d, imm)) == alu
            &&& cost_estimate(SvmInstruction::jmp_imm(op, d, imm, off)) == jump
            &&& cost_estimate(SvmInstruction::jmp_reg(op, d, r, off)) == jump
            &&& charge(SvmInstruction::alu64_reg(op, d, r)) == alu
            &&& charge(SvmInstruction::alu64_imm(op, d, imm)) == alu
            &&& charge(SvmInstruction::alu32_reg(op, d, r)) == alu
            &&& charge(SvmInstruction::alu32_imm(op, d, imm)) == alu
            &&& charge(SvmInstruction::jmp_imm(op, d, imm, off)) == jump
            &&& charge(SvmInstruction::jmp_reg(op, d, r, off)) == jump
        }),
        cost_estimate(SvmInstruction::mod64_reg(d, r)) == 25,
        cost_estimate(SvmInstruction::exit()) == 1,
{
    lemma_opcode_fields(opcodes::ALU64_REG, op);
    lemma_opcode_fields(opcodes::ALU64_IMM, op);
    lemma_opcode_fields(opcodes::ALU32_REG, op);
    lemma_opcode_fields(opcodes::ALU32_IMM, op);
    lemma_opcode_fields(opcodes::JMP_IMM, op);
    lemma_opcode_fields(opcodes::JMP_REG, op);
    lemma_opcode_fields(opcodes::ALU64_REG, opcodes::MOD);
    lemma_opcode_fields(opcodes::JMP_IMM, opcodes::EXIT);
}

/// The sum of the cost estimates of the instructions in `s`.
pub open spec fn total_cost(s: Seq<SvmInstruction>) -> nat
    decreases s.len(),
{
    if s.len() == 0 {
        0
    } else {
        total_cost(s.drop_last()) + cost_estimate(s.last())
    }
}

/// The encodings of the instructions in `s`, one after the other.
pub open spec fn program_encoding(s: Seq<SvmInstruction>) -> Seq<u8>
    decreases s.len(),
{
    if s.len() == 0 {
        seq![]
    } else {
        program_encoding(s.drop_last()) + encoding(s.last())
    }
}

/// The encoding of a program is eight bytes per instruction.
pub proof fn lemma_program_encoding_len(s: Seq<SvmInstruction>)
    ensures
        program_encoding(s).len() == 8 * s.len(),
    decreases s.len(),
{
    if s.len() > 0 {
        lemma_program_encoding_len(s.drop_last());
        lemma_value_of_bytes((s.last().offset as u16) as nat, 2);
        lemma_value_of_bytes((s.last().imm as u32) as nat, 4);
    }
}

/// Compute unit cost for each instruction type
/// Based on Solana's compute budget
fn instruction_cost(inst: &SvmInstruction) -> (cost: u64)
    ensures
        cost == cost_estimate(*inst),
{
    let class = inst.opcode & 0x07;
    let op = inst.opcode & 0xf0;
    let opcode = inst.opcode;
    assert(opcode & 0x07 < 8) by (bit_vector);
    match class {
        // ALU operations
        0x04 | 0x07 | 0x0c | 0x0f => {
            match op {
                opcodes::MUL => 10,
                opcodes::DIV | opcodes::MOD | opcodes::SDIV => 25,
                _ => 1,
            }
        },
        // Jump operations
        0x05 | 0x0d => {
            match op {
                opcodes::CALL => 100,
                opcodes::EXIT => 1,
                _ => 1,  // Branches
            }
        },
        // Memory operations
        _ => {
            if inst.opcode == opcodes::LD_IMM_DW {
                1
            } else {
                5  // Memory access
            }
        },
    }
}

/// SVM program
#[derive(Debug, Clone)]
pub struct SvmProgram {
    pub instructions: Vec<SvmInstruction>,
}

impl SvmProgram {
    pub fn new() -> (p: Self)
        ensures
            p.instructions@ == Seq::<SvmInstruction>::empty(),
    {
        SvmProgram { instructions: Vec::new() }
    }

    pub fn push(&mut self, inst: SvmInstruction)
        ensures
            final(self).instructions@ == old(self).instructions@.push(inst),
    {
        self.instructions.push(inst);
    }

    /// Appends the instructions of `insts`, in order.
    pub fn extend(&mut self, insts: Vec<SvmInstruction>)
        ensures
            final(self).instructions@ == old(self).instructions@ + insts@,
    {
        let mut k: usize = 0;
        while k < insts.len()
            invariant
                k <= insts.len(),
                self.instructions@ == old(self).instructions@ + insts@.take(k as int),
            decreases insts.len() - k,
        {
            self.instructions.push(insts[k]);
            assert(insts@.take(k + 1) =~= insts@.take(k as int).push(insts[k as int]));
            k = k + 1;
        }
        assert(insts@.take(k as int) =~= insts@);
    }

    /// Encode program to bytes
    pub fn encode(&self) -> (bytes: Vec<u8>)
        ensures
            bytes@ == program_encoding(self.instructions@),
            bytes@.len() == 8 * self.instructions@.len(),
    {
        let mut bytes: Vec<u8> = Vec::new();
        let mut k: usize = 0;
        while k < self.instructions.len()
            invariant
                k <= self.instructions.len(),
                bytes@ == program_encoding(self.instructions@.take(k as int)),
            decreases self.instructions.len() - k,
        {
            let enc = self.instructions[k].encode();
            let mut j: usize = 0;
            let ghost before = bytes@;
            while j < 8
                invariant
                    j <= 8,
                    enc@.len() == 8,
                    bytes@ == before + enc@.take(j as int),
                decreases 8 - j,
            {
                bytes.push(enc[j]);
                assert(enc@.take(j + 1) =~= enc@.take(j as int).push(enc@[j as int]));
                j = j + 1;
            }
            assert(enc@.take(8) =~= enc@);
            assert(self.instructions@.take(k + 1).drop_last() =~= self.instructions@.take(k as int));
            k = k + 1;
        }
        assert(self.instructions@.take(k as int) =~= self.instructions@);
        proof {
            lemma_program_encoding_len(self.instructions@);
        }
        bytes
    }

    /// Get number of instructions
    pub fn len(&self) -> (n: usize)
        ensures
            n == self.instructions@.len(),
    {
        self.instructions.len()
    }

    /// Check if program is empty
    pub fn is_empty(&self) -> (b: bool)
        ensures
            b == (self.instructions@.len() == 0),
    {
        self.instructions.len() == 0
    }

    /// Calculate compute cost (simplified model)
    /// In real Solana, compute units are more complex
    pub fn compute_cost(&self) -> (cost: u64)
        requires
            total_cost(self.instructions@) <= u64::MAX,
        ensures
            cost == total_cost(self.instructions@),
    {
        let mut cost = 0u64;
        let mut k: usize = 0;
        while k < self.instructions.len()
            invariant
                k <= self.instructions.len(),
                cost == total_cost(self.instructions@.take(k as int)),
                total_cost(self.instructions@) <= u64::MAX,
            decreases self.instructions.len() - k,
        {
            assert(self.instructions@.take(k + 1).drop_last() =~= self.instructions@.take(k as int));
            proof {
                lemma_total_cost_prefix(self.instructions@, k + 1);
            }
            cost = cost + instruction_cost(&self.instructions[k]);
            k = k + 1;
        }
        assert(self.instructions@.take(k as int) =~= self.instructions@);
        cost
    }
}

/// The cost of a prefix of a program is at most the cost of the program.
pub proof fn lemma_total_cost_prefix(s: Seq<SvmInstruction>, k: int)
    requires
        0 <= k <= s.len(),
    ensures
        total_cost(s.take(k)) <= total_cost(s),
    decreases s.len(),
{
    if k < s.len() {
        assert(s.drop_last().take(k) =~= s.take(k));
        lemma_total_cost_prefix(s.drop_last(), k);
    } else {
        assert(s.take(k) =~= s);
    }
}

impl Default for SvmProgram {
    fn default() -> (p: Self)
        ensures
            p.instructions@ == Seq::<SvmInstruction>::empty(),
    {
        Self::new()
    }
}

} // verus!
