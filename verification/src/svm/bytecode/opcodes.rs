//! sBPF opcode classes and operation codes.

use vstd::prelude::*;

verus! {

// ALU operations (32-bit)
pub const ALU32_IMM: u8 = 0x04;
pub const ALU32_REG: u8 = 0x0c;

// ALU operations (64-bit)
pub const ALU64_IMM: u8 = 0x07;
pub const ALU64_REG: u8 = 0x0f;

// Jump operations
pub const JMP_IMM: u8 = 0x05;
pub const JMP_REG: u8 = 0x0d;
pub const JMP32_IMM: u8 = 0x06;
pub const JMP32_REG: u8 = 0x0e;

// Memory operations
/// Load 64-bit immediate (lddw)
pub const LD_IMM_DW: u8 = 0x18;
pub const LD_ABS_B: u8 = 0x30;
pub const LD_ABS_H: u8 = 0x28;
pub const LD_ABS_W: u8 = 0x20;
pub const LD_ABS_DW: u8 = 0x38;
pub const LD_IND_B: u8 = 0x50;
pub const LD_IND_H: u8 = 0x48;
pub const LD_IND_W: u8 = 0x40;
pub const LD_IND_DW: u8 = 0x58;
pub const LDX_B: u8 = 0x71;
pub const LDX_H: u8 = 0x69;
pub const LDX_W: u8 = 0x61;
pub const LDX_DW: u8 = 0x79;
pub const ST_B: u8 = 0x72;
pub const ST_H: u8 = 0x6a;
pub const ST_W: u8 = 0x62;
pub const ST_DW: u8 = 0x7a;
pub const STX_B: u8 = 0x73;
pub const STX_H: u8 = 0x6b;
pub const STX_W: u8 = 0x63;
pub const STX_DW: u8 = 0x7b;

// ALU operation codes (combined with class)
pub const ADD: u8 = 0x00;
pub const SUB: u8 = 0x10;
pub const MUL: u8 = 0x20;
pub const DIV: u8 = 0x30;
pub const OR: u8 = 0x40;
pub const AND: u8 = 0x50;
pub const LSH: u8 = 0x60;
pub const RSH: u8 = 0x70;
pub const NEG: u8 = 0x80;
pub const MOD: u8 = 0x90;
pub const XOR: u8 = 0xa0;
pub const MOV: u8 = 0xb0;
/// Arithmetic right shift
pub const ARSH: u8 = 0xc0;
/// Endianness conversion
pub const END: u8 = 0xd0;

// sBPF specific ALU operations
/// Signed division
pub const SDIV: u8 = 0xe0;
/// Signed modulo (unofficial, using unused slot)
pub const SMOD: u8 = 0xf0;

// Jump operation codes
/// Jump always
pub const JA: u8 = 0x00;
/// Jump if equal
pub const JEQ: u8 = 0x10;
/// Jump if greater than (unsigned)
pub const JGT: u8 = 0x20;
/// Jump if greater or equal (unsigned)
pub const JGE: u8 = 0x30;
/// Jump if (src & dst) != 0
pub const JSET: u8 = 0x40;
/// Jump if not equal
pub const JNE: u8 = 0x50;
/// Jump if greater than (signed)
pub const JSGT: u8 = 0x60;
/// Jump if greater or equal (signed)
pub const JSGE: u8 = 0x70;
/// Call function
pub const CALL: u8 = 0x80;
/// Exit program
pub const EXIT: u8 = 0x90;
/// Jump if less than (unsigned)
pub const JLT: u8 = 0xa0;
/// Jump if less or equal (unsigned)
pub const JLE: u8 = 0xb0;
/// Jump if less than (signed)
pub const JSLT: u8 = 0xc0;
/// Jump if less or equal (signed)
pub const JSLE: u8 = 0xd0;

// Endianness operations for END
pub const TO_LE: u8 = 0x00;
pub const TO_BE: u8 = 0x08;

} // verus!
