//! What running an sBPF instruction does to the machine, stated over a model of
//! the machine's state.

use vstd::prelude::*;
use super::bytecode::{opcodes, MemorySize, SvmInstruction};
use super::interpreter::SvmError;
use super::little_endian::{le_bytes, le_value, lemma_byte_powers, lemma_value_of_bytes};

verus! {

/// The machine's state: the eleven registers, the memory, the instruction index,
/// the compute units used so far and their limit, the stack base and whether the
/// program has exited.
pub struct MachineState {
    pub registers: Seq<u64>,
    pub memory: Seq<u8>,
    pub pc: usize,
    pub compute_units: u64,
    pub compute_limit: u64,
    pub stack_base: u64,
    pub halted: bool,
}

/// The outcome of running one instruction, or a program: the state it leaves, an
/// error with the state it leaves, or `Fault` where the machine cannot go on at all
/// (a register number above 10, a signed division or negation that overflows,
/// compute units beyond `u64::MAX`, a jump target beyond `i64`).
pub enum Effect {
    Done(MachineState),
    Error(SvmError, MachineState),
    Fault,
}

/// A 64-bit word read as two's complement.
pub open spec fn signed64(a: u64) -> int {
    if a >= 0x8000_0000_0000_0000 {
        a - 0x1_0000_0000_0000_0000
    } else {
        a as int
    }
}

/// A 32-bit word read as two's complement.
pub open spec fn signed32(a: u32) -> int {
    if a >= 0x8000_0000 {
        a - 0x1_0000_0000
    } else {
        a as int
    }
}

/// `x` modulo `2^64`.
pub open spec fn wrap64(x: int) -> u64 {
    (x % 0x1_0000_0000_0000_0000) as u64
}

/// `x` modulo `2^32`.
pub open spec fn wrap32(x: int) -> u32 {
    (x % 0x1_0000_0000) as u32
}

/// The magnitude of `x`.
pub open spec fn magnitude(x: int) -> int {
    if x < 0 {
        -x
    } else {
        x
    }
}

/// Division that rounds toward zero: the quotient of the magnitudes, negative where
/// exactly one operand is.
pub open spec fn quotient_toward_zero(x: int, y: int) -> int {
    let q = magnitude(x) / magnitude(y);
    if (x < 0) == (y < 0) {
        q
    } else {
        -q
    }
}

/// The result of an ALU operation: a value, a division by zero, an operation code
/// that names no operation, or an overflow that stops the machine.
pub enum AluResult {
    Value(u64),
    DivideByZero,
    Invalid,
    Overflow,
}

/// A 64-bit ALU operation on `a` (the destination) and `b` (the source); negation
/// exists only in the immediate form (`neg`).
pub open spec fn alu64(op: u8, a: u64, b: u64, neg: bool) -> AluResult {
    if op == opcodes::ADD {
        AluResult::Value(wrap64(a + b))
    } else if op == opcodes::SUB {
        AluResult::Value(wrap64(a - b))
    } else if op == opcodes::MUL {
        AluResult::Value(wrap64(a * b))
    } else if op == opcodes::DIV {
        if b == 0 {
            AluResult::DivideByZero
        } else {
            AluResult::Value(a / b)
        }
    } else if op == opcodes::SDIV {
        if b == 0 {
            AluResult::DivideByZero
        } else if signed64(a) == i64::MIN && signed64(b) == -1 {
            AluResult::Overflow
        } else {
            AluResult::Value(wrap64(quotient_toward_zero(signed64(a), signed64(b))))
        }
    } else if op == opcodes::MOD {
        if b == 0 {
            AluResult::DivideByZero
        } else {
            AluResult::Value(a % b)
        }
    } else if op == opcodes::OR {
        AluResult::Value(a | b)
    } else if op == opcodes::AND {
        AluResult::Value(a & b)
    } else if op == opcodes::LSH {
        AluResult::Value(a << (b & 63))
    } else if op == opcodes::RSH {
        AluResult::Value(a >> (b & 63))
    } else if op == opcodes::ARSH {
        AluResult::Value(((a as i64) >> (b & 63)) as u64)
    } else if op == opcodes::XOR {
        AluResult::Value(a ^ b)
    } else if op == opcodes::MOV {
        AluResult::Value(b)
    } else if op == opcodes::NEG && neg {
        if signed64(a) == i64::MIN {
            AluResult::Overflow
        } else {
            AluResult::Value(wrap64(-signed64(a)))
        }
    } else {
        AluResult::Invalid
    }
}

/// A 32-bit ALU operation; the 32-bit result is zero-extended to the register.
pub open spec fn alu32(op: u8, a: u32, b: u32, neg: bool) -> AluResult {
    if op == opcodes::ADD {
        AluResult::Value(wrap32(a + b) as u64)
    } else if op == opcodes::SUB {
        AluResult::Value(wrap32(a - b) as u64)
    } else if op == opcodes::MUL {
        AluResult::Value(wrap32(a * b) as u64)
    } else if op == opcodes::DIV {
        if b == 0 {
            AluResult::DivideByZero
        } else {
            AluResult::Value((a / b) as u64)
        }
    } else if op == opcodes::SDIV {
        if b == 0 {
            AluResult::DivideByZero
        } else if signed32(a) == i32::MIN && signed32(b) == -1 {
            AluResult::Overflow
        } else {
            AluResult::Value(wrap32(quotient_toward_zero(signed32(a), signed32(b))) as u64)
        }
    } else if op == opcodes::MOD {
        if b == 0 {
            AluResult::DivideByZero
        } else {
            AluResult::Value((a % b) as u64)
        }
    } else if op == opcodes::OR {
        AluResult::Value((a | b) as u64)
    } else if op == opcodes::AND {
        AluResult::Value((a & b) as u64)
    } else if op == opcodes::LSH {
        AluResult::Value((a << (b & 31)) as u64)
    } else if op == opcodes::RSH {
        AluResult::Value((a >> (b & 31)) as u64)
    } else if op == opcodes::ARSH {
        AluResult::Value((((a as i32) >> (b & 31)) as u32) as u64)
    } else if op == opcodes::XOR {
        AluResult::Value((a ^ b) as u64)
    } else if op == opcodes::MOV {
        AluResult::Value(b as u64)
    } else if op == opcodes::NEG && neg {
        if signed32(a) == i32::MIN {
            AluResult::Overflow
        } else {
            AluResult::Value(wrap32(-signed32(a)) as u64)
        }
    } else {
        AluResult::Invalid
    }
}

/// The condition of a 64-bit conditional jump, or `None` for an operation code
/// that names no condition.
pub open spec fn cond64(op: u8, a: u64, b: u64) -> Option<bool> {
    if op == opcodes::JEQ {
        Some(a == b)
    } else if op == opcodes::JNE {
        Some(a != b)
    } else if op == opcodes::JGT {
        Some(a > b)
    } else if op == opcodes::JGE {
        Some(a >= b)
    } else if op == opcodes::JLT {
        Some(a < b)
    } else if op == opcodes::JLE {
        Some(a <= b)
    } else if op == opcodes::JSGT {
        Some(signed64(a) > signed64(b))
    } else if op == opcodes::JSGE {
        Some(signed64(a) >= signed64(b))
    } else if op == opcodes::JSLT {
        Some(signed64(a) < signed64(b))
    } else if op == opcodes::JSLE {
        Some(signed64(a) <= signed64(b))
    } else if op == opcodes::JSET {
        Some(a & b != 0)
    } else {
        None
    }
}

/// The condition of a 32-bit conditional jump.
pub open spec fn cond32(op: u8, a: u32, b: u32) -> Option<bool> {
    if op == opcodes::JEQ {
        Some(a == b)
    } else if op == opcodes::JNE {
        Some(a != b)
    } else if op == opcodes::JGT {
        Some(a > b)
    } else if op == opcodes::JGE {
        Some(a >= b)
    } else if op == opcodes::JLT {
        Some(a < b)
    } else if op == opcodes::JLE {
        Some(a <= b)
    } else if op == opcodes::JSGT {
        Some(signed32(a) > signed32(b))
    } else if op == opcodes::JSGE {
        Some(signed32(a) >= signed32(b))
    } else if op == opcodes::JSLT {
        Some(signed32(a) < signed32(b))
    } else if op == opcodes::JSLE {
        Some(signed32(a) <= signed32(b))
    } else if op == opcodes::JSET {
        Some(a & b != 0)
    } else {
        None
    }
}

/// The signed reading of a 64-bit and of a 32-bit word is what Rust's casts to
/// `i64` and `i32` give.
pub proof fn lemma_signed_readings(a: u64, x: u32)
    by (bit_vector)
    ensures
        signed64(a) == (a as i64) as int,
        signed32(x) == (x as i32) as int,
{
}

/// The conditions of the 64-bit conditional jumps: `JEQ`, `JNE`, `JSET` compare
/// bits; `JGT`, `JGE`, `JLT`, `JLE` compare the words as unsigned numbers; `JSGT`,
/// `JSGE`, `JSLT`, `JSLE` compare them as two's-complement `i64` values. No other
/// operation names a condition.
pub proof fn lemma_jump_conditions64(op: u8, a: u64, b: u64)
    ensures
        op == opcodes::JEQ ==> cond64(op, a, b) == Some(a == b),
        op == opcodes::JNE ==> cond64(op, a, b) == Some(a != b),
        op == opcodes::JSET ==> cond64(op, a, b) == Some(a & b != 0),
        op == opcodes::JGT ==> cond64(op, a, b) == Some(a > b),
        op == opcodes::JGE ==> cond64(op, a, b) == Some(a >= b),
        op == opcodes::JLT ==> cond64(op, a, b) == Some(a < b),
        op == opcodes::JLE ==> cond64(op, a, b) == Some(a <= b),
        op == opcodes::JSGT ==> cond64(op, a, b) == Some((a as i64) > (b as i64)),
        op == opcodes::JSGE ==> cond64(op, a, b) == Some((a as i64) >= (b as i64)),
        op == opcodes::JSLT ==> cond64(op, a, b) == Some((a as i64) < (b as i64)),
        op == opcodes::JSLE ==> cond64(op, a, b) == Some((a as i64) <= (b as i64)),
        cond64(op, a, b) is Some <==> (op == opcodes::JEQ || op == opcodes::JNE || op == opcodes::JSET
            || op == opcodes::JGT || op == opcodes::JGE || op == opcodes::JLT || op == opcodes::JLE
            || op == opcodes::JSGT || op == opcodes::JSGE || op == opcodes::JSLT || op == opcodes::JSLE),
        a == u64::MAX ==> cond64(opcodes::JSGT, a, 0) == Some(false) && cond64(opcodes::JGT, a, 0) == Some(true),
{
    lemma_signed_readings(a, 0);
    lemma_signed_readings(b, 0);
    lemma_signed_readings(u64::MAX, 0);
    lemma_signed_readings(0, 0);
}

/// The conditions of the 32-bit conditional jumps, on the low words: as for
/// `lemma_jump_conditions64`, with the signed ones comparing `i32` values.
pub proof fn lemma_jump_conditions32(op: u8, a: u32, b: u32)
    ensures
        op == opcodes::JEQ ==> cond32(op, a, b) == Some(a == b),
        op == opcodes::JNE ==> cond32(op, a, b) == Some(a != b),
        op == opcodes::JSET ==> cond32(op, a, b) == Some(a & b != 0),
        op == opcodes::JGT ==> cond32(op, a, b) == Some(a > b),
        op == opcodes::JGE ==> cond32(op, a, b) == Some(a >= b),
        op == opcodes::JLT ==> cond32(op, a, b) == Some(a < b),
        op == opcodes::JLE ==> cond32(op, a, b) == Some(a <= b),
        op == opcodes::JSGT ==> cond32(op, a, b) == Some((a as i32) > (b as i32)),
        op == opcodes::JSGE ==> cond32(op, a, b) == Some((a as i32) >= (b as i32)),
        op == opcodes::JSLT ==> cond32(op, a, b) == Some((a as i32) < (b as i32)),
        op == opcodes::JSLE ==> cond32(op, a, b) == Some((a as i32) <= (b as i32)),
        cond32(op, a, b) is Some <==> (op == opcodes::JEQ || op == opcodes::JNE || op == opcodes::JSET
            || op == opcodes::JGT || op == opcodes::JGE || op == opcodes::JLT || op == opcodes::JLE
            || op == opcodes::JSGT || op == opcodes::JSGE || op == opcodes::JSLT || op == opcodes::JSLE),
{
    lemma_signed_readings(0, a);
    lemma_signed_readings(0, b);
}

/// The compute units the machine charges for an instruction, by its class in the
/// low four opcode bits: multiplication 10, division and remainder 25, other ALU
/// operations 1, a call 100, other jumps 1, anything else 5.
pub open spec fn charge(inst: SvmInstruction) -> nat {
    let class = inst.opcode & 0x0f;
    let op = inst.opcode & 0xf0;
    if class == 0x04 || class == 0x07 || class == 0x0c || class == 0x0f {
        if op == opcodes::MUL {
            10
        } else if op == opcodes::DIV || op == opcodes::MOD || op == opcodes::SDIV {
            25
        } else {
            1
        }
    } else if class == 0x05 || class == 0x0d || class == 0x06 || class == 0x0e {
        if op == opcodes::CALL {
            100
        } else {
            1
        }
    } else {
        5
    }
}

/// The value of register `r`; `None` for a number above 10.
pub open spec fn reg_value(s: MachineState, r: u8) -> Option<u64> {
    if r < 11 {
        Some(s.registers[r as int])
    } else {
        None
    }
}

/// Writing `v` to register `r`: refused for the read-only `r10`.
pub open spec fn write_reg(s: MachineState, r: u8, v: u64) -> Effect {
    if r == 10 {
        Effect::Error(SvmError::WriteToR10, s)
    } else if r > 10 {
        Effect::Fault
    } else {
        Effect::Done(MachineState { registers: s.registers.update(r as int, v), ..s })
    }
}

/// Moves on to the next instruction after `e`, where `e` succeeded.
pub open spec fn then_next(e: Effect) -> Effect {
    match e {
        Effect::Done(s) => Effect::Done(MachineState { pc: (s.pc + 1) as usize, ..s }),
        _ => e,
    }
}

/// The index a jump by `offset` from `pc` lands on: `pc + 1 + offset`, computed in
/// `i64` from `pc` as an `i64`; `None` where that overflows.
pub open spec fn jump_target(pc: usize, offset: i16) -> Option<usize> {
    let p = pc as i64;
    if p as int + 1 > i64::MAX || p + 1 + offset > i64::MAX || p + 1 + offset < i64::MIN {
        None
    } else {
        Some((p + 1 + offset) as usize)
    }
}

/// A jump on condition `c`: to `pc + 1 + offset` when it holds, to the next
/// instruction when it does not.
pub open spec fn branch(s: MachineState, c: Option<bool>, op: u8, offset: i16) -> Effect {
    match c {
        None => Effect::Error(SvmError::InvalidOpcode(op), s),
        Some(taken) => if taken {
            match jump_target(s.pc, offset) {
                None => Effect::Fault,
                Some(t) => Effect::Done(MachineState { pc: t, ..s }),
            }
        } else {
            Effect::Done(MachineState { pc: (s.pc + 1) as usize, ..s })
        },
    }
}

/// The result of an ALU operation written to `dst`.
pub open spec fn alu_write(s: MachineState, dst: u8, r: AluResult, op: u8) -> Effect {
    match r {
        AluResult::Value(v) => write_reg(s, dst, v),
        AluResult::DivideByZero => Effect::Error(SvmError::DivisionByZero, s),
        AluResult::Invalid => Effect::Error(SvmError::InvalidOpcode(op), s),
        AluResult::Overflow => Effect::Fault,
    }
}

/// Whether an access of `size` at `addr` (taken as a `usize`) lies in `memory`:
/// `None` where the end of the access does not fit a `usize`.
pub open spec fn in_bounds(memory: Seq<u8>, addr: u64, size: MemorySize) -> Option<bool> {
    let a = addr as usize;
    if a + size.bytes() > usize::MAX {
        None
    } else {
        Some(a + size.bytes() <= memory.len())
    }
}

/// The little-endian value of the `size` bytes at `addr`.
pub open spec fn read_at(memory: Seq<u8>, addr: u64, size: MemorySize) -> u64 {
    let a = addr as usize;
    le_value(memory.subrange(a as int, a + size.bytes())) as u64
}

/// `memory` with the lowest `size` bytes of `value` written little-endian at `addr`.
pub open spec fn written_at(memory: Seq<u8>, addr: u64, size: MemorySize, value: u64) -> Seq<u8> {
    let a = addr as usize;
    memory.subrange(0, a as int) + le_bytes(value as nat, size.bytes()) + memory.subrange(
        a + size.bytes(),
        memory.len() as int,
    )
}

/// Loading `size` bytes at `addr` into register `dst`.
pub open spec fn load(s: MachineState, dst: u8, addr: u64, size: MemorySize) -> Effect {
    if in_bounds(s.memory, addr, size) == Some(true) {
        write_reg(s, dst, read_at(s.memory, addr, size))
    } else {
        Effect::Error(SvmError::MemoryOutOfBounds((addr as usize) as u64), s)
    }
}

/// Storing the lowest `size` bytes of `value` at `addr`.
pub open spec fn store(s: MachineState, addr: u64, size: MemorySize, value: u64) -> Effect {
    if in_bounds(s.memory, addr, size) == Some(true) {
        Effect::Done(MachineState { memory: written_at(s.memory, addr, size, value), ..s })
    } else {
        Effect::Error(SvmError::MemoryOutOfBounds((addr as usize) as u64), s)
    }
}

/// The access size of a load, store-immediate or store-register opcode.
pub open spec fn access_size(opcode: u8) -> MemorySize {
    if opcode == opcodes::LDX_B || opcode == opcodes::ST_B || opcode == opcodes::STX_B {
        MemorySize::Byte
    } else if opcode == opcodes::LDX_H || opcode == opcodes::ST_H || opcode == opcodes::STX_H {
        MemorySize::Half
    } else if opcode == opcodes::LDX_W || opcode == opcodes::ST_W || opcode == opcodes::STX_W {
        MemorySize::Word
    } else {
        MemorySize::DWord
    }
}

/// A load or store.
pub open spec fn memory_effect(s: MachineState, inst: SvmInstruction) -> Effect {
    let o = inst.opcode;
    let off = (inst.offset as i64) as u64;
    if o == opcodes::LDX_B || o == opcodes::LDX_H || o == opcodes::LDX_W || o
        == opcodes::LDX_DW {
        match reg_value(s, inst.src) {
            None => Effect::Fault,
            Some(base) => load(s, inst.dst, wrap64(base + off), access_size(o)),
        }
    } else if o == opcodes::ST_B || o == opcodes::ST_H || o == opcodes::ST_W || o
        == opcodes::ST_DW {
        match reg_value(s, inst.dst) {
            None => Effect::Fault,
            Some(base) => store(s, wrap64(base + off), access_size(o), inst.imm as u64),
        }
    } else if o == opcodes::STX_B || o == opcodes::STX_H || o == opcodes::STX_W || o
        == opcodes::STX_DW {
        match (reg_value(s, inst.dst), reg_value(s, inst.src)) {
            (Some(base), Some(v)) => store(s, wrap64(base + off), access_size(o), v),
            _ => Effect::Fault,
        }
    } else {
        Effect::Error(SvmError::InvalidOpcode(o), s)
    }
}

/// What the instruction does to the state, once its compute units are charged.
/// The class in the low four opcode bits picks the kind: ALU (64 or 32 bits,
/// immediate or register operand), jump (the same four forms) or memory.
pub open spec fn instruction_effect(s: MachineState, inst: SvmInstruction) -> Effect {
    let class = inst.opcode & 0x0f;
    let op = inst.opcode & 0xf0;
    let dst = reg_value(s, inst.dst);
    let src = reg_value(s, inst.src);
    let imm64 = (inst.imm as i64) as u64;
    if class == 0x07 {
        match dst {
            None => Effect::Fault,
            Some(d) => then_next(alu_write(s, inst.dst, alu64(op, d, imm64, true), op)),
        }
    } else if class == 0x0f {
        match (dst, src) {
            (Some(d), Some(b)) => then_next(alu_write(s, inst.dst, alu64(op, d, b, false), op)),
            _ => Effect::Fault,
        }
    } else if class == 0x04 {
        match dst {
            None => Effect::Fault,
            Some(d) => then_next(
                alu_write(s, inst.dst, alu32(op, d as u32, inst.imm as u32, true), op),
            ),
        }
    } else if class == 0x0c {
        match (dst, src) {
            (Some(d), Some(b)) => then_next(
                alu_write(s, inst.dst, alu32(op, d as u32, b as u32, false), op),
            ),
            _ => Effect::Fault,
        }
    } else if class == 0x05 {
        if op == opcodes::JA {
            branch(s, Some(true), op, inst.offset)
        } else if op == opcodes::EXIT {
            Effect::Done(MachineState { halted: true, ..s })
        } else if op == opcodes::CALL {
            Effect::Error(SvmError::SyscallNotImplemented(inst.imm), s)
        } else {
            match dst {
                None => Effect::Fault,
                Some(d) => branch(s, cond64(op, d, imm64), op, inst.offset),
            }
        }
    } else if class == 0x0d {
        match (dst, src) {
            (Some(d), Some(b)) => branch(s, cond64(op, d, b), op, inst.offset),
            _ => Effect::Fault,
        }
    } else if class == 0x06 {
        match dst {
            None => Effect::Fault,
            Some(d) => branch(s, cond32(op, d as u32, inst.imm as u32), op, inst.offset),
        }
    } else if class == 0x0e {
        match (dst, src) {
            (Some(d), Some(b)) => branch(s, cond32(op, d as u32, b as u32), op, inst.offset),
            _ => Effect::Fault,
        }
    } else {
        then_next(memory_effect(s, inst))
    }
}

/// The 64-bit immediate that a wide load at `pc` names: its own immediate as the
/// low 32 bits, the immediate of the slot after it as the high 32 bits.
pub open spec fn wide_immediate(program: Seq<SvmInstruction>, pc: int) -> u64 {
    (program[pc].imm as u32 as u64) | ((program[pc + 1].imm as u32 as u64) << 32u64)
}

/// The wide load (`lddw`) at `s.pc`, which takes two slots: it sets its destination
/// to `wide_immediate` and goes on after the second slot; in the last slot it sets
/// its destination to its own immediate, sign-extended, and goes on.
pub open spec fn wide_load(s: MachineState, program: Seq<SvmInstruction>) -> Effect {
    if s.pc + 1 < program.len() {
        match write_reg(s, program[s.pc as int].dst, wide_immediate(program, s.pc as int)) {
            Effect::Done(t) => Effect::Done(MachineState { pc: (s.pc + 2) as usize, ..t }),
            e => e,
        }
    } else {
        then_next(write_reg(s, program[s.pc as int].dst, (program[s.pc as int].imm as i64) as u64))
    }
}

/// One step of the machine at `s`, which has not halted and whose `pc` is inside
/// `program`: charge the instruction's compute units, stop if they exceed the limit,
/// else run the instruction.
#[verifier::opaque]
pub open spec fn step(s: MachineState, program: Seq<SvmInstruction>) -> Effect {
    let inst = program[s.pc as int];
    let units = s.compute_units + charge(inst);
    if units > u64::MAX {
        Effect::Fault
    } else {
        let charged = MachineState { compute_units: units as u64, ..s };
        if units > s.compute_limit {
            Effect::Error(SvmError::ComputeBudgetExceeded(units as u64, s.compute_limit), charged)
        } else if inst.opcode == opcodes::LD_IMM_DW {
            wide_load(charged, program)
        } else {
            instruction_effect(charged, inst)
        }
    }
}

/// What is left of the compute budget, plus one; zero once it is exceeded.
pub open spec fn fuel(s: MachineState) -> nat {
    if s.compute_units <= s.compute_limit {
        (s.compute_limit - s.compute_units + 1) as nat
    } else {
        0
    }
}

/// Running the instruction charges its units and keeps the limit.
pub proof fn lemma_step_charges(s: MachineState, program: Seq<SvmInstruction>)
    ensures
        step(s, program) matches Effect::Done(t) ==> {
            &&& t.compute_units == s.compute_units + charge(program[s.pc as int])
            &&& t.compute_units <= t.compute_limit
            &&& t.compute_limit == s.compute_limit
            &&& fuel(t) < fuel(s)
        },
{
    reveal(step);
}

/// Runs `program` from `s` until it exits, runs past its end, fails or faults.
pub open spec fn run(s: MachineState, program: Seq<SvmInstruction>) -> Effect
    decreases fuel(s),
{
    if s.halted || s.pc >= program.len() {
        Effect::Done(s)
    } else {
        match step(s, program) {
            Effect::Done(t) => {
                proof {
                    lemma_step_charges(s, program);
                }
                run(t, program)
            },
            other => other,
        }
    }
}

/// The state in which `execute` starts a program: at its first instruction, not halted.
pub open spec fn started(s: MachineState) -> MachineState {
    MachineState { pc: 0, halted: false, ..s }
}

/// What every step keeps: eleven registers, `r10`, the memory's length, the compute
/// limit and the stack base.
pub open spec fn keeps_frame(s: MachineState, t: MachineState) -> bool {
    &&& t.registers.len() == s.registers.len()
    &&& t.registers[10] == s.registers[10]
    &&& t.memory.len() == s.memory.len()
    &&& t.compute_limit == s.compute_limit
    &&& t.stack_base == s.stack_base
}

/// The state an effect leaves, if it leaves one.
pub open spec fn left(e: Effect) -> Option<MachineState> {
    match e {
        Effect::Done(t) => Some(t),
        Effect::Error(_, t) => Some(t),
        Effect::Fault => None,
    }
}

proof fn lemma_store_keeps_frame(s: MachineState, addr: u64, size: MemorySize, value: u64)
    requires
        s.registers.len() == 11,
    ensures
        left(store(s, addr, size, value)) matches Some(t) ==> keeps_frame(s, t),
{
    lemma_value_of_bytes(value as nat, size.bytes());
}

#[verifier::spinoff_prover]
#[verifier::rlimit(40)]
proof fn lemma_instruction_keeps_frame(s: MachineState, inst: SvmInstruction)
    requires
        s.registers.len() == 11,
    ensures
        left(instruction_effect(s, inst)) matches Some(t) ==> keeps_frame(s, t),
{
    let o = inst.opcode;
    let off = (inst.offset as i64) as u64;
    match reg_value(s, inst.dst) {
        Some(base) => lemma_store_keeps_frame(s, wrap64(base + off), access_size(o), inst.imm as u64),
        None => {},
    }
    match (reg_value(s, inst.dst), reg_value(s, inst.src)) {
        (Some(base), Some(v)) => lemma_store_keeps_frame(s, wrap64(base + off), access_size(o), v),
        _ => {},
    }
}

/// A run keeps eleven registers, `r10` (which no instruction can write), the
/// memory's length, the compute limit and the stack base; where it finishes it
/// has exited or run past the program's end, and it has used no more compute units
/// than the limit allows, unless it ran no instruction at all.
pub proof fn lemma_run_keeps_frame(s: MachineState, program: Seq<SvmInstruction>)
    requires
        s.registers.len() == 11,
    ensures
        left(run(s, program)) matches Some(t) ==> keeps_frame(s, t),
        run(s, program) matches Effect::Done(t) ==> {
            &&& t.halted || t.pc >= program.len()
            &&& t.compute_units <= t.compute_limit || t == s
        },
    decreases fuel(s),
{
    if !(s.halted || s.pc >= program.len()) {
        reveal(step);
        lemma_step_charges(s, program);
        let inst = program[s.pc as int];
        let units = s.compute_units + charge(inst);
        if units <= u64::MAX && units <= s.compute_limit && inst.opcode != opcodes::LD_IMM_DW {
            let charged = MachineState { compute_units: units as u64, ..s };
            lemma_instruction_keeps_frame(charged, inst);
        }
        match step(s, program) {
            Effect::Done(t) => {
                lemma_run_keeps_frame(t, program);
            },
            _ => {},
        }
    }
}

/// A run never gives compute units back, and it fails for the budget only where
/// the units charged exceed the limit it started with: the error names that total
/// and the limit.
pub proof fn lemma_run_budget(s: MachineState, program: Seq<SvmInstruction>)
    ensures
        run(s, program) matches Effect::Done(t) ==> t.compute_units >= s.compute_units,
        run(s, program) matches Effect::Error(SvmError::ComputeBudgetExceeded(units, limit), _) ==> limit
            == s.compute_limit && units > limit,
    decreases fuel(s),
{
    if !(s.halted || s.pc >= program.len()) {
        reveal(step);
        lemma_step_charges(s, program);
        match step(s, program) {
            Effect::Done(t) => {
                lemma_run_budget(t, program);
            },
            _ => {},
        }
    }
}

/// `e` with the compute limit of the state it leaves set to `limit`.
pub open spec fn with_limit(e: Effect, limit: u64) -> Effect {
    match e {
        Effect::Done(t) => Effect::Done(MachineState { compute_limit: limit, ..t }),
        Effect::Error(err, t) => Effect::Error(err, MachineState { compute_limit: limit, ..t }),
        Effect::Fault => Effect::Fault,
    }
}

/// What an instruction does reads nothing of the compute limit.
#[verifier::spinoff_prover]
#[verifier::rlimit(60)]
proof fn lemma_effect_ignores_limit(s: MachineState, program: Seq<SvmInstruction>, inst: SvmInstruction, limit: u64)
    ensures
        instruction_effect(MachineState { compute_limit: limit, ..s }, inst) == with_limit(
            instruction_effect(s, inst),
            limit,
        ),
        wide_load(MachineState { compute_limit: limit, ..s }, program) == with_limit(wide_load(s, program), limit),
{
}

/// Where a run ends, after using `t.compute_units` units, the same run from the same
/// state under any other limit that the state's units fit ends the same way
/// (but for the limit) if those units fit that limit too, and fails with
/// `ComputeBudgetExceeded` if they do not.
pub proof fn lemma_run_limit(s: MachineState, program: Seq<SvmInstruction>, limit: u64)
    requires
        run(s, program) is Done,
        s.compute_units <= limit,
    ensures
        ({
            let t = run(s, program)->Done_0;
            let s2 = MachineState { compute_limit: limit, ..s };
            &&& t.compute_units <= limit ==> run(s2, program) == Effect::Done(MachineState { compute_limit: limit, ..t })
            &&& t.compute_units > limit ==> run(s2, program) matches Effect::Error(SvmError::ComputeBudgetExceeded(_, _), _)
        }),
    decreases fuel(s),
{
    let s2 = MachineState { compute_limit: limit, ..s };
    if !(s.halted || s.pc >= program.len()) {
        reveal(step);
        lemma_step_charges(s, program);
        lemma_step_charges(s2, program);
        let inst = program[s.pc as int];
        let units = s.compute_units + charge(inst);
        let charged = MachineState { compute_units: units as u64, ..s };
        lemma_effect_ignores_limit(charged, program, inst, limit);
        assert(MachineState { compute_units: units as u64, ..s2 } == MachineState { compute_limit: limit, ..charged });
        let u = step(s, program)->Done_0;
        lemma_run_budget(u, program);
        if units <= limit {
            assert(step(s2, program) == Effect::Done(MachineState { compute_limit: limit, ..u }));
            lemma_run_limit(u, program, limit);
        }
    }
}

/// Storing a value and loading it back from the same place gives the value's lowest
/// bytes, and the store leaves every other byte of memory as it was.
pub proof fn lemma_load_after_store(s: MachineState, addr: u64, size: MemorySize, value: u64)
    requires
        in_bounds(s.memory, addr, size) == Some(true),
    ensures
        store(s, addr, size, value) matches Effect::Done(t) && {
            let a = addr as usize;
            &&& t.memory.len() == s.memory.len()
            &&& in_bounds(t.memory, addr, size) == Some(true)
            &&& read_at(t.memory, addr, size) as nat == value as nat % vstd::arithmetic::power::pow(
                256,
                size.bytes(),
            ) as nat
            &&& forall|j: int|
                0 <= j < s.memory.len() && !(a <= j < a + size.bytes()) ==> t.memory[j]
                    == s.memory[j]
        },
{
    let a = addr as usize;
    let n = size.bytes();
    lemma_value_of_bytes(value as nat, n);
    lemma_byte_powers();
    let t = written_at(s.memory, addr, size, value);
    assert(t.subrange(a as int, a + n) =~= le_bytes(value as nat, n));
    assert forall|j: int|
        0 <= j < s.memory.len() && !(a <= j < a + n) implies t[j] == s.memory[j] by {
        if j < a {
            assert(t[j] == s.memory.subrange(0, a as int)[j]);
        } else {
            assert(t[j] == s.memory.subrange(a + n, s.memory.len() as int)[j - a - n]);
        }
    }
}

} // verus!
