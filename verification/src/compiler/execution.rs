//! What running compiled code does to the RISC-V registers it keeps in memory.

use vstd::prelude::*;
use crate::riscv::instruction::{lemma_register_index_injective, Instruction, Register};
use crate::svm::bytecode::{lemma_opcode_fields, opcodes, MemorySize, SvmInstruction, SvmRegister};
use crate::svm::little_endian::{le_value, lemma_byte_powers, lemma_bytes_of_value};
use vstd::arithmetic::div_mod::{lemma_small_mod, lemma_fundamental_div_mod, lemma_fundamental_div_mod_converse_div, lemma_fundamental_div_mod_converse_mod, lemma_mod_bound, lemma_mod_multiples_vanish, lemma_mod_twice, lemma_mul_mod_noop, lemma_sub_mod_noop, lemma_sub_mod_noop_right};
use crate::svm::semantics::{
    alu32, charge, cond64, in_bounds, quotient_toward_zero, signed32, jump_target, signed64, wrap64, written_at, instruction_effect, lemma_load_after_store, read_at, run, step,
    store, wrap32, Effect, MachineState,
};
use super::templates::{lemma_dispatch_head, byte_address, return_address, div_code, rem_code, mulh_code, jalr_code, dispatch_table, zero_extend32, address_code, load_extension, load_mem_code, store_mem_code, branch_code, jal_code, prologue, constant_code, i_type_code, inst_code, load_code, r_type_code, shift_code, shift_core, shift_imm_code, slt_code, slti_code, reg_addr, sign_extend32, store_code};
use super::translator::CompilerConfig;

verus! {

/// The state after `k` more instructions of `p` from `s`, where each of them runs
/// to completion without exiting.
pub open spec fn after(s: MachineState, p: Seq<SvmInstruction>, k: nat) -> Option<MachineState>
    decreases k,
{
    if k == 0 {
        Some(s)
    } else if s.halted || s.pc >= p.len() {
        None
    } else {
        match step(s, p) {
            Effect::Done(t) => after(t, p, (k - 1) as nat),
            _ => None,
        }
    }
}

/// A run from `s` is the run from any state it reaches.
pub proof fn lemma_after_run(s: MachineState, p: Seq<SvmInstruction>, k: nat)
    requires
        after(s, p, k) is Some,
    ensures
        run(s, p) == run(after(s, p, k)->Some_0, p),
    decreases k,
{
    if k > 0 {
        let t = step(s, p)->Done_0;
        lemma_after_run(t, p, (k - 1) as nat);
    }
}

/// Running `a` instructions and then `b` more is running `a + b`.
pub proof fn lemma_after_compose(s: MachineState, p: Seq<SvmInstruction>, a: nat, b: nat)
    requires
        after(s, p, a) is Some,
    ensures
        after(s, p, a + b) == after(after(s, p, a)->Some_0, p, b),
    decreases a,
{
    if a > 0 {
        let t = step(s, p)->Done_0;
        lemma_after_compose(t, p, (a - 1) as nat, b);
        assert((a + b - 1) as nat == ((a - 1) as nat + b) as nat);
    }
}

/// `code` stands in `p` from position `at` on.
pub open spec fn code_at(p: Seq<SvmInstruction>, at: int, code: Seq<SvmInstruction>) -> bool {
    &&& 0 <= at
    &&& at + code.len() <= p.len()
    &&& forall|i: int| 0 <= i < code.len() ==> #[trigger] p[at + i] == code[i]
}

proof fn lemma_code_at_split(p: Seq<SvmInstruction>, at: int, a: Seq<SvmInstruction>, b: Seq<SvmInstruction>)
    requires
        code_at(p, at, a + b),
    ensures
        code_at(p, at, a),
        code_at(p, at + a.len(), b),
{
    assert forall|i: int| 0 <= i < a.len() implies #[trigger] p[at + i] == a[i] by {
        assert(p[at + i] == (a + b)[i]);
    }
    assert forall|i: int| 0 <= i < b.len() implies #[trigger] p[at + a.len() + i] == b[i] by {
        assert(p[at + (a.len() + i)] == (a + b)[a.len() + i]);
    }
}

/// The 64-bit register value that sign-extends the 32-bit `x`.
pub open spec fn sign_extended(x: u32) -> u64 {
    ((x as i32) as i64) as u64
}

/// The RISC-V register `r` as the register file in `memory` holds it (`x0` reads 0).
pub open spec fn rv_value(c: CompilerConfig, memory: Seq<u8>, r: Register) -> u32 {
    if r == Register::ZERO {
        0
    } else {
        le_value(memory.subrange(reg_addr(c, r), reg_addr(c, r) + 4)) as u32
    }
}

/// What the run of a piece of code keeps: the registers other than those in
/// `changed`, the compute limit and stack base, and that the machine has not exited.
pub open spec fn keeps(s: MachineState, t: MachineState, changed: Set<int>) -> bool {
    &&& t.registers.len() == 11
    &&& forall|j: int| 0 <= j < 11 && !changed.contains(j) ==> #[trigger] t.registers[j] == s.registers[j]
    &&& t.compute_limit == s.compute_limit
    &&& t.stack_base == s.stack_base
    &&& !t.halted
}

/// The conditions a state needs to run instructions of `p` that cost up to `budget`
/// compute units: it has not exited, has its eleven registers, and has the units left.
pub open spec fn can_run(s: MachineState, p: Seq<SvmInstruction>, budget: nat) -> bool {
    &&& !s.halted
    &&& s.registers.len() == 11
    &&& p.len() <= usize::MAX
    &&& p.len() <= i64::MAX
    &&& s.compute_units + budget <= s.compute_limit
}

/// The same, at an instruction of `p`.
pub open spec fn ready(s: MachineState, p: Seq<SvmInstruction>, budget: nat) -> bool {
    &&& can_run(s, p, budget)
    &&& s.pc < p.len()
}


/// Sign-extending 32-bit words to 64 bits keeps them, their equality and their
/// order, signed and unsigned.
proof fn lemma_word_bits(x: u32, y: u32)
    by (bit_vector)
    ensures
        sign_extended(x) as u32 == x,
        sign_extended(sign_extended(x) as u32) == sign_extended(x),
        (sign_extended(x) << 32u64) >> 32u64 == x as u64,
        (sign_extended(x) < sign_extended(y)) == (x < y),
        ((sign_extended(x) as i64) < (sign_extended(y) as i64)) == ((x as i32) < (y as i32)),
        (sign_extended(x) == sign_extended(y)) == (x == y),
        sign_extended(0) == 0,
        sign_extended(x) == if x >= 0x8000_0000u32 { (x as u64) + 0xffff_ffff_0000_0000u64 } else { x as int },
{
}

/// Facts on 64-bit registers: shifting left by 32 and arithmetically back
/// sign-extends the low word, which is the value modulo `2^32`; the signed reading.
proof fn lemma_register_bits(a: u64)
    by (bit_vector)
    ensures
        (((a << 32u64) as i64) >> 32u64) as u64 == sign_extended(a as u32),
        (a << 32u64) >> 32u64 == (a as u32) as u64,
        a >> 32u64 == a / 0x1_0000_0000u64,
        a & 0xffff_ffff_ffff_fffeu64 == a - a % 2,
        a % 0x1_0000_0000 == (a as u32) as u64,
        signed64(a) == (a as i64) as int,
        ((32i32 as i64) as u64) & 63 == 32,
{
}

/// An immediate sign-extended to 64 bits has the immediate as its low word.
proof fn lemma_immediate_bits(v: i32)
    by (bit_vector)
    ensures
        ((v as i64) as u64) as u32 == v as u32,
        (v as i64) as u64 == sign_extended(v as u32),
        v == -0x8000_0000i32 ==> v as u32 == 0x8000_0000u32,
        v == -1i32 ==> v as u32 == 0xffff_ffffu32,
        v == -2i32 ==> (v as i64) as u64 == 0xffff_ffff_ffff_fffeu64,
        v >= 0i32 ==> (v as i64) as u64 == v as u64,
        v < 0i32 ==> ((v as i64) as u64) as int == (v as int) + 0x1_0000_0000_0000_0000int,
{
}

/// The shifts on 64-bit registers that the compiled code performs give the 32-bit
/// shifts.
proof fn lemma_shift_amount_bits(x: u32, n: u64)
    by (bit_vector)
    requires
        n < 32,
    ensures
        (sign_extended(x) << n) as u32 == x << (n as u32),
        (((x as u64) >> n) as u32) == x >> (n as u32),
        (((sign_extended(x) as i64) >> n) as u64) as u32 == ((x as i32) >> (n as u32)) as u32,
{
}

/// Shifting left and arithmetically back by 56 or 48 sign-extends the low byte or
/// half-word.
proof fn lemma_narrow_bits(v: u64)
    by (bit_vector)
    ensures
        ((((v << 56u64) as i64) >> 56u64) as u64) as u32 == (((v as u8) as i8) as i32) as u32,
        ((((v << 48u64) as i64) >> 48u64) as u64) as u32 == (((v as u16) as i16) as i32) as u32,
        ((56i32 as i64) as u64) & 63 == 56,
        ((48i32 as i64) as u64) & 63 == 48,
{
}

/// Masking a shift amount to five bits.
proof fn lemma_mask_bits(y: u32)
    by (bit_vector)
    ensures
        y & 0x1f < 32,
        ((((y & 0x1f) as i32) as i64) as u64) & 63 == (y & 0x1f) as u64,
        (y & (0x1fi32 as u32)) as u64 & 63 == (y & 0x1f) as u64,
{
}

/// One instruction: its units are charged, then it takes effect.
proof fn lemma_step_effect(s: MachineState, p: Seq<SvmInstruction>)
    requires
        !s.halted,
        s.pc < p.len(),
        s.compute_units + charge(p[s.pc as int]) <= s.compute_limit,
        p[s.pc as int].opcode != opcodes::LD_IMM_DW,
    ensures
        step(s, p) == instruction_effect(
            MachineState { compute_units: (s.compute_units + charge(p[s.pc as int])) as u64, ..s },
            p[s.pc as int],
        ),
{
    reveal(step);
}

/// A 64-bit operation with an immediate (`mov`, `lsh`, `arsh`) on `r0` to `r9`.
proof fn lemma_alu64_imm_step(s: MachineState, p: Seq<SvmInstruction>, op: u8, r: SvmRegister, imm: i32)
    requires
        ready(s, p, 1),
        p[s.pc as int] == SvmInstruction::alu64_imm(op, r, imm),
        r.number() <= 9,
        op == opcodes::MOV || op == opcodes::LSH || op == opcodes::RSH || op == opcodes::ARSH
            || op == opcodes::ADD || op == opcodes::AND,
    ensures
        after(s, p, 1) == Some(MachineState {
            registers: s.registers.update(r.number() as int, if op == opcodes::MOV {
                (imm as i64) as u64
            } else if op == opcodes::ADD {
                wrap64(s.registers[r.number() as int] + (imm as i64) as u64)
            } else if op == opcodes::AND {
                s.registers[r.number() as int] & ((imm as i64) as u64)
            } else if op == opcodes::LSH {
                s.registers[r.number() as int] << ((imm as i64) as u64 & 63)
            } else if op == opcodes::RSH {
                s.registers[r.number() as int] >> ((imm as i64) as u64 & 63)
            } else {
                ((s.registers[r.number() as int] as i64) >> ((imm as i64) as u64 & 63)) as u64
            }),
            pc: (s.pc + 1) as usize,
            compute_units: (s.compute_units + 1) as u64,
            ..s
        }),
{
    lemma_opcode_fields(opcodes::ALU64_IMM, op);
    lemma_step_effect(s, p);
    let t = step(s, p)->Done_0;
    assert(after(t, p, 0) == Some(t));
}

/// A 32-bit operation of two registers among `r0` to `r9`.
proof fn lemma_alu32_reg_step(s: MachineState, p: Seq<SvmInstruction>, op: u8, d: SvmRegister, b: SvmRegister)
    requires
        ready(s, p, if op == opcodes::DIV || op == opcodes::SDIV { 25 } else { 10 }),
        p[s.pc as int] == SvmInstruction::alu32_reg(op, d, b),
        d.number() <= 9,
        b.number() <= 9,
        op == opcodes::ADD || op == opcodes::SUB || op == opcodes::MUL || op == opcodes::OR
            || op == opcodes::AND || op == opcodes::XOR || op == opcodes::DIV || op == opcodes::SDIV,
        alu32(op, s.registers[d.number() as int] as u32, s.registers[b.number() as int] as u32, false) is Value,
    ensures
        after(s, p, 1) == Some(MachineState {
            registers: s.registers.update(
                d.number() as int,
                alu32(op, s.registers[d.number() as int] as u32, s.registers[b.number() as int] as u32, false)->Value_0,
            ),
            pc: (s.pc + 1) as usize,
            compute_units: (s.compute_units + charge(p[s.pc as int])) as u64,
            ..s
        }),
        charge(p[s.pc as int]) <= if op == opcodes::DIV || op == opcodes::SDIV { 25nat } else { 10nat },
{
    lemma_opcode_fields(opcodes::ALU32_REG, op);
    lemma_step_effect(s, p);
    let t = step(s, p)->Done_0;
    assert(after(t, p, 0) == Some(t));
}

/// A 32-bit operation of a register among `r0` to `r9` and an immediate.
proof fn lemma_alu32_imm_step(s: MachineState, p: Seq<SvmInstruction>, op: u8, d: SvmRegister, imm: i32)
    requires
        ready(s, p, 1),
        p[s.pc as int] == SvmInstruction::alu32_imm(op, d, imm),
        d.number() <= 9,
        op == opcodes::ADD || op == opcodes::OR || op == opcodes::AND || op == opcodes::XOR,
    ensures
        after(s, p, 1) == Some(MachineState {
            registers: s.registers.update(
                d.number() as int,
                alu32(op, s.registers[d.number() as int] as u32, imm as u32, true)->Value_0,
            ),
            pc: (s.pc + 1) as usize,
            compute_units: (s.compute_units + 1) as u64,
            ..s
        }),
{
    lemma_opcode_fields(opcodes::ALU32_IMM, op);
    lemma_step_effect(s, p);
    let t = step(s, p)->Done_0;
    assert(after(t, p, 0) == Some(t));
}

/// A 64-bit shift of a register among `r0` to `r9` by another.
proof fn lemma_alu64_reg_step(s: MachineState, p: Seq<SvmInstruction>, op: u8, d: SvmRegister, b: SvmRegister)
    requires
        ready(s, p, if op == opcodes::MOD { 25 } else if op == opcodes::MUL { 10 } else { 1 }),
        p[s.pc as int] == SvmInstruction::alu64_reg(op, d, b),
        d.number() <= 9,
        b.number() <= 9,
        op == opcodes::LSH || op == opcodes::RSH || op == opcodes::ARSH || op == opcodes::MOV || op == opcodes::MOD
            || op == opcodes::MUL,
        op == opcodes::MOD ==> s.registers[b.number() as int] != 0,
    ensures
        after(s, p, 1) == Some(MachineState {
            registers: s.registers.update(d.number() as int, if op == opcodes::MOV {
                s.registers[b.number() as int]
            } else if op == opcodes::MOD {
                s.registers[d.number() as int] % s.registers[b.number() as int]
            } else if op == opcodes::MUL {
                wrap64(s.registers[d.number() as int] * s.registers[b.number() as int])
            } else if op == opcodes::LSH {
                s.registers[d.number() as int] << (s.registers[b.number() as int] & 63)
            } else if op == opcodes::RSH {
                s.registers[d.number() as int] >> (s.registers[b.number() as int] & 63)
            } else {
                ((s.registers[d.number() as int] as i64) >> (s.registers[b.number() as int] & 63)) as u64
            }),
            pc: (s.pc + 1) as usize,
            compute_units: (s.compute_units + charge(p[s.pc as int])) as u64,
            ..s
        }),
        charge(p[s.pc as int]) == if op == opcodes::MOD { 25nat } else if op == opcodes::MUL { 10nat } else { 1nat },
{
    lemma_opcode_fields(opcodes::ALU64_REG, op);
    lemma_step_effect(s, p);
    let t = step(s, p)->Done_0;
    assert(after(t, p, 0) == Some(t));
}

/// A conditional jump over one instruction (`jlt` or `jslt`), comparing a register
/// among `r0` to `r9` with another (`other` is `Some`) or with an immediate.
proof fn lemma_skip_step(s: MachineState, p: Seq<SvmInstruction>, op: u8, d: SvmRegister, other: Option<SvmRegister>, imm: i32)
    requires
        ready(s, p, 1),
        p[s.pc as int] == match other {
            Some(b) => SvmInstruction::jmp_reg(op, d, b, 1),
            None => SvmInstruction::jmp_imm(op, d, imm, 1),
        },
        d.number() <= 9,
        other matches Some(b) ==> b.number() <= 9,
        op == opcodes::JLT || op == opcodes::JSLT,
        s.pc + 2 <= p.len(),
    ensures
        ({
            let a = s.registers[d.number() as int];
            let b = match other {
                Some(b) => s.registers[b.number() as int],
                None => (imm as i64) as u64,
            };
            let taken = if op == opcodes::JLT { a < b } else { (a as i64) < (b as i64) };
            after(s, p, 1) == Some(MachineState {
                pc: (if taken { s.pc + 2 } else { s.pc + 1 }) as usize,
                compute_units: (s.compute_units + 1) as u64,
                ..s
            })
        }),
{
    lemma_opcode_fields(opcodes::JMP_REG, op);
    lemma_opcode_fields(opcodes::JMP_IMM, op);
    lemma_step_effect(s, p);
    let t = step(s, p)->Done_0;
    assert(after(t, p, 0) == Some(t));
    let a = s.registers[d.number() as int];
    let b = match other {
        Some(b) => s.registers[b.number() as int],
        None => (imm as i64) as u64,
    };
    lemma_register_bits(a);
    lemma_register_bits(b);
    assert(charge(p[s.pc as int]) == 1);
    assert(cond64(op, a, b) == Some(if op == opcodes::JLT { a < b } else { signed64(a) < signed64(b) }));
    assert(jump_target(s.pc, 1) == Some((s.pc + 2) as usize));
}

/// A word load through `r8` into one of `r0` to `r9`.
proof fn lemma_load_word_step(s: MachineState, p: Seq<SvmInstruction>, d: SvmRegister, addr: nat)
    requires
        ready(s, p, 5),
        p[s.pc as int] == SvmInstruction::ldx(MemorySize::Word, d, SvmRegister::R8, 0),
        d.number() <= 9,
        s.registers[8] == addr,
        addr + 4 <= s.memory.len() <= usize::MAX,
    ensures
        after(s, p, 1) == Some(MachineState {
            registers: s.registers.update(d.number() as int, le_value(s.memory.subrange(addr as int, (addr + 4) as int)) as u64),
            pc: (s.pc + 1) as usize,
            compute_units: (s.compute_units + 5) as u64,
            ..s
        }),
{
    lemma_opcode_fields(0x01, 0x60);
    lemma_step_effect(s, p);
    let t = step(s, p)->Done_0;
    assert(after(t, p, 0) == Some(t));
}

/// A word store through `r8` of one of `r0` to `r9`.
proof fn lemma_store_word_step(s: MachineState, p: Seq<SvmInstruction>, v: SvmRegister, addr: nat)
    requires
        ready(s, p, 5),
        p[s.pc as int] == SvmInstruction::stx(MemorySize::Word, SvmRegister::R8, v, 0),
        v.number() <= 9,
        s.registers[8] == addr,
        addr + 4 <= s.memory.len() <= usize::MAX,
    ensures
        after(s, p, 1) == Some(MachineState {
            memory: store(s, addr as u64, MemorySize::Word, s.registers[v.number() as int])->Done_0.memory,
            pc: (s.pc + 1) as usize,
            compute_units: (s.compute_units + 5) as u64,
            ..s
        }),
        in_bounds(s.memory, addr as u64, MemorySize::Word) == Some(true),
{
    lemma_opcode_fields(0x03, 0x60);
    lemma_step_effect(s, p);
    let t = step(s, p)->Done_0;
    assert(after(t, p, 0) == Some(t));
}

/// Shifting left by 32 and arithmetically back sign-extends the low word.
proof fn lemma_sign_extend_bits(x: u64)
    ensures
        (((x << 32u64) as i64) >> 32u64) as u64 == sign_extended(x as u32),
        sign_extended(x as u32) as u32 == x as u32,
        ((32i32 as i64) as u64) & 63 == 32,
{
    lemma_register_bits(x);
    lemma_word_bits(x as u32, 0);
}

/// The two instructions that sign-extend the low word of one of `r0` to `r9`.
proof fn lemma_sign_extend_runs(s: MachineState, p: Seq<SvmInstruction>, r: SvmRegister)
    requires
        ready(s, p, 2),
        code_at(p, s.pc as int, sign_extend32(r)),
        r.number() <= 9,
    ensures
        after(s, p, 2) == Some(MachineState {
            registers: s.registers.update(r.number() as int, sign_extended(s.registers[r.number() as int] as u32)),
            pc: (s.pc + 2) as usize,
            compute_units: (s.compute_units + 2) as u64,
            ..s
        }),
{
    let i = r.number() as int;
    assert(p[s.pc + 0] == sign_extend32(r)[0]);
    assert(p[s.pc + 1] == sign_extend32(r)[1]);
    lemma_sign_extend_bits(s.registers[i]);
    lemma_alu64_imm_step(s, p, opcodes::LSH, r, 32);
    let s1 = after(s, p, 1)->Some_0;
    lemma_alu64_imm_step(s1, p, opcodes::ARSH, r, 32);
    lemma_after_compose(s, p, 1, 1);
    let s2 = after(s1, p, 1)->Some_0;
    assert(s2.registers =~= s.registers.update(i, sign_extended(s.registers[i] as u32)));
}

/// The two instructions that zero-extend the low word of one of `r0` to `r9`.
proof fn lemma_zero_extend_runs(s: MachineState, p: Seq<SvmInstruction>, r: SvmRegister)
    requires
        ready(s, p, 2),
        code_at(p, s.pc as int, zero_extend32(r)),
        r.number() <= 9,
    ensures
        after(s, p, 2) == Some(MachineState {
            registers: s.registers.update(r.number() as int, (s.registers[r.number() as int] as u32) as u64),
            pc: (s.pc + 2) as usize,
            compute_units: (s.compute_units + 2) as u64,
            ..s
        }),
{
    let i = r.number() as int;
    assert(p[s.pc + 0] == zero_extend32(r)[0]);
    assert(p[s.pc + 1] == zero_extend32(r)[1]);
    lemma_register_bits(s.registers[i]);
    lemma_alu64_imm_step(s, p, opcodes::LSH, r, 32);
    let s1 = after(s, p, 1)->Some_0;
    lemma_alu64_imm_step(s1, p, opcodes::RSH, r, 32);
    lemma_after_compose(s, p, 1, 1);
    let s2 = after(s1, p, 1)->Some_0;
    assert(s2.registers =~= s.registers.update(i, (s.registers[i] as u32) as u64));
}

/// Where the register file lies: its addresses fit a positive `i32` (the immediates
/// that name them) and lie in memory.
pub open spec fn register_file_fits(c: CompilerConfig, memory: Seq<u8>) -> bool {
    &&& c.regfile_base + 128 <= 0x8000_0000
    &&& c.regfile_base + 128 <= memory.len() <= usize::MAX
}

/// A register's slot in the register file.
proof fn lemma_slot(c: CompilerConfig, r: Register)
    ensures
        0 <= r.index() < 32,
        c.regfile_base <= reg_addr(c, r),
        reg_addr(c, r) + 4 <= c.regfile_base + 128,
{
}

/// The register-file layout, for any configuration whose register file fits
/// memory: RISC-V register `x_i` other than `x0` is the little-endian word at
/// `regfile_base + 4 * i`, which lies among the 128 bytes from `regfile_base` and in
/// memory, and different registers have disjoint words.
pub proof fn lemma_register_layout(c: CompilerConfig, memory: Seq<u8>, r1: Register, r2: Register)
    requires
        register_file_fits(c, memory),
    ensures
        reg_addr(c, r1) == c.regfile_base + 4 * r1.index(),
        c.regfile_base <= reg_addr(c, r1),
        reg_addr(c, r1) + 4 <= c.regfile_base + 128 <= memory.len(),
        r1 != Register::ZERO ==> rv_value(c, memory, r1) == le_value(
            memory.subrange(c.regfile_base + 4 * r1.index(), c.regfile_base + 4 * r1.index() + 4),
        ) as u32,
        r1 != r2 ==> reg_addr(c, r1) + 4 <= reg_addr(c, r2) || reg_addr(c, r2) + 4 <= reg_addr(c, r1),
{
    lemma_slot(c, r1);
    lemma_slot(c, r2);
    lemma_register_index_injective(r1, r2);
    let a = c.regfile_base + 4 * r1.index();
    assert(reg_addr(c, r1) == a);
    assert(memory.subrange(reg_addr(c, r1), reg_addr(c, r1) + 4) == memory.subrange(a, a + 4));
}

/// Loading a RISC-V register into one of `r0` to `r7` sign-extends its value there
/// and changes nothing but that register and `r8`.
#[verifier::spinoff_prover]
#[verifier::rlimit(50)]
proof fn lemma_load_runs(c: CompilerConfig, p: Seq<SvmInstruction>, s: MachineState, svm: SvmRegister, rv: Register)
    requires
        can_run(s, p, 8),
        code_at(p, s.pc as int, load_code(c, svm, rv)),
        svm.number() <= 7,
        register_file_fits(c, s.memory),
    ensures
        ({
            let k = load_code(c, svm, rv).len();
            &&& after(s, p, k) is Some
            &&& {
                let t = after(s, p, k)->Some_0;
                &&& t.registers[svm.number() as int] == sign_extended(rv_value(c, s.memory, rv))
                &&& keeps(s, t, set![svm.number() as int, 8])
                &&& t.memory == s.memory
                &&& t.pc == s.pc + k
                &&& t.compute_units <= s.compute_units + 8
            }
        }),
{
    let code = load_code(c, svm, rv);
    let i = svm.number() as int;
    if rv == Register::ZERO {
        assert(p[s.pc + 0] == code[0]);
        lemma_alu64_imm_step(s, p, opcodes::MOV, svm, 0);
        lemma_word_bits(0, 0);
    } else {
        lemma_slot(c, rv);
        let addr = reg_addr(c, rv);
        assert(p[s.pc + 0] == code[0]);
        assert(p[s.pc + 1] == code[1]);
        lemma_alu64_imm_step(s, p, opcodes::MOV, SvmRegister::R8, addr as i32);
        let s1 = after(s, p, 1)->Some_0;
        assert(s1.registers[8] == addr);
        lemma_load_word_step(s1, p, svm, addr as nat);
        let s2 = after(s1, p, 1)->Some_0;
        lemma_after_compose(s, p, 1, 1);
        lemma_code_at_split(p, s.pc as int, code.subrange(0, 2), sign_extend32(svm));
        assert(code == code.subrange(0, 2) + sign_extend32(svm));
        lemma_sign_extend_runs(s2, p, svm);
        lemma_after_compose(s, p, 2, 2);
        let t = after(s2, p, 2)->Some_0;
        let bytes = s.memory.subrange(addr, addr + 4);
        lemma_bytes_of_value(bytes);
        lemma_byte_powers();
        assert(t.registers[i] == sign_extended(rv_value(c, s.memory, rv)));
        assert(keeps(s, t, set![svm.number() as int, 8]));
    }
}

/// Storing one of `r0` to `r7` into a RISC-V register sets that register to its low
/// word (nothing for `x0`), and changes no other RISC-V register, no memory outside
/// the register file, and no machine register but `r8`.
#[verifier::spinoff_prover]
#[verifier::rlimit(50)]
proof fn lemma_store_runs(c: CompilerConfig, p: Seq<SvmInstruction>, s: MachineState, rd: Register, v: SvmRegister)
    requires
        can_run(s, p, 6),
        code_at(p, s.pc as int, store_code(c, rd, v)),
        v.number() <= 7,
        register_file_fits(c, s.memory),
    ensures
        ({
            let k = store_code(c, rd, v).len();
            &&& after(s, p, k) is Some
            &&& {
                let t = after(s, p, k)->Some_0;
                &&& forall|r: Register| #[trigger] rv_value(c, t.memory, r) == if r == rd && rd != Register::ZERO {
                    s.registers[v.number() as int] as u32
                } else {
                    rv_value(c, s.memory, r)
                }
                &&& t.memory.len() == s.memory.len()
                &&& forall|j: int| 0 <= j < s.memory.len() && !(c.regfile_base <= j < c.regfile_base + 128)
                    ==> #[trigger] t.memory[j] == s.memory[j]
                &&& keeps(s, t, set![8])
                &&& t.pc == s.pc + k
                &&& t.compute_units <= s.compute_units + 6
            }
        }),
{
    let code = store_code(c, rd, v);
    if rd == Register::ZERO {
        assert(after(s, p, 0) == Some(s));
        assert(keeps(s, s, set![8]));
    } else {
        lemma_slot(c, rd);
        let addr = reg_addr(c, rd);
        assert(p[s.pc + 0] == code[0]);
        assert(p[s.pc + 1] == code[1]);
        lemma_alu64_imm_step(s, p, opcodes::MOV, SvmRegister::R8, addr as i32);
        let s1 = after(s, p, 1)->Some_0;
        lemma_store_word_step(s1, p, v, addr as nat);
        lemma_after_compose(s, p, 1, 1);
        let t = after(s1, p, 1)->Some_0;
        let value = s.registers[v.number() as int];
        lemma_load_after_store(s1, addr as u64, MemorySize::Word, value);
        lemma_byte_powers();
        lemma_register_bits(value);
        assert forall|r: Register| #[trigger] rv_value(c, t.memory, r) == if r == rd && rd != Register::ZERO {
            value as u32
        } else {
            rv_value(c, s.memory, r)
        } by {
            if r != Register::ZERO {
                lemma_slot(c, r);
                let b = reg_addr(c, r);
                lemma_bytes_of_value(t.memory.subrange(b, b + 4));
                if r == rd {
                    assert(read_at(t.memory, addr as u64, MemorySize::Word) == le_value(t.memory.subrange(b, b + 4)) as u64);
                } else {
                    lemma_register_index_injective(r, rd);
                    assert forall|k: int| 0 <= k < 4 implies #[trigger] t.memory.subrange(b, b + 4)[k] == s.memory.subrange(b, b + 4)[k] by {
                        assert(!(addr <= b + k < addr + 4));
                        assert(t.memory[b + k] == s1.memory[b + k]);
                    }
                    assert(t.memory.subrange(b, b + 4) =~= s.memory.subrange(b, b + 4));
                }
            }
        }
        assert(keeps(s, t, set![8]));
    }
}

/// The registers a register-register instruction names: `rd`, `rs1`, `rs2`.
pub open spec fn register_operands(inst: Instruction) -> (Register, Register, Register) {
    match inst {
        Instruction::Add { rd, rs1, rs2 }
        | Instruction::Sub { rd, rs1, rs2 }
        | Instruction::Xor { rd, rs1, rs2 }
        | Instruction::Or { rd, rs1, rs2 }
        | Instruction::And { rd, rs1, rs2 }
        | Instruction::Mul { rd, rs1, rs2 }
        | Instruction::Sll { rd, rs1, rs2 }
        | Instruction::Srl { rd, rs1, rs2 }
        | Instruction::Sra { rd, rs1, rs2 }
        | Instruction::Slt { rd, rs1, rs2 }
        | Instruction::Sltu { rd, rs1, rs2 } => (rd, rs1, rs2),
        _ => (Register::ZERO, Register::ZERO, Register::ZERO),
    }
}

/// What RISC-V's ADD, SUB, XOR, OR, AND and MUL compute from the values `x` of
/// `rs1` and `y` of `rs2`: the low 32 bits of the sum, difference or product, or
/// the bitwise operation.
pub open spec fn register_op_result(inst: Instruction, x: u32, y: u32) -> u32 {
    match inst {
        Instruction::Add { .. } => wrap32(x + y),
        Instruction::Sub { .. } => wrap32(x - y),
        Instruction::Xor { .. } => x ^ y,
        Instruction::Or { .. } => x | y,
        Instruction::And { .. } => x & y,
        Instruction::Mul { .. } => wrap32(x * y),
        _ => 0,
    }
}

/// The sBPF operation the compiler uses for such an instruction.
spec fn register_op_code(inst: Instruction) -> u8 {
    match inst {
        Instruction::Add { .. } => opcodes::ADD,
        Instruction::Sub { .. } => opcodes::SUB,
        Instruction::Xor { .. } => opcodes::XOR,
        Instruction::Or { .. } => opcodes::OR,
        Instruction::And { .. } => opcodes::AND,
        _ => opcodes::MUL,
    }
}

/// Running the code compiled for an ADD, SUB, XOR, OR, AND or MUL, from its first
/// instruction, ends at the instruction after that code; it sets the RISC-V
/// destination register in the register file to what RISC-V computes from the two
/// source registers (and leaves `x0` zero), and changes no other RISC-V register, no
/// memory outside the register file, and not the frame pointer `r10`. So the run
/// of the whole program goes on as the run from there (`lemma_after_run`).
#[verifier::spinoff_prover]
#[verifier::rlimit(50)]
pub proof fn lemma_register_op_runs(c: CompilerConfig, p: Seq<SvmInstruction>, s: MachineState, inst: Instruction, idx: int)
    requires
        inst is Add || inst is Sub || inst is Xor || inst is Or || inst is And || inst is Mul,
        code_at(p, s.pc as int, inst_code(c, inst, idx)),
        can_run(s, p, 40),
        register_file_fits(c, s.memory),
    ensures
        ({
            let k = inst_code(c, inst, idx).len();
            let (rd, rs1, rs2) = register_operands(inst);
            &&& after(s, p, k) is Some
            &&& {
                let t = after(s, p, k)->Some_0;
                &&& t.pc == s.pc + k
                &&& forall|r: Register| #[trigger] rv_value(c, t.memory, r) == if r == rd && rd != Register::ZERO {
                    register_op_result(inst, rv_value(c, s.memory, rs1), rv_value(c, s.memory, rs2))
                } else {
                    rv_value(c, s.memory, r)
                }
                &&& t.memory.len() == s.memory.len()
                &&& forall|j: int| 0 <= j < s.memory.len() && !(c.regfile_base <= j < c.regfile_base + 128)
                    ==> #[trigger] t.memory[j] == s.memory[j]
                &&& t.registers[10] == s.registers[10]
                &&& t.compute_units <= s.compute_units + 40
                &&& keeps(s, t, set![1, 2, 8])
            }
        }),
{
    let (rd, rs1, rs2) = register_operands(inst);
    let op = register_op_code(inst);
    let r1 = SvmRegister::R1;
    let r2 = SvmRegister::R2;
    reveal(inst_code);
    reveal(r_type_code);
    let l1 = load_code(c, r1, rs1);
    let l2 = load_code(c, r2, rs2);
    let a = seq![SvmInstruction::alu32_reg(op, r1, r2)];
    let x = sign_extend32(r1);
    let st = store_code(c, rd, r1);
    let code = inst_code(c, inst, idx);
    assert(code == l1 + l2 + a + x + st);
    let at = s.pc as int;
    lemma_code_at_split(p, at, l1 + l2 + a + x, st);
    lemma_code_at_split(p, at, l1 + l2 + a, x);
    lemma_code_at_split(p, at, l1 + l2, a);
    lemma_code_at_split(p, at, l1, l2);
    // rs1 into r1
    lemma_load_runs(c, p, s, r1, rs1);
    let s1 = after(s, p, l1.len())->Some_0;
    // rs2 into r2
    lemma_load_runs(c, p, s1, r2, rs2);
    let s2 = after(s1, p, l2.len())->Some_0;
    lemma_after_compose(s, p, l1.len(), l2.len());
    // the operation on the low words
    assert(p[s2.pc as int] == a[0]) by {
        assert(p[at + (l1 + l2).len() + 0] == a[0]);
    }
    lemma_alu32_reg_step(s2, p, op, r1, r2);
    let s3 = after(s2, p, 1)->Some_0;
    lemma_after_compose(s, p, l1.len() + l2.len(), 1);
    let xv = rv_value(c, s.memory, rs1);
    let yv = rv_value(c, s.memory, rs2);
    lemma_sign_extend_bits(sign_extended(xv) as u64);
    lemma_sign_extend_bits(sign_extended(yv) as u64);
    lemma_word_bits(xv, yv);
    lemma_word_bits(yv, xv);
    let v = alu32(op, xv, yv, false)->Value_0;
    assert(s3.registers[1] == v);
    assert(v as u32 == register_op_result(inst, xv, yv)) by {
        assert(wrap32(xv + yv) < 0x1_0000_0000);
        assert(wrap32(xv - yv) < 0x1_0000_0000);
        assert(wrap32(xv * yv) < 0x1_0000_0000);
    }
    // sign-extended back
    lemma_sign_extend_runs(s3, p, r1);
    let s4 = after(s3, p, 2)->Some_0;
    lemma_after_compose(s, p, l1.len() + l2.len() + 1, 2);
    lemma_sign_extend_bits(v);
    // stored into rd
    lemma_store_runs(c, p, s4, rd, r1);
    lemma_after_compose(s, p, l1.len() + l2.len() + 3, st.len());
    let t = after(s4, p, st.len())->Some_0;
    assert(keeps(s, t, set![1, 2, 8]));
}

/// The register and immediate an immediate ALU instruction names: `rd`, `rs1`, `imm`.
pub open spec fn immediate_operands(inst: Instruction) -> (Register, Register, i32) {
    match inst {
        Instruction::Addi { rd, rs1, imm }
        | Instruction::Xori { rd, rs1, imm }
        | Instruction::Ori { rd, rs1, imm }
        | Instruction::Andi { rd, rs1, imm } => (rd, rs1, imm),
        _ => (Register::ZERO, Register::ZERO, 0),
    }
}

/// What RISC-V's ADDI, XORI, ORI and ANDI compute from the value `x` of `rs1` and
/// the immediate `imm`, taken as a 32-bit word.
pub open spec fn immediate_op_result(inst: Instruction, x: u32, imm: i32) -> u32 {
    match inst {
        Instruction::Addi { .. } => wrap32(x + imm as u32),
        Instruction::Xori { .. } => x ^ (imm as u32),
        Instruction::Ori { .. } => x | (imm as u32),
        Instruction::Andi { .. } => x & (imm as u32),
        _ => 0,
    }
}

/// The sBPF operation the compiler uses for such an instruction.
spec fn immediate_op_code(inst: Instruction) -> u8 {
    match inst {
        Instruction::Addi { .. } => opcodes::ADD,
        Instruction::Xori { .. } => opcodes::XOR,
        Instruction::Ori { .. } => opcodes::OR,
        _ => opcodes::AND,
    }
}

/// Running the code compiled for an ADDI, XORI, ORI or ANDI, from its first
/// instruction, ends at the instruction after that code; it sets the RISC-V
/// destination register to what RISC-V computes from the source register and the
/// immediate (and leaves `x0` zero), and changes no other RISC-V register, no memory
/// outside the register file, and not the frame pointer `r10`.
#[verifier::spinoff_prover]
#[verifier::rlimit(50)]
pub proof fn lemma_immediate_op_runs(c: CompilerConfig, p: Seq<SvmInstruction>, s: MachineState, inst: Instruction, idx: int)
    requires
        inst is Addi || inst is Xori || inst is Ori || inst is Andi,
        code_at(p, s.pc as int, inst_code(c, inst, idx)),
        can_run(s, p, 40),
        register_file_fits(c, s.memory),
    ensures
        ({
            let k = inst_code(c, inst, idx).len();
            let (rd, rs1, imm) = immediate_operands(inst);
            &&& after(s, p, k) is Some
            &&& {
                let t = after(s, p, k)->Some_0;
                &&& t.pc == s.pc + k
                &&& forall|r: Register| #[trigger] rv_value(c, t.memory, r) == if r == rd && rd != Register::ZERO {
                    immediate_op_result(inst, rv_value(c, s.memory, rs1), imm)
                } else {
                    rv_value(c, s.memory, r)
                }
                &&& t.memory.len() == s.memory.len()
                &&& forall|j: int| 0 <= j < s.memory.len() && !(c.regfile_base <= j < c.regfile_base + 128)
                    ==> #[trigger] t.memory[j] == s.memory[j]
                &&& t.registers[10] == s.registers[10]
                &&& t.compute_units <= s.compute_units + 40
                &&& keeps(s, t, set![1, 8])
            }
        }),
{
    let (rd, rs1, imm) = immediate_operands(inst);
    let op = immediate_op_code(inst);
    let r1 = SvmRegister::R1;
    reveal(inst_code);
    reveal(i_type_code);
    let l1 = load_code(c, r1, rs1);
    let a = seq![SvmInstruction::alu32_imm(op, r1, imm)];
    let x = sign_extend32(r1);
    let st = store_code(c, rd, r1);
    let code = inst_code(c, inst, idx);
    assert(code == l1 + a + x + st);
    let at = s.pc as int;
    lemma_code_at_split(p, at, l1 + a + x, st);
    lemma_code_at_split(p, at, l1 + a, x);
    lemma_code_at_split(p, at, l1, a);
    lemma_load_runs(c, p, s, r1, rs1);
    let s1 = after(s, p, l1.len())->Some_0;
    assert(p[s1.pc as int] == a[0]) by {
        assert(p[at + l1.len() + 0] == a[0]);
    }
    lemma_alu32_imm_step(s1, p, op, r1, imm);
    let s2 = after(s1, p, 1)->Some_0;
    lemma_after_compose(s, p, l1.len(), 1);
    let xv = rv_value(c, s.memory, rs1);
    lemma_word_bits(xv, 0);
    let v = alu32(op, xv, imm as u32, true)->Value_0;
    assert(s2.registers[1] == v);
    assert(v as u32 == immediate_op_result(inst, xv, imm)) by {
        assert(wrap32(xv + imm as u32) < 0x1_0000_0000);
    }
    lemma_sign_extend_runs(s2, p, r1);
    let s3 = after(s2, p, 2)->Some_0;
    lemma_after_compose(s, p, l1.len() + 1, 2);
    lemma_sign_extend_bits(v);
    lemma_store_runs(c, p, s3, rd, r1);
    lemma_after_compose(s, p, l1.len() + 3, st.len());
    let t = after(s3, p, st.len())->Some_0;
    assert(keeps(s, t, set![1, 8]));
}

/// The value LUI, AUIPC and the CSR instructions give their destination register
/// (the CSR instructions read every CSR as 0); AUIPC adds its immediate to the byte
/// address of its index `idx` (`byte_address`).
pub open spec fn constant_result(c: CompilerConfig, inst: Instruction, idx: int) -> u32 {
    match inst {
        Instruction::Lui { imm, .. } => imm as u32,
        Instruction::Auipc { imm, .. } => vstd::wrapping::i32_specs::wrapping_add(byte_address(c, idx), imm) as u32,
        _ => 0,
    }
}

/// Running the code compiled for a LUI, AUIPC or CSR instruction sets its
/// destination register to `constant_result`, and changes no other RISC-V register,
/// no memory outside the register file, and not the frame pointer `r10`.
#[verifier::spinoff_prover]
#[verifier::rlimit(50)]
pub proof fn lemma_constant_runs(c: CompilerConfig, p: Seq<SvmInstruction>, s: MachineState, inst: Instruction, idx: int)
    requires
        inst is Lui || inst is Auipc || inst is Csrrw || inst is Csrrs || inst is Csrrc || inst is Csrrwi
            || inst is Csrrsi || inst is Csrrci,
        code_at(p, s.pc as int, inst_code(c, inst, idx)),
        can_run(s, p, 10),
        register_file_fits(c, s.memory),
    ensures
        ({
            let k = inst_code(c, inst, idx).len();
            let rd = inst.dest()->Some_0;
            &&& after(s, p, k) is Some
            &&& {
                let t = after(s, p, k)->Some_0;
                &&& t.pc == s.pc + k
                &&& forall|r: Register| #[trigger] rv_value(c, t.memory, r) == if r == rd && rd != Register::ZERO {
                    constant_result(c, inst, idx)
                } else {
                    rv_value(c, s.memory, r)
                }
                &&& t.memory.len() == s.memory.len()
                &&& forall|j: int| 0 <= j < s.memory.len() && !(c.regfile_base <= j < c.regfile_base + 128)
                    ==> #[trigger] t.memory[j] == s.memory[j]
                &&& t.registers[10] == s.registers[10]
                &&& t.compute_units <= s.compute_units + 40
                &&& keeps(s, t, set![1, 8])
            }
        }),
{
    let rd = inst.dest()->Some_0;
    let value: i32 = match inst {
        Instruction::Lui { imm, .. } => imm,
        Instruction::Auipc { imm, .. } => vstd::wrapping::i32_specs::wrapping_add(byte_address(c, idx), imm),
        _ => 0,
    };
    let r1 = SvmRegister::R1;
    reveal(inst_code);
    reveal(constant_code);
    let m = seq![SvmInstruction::mov64_imm(r1, value)];
    let st = store_code(c, rd, r1);
    assert(inst_code(c, inst, idx) == m + st);
    let at = s.pc as int;
    lemma_code_at_split(p, at, m, st);
    assert(p[at + 0] == m[0]);
    lemma_alu64_imm_step(s, p, opcodes::MOV, r1, value);
    let s1 = after(s, p, 1)->Some_0;
    lemma_immediate_bits(value);
    lemma_store_runs(c, p, s1, rd, r1);
    lemma_after_compose(s, p, 1, st.len());
    let t = after(s1, p, st.len())->Some_0;
    assert(keeps(s, t, set![1, 8]));
}

/// Running the code compiled for an ECALL exits with `r0` holding the value of
/// RISC-V `a0`, sign-extended: that value is the result of the run.
#[verifier::spinoff_prover]
#[verifier::rlimit(50)]
pub proof fn lemma_ecall_runs(c: CompilerConfig, p: Seq<SvmInstruction>, s: MachineState, idx: int)
    requires
        code_at(p, s.pc as int, inst_code(c, Instruction::Ecall, idx)),
        can_run(s, p, 10),
        register_file_fits(c, s.memory),
    ensures
        run(s, p) matches Effect::Done(t) && t.halted && t.registers[0] == sign_extended(
            rv_value(c, s.memory, Register::A0),
        ) && t.memory == s.memory,
{
    reveal(inst_code);
    let l = load_code(c, SvmRegister::R0, Register::A0);
    let e = seq![SvmInstruction::exit()];
    assert(inst_code(c, Instruction::Ecall, idx) == l + e);
    let at = s.pc as int;
    lemma_code_at_split(p, at, l, e);
    lemma_load_runs(c, p, s, SvmRegister::R0, Register::A0);
    let s1 = after(s, p, l.len())->Some_0;
    lemma_after_run(s, p, l.len());
    assert(p[s1.pc as int] == e[0]) by {
        assert(p[at + l.len() + 0] == e[0]);
    }
    lemma_opcode_fields(opcodes::JMP_IMM, opcodes::EXIT);
    lemma_step_effect(s1, p);
    let t = step(s1, p)->Done_0;
    assert(t.halted);
    assert(run(t, p) == Effect::Done(t));
}

/// Running the code compiled for an EBREAK stops the program with `r0` as it was.
pub proof fn lemma_ebreak_runs(c: CompilerConfig, p: Seq<SvmInstruction>, s: MachineState, idx: int)
    requires
        code_at(p, s.pc as int, inst_code(c, Instruction::Ebreak, idx)),
        can_run(s, p, 1),
    ensures
        run(s, p) matches Effect::Done(t) && t.halted && t.registers[0] == s.registers[0] && t.memory == s.memory,
{
    reveal(inst_code);
    assert(p[s.pc as int + 0] == SvmInstruction::exit());
    lemma_opcode_fields(opcodes::JMP_IMM, opcodes::EXIT);
    lemma_step_effect(s, p);
    let t = step(s, p)->Done_0;
    assert(t.halted);
    assert(run(t, p) == Effect::Done(t));
}

/// The registers and shift amount an immediate shift names: `rd`, `rs1`, `shamt`.
pub open spec fn shift_operands(inst: Instruction) -> (Register, Register, u32) {
    match inst {
        Instruction::Slli { rd, rs1, shamt }
        | Instruction::Srli { rd, rs1, shamt }
        | Instruction::Srai { rd, rs1, shamt } => (rd, rs1, shamt),
        _ => (Register::ZERO, Register::ZERO, 0),
    }
}

/// What RISC-V's shifts compute from the value `x` of `rs1`: `x` shifted by the low
/// five bits of `shamt` (the immediate, or the value of `rs2`), left, right with
/// zeros, or right with copies of the sign bit.
pub open spec fn shift_result(inst: Instruction, x: u32, shamt: u32) -> u32 {
    let n = shamt & 0x1f;
    match inst {
        Instruction::Slli { .. } | Instruction::Sll { .. } => x << n,
        Instruction::Srli { .. } | Instruction::Srl { .. } => x >> n,
        Instruction::Srai { .. } | Instruction::Sra { .. } => ((x as i32) >> n) as u32,
        _ => 0,
    }
}

/// The shifts on sign-extended words that the compiled code performs give the
/// 32-bit shifts.
proof fn lemma_shift_bits(x: u32, n: u64)
    requires
        n < 32,
    ensures
        (sign_extended(x) << n) as u32 == x << (n as u32),
        (sign_extended(x) << 32u64) >> 32u64 == x as u64,
        (((x as u64) >> n) as u32) == x >> (n as u32),
        (((sign_extended(x) as i64) >> n) as u64) as u32 == ((x as i32) >> (n as u32)) as u32,
        sign_extended(sign_extended(x) as u32) == sign_extended(x),
{
    lemma_shift_amount_bits(x, n);
    lemma_word_bits(x, 0);
}

/// Running the code compiled for an SLLI, SRLI or SRAI, from its first instruction,
/// ends at the instruction after that code; it sets the RISC-V destination register
/// to what RISC-V computes (and leaves `x0` zero), and changes no other RISC-V
/// register, no memory outside the register file, and not the frame pointer `r10`.
#[verifier::spinoff_prover]
#[verifier::rlimit(50)]
pub proof fn lemma_shift_runs(c: CompilerConfig, p: Seq<SvmInstruction>, s: MachineState, inst: Instruction, idx: int)
    requires
        inst is Slli || inst is Srli || inst is Srai,
        code_at(p, s.pc as int, inst_code(c, inst, idx)),
        can_run(s, p, 40),
        register_file_fits(c, s.memory),
    ensures
        ({
            let k = inst_code(c, inst, idx).len();
            let (rd, rs1, shamt) = shift_operands(inst);
            &&& after(s, p, k) is Some
            &&& {
                let t = after(s, p, k)->Some_0;
                &&& t.pc == s.pc + k
                &&& forall|r: Register| #[trigger] rv_value(c, t.memory, r) == if r == rd && rd != Register::ZERO {
                    shift_result(inst, rv_value(c, s.memory, rs1), shamt)
                } else {
                    rv_value(c, s.memory, r)
                }
                &&& t.memory.len() == s.memory.len()
                &&& forall|j: int| 0 <= j < s.memory.len() && !(c.regfile_base <= j < c.regfile_base + 128)
                    ==> #[trigger] t.memory[j] == s.memory[j]
                &&& t.registers[10] == s.registers[10]
                &&& t.compute_units <= s.compute_units + 40
                &&& keeps(s, t, set![1, 8])
            }
        }),
{
    let (rd, rs1, shamt) = shift_operands(inst);
    let right = !(inst is Slli);
    let arithmetic = inst is Srai;
    let r1 = SvmRegister::R1;
    let amount = (shamt & 0x1f) as i32;
    let by = if right {
        if arithmetic {
            SvmInstruction::arsh64_imm(r1, amount)
        } else {
            SvmInstruction::rsh64_imm(r1, amount)
        }
    } else {
        SvmInstruction::lsh64_imm(r1, amount)
    };
    reveal(inst_code);
    reveal(shift_imm_code);
    let l1 = load_code(c, r1, rs1);
    let core = shift_core(right, arithmetic, seq![by]);
    let x = sign_extend32(r1);
    let st = store_code(c, rd, r1);
    let code = inst_code(c, inst, idx);
    assert(code == l1 + core + x + st);
    let at = s.pc as int;
    lemma_code_at_split(p, at, l1 + core + x, st);
    lemma_code_at_split(p, at, l1 + core, x);
    lemma_code_at_split(p, at, l1, core);
    lemma_load_runs(c, p, s, r1, rs1);
    let s1 = after(s, p, l1.len())->Some_0;
    let xv = rv_value(c, s.memory, rs1);
    lemma_mask_bits(shamt);
    let n = (shamt & 0x1f) as u64;
    lemma_shift_bits(xv, n);
    // the shift itself, after extending the operand for a right shift
    let before_shift = if right {
        lemma_code_at_split(p, at + l1.len(), core.subrange(0, 2), seq![by]);
        assert(core == core.subrange(0, 2) + seq![by]);
        if arithmetic {
            assert(core.subrange(0, 2) == sign_extend32(r1));
            lemma_sign_extend_runs(s1, p, r1);
        } else {
            assert(core.subrange(0, 2) == seq![SvmInstruction::lsh64_imm(r1, 32), SvmInstruction::rsh64_imm(r1, 32)]);
            assert(p[s1.pc + 0] == core[0]);
            assert(p[s1.pc + 1] == core[1]);
            lemma_sign_extend_bits(xv as u64);
            lemma_alu64_imm_step(s1, p, opcodes::LSH, r1, 32);
            let z1 = after(s1, p, 1)->Some_0;
            lemma_alu64_imm_step(z1, p, opcodes::RSH, r1, 32);
            lemma_after_compose(s1, p, 1, 1);
        }
        2nat
    } else {
        0nat
    };
    let s2 = after(s1, p, before_shift)->Some_0;
    lemma_after_compose(s, p, l1.len(), before_shift);
    assert(s2.registers[1] == if right && !arithmetic { xv as u64 } else { sign_extended(xv) });
    assert(p[s2.pc as int] == by) by {
        assert(p[at + l1.len() + before_shift] == core[before_shift as int]);
    }
    if right {
        if arithmetic {
            lemma_alu64_imm_step(s2, p, opcodes::ARSH, r1, amount);
        } else {
            lemma_alu64_imm_step(s2, p, opcodes::RSH, r1, amount);
        }
    } else {
        lemma_alu64_imm_step(s2, p, opcodes::LSH, r1, amount);
    }
    let s3 = after(s2, p, 1)->Some_0;
    lemma_after_compose(s, p, l1.len() + before_shift, 1);
    let v = s3.registers[1];
    assert(v as u32 == shift_result(inst, xv, shamt));
    lemma_sign_extend_runs(s3, p, r1);
    let s4 = after(s3, p, 2)->Some_0;
    lemma_after_compose(s, p, l1.len() + before_shift + 1, 2);
    lemma_sign_extend_bits(v);
    lemma_store_runs(c, p, s4, rd, r1);
    lemma_after_compose(s, p, l1.len() + before_shift + 3, st.len());
    let t = after(s4, p, st.len())->Some_0;
    assert(keeps(s, t, set![1, 8]));
}

/// Running the code compiled for an SLL, SRL or SRA, from its first instruction,
/// ends at the instruction after that code; it sets the RISC-V destination register
/// to the value of `rs1` shifted by the low five bits of the value of `rs2` (and
/// leaves `x0` zero), and changes no other RISC-V register, no memory outside the
/// register file, and not the frame pointer `r10`.
#[verifier::spinoff_prover]
#[verifier::rlimit(50)]
pub proof fn lemma_shift_register_runs(c: CompilerConfig, p: Seq<SvmInstruction>, s: MachineState, inst: Instruction, idx: int)
    requires
        inst is Sll || inst is Srl || inst is Sra,
        code_at(p, s.pc as int, inst_code(c, inst, idx)),
        can_run(s, p, 40),
        register_file_fits(c, s.memory),
    ensures
        ({
            let k = inst_code(c, inst, idx).len();
            let (rd, rs1, rs2) = register_operands(inst);
            &&& after(s, p, k) is Some
            &&& {
                let t = after(s, p, k)->Some_0;
                &&& t.pc == s.pc + k
                &&& forall|r: Register| #[trigger] rv_value(c, t.memory, r) == if r == rd && rd != Register::ZERO {
                    shift_result(inst, rv_value(c, s.memory, rs1), rv_value(c, s.memory, rs2))
                } else {
                    rv_value(c, s.memory, r)
                }
                &&& t.memory.len() == s.memory.len()
                &&& forall|j: int| 0 <= j < s.memory.len() && !(c.regfile_base <= j < c.regfile_base + 128)
                    ==> #[trigger] t.memory[j] == s.memory[j]
                &&& t.registers[10] == s.registers[10]
                &&& t.compute_units <= s.compute_units + 40
                &&& keeps(s, t, set![1, 2, 8])
            }
        }),
{
    let (rd, rs1, rs2) = register_operands(inst);
    let right = !(inst is Sll);
    let arithmetic = inst is Sra;
    let r1 = SvmRegister::R1;
    let r2 = SvmRegister::R2;
    let by = if right {
        if arithmetic {
            SvmInstruction::arsh64_reg(r1, r2)
        } else {
            SvmInstruction::rsh64_reg(r1, r2)
        }
    } else {
        SvmInstruction::lsh64_reg(r1, r2)
    };
    reveal(inst_code);
    reveal(shift_code);
    let l1 = load_code(c, r1, rs1);
    let l2 = load_code(c, r2, rs2);
    let m = seq![SvmInstruction::and32_imm(r2, 0x1f)];
    let core = shift_core(right, arithmetic, seq![by]);
    let x = sign_extend32(r1);
    let st = store_code(c, rd, r1);
    let code = inst_code(c, inst, idx);
    assert(code == l1 + l2 + m + core + x + st);
    let at = s.pc as int;
    lemma_code_at_split(p, at, l1 + l2 + m + core + x, st);
    lemma_code_at_split(p, at, l1 + l2 + m + core, x);
    lemma_code_at_split(p, at, l1 + l2 + m, core);
    lemma_code_at_split(p, at, l1 + l2, m);
    lemma_code_at_split(p, at, l1, l2);
    lemma_load_runs(c, p, s, r1, rs1);
    let s1 = after(s, p, l1.len())->Some_0;
    lemma_load_runs(c, p, s1, r2, rs2);
    let s2 = after(s1, p, l2.len())->Some_0;
    lemma_after_compose(s, p, l1.len(), l2.len());
    let xv = rv_value(c, s.memory, rs1);
    let yv = rv_value(c, s.memory, rs2);
    // the amount masked to five bits
    assert(p[s2.pc as int] == m[0]) by {
        assert(p[at + (l1 + l2).len() + 0] == m[0]);
    }
    lemma_alu32_imm_step(s2, p, opcodes::AND, r2, 0x1f);
    let s3 = after(s2, p, 1)->Some_0;
    lemma_after_compose(s, p, l1.len() + l2.len(), 1);
    lemma_word_bits(yv, 0);
    lemma_mask_bits(yv);
    let n = (yv & 0x1f) as u64;
    assert(s3.registers[2] & 63 == n);
    lemma_shift_bits(xv, n);
    let base = at + l1.len() + l2.len() + 1;
    let before_shift = if right {
        lemma_code_at_split(p, base, core.subrange(0, 2), seq![by]);
        assert(core == core.subrange(0, 2) + seq![by]);
        if arithmetic {
            assert(core.subrange(0, 2) == sign_extend32(r1));
            lemma_sign_extend_runs(s3, p, r1);
        } else {
            assert(core.subrange(0, 2) == seq![SvmInstruction::lsh64_imm(r1, 32), SvmInstruction::rsh64_imm(r1, 32)]);
            assert(p[s3.pc + 0] == core[0]);
            assert(p[s3.pc + 1] == core[1]);
            lemma_sign_extend_bits(xv as u64);
            lemma_alu64_imm_step(s3, p, opcodes::LSH, r1, 32);
            let z1 = after(s3, p, 1)->Some_0;
            lemma_alu64_imm_step(z1, p, opcodes::RSH, r1, 32);
            lemma_after_compose(s3, p, 1, 1);
        }
        2nat
    } else {
        0nat
    };
    let s4 = after(s3, p, before_shift)->Some_0;
    lemma_after_compose(s, p, l1.len() + l2.len() + 1, before_shift);
    assert(s4.registers[1] == if right && !arithmetic { xv as u64 } else { sign_extended(xv) });
    assert(s4.registers[2] == s3.registers[2]);
    assert(p[s4.pc as int] == by) by {
        assert(p[base + before_shift] == core[before_shift as int]);
    }
    if right {
        if arithmetic {
            lemma_alu64_reg_step(s4, p, opcodes::ARSH, r1, r2);
        } else {
            lemma_alu64_reg_step(s4, p, opcodes::RSH, r1, r2);
        }
    } else {
        lemma_alu64_reg_step(s4, p, opcodes::LSH, r1, r2);
    }
    let s5 = after(s4, p, 1)->Some_0;
    lemma_after_compose(s, p, l1.len() + l2.len() + 1 + before_shift, 1);
    let v = s5.registers[1];
    assert(v as u32 == shift_result(inst, xv, yv));
    lemma_sign_extend_runs(s5, p, r1);
    let s6 = after(s5, p, 2)->Some_0;
    lemma_after_compose(s, p, l1.len() + l2.len() + 2 + before_shift, 2);
    lemma_sign_extend_bits(v);
    lemma_store_runs(c, p, s6, rd, r1);
    lemma_after_compose(s, p, l1.len() + l2.len() + 4 + before_shift, st.len());
    let t = after(s6, p, st.len())->Some_0;
    assert(keeps(s, t, set![1, 2, 8]));
}

/// What RISC-V's SLT, SLTU, SLTI and SLTIU compute from the value `x` of `rs1` and
/// `y` (the value of `rs2`, or the immediate as a 32-bit word): 1 where `x` is
/// less than `y`, compared signed or unsigned, else 0.
pub open spec fn compare_result(inst: Instruction, x: u32, y: u32) -> u32 {
    let less = match inst {
        Instruction::Slt { .. } | Instruction::Slti { .. } => (x as i32) < (y as i32),
        _ => x < y,
    };
    if less { 1 } else { 0 }
}

/// Comparing sign-extended words compares the words, signed or unsigned.
proof fn lemma_compare_bits(x: u32, y: u32)
    ensures
        (sign_extended(x) < sign_extended(y)) == (x < y),
        ((sign_extended(x) as i64) < (sign_extended(y) as i64)) == ((x as i32) < (y as i32)),
{
    lemma_word_bits(x, y);
}

/// The instructions a set-less-than runs of its `k`: one fewer where its jump is
/// taken.
pub open spec fn set_steps(k: nat, taken: bool) -> nat {
    if taken { (k - 1) as nat } else { k }
}

/// Whether `a` is below `b` for the jump `op`: unsigned for `jlt`, signed for `jslt`.
pub open spec fn jump_less(op: u8, a: u64, b: u64) -> bool {
    if op == opcodes::JLT { a < b } else { (a as i64) < (b as i64) }
}

/// What `r1` is compared with: `r2`, or the immediate sign-extended.
pub open spec fn compared_with(s: MachineState, other: Option<SvmRegister>, imm: i32) -> u64 {
    match other {
        Some(_) => s.registers[2],
        None => (imm as i64) as u64,
    }
}

/// Whether the comparison of an SLT or SLTU holds on the registers in `memory`.
pub open spec fn compare_holds(c: CompilerConfig, memory: Seq<u8>, inst: Instruction) -> bool {
    compare_result(
        inst,
        rv_value(c, memory, register_operands(inst).1),
        rv_value(c, memory, register_operands(inst).2),
    ) == 1
}

/// Whether the comparison of an SLTI or SLTIU holds on the registers in `memory`.
pub open spec fn compare_immediate_holds(c: CompilerConfig, memory: Seq<u8>, inst: Instruction) -> bool {
    compare_result(
        inst,
        rv_value(c, memory, compare_immediate_operands(inst).1),
        compare_immediate_operands(inst).2 as u32,
    ) == 1
}

/// The end of a set-less-than: `r3` starts at 1, a jump over its clearing on the
/// comparison of `r1` with `r2` (or with an immediate), then `r3` is stored.
#[verifier::spinoff_prover]
#[verifier::rlimit(50)]
proof fn lemma_set_tail_runs(c: CompilerConfig, p: Seq<SvmInstruction>, s: MachineState, rd: Register, op: u8, other: Option<SvmRegister>, imm: i32)
    requires
        can_run(s, p, 20),
        code_at(p, s.pc as int, seq![
            SvmInstruction::mov64_imm(SvmRegister::R3, 1),
            match other {
                Some(b) => SvmInstruction::jmp_reg(op, SvmRegister::R1, b, 1),
                None => SvmInstruction::jmp_imm(op, SvmRegister::R1, imm, 1),
            },
            SvmInstruction::mov64_imm(SvmRegister::R3, 0),
        ] + store_code(c, rd, SvmRegister::R3)),
        other matches Some(b) ==> b == SvmRegister::R2,
        op == opcodes::JLT || op == opcodes::JSLT,
        register_file_fits(c, s.memory),
    ensures
        ({
            let taken = jump_less(op, s.registers[1], compared_with(s, other, imm));
            let k = 3 + store_code(c, rd, SvmRegister::R3).len();
            &&& after(s, p, set_steps(k, taken)) is Some
            &&& {
                let t = after(s, p, set_steps(k, taken))->Some_0;
                &&& t.pc == s.pc + k
                &&& forall|r: Register| #[trigger] rv_value(c, t.memory, r) == if r == rd && rd != Register::ZERO {
                    if taken { 1u32 } else { 0u32 }
                } else {
                    rv_value(c, s.memory, r)
                }
                &&& t.memory.len() == s.memory.len()
                &&& forall|j: int| 0 <= j < s.memory.len() && !(c.regfile_base <= j < c.regfile_base + 128)
                    ==> #[trigger] t.memory[j] == s.memory[j]
                &&& keeps(s, t, set![3, 8])
                &&& t.compute_units <= s.compute_units + 9
            }
        }),
{
    let r3 = SvmRegister::R3;
    let head = seq![
        SvmInstruction::mov64_imm(r3, 1),
        match other {
            Some(b) => SvmInstruction::jmp_reg(op, SvmRegister::R1, b, 1),
            None => SvmInstruction::jmp_imm(op, SvmRegister::R1, imm, 1),
        },
        SvmInstruction::mov64_imm(r3, 0),
    ];
    let st = store_code(c, rd, r3);
    let at = s.pc as int;
    lemma_code_at_split(p, at, head, st);
    assert(p[at + 0] == head[0]);
    assert(p[at + 1] == head[1]);
    assert(p[at + 2] == head[2]);
    lemma_alu64_imm_step(s, p, opcodes::MOV, r3, 1);
    let s1 = after(s, p, 1)->Some_0;
    lemma_skip_step(s1, p, op, SvmRegister::R1, other, imm);
    let s2 = after(s1, p, 1)->Some_0;
    lemma_after_compose(s, p, 1, 1);
    let taken = jump_less(op, s.registers[1], compared_with(s, other, imm));
    let s3 = if taken {
        s2
    } else {
        lemma_alu64_imm_step(s2, p, opcodes::MOV, r3, 0);
        lemma_after_compose(s, p, 2, 1);
        after(s2, p, 1)->Some_0
    };
    let done: nat = if taken { 2 } else { 3 };
    assert(after(s, p, done) == Some(s3));
    assert(s3.pc == at + 3);
    assert(s3.registers[3] == if taken { 1u64 } else { 0u64 });
    lemma_store_runs(c, p, s3, rd, r3);
    lemma_after_compose(s, p, done, st.len());
    assert(set_steps(3 + st.len(), taken) == done + st.len());
    let t = after(s3, p, st.len())->Some_0;
    assert(keeps(s, t, set![3, 8]));
}

/// Running the code compiled for an SLT or SLTU, from its first instruction, ends at
/// the instruction after that code (having skipped one instruction of it where the
/// comparison holds); it sets the RISC-V destination register to `compare_result`
/// of the two source registers (and leaves `x0` zero), and changes no other RISC-V
/// register, no memory outside the register file, and not the frame pointer `r10`.
#[verifier::spinoff_prover]
#[verifier::rlimit(50)]
pub proof fn lemma_compare_runs(c: CompilerConfig, p: Seq<SvmInstruction>, s: MachineState, inst: Instruction, idx: int)
    requires
        inst is Slt || inst is Sltu,
        code_at(p, s.pc as int, inst_code(c, inst, idx)),
        can_run(s, p, 40),
        register_file_fits(c, s.memory),
    ensures
        ({
            let k = inst_code(c, inst, idx).len();
            let (rd, rs1, rs2) = register_operands(inst);
            let x = rv_value(c, s.memory, rs1);
            let y = rv_value(c, s.memory, rs2);
            &&& after(s, p, set_steps(k, compare_holds(c, s.memory, inst))) is Some
            &&& {
                let t = after(s, p, set_steps(k, compare_holds(c, s.memory, inst)))->Some_0;
                &&& t.pc == s.pc + k
                &&& forall|r: Register| #[trigger] rv_value(c, t.memory, r) == if r == rd && rd != Register::ZERO {
                    compare_result(inst, x, y)
                } else {
                    rv_value(c, s.memory, r)
                }
                &&& t.memory.len() == s.memory.len()
                &&& forall|j: int| 0 <= j < s.memory.len() && !(c.regfile_base <= j < c.regfile_base + 128)
                    ==> #[trigger] t.memory[j] == s.memory[j]
                &&& t.registers[10] == s.registers[10]
                &&& t.compute_units <= s.compute_units + 40
                &&& keeps(s, t, set![1, 2, 3, 8])
            }
        }),
{
    let (rd, rs1, rs2) = register_operands(inst);
    let signed = inst is Slt;
    let op = if signed { opcodes::JSLT } else { opcodes::JLT };
    let r1 = SvmRegister::R1;
    let r2 = SvmRegister::R2;
    reveal(inst_code);
    reveal(slt_code);
    let l1 = load_code(c, r1, rs1);
    let l2 = load_code(c, r2, rs2);
    let tail = seq![
        SvmInstruction::mov64_imm(SvmRegister::R3, 1),
        SvmInstruction::jmp_reg(op, r1, r2, 1),
        SvmInstruction::mov64_imm(SvmRegister::R3, 0),
    ] + store_code(c, rd, SvmRegister::R3);
    let code = inst_code(c, inst, idx);
    assert(code =~= l1 + l2 + tail);
    let at = s.pc as int;
    lemma_code_at_split(p, at, l1 + l2, tail);
    lemma_code_at_split(p, at, l1, l2);
    lemma_load_runs(c, p, s, r1, rs1);
    let s1 = after(s, p, l1.len())->Some_0;
    lemma_load_runs(c, p, s1, r2, rs2);
    let s2 = after(s1, p, l2.len())->Some_0;
    lemma_after_compose(s, p, l1.len(), l2.len());
    let x = rv_value(c, s.memory, rs1);
    let y = rv_value(c, s.memory, rs2);
    lemma_compare_bits(x, y);
    lemma_set_tail_runs(c, p, s2, rd, op, Some(r2), 0);
    assert(s2.registers[1] == sign_extended(x) && s2.registers[2] == sign_extended(y));
    let taken = jump_less(op, s2.registers[1], compared_with(s2, Some(r2), 0));
    assert(taken == compare_holds(c, s.memory, inst));
    let steps = set_steps(tail.len(), taken);
    lemma_after_compose(s, p, l1.len() + l2.len(), steps);
    assert(set_steps(code.len(), taken) == l1.len() + l2.len() + steps);
    let t = after(s2, p, steps)->Some_0;
    assert(keeps(s, t, set![1, 2, 3, 8]));
    assert(tail.len() == 3 + store_code(c, rd, SvmRegister::R3).len());
    assert(s2.memory == s.memory);
}

/// The register and immediate an SLTI or SLTIU names: `rd`, `rs1`, `imm`.
pub open spec fn compare_immediate_operands(inst: Instruction) -> (Register, Register, i32) {
    match inst {
        Instruction::Slti { rd, rs1, imm } | Instruction::Sltiu { rd, rs1, imm } => (rd, rs1, imm),
        _ => (Register::ZERO, Register::ZERO, 0),
    }
}

/// Running the code compiled for an SLTI or SLTIU, from its first instruction, ends
/// at the instruction after that code (having skipped one instruction of it where
/// the comparison holds); it sets the RISC-V destination register to
/// `compare_result` of the source register and the immediate (and leaves `x0`
/// zero), and changes no other RISC-V register, no memory outside the register
/// file, and not the frame pointer `r10`.
#[verifier::spinoff_prover]
#[verifier::rlimit(50)]
pub proof fn lemma_compare_immediate_runs(c: CompilerConfig, p: Seq<SvmInstruction>, s: MachineState, inst: Instruction, idx: int)
    requires
        inst is Slti || inst is Sltiu,
        code_at(p, s.pc as int, inst_code(c, inst, idx)),
        can_run(s, p, 40),
        register_file_fits(c, s.memory),
    ensures
        ({
            let k = inst_code(c, inst, idx).len();
            let (rd, rs1, imm) = compare_immediate_operands(inst);
            let x = rv_value(c, s.memory, rs1);
            &&& after(s, p, set_steps(k, compare_immediate_holds(c, s.memory, inst))) is Some
            &&& {
                let t = after(s, p, set_steps(k, compare_immediate_holds(c, s.memory, inst)))->Some_0;
                &&& t.pc == s.pc + k
                &&& forall|r: Register| #[trigger] rv_value(c, t.memory, r) == if r == rd && rd != Register::ZERO {
                    compare_result(inst, x, imm as u32)
                } else {
                    rv_value(c, s.memory, r)
                }
                &&& t.memory.len() == s.memory.len()
                &&& forall|j: int| 0 <= j < s.memory.len() && !(c.regfile_base <= j < c.regfile_base + 128)
                    ==> #[trigger] t.memory[j] == s.memory[j]
                &&& t.registers[10] == s.registers[10]
                &&& t.compute_units <= s.compute_units + 40
                &&& keeps(s, t, set![1, 3, 8])
            }
        }),
{
    let (rd, rs1, imm) = compare_immediate_operands(inst);
    let signed = inst is Slti;
    let op = if signed { opcodes::JSLT } else { opcodes::JLT };
    let r1 = SvmRegister::R1;
    reveal(inst_code);
    reveal(slti_code);
    let l1 = load_code(c, r1, rs1);
    let tail = seq![
        SvmInstruction::mov64_imm(SvmRegister::R3, 1),
        SvmInstruction::jmp_imm(op, r1, imm, 1),
        SvmInstruction::mov64_imm(SvmRegister::R3, 0),
    ] + store_code(c, rd, SvmRegister::R3);
    let code = inst_code(c, inst, idx);
    assert(code =~= l1 + tail);
    let at = s.pc as int;
    lemma_code_at_split(p, at, l1, tail);
    lemma_load_runs(c, p, s, r1, rs1);
    let s1 = after(s, p, l1.len())->Some_0;
    let x = rv_value(c, s.memory, rs1);
    lemma_compare_bits(x, imm as u32);
    lemma_immediate_bits(imm);
    lemma_set_tail_runs(c, p, s1, rd, op, None, imm);
    assert(s1.registers[1] == sign_extended(x));
    let taken = jump_less(op, s1.registers[1], compared_with(s1, None, imm));
    assert(taken == compare_immediate_holds(c, s.memory, inst));
    let steps = set_steps(tail.len(), taken);
    lemma_after_compose(s, p, l1.len(), steps);
    assert(set_steps(code.len(), taken) == l1.len() + steps);
    let t = after(s1, p, steps)->Some_0;
    assert(tail.len() == 3 + store_code(c, rd, SvmRegister::R3).len());
    assert(s1.memory == s.memory);
    assert(keeps(s, t, set![1, 3, 8]));
}

/// A word store of an immediate through one of `r0` to `r9`.
proof fn lemma_store_immediate_step(s: MachineState, p: Seq<SvmInstruction>, d: SvmRegister, imm: i32, addr: nat)
    requires
        ready(s, p, 5),
        p[s.pc as int] == SvmInstruction::st(MemorySize::Word, d, 0, imm),
        d.number() <= 9,
        s.registers[d.number() as int] == addr,
        addr + 4 <= s.memory.len() <= usize::MAX,
    ensures
        after(s, p, 1) == Some(MachineState {
            memory: store(s, addr as u64, MemorySize::Word, imm as u64)->Done_0.memory,
            pc: (s.pc + 1) as usize,
            compute_units: (s.compute_units + 5) as u64,
            ..s
        }),
        in_bounds(s.memory, addr as u64, MemorySize::Word) == Some(true),
{
    lemma_opcode_fields(0x02, 0x60);
    lemma_step_effect(s, p);
    let t = step(s, p)->Done_0;
    assert(after(t, p, 0) == Some(t));
}

/// Four zero bytes stand for 0.
proof fn lemma_zero_word(b: Seq<u8>)
    requires
        b.len() == 4,
        forall|i: int| 0 <= i < 4 ==> b[i] == 0,
    ensures
        le_value(b) == 0,
{
    reveal_with_fuel(le_value, 5);
    assert(b.drop_first()[0] == 0 && b.drop_first().drop_first()[0] == 0);
    assert(b.drop_first().drop_first().drop_first()[0] == 0);
    assert(b.drop_first().drop_first().drop_first().drop_first().len() == 0);
}

/// Running the prologue, from a register file of zero bytes, leaves RISC-V `sp`
/// holding the stack base and every other RISC-V register 0.
#[verifier::spinoff_prover]
#[verifier::rlimit(50)]
pub proof fn lemma_prologue_runs(c: CompilerConfig, p: Seq<SvmInstruction>, s: MachineState)
    requires
        code_at(p, s.pc as int, prologue(c)),
        can_run(s, p, 7),
        register_file_fits(c, s.memory),
        c.stack_base <= i32::MAX,
        forall|j: int| c.regfile_base <= j < c.regfile_base + 128 ==> #[trigger] s.memory[j] == 0,
    ensures
        after(s, p, 3) is Some,
        ({
            let t = after(s, p, 3)->Some_0;
            &&& t.pc == s.pc + 3
            &&& forall|r: Register| #[trigger] rv_value(c, t.memory, r) == if r == Register::SP {
                c.stack_base as u32
            } else {
                0
            }
            &&& t.registers.len() == 11
            &&& t.registers[10] == s.registers[10]
            &&& t.registers[0] == s.registers[0]
            &&& t.memory.len() == s.memory.len()
            &&& forall|j: int| 0 <= j < s.memory.len() && !(c.regfile_base <= j < c.regfile_base + 128)
                ==> #[trigger] t.memory[j] == s.memory[j]
            &&& t.compute_limit == s.compute_limit
            &&& t.stack_base == s.stack_base
            &&& !t.halted
            &&& t.compute_units <= s.compute_units + 7
        }),
{
    let at = s.pc as int;
    let pro = prologue(c);
    assert(p[at + 0] == pro[0] && p[at + 1] == pro[1] && p[at + 2] == pro[2]);
    lemma_alu64_imm_step(s, p, opcodes::MOV, SvmRegister::R9, c.stack_base as i32);
    let s1 = after(s, p, 1)->Some_0;
    lemma_slot(c, Register::SP);
    let addr = reg_addr(c, Register::SP);
    lemma_alu64_imm_step(s1, p, opcodes::MOV, SvmRegister::R1, addr as i32);
    let s2 = after(s1, p, 1)->Some_0;
    lemma_after_compose(s, p, 1, 1);
    lemma_store_immediate_step(s2, p, SvmRegister::R1, c.stack_base as i32, addr as nat);
    lemma_after_compose(s, p, 2, 1);
    let t = after(s2, p, 1)->Some_0;
    let value = (c.stack_base as i32) as u64;
    assert(value == c.stack_base);
    lemma_load_after_store(s2, addr as u64, MemorySize::Word, value);
    lemma_byte_powers();
    lemma_register_bits(value);
    assert forall|r: Register| #[trigger] rv_value(c, t.memory, r) == if r == Register::SP {
        c.stack_base as u32
    } else {
        0
    } by {
        if r != Register::ZERO {
            lemma_slot(c, r);
            let b = reg_addr(c, r);
            lemma_bytes_of_value(t.memory.subrange(b, b + 4));
            if r == Register::SP {
                assert(read_at(t.memory, addr as u64, MemorySize::Word) == le_value(t.memory.subrange(b, b + 4)) as u64);
            } else {
                lemma_register_index_injective(r, Register::SP);
                assert forall|k: int| 0 <= k < 4 implies #[trigger] t.memory.subrange(b, b + 4)[k] == 0 by {
                    assert(!(addr <= b + k < addr + 4));
                    assert(t.memory[b + k] == s2.memory[b + k]);
                    assert(s.memory[b + k] == 0);
                }
                lemma_zero_word(t.memory.subrange(b, b + 4));
            }
        }
    }
}

/// Whether the conditional jump `op` (`jeq`, `jne`, `jslt`, `jsge`, `jlt`, `jge`)
/// is taken on `a` and `b`.
pub open spec fn jump_holds(op: u8, a: u64, b: u64) -> bool {
    if op == opcodes::JEQ {
        a == b
    } else if op == opcodes::JNE {
        a != b
    } else if op == opcodes::JSLT {
        (a as i64) < (b as i64)
    } else if op == opcodes::JSGE {
        (a as i64) >= (b as i64)
    } else if op == opcodes::JLT {
        a < b
    } else {
        a >= b
    }
}

/// A conditional jump comparing `r1` with `r2`, by `off`.
proof fn lemma_branch_step(s: MachineState, p: Seq<SvmInstruction>, op: u8, off: i16)
    requires
        ready(s, p, 1),
        p[s.pc as int] == SvmInstruction::jmp_reg(op, SvmRegister::R1, SvmRegister::R2, off),
        op == opcodes::JEQ || op == opcodes::JNE || op == opcodes::JSLT || op == opcodes::JSGE
            || op == opcodes::JLT || op == opcodes::JGE,
        0 <= s.pc + 1 + off <= p.len(),
    ensures
        after(s, p, 1) == Some(MachineState {
            pc: (if jump_holds(op, s.registers[1], s.registers[2]) { s.pc + 1 + off } else { s.pc + 1 }) as usize,
            compute_units: (s.compute_units + 1) as u64,
            ..s
        }),
{
    lemma_opcode_fields(opcodes::JMP_REG, op);
    lemma_step_effect(s, p);
    let t = step(s, p)->Done_0;
    assert(after(t, p, 0) == Some(t));
    let a = s.registers[1];
    let b = s.registers[2];
    lemma_register_bits(a);
    lemma_register_bits(b);
    assert(cond64(op, a, b) == Some(jump_holds(op, a, b)));
    assert(jump_target(s.pc, off) == Some((s.pc + 1 + off) as usize));
}

/// The jump always taken, by `off`.
proof fn lemma_ja_step(s: MachineState, p: Seq<SvmInstruction>, off: i16)
    requires
        ready(s, p, 1),
        p[s.pc as int] == SvmInstruction::ja(off),
        0 <= s.pc + 1 + off <= p.len(),
    ensures
        after(s, p, 1) == Some(MachineState {
            pc: (s.pc + 1 + off) as usize,
            compute_units: (s.compute_units + 1) as u64,
            ..s
        }),
{
    lemma_opcode_fields(opcodes::JMP_IMM, opcodes::JA);
    lemma_step_effect(s, p);
    let t = step(s, p)->Done_0;
    assert(after(t, p, 0) == Some(t));
    assert(jump_target(s.pc, off) == Some((s.pc + 1 + off) as usize));
}

/// The registers a branch compares: `rs1`, `rs2`.
pub open spec fn branch_operands(inst: Instruction) -> (Register, Register) {
    match inst {
        Instruction::Beq { rs1, rs2, .. }
        | Instruction::Bne { rs1, rs2, .. }
        | Instruction::Blt { rs1, rs2, .. }
        | Instruction::Bge { rs1, rs2, .. }
        | Instruction::Bltu { rs1, rs2, .. }
        | Instruction::Bgeu { rs1, rs2, .. } => (rs1, rs2),
        _ => (Register::ZERO, Register::ZERO),
    }
}

/// Whether RISC-V's BEQ, BNE, BLT, BGE, BLTU or BGEU is taken on the values `x` of
/// `rs1` and `y` of `rs2` (BLT and BGE compare signed, BLTU and BGEU unsigned).
pub open spec fn branch_taken(inst: Instruction, x: u32, y: u32) -> bool {
    match inst {
        Instruction::Beq { .. } => x == y,
        Instruction::Bne { .. } => x != y,
        Instruction::Blt { .. } => (x as i32) < (y as i32),
        Instruction::Bge { .. } => (x as i32) >= (y as i32),
        Instruction::Bltu { .. } => x < y,
        _ => x >= y,
    }
}

/// The sBPF jump the compiler uses for a branch.
spec fn branch_op(inst: Instruction) -> u8 {
    match inst {
        Instruction::Beq { .. } => opcodes::JEQ,
        Instruction::Bne { .. } => opcodes::JNE,
        Instruction::Blt { .. } => opcodes::JSLT,
        Instruction::Bge { .. } => opcodes::JSGE,
        Instruction::Bltu { .. } => opcodes::JLT,
        _ => opcodes::JGE,
    }
}

/// `code` stands in `p` from `at` on but for the offset of its last instruction,
/// which is `off` there.
pub open spec fn jump_code_at(p: Seq<SvmInstruction>, at: int, code: Seq<SvmInstruction>, off: i16) -> bool {
    &&& code.len() >= 1
    &&& code_at(p, at, code.drop_last())
    &&& at + code.len() <= p.len()
    &&& p[at + code.len() - 1] == SvmInstruction { offset: off, ..code.last() }
}

/// Running the code compiled for a branch, from its first instruction, where its
/// jump has the offset `off`, changes no memory, and ends where the jump lands when
/// RISC-V takes the branch on the values of `rs1` and `rs2`, else at the instruction
/// after the code.
#[verifier::spinoff_prover]
#[verifier::rlimit(50)]
pub proof fn lemma_branch_runs(c: CompilerConfig, p: Seq<SvmInstruction>, s: MachineState, inst: Instruction, idx: int, off: i16)
    requires
        inst is Beq || inst is Bne || inst is Blt || inst is Bge || inst is Bltu || inst is Bgeu,
        jump_code_at(p, s.pc as int, inst_code(c, inst, idx), off),
        0 <= s.pc + inst_code(c, inst, idx).len() + off <= p.len(),
        can_run(s, p, 40),
        register_file_fits(c, s.memory),
    ensures
        ({
            let k = inst_code(c, inst, idx).len();
            let (rs1, rs2) = branch_operands(inst);
            &&& after(s, p, k) is Some
            &&& {
                let t = after(s, p, k)->Some_0;
                &&& t.pc == if branch_taken(inst, rv_value(c, s.memory, rs1), rv_value(c, s.memory, rs2)) {
                    s.pc + k + off
                } else {
                    s.pc + k
                }
                &&& t.memory == s.memory
                &&& t.registers[10] == s.registers[10]
                &&& t.compute_units <= s.compute_units + 40
                &&& keeps(s, t, set![1, 2, 8])
            }
        }),
{
    let (rs1, rs2) = branch_operands(inst);
    let op = branch_op(inst);
    let r1 = SvmRegister::R1;
    let r2 = SvmRegister::R2;
    reveal(inst_code);
    reveal(branch_code);
    let l1 = load_code(c, r1, rs1);
    let l2 = load_code(c, r2, rs2);
    let j = seq![SvmInstruction::jmp_reg(op, r1, r2, 0)];
    let code = inst_code(c, inst, idx);
    assert(code == l1 + l2 + j);
    assert(code.drop_last() == l1 + l2);
    let at = s.pc as int;
    lemma_code_at_split(p, at, l1, l2);
    lemma_load_runs(c, p, s, r1, rs1);
    let s1 = after(s, p, l1.len())->Some_0;
    lemma_load_runs(c, p, s1, r2, rs2);
    let s2 = after(s1, p, l2.len())->Some_0;
    lemma_after_compose(s, p, l1.len(), l2.len());
    assert(p[s2.pc as int] == SvmInstruction::jmp_reg(op, r1, r2, off));
    lemma_branch_step(s2, p, op, off);
    lemma_after_compose(s, p, l1.len() + l2.len(), 1);
    let t = after(s2, p, 1)->Some_0;
    let x = rv_value(c, s.memory, rs1);
    let y = rv_value(c, s.memory, rs2);
    lemma_compare_bits(x, y);
    lemma_word_bits(x, y);
    assert(jump_holds(op, s2.registers[1], s2.registers[2]) == branch_taken(inst, x, y));
    assert(keeps(s, t, set![1, 2, 8]));
}

/// Running the code compiled for a JAL at index `idx`, from its first instruction,
/// where its jump has the offset `off`, sets its destination register to the
/// return address `return_address(c, idx)` (and leaves `x0` zero), changes no other RISC-V
/// register and no memory outside the register file, and ends where the jump
/// lands.
#[verifier::spinoff_prover]
#[verifier::rlimit(50)]
pub proof fn lemma_jal_runs(c: CompilerConfig, p: Seq<SvmInstruction>, s: MachineState, inst: Instruction, idx: int, off: i16)
    requires
        inst is Jal,
        jump_code_at(p, s.pc as int, inst_code(c, inst, idx), off),
        0 <= s.pc + inst_code(c, inst, idx).len() + off <= p.len(),
        can_run(s, p, 40),
        register_file_fits(c, s.memory),
    ensures
        ({
            let k = inst_code(c, inst, idx).len();
            let rd = inst->Jal_rd;
            &&& after(s, p, k) is Some
            &&& {
                let t = after(s, p, k)->Some_0;
                &&& t.pc == s.pc + k + off
                &&& forall|r: Register| #[trigger] rv_value(c, t.memory, r) == if r == rd && rd != Register::ZERO {
                    return_address(c, idx) as u32
                } else {
                    rv_value(c, s.memory, r)
                }
                &&& t.memory.len() == s.memory.len()
                &&& forall|j: int| 0 <= j < s.memory.len() && !(c.regfile_base <= j < c.regfile_base + 128)
                    ==> #[trigger] t.memory[j] == s.memory[j]
                &&& t.registers[10] == s.registers[10]
                &&& t.compute_units <= s.compute_units + 40
                &&& keeps(s, t, set![1, 8])
            }
        }),
{
    let rd = inst->Jal_rd;
    let r1 = SvmRegister::R1;
    reveal(inst_code);
    reveal(jal_code);
    let ret = return_address(c, idx);
    let m = seq![SvmInstruction::mov64_imm(r1, ret)];
    let st = store_code(c, rd, r1);
    let code = inst_code(c, inst, idx);
    assert(code == m + st + seq![SvmInstruction::ja(0)]);
    assert(code.drop_last() == m + st);
    let at = s.pc as int;
    lemma_code_at_split(p, at, m, st);
    assert(p[at + 0] == m[0]);
    lemma_alu64_imm_step(s, p, opcodes::MOV, r1, ret);
    let s1 = after(s, p, 1)->Some_0;
    lemma_immediate_bits(ret);
    lemma_store_runs(c, p, s1, rd, r1);
    lemma_after_compose(s, p, 1, st.len());
    let s2 = after(s1, p, st.len())->Some_0;
    assert(p[s2.pc as int] == SvmInstruction::ja(off));
    lemma_ja_step(s2, p, off);
    lemma_after_compose(s, p, 1 + st.len(), 1);
    let t = after(s2, p, 1)->Some_0;
    assert(keeps(s, t, set![1, 8]));
}

/// A load of `size` bytes through `r1` into `r2`.
proof fn lemma_load_step(s: MachineState, p: Seq<SvmInstruction>, size: MemorySize, addr: u64)
    requires
        ready(s, p, 5),
        p[s.pc as int] == SvmInstruction::ldx(size, SvmRegister::R2, SvmRegister::R1, 0),
        size != MemorySize::DWord,
        s.registers[1] == addr,
        in_bounds(s.memory, addr, size) == Some(true),
    ensures
        after(s, p, 1) == Some(MachineState {
            registers: s.registers.update(2, read_at(s.memory, addr, size)),
            pc: (s.pc + 1) as usize,
            compute_units: (s.compute_units + 5) as u64,
            ..s
        }),
{
    lemma_opcode_fields(0x01, 0x70);
    lemma_opcode_fields(0x09, 0x60);
    lemma_opcode_fields(0x01, 0x60);
    lemma_step_effect(s, p);
    let t = step(s, p)->Done_0;
    assert(after(t, p, 0) == Some(t));
}

/// A store of the low `size` bytes of `r2` through `r1`.
proof fn lemma_store_step(s: MachineState, p: Seq<SvmInstruction>, size: MemorySize, addr: u64)
    requires
        ready(s, p, 5),
        p[s.pc as int] == SvmInstruction::stx(size, SvmRegister::R1, SvmRegister::R2, 0),
        size != MemorySize::DWord,
        s.registers[1] == addr,
        in_bounds(s.memory, addr, size) == Some(true),
    ensures
        after(s, p, 1) == Some(MachineState {
            memory: written_at(s.memory, addr, size, s.registers[2]),
            pc: (s.pc + 1) as usize,
            compute_units: (s.compute_units + 5) as u64,
            ..s
        }),
{
    lemma_opcode_fields(0x03, 0x70);
    lemma_opcode_fields(0x0b, 0x60);
    lemma_opcode_fields(0x03, 0x60);
    lemma_step_effect(s, p);
    let t = step(s, p)->Done_0;
    assert(after(t, p, 0) == Some(t));
}

/// The address a load or store with base value `x` and offset `imm` reaches: the
/// sign-extended base plus the sign-extended offset plus `memory_base` (taken as an
/// `i32` immediate), modulo `2^64`.
pub open spec fn effective_address(c: CompilerConfig, x: u32, imm: i32) -> u64 {
    wrap64(wrap64(sign_extended(x) + (imm as i64) as u64) + ((c.memory_base as i32) as i64) as u64)
}

/// Computing a load's or store's address into `r1`.
#[verifier::spinoff_prover]
#[verifier::rlimit(50)]
proof fn lemma_address_runs(c: CompilerConfig, p: Seq<SvmInstruction>, s: MachineState, rs1: Register, imm: i32)
    requires
        can_run(s, p, 10),
        code_at(p, s.pc as int, address_code(c, rs1, imm)),
        register_file_fits(c, s.memory),
    ensures
        ({
            let k = address_code(c, rs1, imm).len();
            &&& after(s, p, k) is Some
            &&& {
                let t = after(s, p, k)->Some_0;
                &&& t.registers[1] == effective_address(c, rv_value(c, s.memory, rs1), imm)
                &&& keeps(s, t, set![1, 8])
                &&& t.memory == s.memory
                &&& t.pc == s.pc + k
                &&& t.compute_units <= s.compute_units + 10
            }
        }),
{
    let r1 = SvmRegister::R1;
    let l = load_code(c, r1, rs1);
    let tail = seq![
        SvmInstruction::add64_imm(r1, imm),
        SvmInstruction::add64_imm(r1, c.memory_base as i32),
    ];
    assert(address_code(c, rs1, imm) == l + tail);
    let at = s.pc as int;
    lemma_code_at_split(p, at, l, tail);
    lemma_load_runs(c, p, s, r1, rs1);
    let s1 = after(s, p, l.len())->Some_0;
    assert(p[s1.pc as int] == tail[0]) by {
        assert(p[at + l.len() + 0] == tail[0]);
    }
    lemma_alu64_imm_step(s1, p, opcodes::ADD, r1, imm);
    let s2 = after(s1, p, 1)->Some_0;
    assert(p[s2.pc as int] == tail[1]) by {
        assert(p[at + l.len() + 1] == tail[1]);
    }
    lemma_alu64_imm_step(s2, p, opcodes::ADD, r1, c.memory_base as i32);
    lemma_after_compose(s1, p, 1, 1);
    lemma_after_compose(s, p, l.len(), 2);
    let t = after(s2, p, 1)->Some_0;
    assert(keeps(s, t, set![1, 8]));
}

/// The registers and offset a load names: `rd`, `rs1`, `imm`.
pub open spec fn load_operands(inst: Instruction) -> (Register, Register, i32) {
    match inst {
        Instruction::Lb { rd, rs1, imm }
        | Instruction::Lh { rd, rs1, imm }
        | Instruction::Lw { rd, rs1, imm }
        | Instruction::Lbu { rd, rs1, imm }
        | Instruction::Lhu { rd, rs1, imm } => (rd, rs1, imm),
        _ => (Register::ZERO, Register::ZERO, 0),
    }
}

/// How many bytes a load or store moves.
pub open spec fn access_of(inst: Instruction) -> MemorySize {
    match inst {
        Instruction::Lb { .. } | Instruction::Lbu { .. } | Instruction::Sb { .. } => MemorySize::Byte,
        Instruction::Lh { .. } | Instruction::Lhu { .. } | Instruction::Sh { .. } => MemorySize::Half,
        _ => MemorySize::Word,
    }
}

/// What RISC-V's loads put in `rd` from the bytes read, as the number `v` they
/// stand for: LB and LH sign-extend the byte or half-word, LW, LBU and LHU take it
/// as it is.
pub open spec fn load_result(inst: Instruction, v: u64) -> u32 {
    match inst {
        Instruction::Lb { .. } => (((v as u8) as i8) as i32) as u32,
        Instruction::Lh { .. } => (((v as u16) as i16) as i32) as u32,
        _ => v as u32,
    }
}

/// Running the code compiled for LB, LH, LW, LBU or LHU, from its first instruction,
/// where the bytes it reads lie in memory, sets the RISC-V destination register to
/// `load_result` of them (and leaves `x0` zero), changes no other RISC-V register
/// and no memory outside the register file, and ends at the instruction after the
/// code.
#[verifier::spinoff_prover]
#[verifier::rlimit(80)]
pub proof fn lemma_load_runs_memory(c: CompilerConfig, p: Seq<SvmInstruction>, s: MachineState, inst: Instruction, idx: int)
    requires
        inst is Lb || inst is Lh || inst is Lw || inst is Lbu || inst is Lhu,
        code_at(p, s.pc as int, inst_code(c, inst, idx)),
        can_run(s, p, 40),
        register_file_fits(c, s.memory),
        in_bounds(
            s.memory,
            effective_address(c, rv_value(c, s.memory, load_operands(inst).1), load_operands(inst).2),
            access_of(inst),
        ) == Some(true),
    ensures
        ({
            let k = inst_code(c, inst, idx).len();
            let (rd, rs1, imm) = load_operands(inst);
            let a = effective_address(c, rv_value(c, s.memory, rs1), imm);
            &&& after(s, p, k) is Some
            &&& {
                let t = after(s, p, k)->Some_0;
                &&& t.pc == s.pc + k
                &&& forall|r: Register| #[trigger] rv_value(c, t.memory, r) == if r == rd && rd != Register::ZERO {
                    load_result(inst, read_at(s.memory, a, access_of(inst)))
                } else {
                    rv_value(c, s.memory, r)
                }
                &&& t.memory.len() == s.memory.len()
                &&& forall|j: int| 0 <= j < s.memory.len() && !(c.regfile_base <= j < c.regfile_base + 128)
                    ==> #[trigger] t.memory[j] == s.memory[j]
                &&& t.registers[10] == s.registers[10]
                &&& t.compute_units <= s.compute_units + 40
                &&& keeps(s, t, set![1, 2, 8])
            }
        }),
{
    let (rd, rs1, imm) = load_operands(inst);
    let size = access_of(inst);
    let sign = inst is Lb || inst is Lh || inst is Lw;
    let r2 = SvmRegister::R2;
    reveal(inst_code);
    reveal(load_mem_code);
    let addr = address_code(c, rs1, imm);
    let ld = seq![SvmInstruction::ldx(size, r2, SvmRegister::R1, 0)];
    let ext = load_extension(size, sign);
    let st = store_code(c, rd, r2);
    let code = inst_code(c, inst, idx);
    assert(code == addr + ld + ext + st);
    let at = s.pc as int;
    lemma_code_at_split(p, at, addr + ld + ext, st);
    lemma_code_at_split(p, at, addr + ld, ext);
    lemma_code_at_split(p, at, addr, ld);
    lemma_address_runs(c, p, s, rs1, imm);
    let s1 = after(s, p, addr.len())->Some_0;
    let a = effective_address(c, rv_value(c, s.memory, rs1), imm);
    assert(p[s1.pc as int] == ld[0]) by {
        assert(p[at + addr.len() + 0] == ld[0]);
    }
    lemma_load_step(s1, p, size, a);
    let s2 = after(s1, p, 1)->Some_0;
    lemma_after_compose(s, p, addr.len(), 1);
    let v = read_at(s.memory, a, size);
    assert(s2.registers[2] == v);
    // the value read is below 256^size
    let bytes = s.memory.subrange((a as usize) as int, (a as usize) + size.bytes());
    lemma_bytes_of_value(bytes);
    lemma_byte_powers();
    lemma_narrow_bits(v);
    let base = at + addr.len() + 1;
    let ext_len: nat = if sign && size != MemorySize::Word {
        let shift: i32 = if size == MemorySize::Byte { 56 } else { 48 };
        assert(ext == seq![SvmInstruction::lsh64_imm(r2, shift), SvmInstruction::arsh64_imm(r2, shift)]);
        assert(p[s2.pc + 0] == ext[0]);
        assert(p[s2.pc + 1] == ext[1]);
        lemma_alu64_imm_step(s2, p, opcodes::LSH, r2, shift);
        let z1 = after(s2, p, 1)->Some_0;
        lemma_alu64_imm_step(z1, p, opcodes::ARSH, r2, shift);
        lemma_after_compose(s2, p, 1, 1);
        2
    } else if sign {
        assert(ext == sign_extend32(r2));
        lemma_sign_extend_runs(s2, p, r2);
        lemma_sign_extend_bits(v);
        2
    } else {
        assert(ext.len() == 0);
        assert(after(s2, p, 0) == Some(s2));
        0
    };
    let s3 = after(s2, p, ext_len)->Some_0;
    lemma_after_compose(s, p, addr.len() + 1, ext_len);
    assert(s3.registers[2] as u32 == load_result(inst, v));
    lemma_store_runs(c, p, s3, rd, r2);
    lemma_after_compose(s, p, addr.len() + 1 + ext_len, st.len());
    let t = after(s3, p, st.len())->Some_0;
    assert(keeps(s, t, set![1, 2, 8]));
}

/// The registers and offset a store names: `rs1`, `rs2`, `imm`.
pub open spec fn store_operands(inst: Instruction) -> (Register, Register, i32) {
    match inst {
        Instruction::Sb { rs1, rs2, imm } | Instruction::Sh { rs1, rs2, imm } | Instruction::Sw { rs1, rs2, imm } => (
            rs1,
            rs2,
            imm,
        ),
        _ => (Register::ZERO, Register::ZERO, 0),
    }
}

/// Running the code compiled for SB, SH or SW, from its first instruction, where
/// the bytes it writes lie in memory, writes the low byte, half-word or word of
/// `rs2` there, little-endian, changes no other memory, and ends at the instruction
/// after the code.
#[verifier::spinoff_prover]
#[verifier::rlimit(80)]
pub proof fn lemma_store_runs_memory(c: CompilerConfig, p: Seq<SvmInstruction>, s: MachineState, inst: Instruction, idx: int)
    requires
        inst is Sb || inst is Sh || inst is Sw,
        code_at(p, s.pc as int, inst_code(c, inst, idx)),
        can_run(s, p, 40),
        register_file_fits(c, s.memory),
        in_bounds(
            s.memory,
            effective_address(c, rv_value(c, s.memory, store_operands(inst).0), store_operands(inst).2),
            access_of(inst),
        ) == Some(true),
    ensures
        ({
            let k = inst_code(c, inst, idx).len();
            let (rs1, rs2, imm) = store_operands(inst);
            let a = effective_address(c, rv_value(c, s.memory, rs1), imm);
            &&& after(s, p, k) is Some
            &&& {
                let t = after(s, p, k)->Some_0;
                &&& t.pc == s.pc + k
                &&& t.memory == written_at(s.memory, a, access_of(inst), sign_extended(rv_value(c, s.memory, rs2)))
                &&& t.registers[10] == s.registers[10]
                &&& t.compute_units <= s.compute_units + 40
                &&& keeps(s, t, set![1, 2, 8])
            }
        }),
{
    let (rs1, rs2, imm) = store_operands(inst);
    let size = access_of(inst);
    let r2 = SvmRegister::R2;
    reveal(inst_code);
    reveal(store_mem_code);
    let addr = address_code(c, rs1, imm);
    let l2 = load_code(c, r2, rs2);
    let sx = seq![SvmInstruction::stx(size, SvmRegister::R1, r2, 0)];
    let code = inst_code(c, inst, idx);
    assert(code == addr + l2 + sx);
    let at = s.pc as int;
    lemma_code_at_split(p, at, addr + l2, sx);
    lemma_code_at_split(p, at, addr, l2);
    lemma_address_runs(c, p, s, rs1, imm);
    let s1 = after(s, p, addr.len())->Some_0;
    let a = effective_address(c, rv_value(c, s.memory, rs1), imm);
    lemma_load_runs(c, p, s1, r2, rs2);
    let s2 = after(s1, p, l2.len())->Some_0;
    lemma_after_compose(s, p, addr.len(), l2.len());
    assert(s2.registers[1] == a);
    assert(p[s2.pc as int] == sx[0]) by {
        assert(p[at + (addr + l2).len() + 0] == sx[0]);
    }
    lemma_store_step(s2, p, size, a);
    lemma_after_compose(s, p, addr.len() + l2.len(), 1);
    let t = after(s2, p, 1)->Some_0;
    assert(keeps(s, t, set![1, 2, 8]));
}

/// A `jne` comparing a register among `r0` to `r9` with another (`other` is `Some`)
/// or with an immediate, by `off`.
proof fn lemma_jne_step(s: MachineState, p: Seq<SvmInstruction>, d: SvmRegister, other: Option<SvmRegister>, imm: i32, off: i16)
    requires
        ready(s, p, 1),
        p[s.pc as int] == match other {
            Some(b) => SvmInstruction::jmp_reg(opcodes::JNE, d, b, off),
            None => SvmInstruction::jmp_imm(opcodes::JNE, d, imm, off),
        },
        d.number() <= 9,
        other matches Some(b) ==> b.number() <= 9,
        0 <= s.pc + 1 + off <= p.len(),
    ensures
        ({
            let b = match other {
                Some(b) => s.registers[b.number() as int],
                None => (imm as i64) as u64,
            };
            after(s, p, 1) == Some(MachineState {
                pc: (if s.registers[d.number() as int] != b { s.pc + 1 + off } else { s.pc + 1 }) as usize,
                compute_units: (s.compute_units + 1) as u64,
                ..s
            })
        }),
{
    lemma_opcode_fields(opcodes::JMP_REG, opcodes::JNE);
    lemma_opcode_fields(opcodes::JMP_IMM, opcodes::JNE);
    lemma_step_effect(s, p);
    let t = step(s, p)->Done_0;
    assert(after(t, p, 0) == Some(t));
    assert(jump_target(s.pc, off) == Some((s.pc + 1 + off) as usize));
}

/// The guard of a signed division or remainder, before `rest` (the instructions
/// for the ordinary case): where `r1` and `r2` hold `i32::MIN` and -1, sign-extended,
/// `r1` gets `special` and the run goes past `rest`; otherwise it goes to `rest`.
/// `steps` is how many instructions it runs.
#[verifier::spinoff_prover]
#[verifier::rlimit(80)]
proof fn lemma_guard_runs(p: Seq<SvmInstruction>, s: MachineState, x: u32, y: u32, special: i32, rest: Seq<SvmInstruction>) -> (steps: nat)
    requires
        can_run(s, p, 6),
        code_at(p, s.pc as int, seq![
            SvmInstruction::mov64_imm(SvmRegister::R3, i32::MIN),
            SvmInstruction::jmp_reg(opcodes::JNE, SvmRegister::R1, SvmRegister::R3, 4),
            SvmInstruction::mov64_imm(SvmRegister::R3, -1i32),
            SvmInstruction::jmp_reg(opcodes::JNE, SvmRegister::R2, SvmRegister::R3, 2),
            SvmInstruction::mov64_imm(SvmRegister::R1, special),
            SvmInstruction::ja(rest.len() as i16),
        ] + rest),
        1 <= rest.len() <= 5,
        s.registers[1] == sign_extended(x),
        s.registers[2] == sign_extended(y),
    ensures
        after(s, p, steps) is Some,
        ({
            let t = after(s, p, steps)->Some_0;
            &&& t.pc == if x == 0x8000_0000 && y == 0xffff_ffff { s.pc + 6 + rest.len() } else { s.pc + 6 }
            &&& t.registers[1] == if x == 0x8000_0000 && y == 0xffff_ffff { (special as i64) as u64 } else { s.registers[1] }
            &&& t.registers[2] == s.registers[2]
            &&& keeps(s, t, set![1, 3])
            &&& t.memory == s.memory
            &&& t.compute_units <= s.compute_units + 6
        }),
{
    let r1 = SvmRegister::R1;
    let r2 = SvmRegister::R2;
    let r3 = SvmRegister::R3;
    let g = seq![
        SvmInstruction::mov64_imm(r3, i32::MIN),
        SvmInstruction::jmp_reg(opcodes::JNE, r1, r3, 4),
        SvmInstruction::mov64_imm(r3, -1i32),
        SvmInstruction::jmp_reg(opcodes::JNE, r2, r3, 2),
        SvmInstruction::mov64_imm(r1, special),
        SvmInstruction::ja(rest.len() as i16),
    ];
    let at = s.pc as int;
    lemma_code_at_split(p, at, g, rest);
    assert(p[at + 0] == g[0] && p[at + 1] == g[1] && p[at + 2] == g[2]);
    assert(p[at + 3] == g[3] && p[at + 4] == g[4] && p[at + 5] == g[5]);
    lemma_immediate_bits(i32::MIN);
    lemma_immediate_bits(-1i32);
    lemma_word_bits(x, 0x8000_0000);
    lemma_word_bits(y, 0xffff_ffff);
    lemma_alu64_imm_step(s, p, opcodes::MOV, r3, i32::MIN);
    let s1 = after(s, p, 1)->Some_0;
    lemma_jne_step(s1, p, r1, Some(r3), 0, 4);
    let s2 = after(s1, p, 1)->Some_0;
    lemma_after_compose(s, p, 1, 1);
    if x != 0x8000_0000 {
        assert(keeps(s, s2, set![1, 3]));
        2
    } else {
        lemma_alu64_imm_step(s2, p, opcodes::MOV, r3, -1i32);
        let s3 = after(s2, p, 1)->Some_0;
        lemma_after_compose(s, p, 2, 1);
        lemma_jne_step(s3, p, r2, Some(r3), 0, 2);
        let s4 = after(s3, p, 1)->Some_0;
        lemma_after_compose(s, p, 3, 1);
        if y != 0xffff_ffff {
            assert(keeps(s, s4, set![1, 3]));
            4
        } else {
            lemma_alu64_imm_step(s4, p, opcodes::MOV, r1, special);
            let s5 = after(s4, p, 1)->Some_0;
            lemma_after_compose(s, p, 4, 1);
            lemma_ja_step(s5, p, rest.len() as i16);
            lemma_after_compose(s, p, 5, 1);
            let t = after(s5, p, 1)->Some_0;
            assert(keeps(s, t, set![1, 3]));
            6
        }
    }
}

/// The registers a division or remainder names: `rd`, `rs1`, `rs2`.
pub open spec fn division_operands(inst: Instruction) -> (Register, Register, Register) {
    match inst {
        Instruction::Div { rd, rs1, rs2 }
        | Instruction::Divu { rd, rs1, rs2 }
        | Instruction::Rem { rd, rs1, rs2 }
        | Instruction::Remu { rd, rs1, rs2 } => (rd, rs1, rs2),
        _ => (Register::ZERO, Register::ZERO, Register::ZERO),
    }
}

/// What RISC-V's DIV, DIVU, REM and REMU compute from the values `x` of `rs1` and
/// `y` of `rs2`: the quotient (rounded toward zero for DIV) or the remainder (with
/// the sign of the dividend for REM); all ones for a quotient by zero, the dividend
/// for a remainder by zero; `i32::MIN` and 0 for `i32::MIN` divided by -1.
pub open spec fn division_result(inst: Instruction, x: u32, y: u32) -> u32 {
    match inst {
        Instruction::Div { .. } => if y == 0 {
            0xffff_ffff
        } else if x == 0x8000_0000 && y == 0xffff_ffff {
            0x8000_0000
        } else {
            wrap32(quotient_toward_zero(signed32(x), signed32(y)))
        },
        Instruction::Divu { .. } => if y == 0 {
            0xffff_ffff
        } else {
            x / y
        },
        Instruction::Rem { .. } => if y == 0 {
            x
        } else if x == 0x8000_0000 && y == 0xffff_ffff {
            0
        } else {
            wrap32(signed32(x) - quotient_toward_zero(signed32(x), signed32(y)) * signed32(y))
        },
        _ => if y == 0 {
            x
        } else {
            x % y
        },
    }
}

/// Running the code compiled for a DIV or DIVU, from its first instruction, ends at
/// the instruction after that code; it sets the RISC-V destination register to
/// `division_result` of the two source registers (and leaves `x0` zero), and
/// changes no other RISC-V register, no memory outside the register file, and not
/// the frame pointer `r10`. `steps` is how many instructions it runs.
#[verifier::spinoff_prover]
#[verifier::rlimit(100)]
pub proof fn lemma_division_runs(c: CompilerConfig, p: Seq<SvmInstruction>, s: MachineState, inst: Instruction, idx: int) -> (steps: nat)
    requires
        inst is Div || inst is Divu,
        code_at(p, s.pc as int, inst_code(c, inst, idx)),
        can_run(s, p, 80),
        register_file_fits(c, s.memory),
    ensures
        after(s, p, steps) is Some,
        ({
            let k = inst_code(c, inst, idx).len();
            let (rd, rs1, rs2) = division_operands(inst);
            let t = after(s, p, steps)->Some_0;
            &&& t.pc == s.pc + k
            &&& forall|r: Register| #[trigger] rv_value(c, t.memory, r) == if r == rd && rd != Register::ZERO {
                division_result(inst, rv_value(c, s.memory, rs1), rv_value(c, s.memory, rs2))
            } else {
                rv_value(c, s.memory, r)
            }
            &&& t.memory.len() == s.memory.len()
            &&& forall|j: int| 0 <= j < s.memory.len() && !(c.regfile_base <= j < c.regfile_base + 128)
                ==> #[trigger] t.memory[j] == s.memory[j]
            &&& t.registers[10] == s.registers[10]
            &&& t.compute_units <= s.compute_units + 80
            &&& keeps(s, t, set![1, 2, 3, 8])
        }),
{
    let (rd, rs1, rs2) = division_operands(inst);
    let signed = inst is Div;
    let r1 = SvmRegister::R1;
    let r2 = SvmRegister::R2;
    reveal(inst_code);
    reveal(div_code);
    let body = if signed {
        seq![
            SvmInstruction::mov64_imm(SvmRegister::R3, i32::MIN),
            SvmInstruction::jmp_reg(opcodes::JNE, r1, SvmRegister::R3, 4),
            SvmInstruction::mov64_imm(SvmRegister::R3, -1i32),
            SvmInstruction::jmp_reg(opcodes::JNE, r2, SvmRegister::R3, 2),
            SvmInstruction::mov64_imm(r1, i32::MIN),
            SvmInstruction::ja(1),
            SvmInstruction::sdiv32_reg(r1, r2),
        ]
    } else {
        seq![SvmInstruction::div32_reg(r1, r2)]
    };
    let l1 = load_code(c, r1, rs1);
    let l2 = load_code(c, r2, rs2);
    let z = seq![
        SvmInstruction::jmp_imm(opcodes::JNE, r2, 0, 2),
        SvmInstruction::mov64_imm(r1, -1i32),
        SvmInstruction::ja(body.len() as i16),
    ];
    let x = sign_extend32(r1);
    let st = store_code(c, rd, r1);
    let code = inst_code(c, inst, idx);
    assert(code == l1 + l2 + z + body + x + st);
    let at = s.pc as int;
    lemma_code_at_split(p, at, l1 + l2 + z + body + x, st);
    lemma_code_at_split(p, at, l1 + l2 + z + body, x);
    lemma_code_at_split(p, at, l1 + l2 + z, body);
    lemma_code_at_split(p, at, l1 + l2, z);
    lemma_code_at_split(p, at, l1, l2);
    lemma_load_runs(c, p, s, r1, rs1);
    let s1 = after(s, p, l1.len())->Some_0;
    lemma_load_runs(c, p, s1, r2, rs2);
    let s2 = after(s1, p, l2.len())->Some_0;
    lemma_after_compose(s, p, l1.len(), l2.len());
    let xv = rv_value(c, s.memory, rs1);
    let yv = rv_value(c, s.memory, rs2);
    lemma_word_bits(xv, yv);
    lemma_word_bits(yv, 0);
    lemma_immediate_bits(-1i32);
    let zb = at + l1.len() + l2.len();
    assert(p[zb + 0] == z[0] && p[zb + 1] == z[1] && p[zb + 2] == z[2]);
    let end_body = zb + 3 + body.len();
    lemma_jne_step(s2, p, r2, None, 0, 2);
    let s3 = after(s2, p, 1)->Some_0;
    lemma_after_compose(s, p, l1.len() + l2.len(), 1);
    let n0 = l1.len() + l2.len() + 1;
    // reach the end of the body with the quotient in r1
    let (s4, n4): (MachineState, nat) = if yv == 0 {
        lemma_alu64_imm_step(s3, p, opcodes::MOV, r1, -1i32);
        let a1 = after(s3, p, 1)->Some_0;
        lemma_after_compose(s, p, n0, 1);
        lemma_ja_step(a1, p, body.len() as i16);
        lemma_after_compose(s, p, n0 + 1, 1);
        (after(a1, p, 1)->Some_0, n0 + 2)
    } else if !signed {
        assert(p[zb + 3 + 0] == body[0]);
        lemma_alu32_reg_step(s3, p, opcodes::DIV, r1, r2);
        lemma_after_compose(s, p, n0, 1);
        (after(s3, p, 1)->Some_0, n0 + 1)
    } else {
        let g = lemma_guard_runs(p, s3, xv, yv, i32::MIN, seq![SvmInstruction::sdiv32_reg(r1, r2)]);
        lemma_after_compose(s, p, n0, g);
        let b1 = after(s3, p, g)->Some_0;
        if xv == 0x8000_0000 && yv == 0xffff_ffff {
            (b1, n0 + g)
        } else {
            assert(p[b1.pc as int] == body[6]) by {
                assert(p[zb + 3 + 6] == body[6]);
            }
            lemma_alu32_reg_step(b1, p, opcodes::SDIV, r1, r2);
            lemma_after_compose(s, p, n0 + g, 1);
            (after(b1, p, 1)->Some_0, n0 + g + 1)
        }
    };
    assert(after(s, p, n4) == Some(s4));
    assert(s4.pc == end_body);
    let v = s4.registers[1];
    assert(v as u32 == division_result(inst, xv, yv)) by {
        lemma_immediate_bits(i32::MIN);
        assert(wrap32(quotient_toward_zero(signed32(xv), signed32(yv))) < 0x1_0000_0000);
    }
    lemma_sign_extend_runs(s4, p, r1);
    let s5 = after(s4, p, 2)->Some_0;
    lemma_after_compose(s, p, n4, 2);
    lemma_sign_extend_bits(v);
    lemma_store_runs(c, p, s5, rd, r1);
    lemma_after_compose(s, p, n4 + 2, st.len());
    let t = after(s5, p, st.len())->Some_0;
    assert(keeps(s, t, set![1, 2, 3, 8]));
    n4 + 2 + st.len()
}

/// The remainder the compiled code forms with 32-bit wrapping arithmetic, the
/// dividend minus the wrapped product of the wrapped quotient `q` and the divisor,
/// is the remainder of the signed values modulo `2^32`.
proof fn lemma_remainder_wraps(x: u32, y: u32, q: int)
    ensures
        wrap32(x - wrap32(wrap32(q) * y)) == wrap32(signed32(x) - q * signed32(y)),
{
    let m: int = 0x1_0000_0000;
    let sx = signed32(x);
    let sy = signed32(y);
    let wq = wrap32(q) as int;
    let xy = wq * y;
    assert((x as int) % m == sx % m) by {
        if x >= 0x8000_0000 {
            lemma_mod_multiples_vanish(1, sx, m);
        }
    }
    assert((y as int) % m == sy % m) by {
        if y >= 0x8000_0000 {
            lemma_mod_multiples_vanish(1, sy, m);
        }
    }
    lemma_mod_twice(q, m);
    assert(wq % m == q % m);
    lemma_mul_mod_noop(wq, y as int, m);
    lemma_mul_mod_noop(q, sy, m);
    assert(xy % m == (q * sy) % m);
    lemma_sub_mod_noop_right(x as int, xy, m);
    lemma_sub_mod_noop(x as int, xy, m);
    lemma_sub_mod_noop(sx, q * sy, m);
    assert((x - wrap32(xy)) % m == (sx - q * sy) % m);
}

/// Running the code compiled for a REM or REMU, from its first instruction, ends at
/// the instruction after that code; it sets the RISC-V destination register to
/// `division_result` of the two source registers (and leaves `x0` zero), and
/// changes no other RISC-V register, no memory outside the register file, and not
/// the frame pointer `r10`. `steps` is how many instructions it runs.
#[verifier::spinoff_prover]
#[verifier::rlimit(100)]
pub proof fn lemma_remainder_runs(c: CompilerConfig, p: Seq<SvmInstruction>, s: MachineState, inst: Instruction, idx: int) -> (steps: nat)
    requires
        inst is Rem || inst is Remu,
        code_at(p, s.pc as int, inst_code(c, inst, idx)),
        can_run(s, p, 80),
        register_file_fits(c, s.memory),
    ensures
        after(s, p, steps) is Some,
        ({
            let k = inst_code(c, inst, idx).len();
            let (rd, rs1, rs2) = division_operands(inst);
            let t = after(s, p, steps)->Some_0;
            &&& t.pc == s.pc + k
            &&& forall|r: Register| #[trigger] rv_value(c, t.memory, r) == if r == rd && rd != Register::ZERO {
                division_result(inst, rv_value(c, s.memory, rs1), rv_value(c, s.memory, rs2))
            } else {
                rv_value(c, s.memory, r)
            }
            &&& t.memory.len() == s.memory.len()
            &&& forall|j: int| 0 <= j < s.memory.len() && !(c.regfile_base <= j < c.regfile_base + 128)
                ==> #[trigger] t.memory[j] == s.memory[j]
            &&& t.registers[10] == s.registers[10]
            &&& t.compute_units <= s.compute_units + 80
            &&& keeps(s, t, set![1, 2, 3, 8])
        }),
{
    let (rd, rs1, rs2) = division_operands(inst);
    let signed = inst is Rem;
    let r1 = SvmRegister::R1;
    let r2 = SvmRegister::R2;
    let r3 = SvmRegister::R3;
    reveal(inst_code);
    reveal(rem_code);
    let tail = seq![
        SvmInstruction::mov64_reg(r3, r1),
        SvmInstruction::sdiv32_reg(r1, r2),
        SvmInstruction::mul32_reg(r1, r2),
        SvmInstruction::sub32_reg(r3, r1),
        SvmInstruction::mov64_reg(r1, r3),
    ];
    let guard = seq![
        SvmInstruction::mov64_imm(r3, i32::MIN),
        SvmInstruction::jmp_reg(opcodes::JNE, r1, r3, 4),
        SvmInstruction::mov64_imm(r3, -1i32),
        SvmInstruction::jmp_reg(opcodes::JNE, r2, r3, 2),
        SvmInstruction::mov64_imm(r1, 0),
        SvmInstruction::ja(5),
    ];
    let body = if signed {
        guard + tail
    } else {
        zero_extend32(r1) + zero_extend32(r2) + seq![SvmInstruction::mod64_reg(r1, r2)]
    };
    assert(body =~= if signed {
        seq![
            SvmInstruction::mov64_imm(r3, i32::MIN),
            SvmInstruction::jmp_reg(opcodes::JNE, r1, r3, 4),
            SvmInstruction::mov64_imm(r3, -1i32),
            SvmInstruction::jmp_reg(opcodes::JNE, r2, r3, 2),
            SvmInstruction::mov64_imm(r1, 0),
            SvmInstruction::ja(5),
            SvmInstruction::mov64_reg(r3, r1),
            SvmInstruction::sdiv32_reg(r1, r2),
            SvmInstruction::mul32_reg(r1, r2),
            SvmInstruction::sub32_reg(r3, r1),
            SvmInstruction::mov64_reg(r1, r3),
        ]
    } else {
        zero_extend32(r1) + zero_extend32(r2) + seq![SvmInstruction::mod64_reg(r1, r2)]
    });
    let l1 = load_code(c, r1, rs1);
    let l2 = load_code(c, r2, rs2);
    let z = seq![
        SvmInstruction::jmp_imm(opcodes::JNE, r2, 0, 1),
        SvmInstruction::ja(body.len() as i16),
    ];
    let x = sign_extend32(r1);
    let st = store_code(c, rd, r1);
    let code = inst_code(c, inst, idx);
    assert(code == l1 + l2 + z + body + x + st);
    let at = s.pc as int;
    lemma_code_at_split(p, at, l1 + l2 + z + body + x, st);
    lemma_code_at_split(p, at, l1 + l2 + z + body, x);
    lemma_code_at_split(p, at, l1 + l2 + z, body);
    lemma_code_at_split(p, at, l1 + l2, z);
    lemma_code_at_split(p, at, l1, l2);
    lemma_load_runs(c, p, s, r1, rs1);
    let s1 = after(s, p, l1.len())->Some_0;
    lemma_load_runs(c, p, s1, r2, rs2);
    let s2 = after(s1, p, l2.len())->Some_0;
    lemma_after_compose(s, p, l1.len(), l2.len());
    let xv = rv_value(c, s.memory, rs1);
    let yv = rv_value(c, s.memory, rs2);
    lemma_word_bits(xv, yv);
    lemma_word_bits(yv, 0);
    let zb = at + l1.len() + l2.len();
    let bb = zb + 2;
    assert(p[zb + 0] == z[0] && p[zb + 1] == z[1]);
    lemma_jne_step(s2, p, r2, None, 0, 1);
    let s3 = after(s2, p, 1)->Some_0;
    lemma_after_compose(s, p, l1.len() + l2.len(), 1);
    let n0 = l1.len() + l2.len() + 1;
    // reach the end of the body with the remainder in r1
    let (s4, n4): (MachineState, nat) = if yv == 0 {
        lemma_ja_step(s3, p, body.len() as i16);
        lemma_after_compose(s, p, n0, 1);
        (after(s3, p, 1)->Some_0, n0 + 1)
    } else if !signed {
        lemma_code_at_split(p, bb, zero_extend32(r1), zero_extend32(r2) + seq![SvmInstruction::mod64_reg(r1, r2)]);
        lemma_code_at_split(p, bb + 2, zero_extend32(r2), seq![SvmInstruction::mod64_reg(r1, r2)]);
        lemma_zero_extend_runs(s3, p, r1);
        lemma_after_compose(s, p, n0, 2);
        let a1 = after(s3, p, 2)->Some_0;
        lemma_zero_extend_runs(a1, p, r2);
        lemma_after_compose(s, p, n0 + 2, 2);
        let a2 = after(a1, p, 2)->Some_0;
        assert(p[bb + 4] == body[4]);
        lemma_alu64_reg_step(a2, p, opcodes::MOD, r1, r2);
        lemma_after_compose(s, p, n0 + 4, 1);
        (after(a2, p, 1)->Some_0, n0 + 5)
    } else {
        lemma_code_at_split(p, bb, guard, tail);
        let g = lemma_guard_runs(p, s3, xv, yv, 0, tail);
        lemma_after_compose(s, p, n0, g);
        let b1 = after(s3, p, g)->Some_0;
        if xv == 0x8000_0000 && yv == 0xffff_ffff {
            lemma_immediate_bits(0);
            (b1, n0 + g)
        } else {
            let tb = bb + 6;
            assert(p[tb + 0] == tail[0] && p[tb + 1] == tail[1] && p[tb + 2] == tail[2]);
            assert(p[tb + 3] == tail[3] && p[tb + 4] == tail[4]);
            lemma_alu64_reg_step(b1, p, opcodes::MOV, r3, r1);
            let t1 = after(b1, p, 1)->Some_0;
            lemma_after_compose(s, p, n0 + g, 1);
            let q = quotient_toward_zero(signed32(xv), signed32(yv));
            lemma_alu32_reg_step(t1, p, opcodes::SDIV, r1, r2);
            let t2 = after(t1, p, 1)->Some_0;
            lemma_after_compose(s, p, n0 + g + 1, 1);
            assert(t2.registers[1] == wrap32(q) as u64);
            lemma_alu32_reg_step(t2, p, opcodes::MUL, r1, r2);
            let t3 = after(t2, p, 1)->Some_0;
            lemma_after_compose(s, p, n0 + g + 2, 1);
            assert(t3.registers[1] == wrap32(wrap32(q) * yv) as u64);
            lemma_alu32_reg_step(t3, p, opcodes::SUB, r3, r1);
            let t4 = after(t3, p, 1)->Some_0;
            lemma_after_compose(s, p, n0 + g + 3, 1);
            assert(t4.registers[3] == wrap32(xv - wrap32(wrap32(q) * yv)) as u64);
            lemma_alu64_reg_step(t4, p, opcodes::MOV, r1, r3);
            lemma_after_compose(s, p, n0 + g + 4, 1);
            lemma_remainder_wraps(xv, yv, q);
            (after(t4, p, 1)->Some_0, n0 + g + 5)
        }
    };
    assert(after(s, p, n4) == Some(s4));
    assert(s4.pc == bb + body.len());
    let v = s4.registers[1];
    assert(v as u32 == division_result(inst, xv, yv));
    lemma_sign_extend_runs(s4, p, r1);
    let s5 = after(s4, p, 2)->Some_0;
    lemma_after_compose(s, p, n4, 2);
    lemma_sign_extend_bits(v);
    lemma_store_runs(c, p, s5, rd, r1);
    lemma_after_compose(s, p, n4 + 2, st.len());
    let t = after(s5, p, st.len())->Some_0;
    assert(keeps(s, t, set![1, 2, 3, 8]));
    n4 + 2 + st.len()
}

/// The registers a multiplication that gives a high word names: `rd`, `rs1`, `rs2`.
pub open spec fn high_operands(inst: Instruction) -> (Register, Register, Register) {
    match inst {
        Instruction::Mulh { rd, rs1, rs2 }
        | Instruction::Mulhsu { rd, rs1, rs2 }
        | Instruction::Mulhu { rd, rs1, rs2 } => (rd, rs1, rs2),
        _ => (Register::ZERO, Register::ZERO, Register::ZERO),
    }
}

/// What RISC-V's MULH, MULHSU and MULHU compute from the values `x` of `rs1` and
/// `y` of `rs2`: the upper 32 bits of the 64-bit product, `x` read as signed for
/// MULH and MULHSU, `y` read as signed for MULH only.
pub open spec fn high_product(inst: Instruction, x: u32, y: u32) -> u32 {
    let a = if inst is Mulhu { x as int } else { signed32(x) };
    let b = if inst is Mulh { signed32(y) } else { y as int };
    wrap32((a * b) / 0x1_0000_0000)
}

/// The bits 32 to 63 of an integer taken modulo `2^64` are the integer divided by
/// `2^32` (rounded down), modulo `2^32`.
proof fn lemma_high_word(v: int)
    ensures
        (v % 0x1_0000_0000_0000_0000) / 0x1_0000_0000 == (v / 0x1_0000_0000) % 0x1_0000_0000,
{
    let m: int = 0x1_0000_0000;
    let q = v / m;
    let r = v % m;
    lemma_fundamental_div_mod(v, m);
    lemma_mod_bound(v, m);
    lemma_fundamental_div_mod(q, m);
    lemma_mod_bound(q, m);
    let t = (q % m) * m + r;
    assert(v == (q / m) * 0x1_0000_0000_0000_0000 + t);
    lemma_fundamental_div_mod_converse_mod(v, 0x1_0000_0000_0000_0000, q / m, t);
    lemma_fundamental_div_mod_converse_div(t, m, q % m, r);
}

/// A 64-bit register holding `a` (an integer that fits 64 bits) and one holding
/// `b`, multiplied with wrapping, hold `a * b` modulo `2^64`.
proof fn lemma_wrapped_product(a: int, b: int, ra: u64, rb: u64)
    requires
        ra == a || ra == a + 0x1_0000_0000_0000_0000,
        rb == b || rb == b + 0x1_0000_0000_0000_0000,
    ensures
        wrap64(ra * rb) as int == (a * b) % 0x1_0000_0000_0000_0000,
{
    let m: int = 0x1_0000_0000_0000_0000;
    assert((ra as int) % m == a % m) by {
        if ra != a {
            lemma_mod_multiples_vanish(1, a, m);
        }
    }
    assert((rb as int) % m == b % m) by {
        if rb != b {
            lemma_mod_multiples_vanish(1, b, m);
        }
    }
    lemma_mul_mod_noop(ra as int, rb as int, m);
    lemma_mul_mod_noop(a, b, m);
}

/// Running the code compiled for a MULH, MULHSU or MULHU, from its first
/// instruction, ends at the instruction after that code; it sets the RISC-V
/// destination register to `high_product` of the two source registers (and leaves
/// `x0` zero), and changes no other RISC-V register, no memory outside the register
/// file, and not the frame pointer `r10`. `steps` is how many instructions it runs.
#[verifier::spinoff_prover]
#[verifier::rlimit(100)]
pub proof fn lemma_high_product_runs(c: CompilerConfig, p: Seq<SvmInstruction>, s: MachineState, inst: Instruction, idx: int) -> (steps: nat)
    requires
        inst is Mulh || inst is Mulhsu || inst is Mulhu,
        code_at(p, s.pc as int, inst_code(c, inst, idx)),
        can_run(s, p, 40),
        register_file_fits(c, s.memory),
    ensures
        after(s, p, steps) is Some,
        ({
            let k = inst_code(c, inst, idx).len();
            let (rd, rs1, rs2) = high_operands(inst);
            let t = after(s, p, steps)->Some_0;
            &&& t.pc == s.pc + k
            &&& forall|r: Register| #[trigger] rv_value(c, t.memory, r) == if r == rd && rd != Register::ZERO {
                high_product(inst, rv_value(c, s.memory, rs1), rv_value(c, s.memory, rs2))
            } else {
                rv_value(c, s.memory, r)
            }
            &&& t.memory.len() == s.memory.len()
            &&& forall|j: int| 0 <= j < s.memory.len() && !(c.regfile_base <= j < c.regfile_base + 128)
                ==> #[trigger] t.memory[j] == s.memory[j]
            &&& t.registers[10] == s.registers[10]
            &&& t.compute_units <= s.compute_units + 40
            &&& keeps(s, t, set![1, 2, 8])
        }),
{
    let (rd, rs1, rs2) = high_operands(inst);
    let signed1 = !(inst is Mulhu);
    let signed2 = inst is Mulh;
    let r1 = SvmRegister::R1;
    let r2 = SvmRegister::R2;
    reveal(inst_code);
    reveal(mulh_code);
    let l1 = load_code(c, r1, rs1);
    let l2 = load_code(c, r2, rs2);
    let e1: Seq<SvmInstruction> = if signed1 { seq![] } else { zero_extend32(r1) };
    let e2: Seq<SvmInstruction> = if signed2 { seq![] } else { zero_extend32(r2) };
    let m = seq![SvmInstruction::mul64_reg(r1, r2), SvmInstruction::rsh64_imm(r1, 32)];
    let x = sign_extend32(r1);
    let st = store_code(c, rd, r1);
    let code = inst_code(c, inst, idx);
    assert(code == l1 + l2 + e1 + e2 + m + x + st);
    let at = s.pc as int;
    lemma_code_at_split(p, at, l1 + l2 + e1 + e2 + m + x, st);
    lemma_code_at_split(p, at, l1 + l2 + e1 + e2 + m, x);
    lemma_code_at_split(p, at, l1 + l2 + e1 + e2, m);
    lemma_code_at_split(p, at, l1 + l2 + e1, e2);
    lemma_code_at_split(p, at, l1 + l2, e1);
    lemma_code_at_split(p, at, l1, l2);
    lemma_load_runs(c, p, s, r1, rs1);
    let s1 = after(s, p, l1.len())->Some_0;
    lemma_load_runs(c, p, s1, r2, rs2);
    let s2 = after(s1, p, l2.len())->Some_0;
    lemma_after_compose(s, p, l1.len(), l2.len());
    let xv = rv_value(c, s.memory, rs1);
    let yv = rv_value(c, s.memory, rs2);
    lemma_word_bits(xv, yv);
    lemma_word_bits(yv, xv);
    let n2 = l1.len() + l2.len();
    if !signed1 {
        lemma_zero_extend_runs(s2, p, r1);
        lemma_after_compose(s, p, n2, 2);
    }
    let s3 = after(s2, p, e1.len())->Some_0;
    let n3 = n2 + e1.len();
    if !signed2 {
        lemma_zero_extend_runs(s3, p, r2);
        lemma_after_compose(s, p, n3, 2);
    }
    let s4 = after(s3, p, e2.len())->Some_0;
    let n4 = n3 + e2.len();
    assert(after(s, p, n4) == Some(s4));
    let a = if inst is Mulhu { xv as int } else { signed32(xv) };
    let b = if inst is Mulh { signed32(yv) } else { yv as int };
    assert(s4.registers[1] == a || s4.registers[1] == a + 0x1_0000_0000_0000_0000);
    assert(s4.registers[2] == b || s4.registers[2] == b + 0x1_0000_0000_0000_0000);
    let mb = at + n4;
    assert(p[mb + 0] == m[0] && p[mb + 1] == m[1]);
    lemma_alu64_reg_step(s4, p, opcodes::MUL, r1, r2);
    let s5 = after(s4, p, 1)->Some_0;
    lemma_after_compose(s, p, n4, 1);
    lemma_wrapped_product(a, b, s4.registers[1], s4.registers[2]);
    let w = s5.registers[1];
    lemma_register_bits(w);
    lemma_alu64_imm_step(s5, p, opcodes::RSH, r1, 32);
    let s6 = after(s5, p, 1)->Some_0;
    lemma_after_compose(s, p, n4 + 1, 1);
    let v = s6.registers[1];
    lemma_high_word(a * b);
    assert(v as u32 == high_product(inst, xv, yv));
    lemma_sign_extend_runs(s6, p, r1);
    let s7 = after(s6, p, 2)->Some_0;
    lemma_after_compose(s, p, n4 + 2, 2);
    lemma_sign_extend_bits(v);
    lemma_store_runs(c, p, s7, rd, r1);
    lemma_after_compose(s, p, n4 + 4, st.len());
    let t = after(s7, p, st.len())->Some_0;
    assert(keeps(s, t, set![1, 2, 8]));
    n4 + 4 + st.len()
}

/// The registers and offset a JALR names: `rd`, `rs1`, `imm`.
pub open spec fn jalr_operands(inst: Instruction) -> (Register, Register, i32) {
    match inst {
        Instruction::Jalr { rd, rs1, imm } => (rd, rs1, imm),
        _ => (Register::ZERO, Register::ZERO, 0),
    }
}

/// What the code compiled for a JALR leaves in `r1` from the value `x` of `rs1` and
/// the offset `imm`: `x` sign-extended plus `imm`, modulo `2^64`, with the lowest
/// bit cleared.
pub open spec fn jalr_register(x: u32, imm: i32) -> u64 {
    wrap64(sign_extended(x) + (imm as i64) as u64) & 0xffff_ffff_ffff_fffe
}

/// Where the sum of the signed value of `x` and `imm` lies in `[0, 2^31)`, the code
/// compiled for a JALR leaves in `r1` that sum with its lowest bit cleared.
pub proof fn lemma_jalr_register(x: u32, imm: i32)
    requires
        0 <= signed32(x) + imm < 0x8000_0000,
    ensures
        jalr_register(x, imm) as int == (signed32(x) + imm) - (signed32(x) + imm) % 2,
{
    let m: int = 0x1_0000_0000_0000_0000;
    let sum = signed32(x) + imm;
    lemma_word_bits(x, 0);
    lemma_immediate_bits(imm);
    let a = sign_extended(x) as int;
    let b = ((imm as i64) as u64) as int;
    assert(a == signed32(x) || a == signed32(x) + m);
    assert(b == imm || b == imm + m);
    let k: int = (a - signed32(x)) / m + (b - imm) / m;
    assert(a + b == m * k + sum);
    lemma_mod_multiples_vanish(k, sum, m);
    lemma_small_mod(sum as nat, m as nat);
    let w = wrap64(a + b);
    assert(w as int == sum);
    lemma_register_bits(w);
}

/// Running the code compiled for a JALR at index `idx`, from its first instruction,
/// where its jump has the offset `off`, leaves `jalr_register` of the value of `rs1`
/// and the offset in `r1`, sets the destination register to the return address
/// `return_address(c, idx)` (and leaves `x0` zero), changes no other RISC-V register and no
/// memory outside the register file, and ends where the jump lands.
#[verifier::spinoff_prover]
#[verifier::rlimit(50)]
pub proof fn lemma_jalr_runs(c: CompilerConfig, p: Seq<SvmInstruction>, s: MachineState, inst: Instruction, idx: int, off: i16)
    requires
        inst is Jalr,
        jump_code_at(p, s.pc as int, inst_code(c, inst, idx), off),
        0 <= s.pc + inst_code(c, inst, idx).len() + off <= p.len(),
        can_run(s, p, 40),
        register_file_fits(c, s.memory),
    ensures
        ({
            let k = inst_code(c, inst, idx).len();
            let (rd, rs1, imm) = jalr_operands(inst);
            &&& after(s, p, k) is Some
            &&& {
                let t = after(s, p, k)->Some_0;
                &&& t.pc == s.pc + k + off
                &&& t.registers[1] == jalr_register(rv_value(c, s.memory, rs1), imm)
                &&& forall|r: Register| #[trigger] rv_value(c, t.memory, r) == if r == rd && rd != Register::ZERO {
                    return_address(c, idx) as u32
                } else {
                    rv_value(c, s.memory, r)
                }
                &&& t.memory.len() == s.memory.len()
                &&& forall|j: int| 0 <= j < s.memory.len() && !(c.regfile_base <= j < c.regfile_base + 128)
                    ==> #[trigger] t.memory[j] == s.memory[j]
                &&& t.registers[10] == s.registers[10]
                &&& t.compute_units <= s.compute_units + 40
                &&& keeps(s, t, set![1, 2, 8])
            }
        }),
{
    let (rd, rs1, imm) = jalr_operands(inst);
    let r1 = SvmRegister::R1;
    let r2 = SvmRegister::R2;
    reveal(inst_code);
    reveal(jalr_code);
    let ret = return_address(c, idx);
    let l = load_code(c, r1, rs1);
    let m = seq![SvmInstruction::add64_imm(r1, imm), SvmInstruction::and64_imm(r1, -2i32)];
    let sv: Seq<SvmInstruction> = if rd != Register::ZERO {
        seq![SvmInstruction::mov64_imm(r2, ret)] + store_code(c, rd, r2)
    } else {
        seq![]
    };
    let code = inst_code(c, inst, idx);
    assert(code == l + m + sv + seq![SvmInstruction::ja(0)]);
    assert(code.drop_last() == l + m + sv);
    let at = s.pc as int;
    lemma_code_at_split(p, at, l + m, sv);
    lemma_code_at_split(p, at, l, m);
    lemma_load_runs(c, p, s, r1, rs1);
    let s1 = after(s, p, l.len())->Some_0;
    assert(p[at + l.len() + 0] == m[0] && p[at + l.len() + 1] == m[1]);
    lemma_alu64_imm_step(s1, p, opcodes::ADD, r1, imm);
    let s2 = after(s1, p, 1)->Some_0;
    lemma_alu64_imm_step(s2, p, opcodes::AND, r1, -2i32);
    lemma_immediate_bits(-2i32);
    lemma_after_compose(s1, p, 1, 1);
    lemma_after_compose(s, p, l.len(), 2);
    let s3 = after(s2, p, 1)->Some_0;
    let n3 = l.len() + 2;
    let x = rv_value(c, s.memory, rs1);
    assert(s3.registers[1] == jalr_register(x, imm));
    let s4 = if rd != Register::ZERO {
        let st = store_code(c, rd, r2);
        lemma_code_at_split(p, at + n3, seq![SvmInstruction::mov64_imm(r2, ret)], st);
        assert(p[at + n3 + 0] == sv[0]);
        lemma_alu64_imm_step(s3, p, opcodes::MOV, r2, ret);
        let a1 = after(s3, p, 1)->Some_0;
        lemma_immediate_bits(ret);
        lemma_store_runs(c, p, a1, rd, r2);
        lemma_after_compose(s3, p, 1, st.len());
        lemma_after_compose(s, p, n3, 1 + st.len());
        after(a1, p, st.len())->Some_0
    } else {
        s3
    };
    let n4 = n3 + sv.len();
    assert(after(s, p, n4) == Some(s4));
    assert(p[s4.pc as int] == SvmInstruction::ja(off));
    lemma_ja_step(s4, p, off);
    lemma_after_compose(s, p, n4, 1);
    let t = after(s4, p, 1)->Some_0;
    assert(keeps(s, t, set![1, 2, 8]));
}

/// Running the dispatch table at `start`, as `p` holds it there, with `r1` holding
/// 0 (a JALR to address 0) ends the run with `r0` holding RISC-V `a0`,
/// sign-extended.
pub proof fn lemma_dispatch_exits(
    c: CompilerConfig,
    p: Seq<SvmInstruction>,
    s: MachineState,
    sites: Seq<usize>,
    start: int,
    map: Seq<usize>,
)
    requires
        dispatch_table(c, sites, start, map) is Ok,
        code_at(p, start, dispatch_table(c, sites, start, map)->Ok_0),
        s.pc == start,
        can_run(s, p, 12),
        s.registers[1] == 0,
        register_file_fits(c, s.memory),
    ensures
        run(s, p) matches Effect::Done(t) && t.registers[0] == sign_extended(rv_value(c, s.memory, Register::A0)),
{
    let d = dispatch_table(c, sites, start, map)->Ok_0;
    lemma_dispatch_head(c, sites, start, map);
    let head = d.subrange(0, 6);
    assert(p[start + 0] == head[0]);
    lemma_immediate_bits(0);
    lemma_jne_step(s, p, SvmRegister::R1, None, 0, 5);
    let s1 = after(s, p, 1)->Some_0;
    assert(code_at(p, start + 1, inst_code(c, Instruction::Ecall, 0))) by {
        reveal(inst_code);
        assert forall|i: int| 0 <= i < 5 implies #[trigger] p[start + 1 + i] == inst_code(c, Instruction::Ecall, 0)[i] by {
            assert(p[start + (1 + i)] == d[1 + i]);
            assert(d[1 + i] == head[1 + i]);
        }
    }
    lemma_ecall_runs(c, p, s1, 0);
    lemma_after_run(s, p, 1);
}

/// Running the dispatch table for `sites` at `start`, as `p` holds it there, with
/// `r1` holding the byte address of instruction `j` (not 0), sign-extended, where
/// no other site has that byte address: where `j` is among the sites, the run ends
/// where `map` puts `j`; otherwise it ends just past the table. It changes neither
/// registers nor memory. `steps` is how many instructions it runs.
#[verifier::spinoff_prover]
#[verifier::rlimit(50)]
pub proof fn lemma_dispatch_runs(
    c: CompilerConfig,
    p: Seq<SvmInstruction>,
    s: MachineState,
    sites: Seq<usize>,
    start: int,
    map: Seq<usize>,
    j: int,
) -> (steps: nat)
    requires
        dispatch_table(c, sites, start, map) is Ok,
        code_at(p, start, dispatch_table(c, sites, start, map)->Ok_0),
        s.pc == start,
        can_run(s, p, 2 * sites.len() + 2),
        s.registers[1] == (byte_address(c, j) as i64) as u64,
        byte_address(c, j) != 0,
        0 <= j <= usize::MAX,
        forall|a: int| 0 <= a < sites.len() && byte_address(c, #[trigger] sites[a] as int) == byte_address(c, j)
            ==> sites[a] == j,
        forall|a: int| 0 <= a < sites.len() ==> map[#[trigger] sites[a] as int] <= p.len(),
    ensures
        after(s, p, steps) is Some,
        ({
            let t = after(s, p, steps)->Some_0;
            &&& t.pc == if sites.contains(j as usize) {
                map[j] as int
            } else {
                start + dispatch_table(c, sites, start, map)->Ok_0.len()
            }
            &&& t.registers == s.registers
            &&& t.memory == s.memory
            &&& t.compute_units <= s.compute_units + 2 * sites.len() + 2
            &&& keeps(s, t, Set::empty())
        }),
    decreases sites.len(),
{
    let d = dispatch_table(c, sites, start, map)->Ok_0;
    let r1 = SvmRegister::R1;
    let v = byte_address(c, j);
    lemma_immediate_bits(v);
    if sites.len() == 0 {
        assert(p[start + 0] == d[0]);
        lemma_jne_step(s, p, r1, None, 0, 5);
        lemma_immediate_bits(0);
        let t = after(s, p, 1)->Some_0;
        assert(t.pc == start + 6);
        assert(!sites.contains(j as usize));
        1
    } else {
        let front = sites.drop_last();
        let site = sites.last();
        let d0 = dispatch_table(c, front, start, map)->Ok_0;
        let at = start + d0.len() + 1;
        let off = map[site as int] - at - 1;
        let imm = byte_address(c, site as int);
        let two = seq![
            SvmInstruction::jmp_imm(opcodes::JNE, r1, imm, 1),
            SvmInstruction::ja(off as i16),
        ];
        assert(d == d0 + two);
        lemma_code_at_split(p, start, d0, two);
        assert forall|a: int| 0 <= a < front.len() && byte_address(c, #[trigger] front[a] as int) == byte_address(c, j)
            implies front[a] == j by {
            assert(front[a] == sites[a]);
        }
        assert forall|a: int| 0 <= a < front.len() implies map[#[trigger] front[a] as int] <= p.len() by {
            assert(front[a] == sites[a]);
        }
        let n0 = lemma_dispatch_runs(c, p, s, front, start, map, j);
        let s1 = after(s, p, n0)->Some_0;
        assert(map[sites[sites.len() - 1] as int] <= p.len());
        if front.contains(j as usize) {
            assert(sites.contains(j as usize)) by {
                let a = choose|a: int| 0 <= a < front.len() && front[a] == j as usize;
                assert(sites[a] == j as usize);
            }
            n0
        } else {
            assert(s1.pc == start + d0.len());
            assert(p[s1.pc as int] == two[0]);
            lemma_immediate_bits(imm);
            lemma_jne_step(s1, p, r1, None, imm, 1);
            let s2 = after(s1, p, 1)->Some_0;
            lemma_after_compose(s, p, n0, 1);
            if imm == v {
                assert(byte_address(c, sites[sites.len() - 1] as int) == byte_address(c, j));
                assert(site == j as usize);
                assert(sites.contains(j as usize)) by {
                    assert(sites[sites.len() - 1] == j as usize);
                }
                assert(s2.pc == at);
                assert(p[at] == two[1]);
                lemma_ja_step(s2, p, off as i16);
                lemma_after_compose(s, p, n0 + 1, 1);
                n0 + 2
            } else {
                assert(!sites.contains(j as usize)) by {
                    if sites.contains(j as usize) {
                        let a = choose|a: int| 0 <= a < sites.len() && sites[a] == j as usize;
                        if a < front.len() {
                            assert(front[a] == j as usize);
                        } else {
                            assert(sites[a] == site);
                        }
                    }
                }
                n0 + 1
            }
        }
    }
}

} // verus!
