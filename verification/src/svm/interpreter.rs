//! SVM interpreter for testing compiled programs
//!
//! This is a simplified interpreter for sBPF/SVM bytecode.
//! It's used for testing the rv32im to SVM compiler.

use vstd::prelude::*;
use super::bytecode::{opcodes, MemorySize, SvmInstruction, SvmProgram};
use super::little_endian::{le_bytes, le_value, lemma_bytes_of_value, lemma_value_of_bytes};
use super::semantics::{
    alu32, alu64, alu_write, branch, charge, cond32, cond64, fuel, in_bounds, instruction_effect,
    jump_target, lemma_step_charges, load, memory_effect, wide_load, quotient_toward_zero, read_at, reg_value,
    run, signed32, signed64, started, step, store, wrap32, wrap64, write_reg,
    AluResult, Effect, MachineState,
};

verus! {

/// SVM execution error
#[derive(Debug, Clone, Copy, PartialEq, Eq, Structural)]
pub enum SvmError {
    DivisionByZero,
    InvalidOpcode(u8),
    MemoryOutOfBounds(u64),
    StackOverflow,
    StackUnderflow,
    InvalidPC(usize),
    ComputeBudgetExceeded(u64, u64),
    SyscallNotImplemented(i32),
    Halted(u64),
    WriteToR10,
}

/// Result type for SVM operations
pub type SvmResult<T> = Result<T, SvmError>;

/// SVM virtual machine state
pub struct SvmVm {
    /// Registers r0-r10
    pub registers: [u64; 11],
    /// Memory (flat memory model for simplicity)
    pub memory: Vec<u8>,
    /// Program counter (instruction index)
    pub pc: usize,
    /// Compute units used
    pub compute_units: u64,
    /// Compute unit limit
    pub compute_limit: u64,
    /// Stack pointer (within memory)
    pub stack_base: u64,
    /// Whether execution has halted
    pub halted: bool,
}

/// The state of a fresh machine with `memory_size` bytes of zeroed memory: all
/// registers zero but `r10`, which holds the stack base (the memory size), and a
/// compute limit of 200 000 units.
pub open spec fn fresh_state(memory_size: usize) -> MachineState {
    MachineState {
        registers: Seq::new(11, |i: int| if i == 10 { memory_size as u64 } else { 0u64 }),
        memory: Seq::new(memory_size as nat, |i: int| 0u8),
        pc: 0,
        compute_units: 0,
        compute_limit: 200_000,
        stack_base: memory_size as u64,
        halted: false,
    }
}

/// An internal operation's outcome `r` against the effect `e` it should have, with
/// `t` the state it left: `None` exactly where `e` is a fault.
pub open spec fn agrees(r: Option<SvmResult<()>>, e: Effect, t: MachineState) -> bool {
    match e {
        Effect::Fault => r is None,
        Effect::Done(s) => r == Some(Ok::<(), SvmError>(())) && t == s,
        Effect::Error(err, s) => r == Some(Err::<(), SvmError>(err)) && t == s,
    }
}

/// The result of running a program against its outcome `e`, with `t` the state it
/// left: the value of `r0` where it ran to the end, the error where it failed.
pub open spec fn run_agrees(r: SvmResult<u64>, e: Effect, t: MachineState) -> bool {
    match e {
        Effect::Fault => false,
        Effect::Done(s) => r == Ok::<u64, SvmError>(s.registers[0]) && t == s,
        Effect::Error(err, s) => r == Err::<u64, SvmError>(err) && t == s,
    }
}

impl SvmVm {
    /// The machine's state.
    pub open spec fn state(&self) -> MachineState {
        MachineState {
            registers: self.registers@,
            memory: self.memory@,
            pc: self.pc,
            compute_units: self.compute_units,
            compute_limit: self.compute_limit,
            stack_base: self.stack_base,
            halted: self.halted,
        }
    }

    /// Create a new VM with given memory size
    pub fn new(memory_size: usize) -> (vm: Self)
        ensures
            vm.state() == fresh_state(memory_size),
    {
        let mut vm = SvmVm {
            registers: [0; 11],
            memory: vec![0; memory_size],
            pc: 0,
            compute_units: 0,
            compute_limit: 200_000,  // Default compute limit
            stack_base: memory_size as u64,
            halted: false,
        };
        // r10 is the stack frame pointer
        vm.registers[10] = vm.stack_base;
        assert(vm.registers@ =~= fresh_state(memory_size).registers);
        assert(vm.memory@ =~= fresh_state(memory_size).memory);
        vm
    }

    /// Set compute unit limit
    pub fn set_compute_limit(&mut self, limit: u64)
        ensures
            final(self).state() == (MachineState { compute_limit: limit, ..old(self).state() }),
    {
        self.compute_limit = limit;
    }

    /// Get register value
    pub fn get_reg(&self, reg: u8) -> (v: u64)
        requires
            reg < 11,
        ensures
            v == self.registers@[reg as int],
    {
        self.registers[reg as usize]
    }

    fn load_reg(&self, reg: u8) -> (v: Option<u64>)
        ensures
            v == reg_value(self.state(), reg),
    {
        if reg < 11 {
            Some(self.registers[reg as usize])
        } else {
            None
        }
    }

    /// Set register value (r10 is read-only)
    pub fn set_reg(&mut self, reg: u8, value: u64) -> (r: SvmResult<()>)
        requires
            reg <= 10,
        ensures
            agrees(Some(r), write_reg(old(self).state(), reg, value), final(self).state()),
    {
        if reg == 10 {
            return Err(SvmError::WriteToR10);
        }
        self.registers[reg as usize] = value;
        Ok(())
    }

    fn store_reg(&mut self, reg: u8, value: u64) -> (r: Option<SvmResult<()>>)
        ensures
            agrees(r, write_reg(old(self).state(), reg, value), final(self).state()),
    {
        if reg > 10 {
            return None;
        }
        Some(self.set_reg(reg, value))
    }

    /// Read memory: the little-endian value of the bytes at `addr`, or
    /// `MemoryOutOfBounds` where they do not all lie in memory.
    pub fn read_mem(&self, addr: u64, size: MemorySize) -> (r: SvmResult<u64>)
        ensures
            r == (if in_bounds(self.memory@, addr, size) == Some(true) {
                Ok::<u64, SvmError>(read_at(self.memory@, addr, size))
            } else {
                Err::<u64, SvmError>(SvmError::MemoryOutOfBounds((addr as usize) as u64))
            }),
    {
        let addr = addr as usize;
        let mem_size: usize = match size {
            MemorySize::Byte => 1,
            MemorySize::Half => 2,
            MemorySize::Word => 4,
            MemorySize::DWord => 8,
        };
        if addr > usize::MAX - mem_size || addr + mem_size > self.memory.len() {
            return Err(SvmError::MemoryOutOfBounds(addr as u64));
        }
        Ok(read_le(&self.memory, addr, mem_size))
    }

    /// Write memory: the lowest bytes of `value` at `addr`, or `MemoryOutOfBounds`
    /// (and no change) where they do not all lie in memory.
    pub fn write_mem(&mut self, addr: u64, size: MemorySize, value: u64) -> (r: SvmResult<()>)
        ensures
            agrees(Some(r), store(old(self).state(), addr, size, value), final(self).state()),
    {
        let addr = addr as usize;
        let mem_size: usize = match size {
            MemorySize::Byte => 1,
            MemorySize::Half => 2,
            MemorySize::Word => 4,
            MemorySize::DWord => 8,
        };
        if addr > usize::MAX - mem_size || addr + mem_size > self.memory.len() {
            return Err(SvmError::MemoryOutOfBounds(addr as u64));
        }
        write_le(&mut self.memory, addr, mem_size, value);
        Ok(())
    }

    /// Execute a program. The run must not reach a point where the machine cannot
    /// go on (see `Effect::Fault`); `execute_checked` runs any program.
    pub fn execute(&mut self, program: &SvmProgram) -> (r: SvmResult<u64>)
        requires
            !(run(started(old(self).state()), program.instructions@) is Fault),
        ensures
            run_agrees(r, run(started(old(self).state()), program.instructions@), final(self).state()),
    {
        match self.execute_checked(program) {
            Some(r) => r,
            None => {
                assert(false);
                Err(SvmError::Halted(0))
            },
        }
    }

    /// Execute a program, or give `None` where the run reaches a point where the
    /// machine cannot go on (a register number above 10, a signed division or
    /// negation that overflows, compute units beyond `u64::MAX`, a jump target beyond
    /// `i64`).
    pub fn execute_checked(&mut self, program: &SvmProgram) -> (r: Option<SvmResult<u64>>)
        ensures
            r is None <==> run(started(old(self).state()), program.instructions@) is Fault,
            r matches Some(res) ==> run_agrees(
                res,
                run(started(old(self).state()), program.instructions@),
                final(self).state(),
            ),
    {
        self.pc = 0;
        self.halted = false;
        let ghost prog = program.instructions@;
        let ghost start = started(old(self).state());
        assert(self.state() =~= start);
        while !self.halted && self.pc < program.len()
            invariant
                prog == program.instructions@,
                start == started(old(self).state()),
                run(self.state(), prog) == run(start, prog),
            decreases fuel(self.state()),
        {
            let ghost before = self.state();
            proof {
                lemma_step_charges(before, prog);
            }
            let inst = program.instructions[self.pc];
            let r = self.execute_instruction(&inst, program);
            proof {
                assert(!before.halted && before.pc < prog.len());
                assert(run(before, prog) == (match step(before, prog) {
                    Effect::Done(t) => run(t, prog),
                    other => other,
                }));
            }
            match r {
                None => {
                    assert(step(before, prog) is Fault);
                    assert(run(before, prog) is Fault);
                    assert(run(start, prog) is Fault);
                    return None;
                },
                Some(Err(e)) => {
                    assert(step(before, prog) == Effect::Error(e, self.state()));
                    assert(run(start, prog) == Effect::Error(e, self.state()));
                    return Some(Err(e));
                },
                Some(Ok(())) => {},
            }
        }
        Some(Ok(self.registers[0]))
    }

    /// Execute a single instruction
    fn execute_instruction(&mut self, inst: &SvmInstruction, program: &SvmProgram) -> (r: Option<
        SvmResult<()>,
    >)
        requires
            !old(self).halted,
            old(self).pc < program.instructions.len(),
            *inst == program.instructions@[old(self).pc as int],
        ensures
            agrees(r, step(old(self).state(), program.instructions@), final(self).state()),
    {
        reveal(step);
        // Check compute budget
        let cost = self.instruction_cost(inst);
        if self.compute_units > u64::MAX - cost {
            return None;
        }
        self.compute_units += cost;
        if self.compute_units > self.compute_limit {
            return Some(Err(SvmError::ComputeBudgetExceeded(self.compute_units, self.compute_limit)));
        }
        let ghost charged = self.state();
        if inst.opcode == opcodes::LD_IMM_DW {
            return self.execute_wide_load(inst, program);
        }
        // In eBPF, opcode is structured as: [op (4 bits)][src (1 bit)][class (3 bits)]
        // But for matching, we need to consider bits 0-3 (class + src bit)
        let opcode_class = inst.opcode & 0x0f;
        let op = inst.opcode & 0xf0;
        match opcode_class {
            // ALU64 immediate (class=0x07, src=0) -> 0x07
            0x07 => {
                match self.execute_alu64_imm(op, inst.dst, inst.imm) {
                    Some(Ok(())) => {},
                    other => return other,
                }
                self.pc += 1;
            },
            // ALU64 register (class=0x07, src=1) -> 0x0f
            0x0f => {
                match self.execute_alu64_reg(op, inst.dst, inst.src) {
                    Some(Ok(())) => {},
                    other => return other,
                }
                self.pc += 1;
            },
            // ALU32 immediate (class=0x04, src=0) -> 0x04
            0x04 => {
                match self.execute_alu32_imm(op, inst.dst, inst.imm) {
                    Some(Ok(())) => {},
                    other => return other,
                }
                self.pc += 1;
            },
            // ALU32 register (class=0x04, src=1) -> 0x0c
            0x0c => {
                match self.execute_alu32_reg(op, inst.dst, inst.src) {
                    Some(Ok(())) => {},
                    other => return other,
                }
                self.pc += 1;
            },
            // JMP immediate (class=0x05, src=0) -> 0x05
            0x05 => {
                return self.execute_jmp_imm(op, inst, program);
            },
            // JMP register (class=0x05, src=1) -> 0x0d
            0x0d => {
                return self.execute_jmp_reg(op, inst);
            },
            // JMP32 immediate (class=0x06, src=0) -> 0x06
            0x06 => {
                return self.execute_jmp32_imm(op, inst);
            },
            // JMP32 register (class=0x06, src=1) -> 0x0e
            0x0e => {
                return self.execute_jmp32_reg(op, inst);
            },
            // Memory operations
            _ => {
                match self.execute_memory(inst) {
                    Some(Ok(())) => {},
                    other => return other,
                }
                self.pc += 1;
            },
        }
        Some(Ok(()))
    }

    fn execute_alu64_imm(&mut self, op: u8, dst: u8, imm: i32) -> (r: Option<SvmResult<()>>)
        ensures
            match reg_value(old(self).state(), dst) {
                None => r is None,
                Some(d) => agrees(
                    r,
                    alu_write(old(self).state(), dst, alu64(op, d, (imm as i64) as u64, true), op),
                    final(self).state(),
                ),
            },
    {
        let dst_val = match self.load_reg(dst) {
            Some(v) => v,
            None => return None,
        };
        let imm_val = imm as i64 as u64;  // Sign extend to 64-bit
        let result = compute_alu64(op, dst_val, imm_val, true);
        self.write_result(dst, result, op)
    }

    fn execute_alu64_reg(&mut self, op: u8, dst: u8, src: u8) -> (r: Option<SvmResult<()>>)
        ensures
            match (reg_value(old(self).state(), dst), reg_value(old(self).state(), src)) {
                (Some(d), Some(b)) => agrees(
                    r,
                    alu_write(old(self).state(), dst, alu64(op, d, b, false), op),
                    final(self).state(),
                ),
                _ => r is None,
            },
    {
        let dst_val = match self.load_reg(dst) {
            Some(v) => v,
            None => return None,
        };
        let src_val = match self.load_reg(src) {
            Some(v) => v,
            None => return None,
        };
        let result = compute_alu64(op, dst_val, src_val, false);
        self.write_result(dst, result, op)
    }

    fn execute_alu32_imm(&mut self, op: u8, dst: u8, imm: i32) -> (r: Option<SvmResult<()>>)
        ensures
            match reg_value(old(self).state(), dst) {
                None => r is None,
                Some(d) => agrees(
                    r,
                    alu_write(old(self).state(), dst, alu32(op, d as u32, imm as u32, true), op),
                    final(self).state(),
                ),
            },
    {
        let dst_val = match self.load_reg(dst) {
            Some(v) => v as u32,
            None => return None,
        };
        let imm_val = imm as u32;
        let result = compute_alu32(op, dst_val, imm_val, true);
        // 32-bit operations zero-extend to 64-bit
        self.write_result(dst, result, op)
    }

    fn execute_alu32_reg(&mut self, op: u8, dst: u8, src: u8) -> (r: Option<SvmResult<()>>)
        ensures
            match (reg_value(old(self).state(), dst), reg_value(old(self).state(), src)) {
                (Some(d), Some(b)) => agrees(
                    r,
                    alu_write(old(self).state(), dst, alu32(op, d as u32, b as u32, false), op),
                    final(self).state(),
                ),
                _ => r is None,
            },
    {
        let dst_val = match self.load_reg(dst) {
            Some(v) => v as u32,
            None => return None,
        };
        let src_val = match self.load_reg(src) {
            Some(v) => v as u32,
            None => return None,
        };
        let result = compute_alu32(op, dst_val, src_val, false);
        // 32-bit operations zero-extend to 64-bit
        self.write_result(dst, result, op)
    }

    fn write_result(&mut self, dst: u8, result: AluResult, op: u8) -> (r: Option<SvmResult<()>>)
        ensures
            agrees(r, alu_write(old(self).state(), dst, result, op), final(self).state()),
    {
        match result {
            AluResult::Value(v) => self.store_reg(dst, v),
            AluResult::DivideByZero => Some(Err(SvmError::DivisionByZero)),
            AluResult::Invalid => Some(Err(SvmError::InvalidOpcode(op))),
            AluResult::Overflow => None,
        }
    }

    /// Moves to the instruction `offset` past the next one, or to the next one.
    fn take_branch(&mut self, taken: bool, offset: i16) -> (r: Option<SvmResult<()>>)
        requires
            old(self).pc < usize::MAX,
        ensures
            agrees(r, branch(old(self).state(), Some(taken), 0, offset), final(self).state()),
    {
        if taken {
            match target_of(self.pc, offset) {
                Some(t) => {
                    self.pc = t;
                },
                None => return None,
            }
        } else {
            self.pc += 1;
        }
        Some(Ok(()))
    }

    fn execute_jmp_imm(&mut self, op: u8, inst: &SvmInstruction, _program: &SvmProgram) -> (r:
        Option<SvmResult<()>>)
        requires
            old(self).pc < _program.instructions.len(),
            inst.opcode & 0xf0 == op,
            inst.opcode & 0x0f == 0x05,
        ensures
            agrees(r, instruction_effect(old(self).state(), *inst), final(self).state()),
    {
        match op {
            opcodes::JA => {
                return self.take_branch(true, inst.offset);
            },
            opcodes::EXIT => {
                self.halted = true;
            },
            opcodes::CALL => {
                // Syscall - not fully implemented
                return Some(Err(SvmError::SyscallNotImplemented(inst.imm)));
            },
            _ => {
                let dst_val = match self.load_reg(inst.dst) {
                    Some(v) => v,
                    None => return None,
                };
                let imm_val = inst.imm as i64 as u64;
                let cond = match compare64(op, dst_val, imm_val) {
                    Some(c) => c,
                    None => return Some(Err(SvmError::InvalidOpcode(op))),
                };
                return self.take_branch(cond, inst.offset);
            },
        }
        Some(Ok(()))
    }

    fn execute_jmp_reg(&mut self, op: u8, inst: &SvmInstruction) -> (r: Option<SvmResult<()>>)
        requires
            old(self).pc < usize::MAX,
            inst.opcode & 0xf0 == op,
            inst.opcode & 0x0f == 0x0d,
        ensures
            agrees(r, instruction_effect(old(self).state(), *inst), final(self).state()),
    {
        let dst_val = match self.load_reg(inst.dst) {
            Some(v) => v,
            None => return None,
        };
        let src_val = match self.load_reg(inst.src) {
            Some(v) => v,
            None => return None,
        };
        let cond = match compare64(op, dst_val, src_val) {
            Some(c) => c,
            None => return Some(Err(SvmError::InvalidOpcode(op))),
        };
        self.take_branch(cond, inst.offset)
    }

    fn execute_jmp32_imm(&mut self, op: u8, inst: &SvmInstruction) -> (r: Option<SvmResult<()>>)
        requires
            old(self).pc < usize::MAX,
            inst.opcode & 0xf0 == op,
            inst.opcode & 0x0f == 0x06,
        ensures
            agrees(r, instruction_effect(old(self).state(), *inst), final(self).state()),
    {
        let dst_val = match self.load_reg(inst.dst) {
            Some(v) => v as u32,
            None => return None,
        };
        let imm_val = inst.imm as u32;
        let cond = match compare32(op, dst_val, imm_val) {
            Some(c) => c,
            None => return Some(Err(SvmError::InvalidOpcode(op))),
        };
        self.take_branch(cond, inst.offset)
    }

    fn execute_jmp32_reg(&mut self, op: u8, inst: &SvmInstruction) -> (r: Option<SvmResult<()>>)
        requires
            old(self).pc < usize::MAX,
            inst.opcode & 0xf0 == op,
            inst.opcode & 0x0f == 0x0e,
        ensures
            agrees(r, instruction_effect(old(self).state(), *inst), final(self).state()),
    {
        let dst_val = match self.load_reg(inst.dst) {
            Some(v) => v as u32,
            None => return None,
        };
        let src_val = match self.load_reg(inst.src) {
            Some(v) => v as u32,
            None => return None,
        };
        let cond = match compare32(op, dst_val, src_val) {
            Some(c) => c,
            None => return Some(Err(SvmError::InvalidOpcode(op))),
        };
        self.take_branch(cond, inst.offset)
    }

    /// The 64-bit immediate load, which takes this slot and the next.
    fn execute_wide_load(&mut self, inst: &SvmInstruction, program: &SvmProgram) -> (r: Option<
        SvmResult<()>,
    >)
        requires
            old(self).pc < program.instructions.len(),
            *inst == program.instructions@[old(self).pc as int],
        ensures
            agrees(r, wide_load(old(self).state(), program.instructions@), final(self).state()),
    {
        if self.pc + 1 >= program.instructions.len() {
            match self.store_reg(inst.dst, inst.imm as i64 as u64) {
                Some(Ok(())) => {},
                other => return other,
            }
            self.pc = self.pc + 1;
            return Some(Ok(()));
        }
        let high = program.instructions[self.pc + 1].imm;
        let value = (inst.imm as u32 as u64) | ((high as u32 as u64) << 32u64);
        match self.store_reg(inst.dst, value) {
            Some(Ok(())) => {},
            other => return other,
        }
        self.pc = self.pc + 2;
        Some(Ok(()))
    }

    fn execute_memory(&mut self, inst: &SvmInstruction) -> (r: Option<SvmResult<()>>)
        ensures
            agrees(r, memory_effect(old(self).state(), *inst), final(self).state()),
    {
        let off = inst.offset as i64 as u64;
        match inst.opcode {
            opcodes::LDX_B => self.load_into(inst.dst, inst.src, off, MemorySize::Byte),
            opcodes::LDX_H => self.load_into(inst.dst, inst.src, off, MemorySize::Half),
            opcodes::LDX_W => self.load_into(inst.dst, inst.src, off, MemorySize::Word),
            opcodes::LDX_DW => self.load_into(inst.dst, inst.src, off, MemorySize::DWord),
            opcodes::ST_B => self.store_imm(inst.dst, off, MemorySize::Byte, inst.imm),
            opcodes::ST_H => self.store_imm(inst.dst, off, MemorySize::Half, inst.imm),
            opcodes::ST_W => self.store_imm(inst.dst, off, MemorySize::Word, inst.imm),
            opcodes::ST_DW => self.store_imm(inst.dst, off, MemorySize::DWord, inst.imm),
            opcodes::STX_B => self.store_src(inst.dst, inst.src, off, MemorySize::Byte),
            opcodes::STX_H => self.store_src(inst.dst, inst.src, off, MemorySize::Half),
            opcodes::STX_W => self.store_src(inst.dst, inst.src, off, MemorySize::Word),
            opcodes::STX_DW => self.store_src(inst.dst, inst.src, off, MemorySize::DWord),
            _ => Some(Err(SvmError::InvalidOpcode(inst.opcode))),
        }
    }

    /// `dst = *(size*)(src + off)`
    fn load_into(&mut self, dst: u8, src: u8, off: u64, size: MemorySize) -> (r: Option<
        SvmResult<()>,
    >)
        ensures
            match reg_value(old(self).state(), src) {
                None => r is None,
                Some(base) => agrees(
                    r,
                    load(old(self).state(), dst, wrap64(base + off), size),
                    final(self).state(),
                ),
            },
    {
        let base = match self.load_reg(src) {
            Some(v) => v,
            None => return None,
        };
        proof {
            lemma_wrapping_add64(base, off);
        }
        let addr = base.wrapping_add(off);
        let val = match self.read_mem(addr, size) {
            Ok(v) => v,
            Err(e) => return Some(Err(e)),
        };
        self.store_reg(dst, val)
    }

    /// `*(size*)(dst + off) = imm`
    fn store_imm(&mut self, dst: u8, off: u64, size: MemorySize, imm: i32) -> (r: Option<
        SvmResult<()>,
    >)
        ensures
            match reg_value(old(self).state(), dst) {
                None => r is None,
                Some(base) => agrees(
                    r,
                    store(old(self).state(), wrap64(base + off), size, imm as u64),
                    final(self).state(),
                ),
            },
    {
        let base = match self.load_reg(dst) {
            Some(v) => v,
            None => return None,
        };
        proof {
            lemma_wrapping_add64(base, off);
        }
        let addr = base.wrapping_add(off);
        Some(self.write_mem(addr, size, imm as u64))
    }

    /// `*(size*)(dst + off) = src`
    fn store_src(&mut self, dst: u8, src: u8, off: u64, size: MemorySize) -> (r: Option<
        SvmResult<()>,
    >)
        ensures
            match (reg_value(old(self).state(), dst), reg_value(old(self).state(), src)) {
                (Some(base), Some(v)) => agrees(
                    r,
                    store(old(self).state(), wrap64(base + off), size, v),
                    final(self).state(),
                ),
                _ => r is None,
            },
    {
        let base = match self.load_reg(dst) {
            Some(v) => v,
            None => return None,
        };
        proof {
            lemma_wrapping_add64(base, off);
        }
        let addr = base.wrapping_add(off);
        let val = match self.load_reg(src) {
            Some(v) => v,
            None => return None,
        };
        Some(self.write_mem(addr, size, val))
    }

    fn instruction_cost(&self, inst: &SvmInstruction) -> (cost: u64)
        ensures
            cost == charge(*inst),
            1 <= cost <= 100,
    {
        let opcode_class = inst.opcode & 0x0f;
        let op = inst.opcode & 0xf0;
        match opcode_class {
            // ALU operations
            0x04 | 0x07 | 0x0c | 0x0f => {
                match op {
                    opcodes::MUL => 10,
                    opcodes::DIV | opcodes::MOD | opcodes::SDIV => 25,
                    _ => 1,
                }
            },
            // Jump operations
            0x05 | 0x0d | 0x06 | 0x0e => {
                match op {
                    opcodes::CALL => 100,
                    opcodes::EXIT => 1,
                    _ => 1,
                }
            },
            _ => 5,  // Memory operations
        }
    }
}

/// `pc + 1 + offset`, or `None` where computing it in `i64` overflows.
fn target_of(pc: usize, offset: i16) -> (t: Option<usize>)
    ensures
        t == jump_target(pc, offset),
{
    let p = pc as i64;
    if p == i64::MAX {
        return None;
    }
    let q = p + 1;
    let off = offset as i64;
    if (off > 0 && q > i64::MAX - off) || (off < 0 && q < i64::MIN - off) {
        return None;
    }
    Some((q + off) as usize)
}

proof fn lemma_wrapping_add64(a: u64, b: u64)
    ensures
        vstd::wrapping::u64_specs::wrapping_add(a, b) == wrap64(a + b),
{
    if a + b > u64::MAX {
        vstd::arithmetic::div_mod::lemma_fundamental_div_mod_converse(a + b, 0x1_0000_0000_0000_0000, 1, a + b - 0x1_0000_0000_0000_0000);
    } else {
        vstd::arithmetic::div_mod::lemma_fundamental_div_mod_converse(a + b, 0x1_0000_0000_0000_0000, 0, a + b);
    }
}

proof fn lemma_wrap64_small(x: int)
    requires
        -0x1_0000_0000_0000_0000 <= x < 0x1_0000_0000_0000_0000,
    ensures
        wrap64(x) == (if x < 0 { x + 0x1_0000_0000_0000_0000 } else { x }),
{
    if x < 0 {
        vstd::arithmetic::div_mod::lemma_fundamental_div_mod_converse(x, 0x1_0000_0000_0000_0000, -1, x + 0x1_0000_0000_0000_0000);
    } else {
        vstd::arithmetic::div_mod::lemma_fundamental_div_mod_converse(x, 0x1_0000_0000_0000_0000, 0, x);
    }
}

proof fn lemma_wrap32_small(x: int)
    requires
        -0x1_0000_0000 <= x < 0x1_0000_0000,
    ensures
        wrap32(x) == (if x < 0 { x + 0x1_0000_0000 } else { x }),
{
    if x < 0 {
        vstd::arithmetic::div_mod::lemma_fundamental_div_mod_converse(x, 0x1_0000_0000, -1, x + 0x1_0000_0000);
    } else {
        vstd::arithmetic::div_mod::lemma_fundamental_div_mod_converse(x, 0x1_0000_0000, 0, x);
    }
}

proof fn lemma_signed_casts(a: u64, b: u32)
    ensures
        (a as i64) as int == signed64(a),
        (b as i32) as int == signed32(b),
{
    assert((a as i64) == (if a >= 0x8000_0000_0000_0000 { a - 0x1_0000_0000_0000_0000 } else { a as int })) by (bit_vector);
    assert((b as i32) == (if b >= 0x8000_0000 { b - 0x1_0000_0000 } else { b as int })) by (bit_vector);
}

proof fn lemma_unsigned_casts(q: i64, p: i32)
    ensures
        (q as u64) == wrap64(q as int),
        (p as u32) == wrap32(p as int),
{
    assert((q as u64) == (if q < 0 { q + 0x1_0000_0000_0000_0000 } else { q as int })) by (bit_vector);
    assert((p as u32) == (if p < 0 { p + 0x1_0000_0000 } else { p as int })) by (bit_vector);
    lemma_wrap64_small(q as int);
    lemma_wrap32_small(p as int);
}

/// Signed division of 64-bit words rounding toward zero, computed on the magnitudes.
fn signed_quotient64(a: u64, b: u64) -> (q: u64)
    requires
        b != 0,
        !(signed64(a) == i64::MIN && signed64(b) == -1),
    ensures
        q == wrap64(quotient_toward_zero(signed64(a), signed64(b))),
{
    let neg_a = a >= 0x8000_0000_0000_0000;
    let neg_b = b >= 0x8000_0000_0000_0000;
    let ma = if neg_a { 0u64.wrapping_sub(a) } else { a };
    let mb = if neg_b { 0u64.wrapping_sub(b) } else { b };
    let mq = ma / mb;
    proof {
        lemma_wrap64_small(-(mq as int));
        lemma_wrap64_small(mq as int);
    }
    if neg_a != neg_b {
        0u64.wrapping_sub(mq)
    } else {
        mq
    }
}

/// Signed division of 32-bit words rounding toward zero, computed on the magnitudes.
fn signed_quotient32(a: u32, b: u32) -> (q: u32)
    requires
        b != 0,
        !(signed32(a) == i32::MIN && signed32(b) == -1),
    ensures
        q == wrap32(quotient_toward_zero(signed32(a), signed32(b))),
{
    let neg_a = a >= 0x8000_0000;
    let neg_b = b >= 0x8000_0000;
    let ma = if neg_a { 0u32.wrapping_sub(a) } else { a };
    let mb = if neg_b { 0u32.wrapping_sub(b) } else { b };
    let mq = ma / mb;
    proof {
        lemma_wrap32_small(-(mq as int));
        lemma_wrap32_small(mq as int);
    }
    if neg_a != neg_b {
        0u32.wrapping_sub(mq)
    } else {
        mq
    }
}

/// A 64-bit ALU operation.
fn compute_alu64(op: u8, dst_val: u64, src_val: u64, neg: bool) -> (r: AluResult)
    ensures
        r == alu64(op, dst_val, src_val, neg),
{
    proof {
        lemma_wrapping_add64(dst_val, src_val);
        lemma_wrap64_small(dst_val - src_val);
        lemma_signed_casts(dst_val, 0);
        lemma_signed_casts(src_val, 0);
    }
    assert((src_val & 63) < 64) by (bit_vector);
    match op {
        opcodes::ADD => {
            let v = dst_val.wrapping_add(src_val);
            assert(v == wrap64(dst_val + src_val));
            AluResult::Value(v)
        },
        opcodes::SUB => {
            let v = dst_val.wrapping_sub(src_val);
            assert(v == wrap64(dst_val - src_val));
            AluResult::Value(v)
        },
        opcodes::MUL => {
            let v = dst_val.wrapping_mul(src_val);
            assert(v == wrap64(dst_val * src_val));
            AluResult::Value(v)
        },
        opcodes::DIV => {
            if src_val == 0 {
                return AluResult::DivideByZero;
            }
            AluResult::Value(dst_val / src_val)
        },
        opcodes::SDIV => {
            if src_val == 0 {
                return AluResult::DivideByZero;
            }
            let x = dst_val as i64;
            let y = src_val as i64;
            if x == i64::MIN && y == -1 {
                return AluResult::Overflow;
            }
            AluResult::Value(signed_quotient64(dst_val, src_val))
        },
        opcodes::MOD => {
            if src_val == 0 {
                return AluResult::DivideByZero;
            }
            AluResult::Value(dst_val % src_val)
        },
        opcodes::OR => AluResult::Value(dst_val | src_val),
        opcodes::AND => AluResult::Value(dst_val & src_val),
        opcodes::LSH => AluResult::Value(dst_val << (src_val & 63)),
        opcodes::RSH => AluResult::Value(dst_val >> (src_val & 63)),
        opcodes::ARSH => AluResult::Value(((dst_val as i64) >> (src_val & 63)) as u64),
        opcodes::XOR => AluResult::Value(dst_val ^ src_val),
        opcodes::MOV => AluResult::Value(src_val),
        opcodes::NEG if neg => {
            let x = dst_val as i64;
            if x == i64::MIN {
                return AluResult::Overflow;
            }
            let n = -x;
            proof {
                lemma_unsigned_casts(n, 0);
            }
            AluResult::Value(n as u64)
        },
        _ => AluResult::Invalid,
    }
}

/// A 32-bit ALU operation, zero-extended to 64 bits.
fn compute_alu32(op: u8, dst_val: u32, src_val: u32, neg: bool) -> (r: AluResult)
    ensures
        r == alu32(op, dst_val, src_val, neg),
{
    proof {
        lemma_wrap32_small(dst_val - src_val);
        lemma_signed_casts(0, dst_val);
        lemma_signed_casts(0, src_val);
        if dst_val + src_val >= 0x1_0000_0000 {
            vstd::arithmetic::div_mod::lemma_fundamental_div_mod_converse(dst_val + src_val, 0x1_0000_0000, 1, dst_val + src_val - 0x1_0000_0000);
        } else {
            lemma_wrap32_small(dst_val + src_val);
        }
    }
    assert((src_val & 31) < 32) by (bit_vector);
    match op {
        opcodes::ADD => {
            let v = dst_val.wrapping_add(src_val);
            assert(v == wrap32(dst_val + src_val));
            AluResult::Value(v as u64)
        },
        opcodes::SUB => {
            let v = dst_val.wrapping_sub(src_val);
            assert(v == wrap32(dst_val - src_val));
            AluResult::Value(v as u64)
        },
        opcodes::MUL => {
            let v = dst_val.wrapping_mul(src_val);
            assert(v == wrap32(dst_val * src_val));
            AluResult::Value(v as u64)
        },
        opcodes::DIV => {
            if src_val == 0 {
                return AluResult::DivideByZero;
            }
            AluResult::Value((dst_val / src_val) as u64)
        },
        opcodes::SDIV => {
            if src_val == 0 {
                return AluResult::DivideByZero;
            }
            let x = dst_val as i32;
            let y = src_val as i32;
            if x == i32::MIN && y == -1 {
                return AluResult::Overflow;
            }
            AluResult::Value(signed_quotient32(dst_val, src_val) as u64)
        },
        opcodes::MOD => {
            if src_val == 0 {
                return AluResult::DivideByZero;
            }
            AluResult::Value((dst_val % src_val) as u64)
        },
        opcodes::OR => AluResult::Value((dst_val | src_val) as u64),
        opcodes::AND => AluResult::Value((dst_val & src_val) as u64),
        opcodes::LSH => AluResult::Value((dst_val << (src_val & 31)) as u64),
        opcodes::RSH => AluResult::Value((dst_val >> (src_val & 31)) as u64),
        opcodes::ARSH => AluResult::Value((((dst_val as i32) >> (src_val & 31)) as u32) as u64),
        opcodes::XOR => AluResult::Value((dst_val ^ src_val) as u64),
        opcodes::MOV => AluResult::Value(src_val as u64),
        opcodes::NEG if neg => {
            let x = dst_val as i32;
            if x == i32::MIN {
                return AluResult::Overflow;
            }
            let n = -x;
            proof {
                lemma_unsigned_casts(0, n);
            }
            AluResult::Value((n as u32) as u64)
        },
        _ => AluResult::Invalid,
    }
}

/// The condition of a 64-bit conditional jump.
fn compare64(op: u8, dst_val: u64, src_val: u64) -> (c: Option<bool>)
    ensures
        c == cond64(op, dst_val, src_val),
{
    proof {
        lemma_signed_casts(dst_val, 0);
        lemma_signed_casts(src_val, 0);
    }
    match op {
        opcodes::JEQ => Some(dst_val == src_val),
        opcodes::JNE => Some(dst_val != src_val),
        opcodes::JGT => Some(dst_val > src_val),
        opcodes::JGE => Some(dst_val >= src_val),
        opcodes::JLT => Some(dst_val < src_val),
        opcodes::JLE => Some(dst_val <= src_val),
        opcodes::JSGT => Some((dst_val as i64) > (src_val as i64)),
        opcodes::JSGE => Some((dst_val as i64) >= (src_val as i64)),
        opcodes::JSLT => Some((dst_val as i64) < (src_val as i64)),
        opcodes::JSLE => Some((dst_val as i64) <= (src_val as i64)),
        opcodes::JSET => Some((dst_val & src_val) != 0),
        _ => None,
    }
}

/// The condition of a 32-bit conditional jump.
fn compare32(op: u8, dst_val: u32, src_val: u32) -> (c: Option<bool>)
    ensures
        c == cond32(op, dst_val, src_val),
{
    proof {
        lemma_signed_casts(0, dst_val);
        lemma_signed_casts(0, src_val);
    }
    match op {
        opcodes::JEQ => Some(dst_val == src_val),
        opcodes::JNE => Some(dst_val != src_val),
        opcodes::JGT => Some(dst_val > src_val),
        opcodes::JGE => Some(dst_val >= src_val),
        opcodes::JLT => Some(dst_val < src_val),
        opcodes::JLE => Some(dst_val <= src_val),
        opcodes::JSGT => Some((dst_val as i32) > (src_val as i32)),
        opcodes::JSGE => Some((dst_val as i32) >= (src_val as i32)),
        opcodes::JSLT => Some((dst_val as i32) < (src_val as i32)),
        opcodes::JSLE => Some((dst_val as i32) <= (src_val as i32)),
        opcodes::JSET => Some((dst_val & src_val) != 0),
        _ => None,
    }
}

/// The little-endian value of the `n` bytes of `mem` at `addr`.
fn read_le(mem: &Vec<u8>, addr: usize, n: usize) -> (v: u64)
    requires
        n <= 8,
        addr + n <= mem.len(),
    ensures
        v == le_value(mem@.subrange(addr as int, addr + n)),
{
    let mut v: u64 = 0;
    let mut i: usize = n;
    proof {
        vstd::arithmetic::power::lemma_pow_increases(256, 8, 8);
    }
    while i > 0
        invariant
            i <= n <= 8,
            addr + n <= mem.len(),
            v == le_value(mem@.subrange(addr + i, addr + n)),
        decreases i,
    {
        let ghost tail = mem@.subrange(addr + i, addr + n);
        let ghost longer = mem@.subrange(addr + i - 1, addr + n);
        assert(longer.drop_first() =~= tail);
        proof {
            lemma_bytes_of_value(tail);
            vstd::arithmetic::power::lemma_pow_increases(256, tail.len(), 7);
            super::little_endian::lemma_byte_powers();
            assert(vstd::arithmetic::power::pow(256, 7) == 0x100_0000_0000_0000) by {
                reveal_with_fuel(vstd::arithmetic::power::pow, 8);
            }
        }
        v = v * 256 + mem[addr + i - 1] as u64;
        i = i - 1;
    }
    v
}

/// Writes the lowest `n` bytes of `value` little-endian into `mem` at `addr`.
fn write_le(mem: &mut Vec<u8>, addr: usize, n: usize, value: u64)
    requires
        n <= 8,
        addr + n <= old(mem).len(),
    ensures
        final(mem)@ == old(mem)@.subrange(0, addr as int) + le_bytes(value as nat, n as nat)
            + old(mem)@.subrange(addr + n, old(mem)@.len() as int),
{
    let mut v: u64 = value;
    let mut i: usize = 0;
    let ghost orig = mem@;
    proof {
        lemma_value_of_bytes(value as nat, n as nat);
        vstd::arithmetic::power::lemma_pow0(256);
    }
    while i < n
        invariant
            i <= n <= 8,
            addr + n <= orig.len(),
            addr + n <= mem.len(),
            mem@.len() == orig.len(),
            v as int == value as int / vstd::arithmetic::power::pow(256, i as nat),
            vstd::arithmetic::power::pow(256, i as nat) > 0,
            le_bytes(value as nat, n as nat).len() == n,
            forall|j: int| 0 <= j < addr || addr + n <= j < orig.len() ==> mem@[j] == orig[j],
            forall|j: int| 0 <= j < i ==> mem@[addr + j] == le_bytes(value as nat, n as nat)[j],
        decreases n - i,
    {
        proof {
            lemma_le_bytes_index(value as nat, n as nat, i as nat);
            vstd::arithmetic::power::lemma_pow_positive(256, (i + 1) as nat);
            vstd::arithmetic::div_mod::lemma_div_denominator(value as int, vstd::arithmetic::power::pow(256, i as nat), 256);
            vstd::arithmetic::power::lemma_pow_adds(256, i as nat, 1);
            vstd::arithmetic::power::lemma_pow1(256);
        }
        mem.set(addr + i, (v % 256) as u8);
        v = v / 256;
        i = i + 1;
    }
    assert(mem@ =~= orig.subrange(0, addr as int) + le_bytes(value as nat, n as nat) + orig.subrange(addr + n, orig.len() as int));
}

/// Byte `i` of the lowest `n` bytes of `v` is `(v / 256^i) % 256`.
proof fn lemma_le_bytes_index(v: nat, n: nat, i: nat)
    requires
        i < n,
    ensures
        le_bytes(v, n)[i as int] == ((v as int / vstd::arithmetic::power::pow(256, i)) % 256) as u8,
    decreases i,
{
    vstd::arithmetic::power::lemma_pow_positive(256, i);
    let s = le_bytes(v, n);
    assert(s == seq![(v % 256) as u8] + le_bytes(v / 256, (n - 1) as nat));
    if i == 0 {
        vstd::arithmetic::power::lemma_pow0(256);
    } else {
        super::little_endian::lemma_value_of_bytes(v / 256, (n - 1) as nat);
        assert(s[i as int] == le_bytes(v / 256, (n - 1) as nat)[i - 1]);
        lemma_le_bytes_index(v / 256, (n - 1) as nat, (i - 1) as nat);
        vstd::arithmetic::power::lemma_pow_positive(256, (i - 1) as nat);
        vstd::arithmetic::div_mod::lemma_div_denominator(v as int, 256, vstd::arithmetic::power::pow(256, (i - 1) as nat));
        vstd::arithmetic::power::lemma_pow_adds(256, 1, (i - 1) as nat);
        vstd::arithmetic::power::lemma_pow1(256);
    }
}

} // verus!
